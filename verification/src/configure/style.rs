//! Marks and colours of the report. Colours come as terminal control sequences
//! and are left out where they are not wanted.

use vstd::prelude::*;

verus! {

/// A heading.
pub open spec fn heading(enabled: bool, s: Seq<char>) -> Seq<char> {
    if enabled {
        "\x1b[1;36m"@ + s + "\x1b[0m"@
    } else {
        s
    }
}

/// The mark of what is well.
pub open spec fn ok_mark(enabled: bool) -> Seq<char> {
    if enabled {
        "\x1b[32m✓\x1b[0m"@
    } else {
        "✓"@
    }
}

/// The mark of what is not.
pub open spec fn cross_mark(enabled: bool) -> Seq<char> {
    if enabled {
        "\x1b[31m✘\x1b[0m"@
    } else {
        "✘"@
    }
}

/// The mark of what needs attention.
pub open spec fn warn_mark(enabled: bool) -> Seq<char> {
    if enabled {
        "\x1b[33m⚠\x1b[0m"@
    } else {
        "⚠"@
    }
}

/// A heading.
pub fn title(enabled: bool, s: &str) -> (r: String)
    ensures
        r@ == heading(enabled, s@),
{
    if enabled {
        let mut r: String = "\x1b[1;36m".to_owned();
        r.append(s);
        r.append("\x1b[0m");
        r
    } else {
        s.to_owned()
    }
}

/// The mark of what is well.
pub fn ok(enabled: bool) -> (r: &'static str)
    ensures
        r@ == ok_mark(enabled),
{
    if enabled {
        "\x1b[32m✓\x1b[0m"
    } else {
        "✓"
    }
}

/// The mark of what is not.
pub fn cross(enabled: bool) -> (r: &'static str)
    ensures
        r@ == cross_mark(enabled),
{
    if enabled {
        "\x1b[31m✘\x1b[0m"
    } else {
        "✘"
    }
}

/// The mark of what needs attention.
pub fn warn(enabled: bool) -> (r: &'static str)
    ensures
        r@ == warn_mark(enabled),
{
    if enabled {
        "\x1b[33m⚠\x1b[0m"
    } else {
        "⚠"
    }
}

} // verus!
