//! DiRT Rally 2.0 and DiRT Showdown: an XML settings file.

use vstd::prelude::*;

use crate::configure::dialogue;
use crate::configure::dialogue::{Contents, Finding, Found, Next};
use crate::configure::style;
use crate::configure::xml;
use crate::text;

verus! {

/// The element that turns telemetry on, and its attributes.
#[derive(Debug)]
pub struct Element {
    /// Where it stands in the file, in characters.
    pub start: usize,
    pub end: usize,
    pub line: String,
    pub enabled: Option<String>,
    pub extradata: Option<String>,
    pub ip: Option<String>,
    pub port: Option<String>,
}

impl Element {
    /// Whether this is the element of a settings file.
    pub open spec fn stands_in(self, raw: Seq<char>) -> bool {
        &&& xml::element_in(raw) == Some((self.start as int, self.end as int))
        &&& self.start <= self.end <= raw.len()
        &&& self.line@ == raw.subrange(self.start as int, self.end as int)
        &&& text::optional_text(self.enabled) == xml::attr_value(self.line@, "enabled"@)
        &&& text::optional_text(self.extradata) == xml::attr_value(self.line@, "extradata"@)
        &&& text::optional_text(self.ip) == xml::attr_value(self.line@, "ip"@)
        &&& text::optional_text(self.port) == xml::attr_value(self.line@, "port"@)
    }
}

/// The element of a settings file, if it has one.
pub fn inspect(raw: &str) -> (r: Option<Element>)
    ensures
        r is Some <==> xml::element_in(raw@) is Some,
        r matches Some(e) ==> e.stands_in(raw@),
{
    let chars: Vec<char> = text::chars_of(raw);
    match xml::find_element_chars(chars.as_slice()) {
        Some((start, end)) => {
            let line: String = text::string_of(&chars.as_slice()[start..end]);
            let enabled: Option<String> = xml::parse_xml_attr(line.as_str(), "enabled");
            let extradata: Option<String> = xml::parse_xml_attr(line.as_str(), "extradata");
            let ip: Option<String> = xml::parse_xml_attr(line.as_str(), "ip");
            let port: Option<String> = xml::parse_xml_attr(line.as_str(), "port");
            Some(Element { start, end, line, enabled, extradata, ip, port })
        },
        None => None,
    }
}

/// The attributes that need another value: telemetry must be on, with all
/// fields, and go to an address. Some games come with the name of a motion
/// platform in place of an address.
pub open spec fn wanted(
    enabled: Option<Seq<char>>,
    extradata: Option<Seq<char>>,
    ip_is_real: bool,
) -> Seq<(&'static str, &'static str)> {
    let none = Seq::<(&'static str, &'static str)>::empty();
    (if enabled == Some("true"@) {
        none
    } else {
        none.push(("enabled", "true"))
    }) + (if extradata == Some("3"@) {
        none
    } else {
        none.push(("extradata", "3"))
    }) + (if ip_is_real {
        none
    } else {
        none.push(("ip", "127.0.0.1"))
    })
}

/// Whether an optional string is there and equals a text.
fn is_text(s: &Option<String>, t: &str) -> (r: bool)
    ensures
        r <==> text::optional_text(*s) == Some(t@),
{
    match s {
        Some(s) => {
            let owned: String = t.to_owned();
            *s == owned
        },
        None => false,
    }
}

/// The attributes that need another value, given whether the `ip` attribute
/// holds an address. None where telemetry is on already.
pub fn updates(element: &Element, ip_is_real: bool) -> (r: Vec<(&'static str, &'static str)>)
    ensures
        r@ == wanted(
            text::optional_text(element.enabled),
            text::optional_text(element.extradata),
            ip_is_real,
        ),
{
    let mut r: Vec<(&'static str, &'static str)> = Vec::new();
    if !is_text(&element.enabled, "true") {
        r.push(("enabled", "true"));
    }
    if !is_text(&element.extradata, "3") {
        r.push(("extradata", "3"));
    }
    if !ip_is_real {
        r.push(("ip", "127.0.0.1"));
    }
    assert(r@ == wanted(
        text::optional_text(element.enabled),
        text::optional_text(element.extradata),
        ip_is_real,
    ));
    r
}

/// The settings file with another line in place of the element.
pub fn with_line(raw: &str, element: &Element, line: &str) -> (r: String)
    requires
        element.stands_in(raw@),
    ensures
        r@ == raw@.take(element.start as int) + line@ + raw@.skip(element.end as int),
{
    let chars: Vec<char> = text::chars_of(raw);
    let mut r: String = text::string_of(&chars.as_slice()[0..element.start]);
    r.append(line);
    r.append(text::string_of(&chars.as_slice()[element.end..chars.len()]).as_str());
    proof {
        assert(raw@.subrange(0, element.start as int) == raw@.take(element.start as int));
        assert(raw@.subrange(element.end as int, raw@.len() as int) == raw@.skip(
            element.end as int,
        ));
    }
    r
}

/// A description of settings.
pub open spec fn current_text(
    enabled: Option<Seq<char>>,
    extradata: Option<Seq<char>>,
    ip: Option<Seq<char>>,
    port: Option<Seq<char>>,
) -> Seq<char> {
    "enabled="@ + text::or_unknown(enabled) + ", extradata="@ + text::or_unknown(extradata)
        + ", ip="@ + text::or_unknown(ip) + ", port="@ + text::or_unknown(port)
}

/// A description of the current settings.
pub fn current_settings(element: &Element) -> (r: String)
    ensures
        r@ == current_text(
            text::optional_text(element.enabled),
            text::optional_text(element.extradata),
            text::optional_text(element.ip),
            text::optional_text(element.port),
        ),
{
    let mut r: String = "enabled=".to_owned();
    text::push_or_unknown(&mut r, &element.enabled);
    r.append(", extradata=");
    text::push_or_unknown(&mut r, &element.extradata);
    r.append(", ip=");
    text::push_or_unknown(&mut r, &element.ip);
    r.append(", port=");
    text::push_or_unknown(&mut r, &element.port);
    r
}

/// Whether this is what is to be shown and done about a file: nothing without an
/// element and nothing where telemetry is on, else the offer to turn it on in that
/// element.
pub open spec fn finding_for(
    enabled: bool,
    name: Seq<char>,
    path: Seq<char>,
    raw: Seq<char>,
    ip_is_real: bool,
    r: Finding,
) -> bool {
    match xml::element_in(raw) {
        None => {
            &&& r.next is Nothing
            &&& r.says@ == dialogue::heading(enabled, name)
                + "  No <udp .../> or <motion .../> element found in the config. Leaving alone.\n\n"@
        },
        Some((start, end)) => {
            let line = raw.subrange(start, end);
            let shown = dialogue::shown(
                enabled,
                name,
                path,
                current_text(
                    xml::attr_value(line, "enabled"@),
                    xml::attr_value(line, "extradata"@),
                    xml::attr_value(line, "ip"@),
                    xml::attr_value(line, "port"@),
                ),
            );
            let changes = wanted(
                xml::attr_value(line, "enabled"@),
                xml::attr_value(line, "extradata"@),
                ip_is_real,
            );
            let changed = xml::with_attrs(line, changes);
            if changes.len() == 0 {
                &&& r.next is Nothing
                &&& r.says@ == shown + "  "@ + style::ok_mark(enabled)
                    + " telemetry already enabled with extradata=3 — no changes needed.\n\n"@
            } else {
                &&& r.says@ == shown + "  proposed:\n    -"@ + line + "\n    +"@ + changed + "\n"@
                &&& r.next matches Next::Ask(offer) && offer.says(
                    true,
                    dialogue::skipped(),
                    dialogue::written(enabled),
                    None,
                ) && offer.contents.are(
                    true,
                    Ok(vstd::utf8::encode_utf8(file_with(raw, changes))),
                )
            }
        },
    }
}

/// What to show and do about a game of the given name, given what was found where
/// it keeps its settings. `ip_is_real` tells whether the value of the `ip`
/// attribute of the element there, which is [`Element::ip`] of what [`inspect`]
/// finds in the file, reads as an IPv4 or IPv6 address. It is false where there is
/// no such attribute, and counts for nothing where there is no element.
pub fn handle_dr2_style(
    enabled: bool,
    name: &str,
    found: Found<String>,
    ip_is_real: bool,
) -> (r: Finding)
    ensures
        match found {
            Found::NeverLaunched => r.next is Nothing && r.says@ == dialogue::heading(
                enabled,
                name@,
            ) + dialogue::never_launched(),
            Found::Missing(path) => r.next is Nothing && r.says@ == dialogue::heading(
                enabled,
                name@,
            ) + "  Couldn't find "@ + path@ + ".\n\n"@,
            Found::Unreadable(error) => r.next == Next::Fault(error) && r.says@
                == dialogue::heading(enabled, name@),
            Found::File(path, raw) => finding_for(enabled, name@, path@, raw@, ip_is_real, r),
        },
        found matches Found::File(_, raw) ==> does_what_it_should(raw@, ip_is_real, r),
        !(found is File) ==> !(r.next is Ask),
{
    match found {
        Found::NeverLaunched => {
            let mut says: String = dialogue::heading_text(enabled, name);
            says.append(
                "  Installed but never launched — start the game once so it generates its config, then re-run.\n\n",
            );
            Finding { says, next: Next::Nothing }
        },
        Found::Missing(path) => {
            let mut says: String = dialogue::heading_text(enabled, name);
            says.append("  Couldn't find ");
            says.append(path.as_str());
            says.append(".\n\n");
            Finding { says, next: Next::Nothing }
        },
        Found::Unreadable(error) => dialogue::fault(enabled, name, error),
        Found::File(path, raw) => offer_telemetry(
            enabled,
            name,
            path.as_str(),
            raw.as_str(),
            ip_is_real,
        ),
    }
}

fn offer_telemetry(
    enabled: bool,
    name: &str,
    path: &str,
    raw: &str,
    ip_is_real: bool,
) -> (r: Finding)
    ensures
        finding_for(enabled, name@, path@, raw@, ip_is_real, r),
        does_what_it_should(raw@, ip_is_real, r),
{
    let r: Finding = find_telemetry(enabled, name, path, raw, ip_is_real);
    proof {
        lemma_finding_does_what_it_should(enabled, name@, path@, raw@, ip_is_real, r);
    }
    r
}

fn find_telemetry(
    enabled: bool,
    name: &str,
    path: &str,
    raw: &str,
    ip_is_real: bool,
) -> (r: Finding)
    ensures
        finding_for(enabled, name@, path@, raw@, ip_is_real, r),
{
    let element: Element = match inspect(raw) {
        Some(element) => element,
        None => {
            let mut says: String = dialogue::heading_text(enabled, name);
            says.append(
                "  No <udp .../> or <motion .../> element found in the config. Leaving alone.\n\n",
            );
            return Finding { says, next: Next::Nothing };
        },
    };
    let current: String = current_settings(&element);
    let mut says: String = dialogue::shown_text(enabled, name, path, current.as_str());
    let changes: Vec<(&'static str, &'static str)> = updates(&element, ip_is_real);
    if changes.len() == 0 {
        says.append("  ");
        says.append(style::ok(enabled));
        says.append(" telemetry already enabled with extradata=3 — no changes needed.\n\n");
        return Finding { says, next: Next::Nothing };
    }
    let changed: String = xml::rewrite_xml_attrs(element.line.as_str(), changes.as_slice());
    says.append("  proposed:\n    -");
    says.append(element.line.as_str());
    says.append("\n    +");
    says.append(changed.as_str());
    says.append("\n");
    let contents: Contents = Contents::Bytes(
        text::bytes_of(with_line(raw, &element, changed.as_str()).as_str()),
    );
    Finding { says, next: Next::Ask(dialogue::plain_offer(enabled, contents, true)) }
}

proof fn lemma_apart_either_way(element: Seq<char>, one: Seq<char>, other: Seq<char>)
    ensures
        xml::apart(element, one, other) == xml::apart(element, other, one),
{
}

/// One more update changes one more attribute.
proof fn lemma_one_more(
    element: Seq<char>,
    before: Seq<(&'static str, &'static str)>,
    update: (&'static str, &'static str),
)
    ensures
        xml::with_attrs(
            element,
            before + Seq::<(&'static str, &'static str)>::empty().push(update),
        ) == xml::with_attr(xml::with_attrs(element, before), update.0@, update.1@),
{
    let all = before + Seq::<(&'static str, &'static str)>::empty().push(update);
    assert(all.drop_last() == before);
}

/// Whether a value holds no character that means something in an element.
spec fn is_plain(value: Seq<char>) -> bool {
    !value.contains('"') && !value.contains('=') && !value.contains('/') && !value.contains('<')
}

/// The names at hand hold no quotation mark, and the values are plain.
proof fn lemma_plain_words()
    ensures
        !"enabled"@.contains('"'),
        !"extradata"@.contains('"'),
        !"ip"@.contains('"'),
        is_plain("true"@),
        is_plain("3"@),
        is_plain("127.0.0.1"@),
{
    reveal_strlit("enabled");
    reveal_strlit("extradata");
    reveal_strlit("ip");
    reveal_strlit("true");
    reveal_strlit("3");
    reveal_strlit("127.0.0.1");
    assert("enabled"@ == seq!['e', 'n', 'a', 'b', 'l', 'e', 'd']);
    assert("extradata"@ == seq!['e', 'x', 't', 'r', 'a', 'd', 'a', 't', 'a']);
    assert("ip"@ == seq!['i', 'p']);
    assert("true"@ == seq!['t', 'r', 'u', 'e']);
    assert("3"@ == seq!['3']);
    assert("127.0.0.1"@ == seq!['1', '2', '7', '.', '0', '.', '0', '.', '1']);
}

/// Telemetry is on after the change: in an element whose three attributes stand
/// one before the other, they then say that it is enabled with all fields, and
/// the address is the one it was or this machine's.
pub proof fn lemma_changed_element_is_enabled(element: Seq<char>, ip_is_real: bool)
    requires
        xml::apart(element, "enabled"@, "extradata"@),
        xml::apart(element, "enabled"@, "ip"@),
        xml::apart(element, "extradata"@, "ip"@),
    ensures
        ({
            let changed = xml::with_attrs(
                element,
                wanted(
                    xml::attr_value(element, "enabled"@),
                    xml::attr_value(element, "extradata"@),
                    ip_is_real,
                ),
            );
            &&& xml::attr_value(changed, "enabled"@) == Some("true"@)
            &&& xml::attr_value(changed, "extradata"@) == Some("3"@)
            &&& xml::attr_value(changed, "ip"@) == if ip_is_real {
                xml::attr_value(element, "ip"@)
            } else {
                Some("127.0.0.1"@)
            }
        }),
{
    lemma_plain_words();
    let none = Seq::<(&'static str, &'static str)>::empty();
    let on = xml::attr_value(element, "enabled"@) == Some("true"@);
    let full = xml::attr_value(element, "extradata"@) == Some("3"@);
    let a = if on {
        none
    } else {
        none.push(("enabled", "true"))
    };
    let b = if full {
        none
    } else {
        none.push(("extradata", "3"))
    };
    let c = if ip_is_real {
        none
    } else {
        none.push(("ip", "127.0.0.1"))
    };
    let e1 = xml::with_attrs(element, a);
    let e2 = xml::with_attrs(element, a + b);
    let e3 = xml::with_attrs(element, a + b + c);
    if on {
        assert(e1 == element);
    } else {
        lemma_one_more(element, none, ("enabled", "true"));
        assert(none + none.push(("enabled", "true")) == a);
        xml::lemma_value_is_read_back(element, "enabled"@, "true"@);
        xml::lemma_other_values_are_kept(element, "enabled"@, "true"@, "extradata"@);
        xml::lemma_other_values_are_kept(element, "enabled"@, "true"@, "ip"@);
        xml::lemma_others_stay_apart(element, "enabled"@, "true"@, "extradata"@, "ip"@);
    }
    lemma_apart_either_way(e1, "enabled"@, "extradata"@);
    if full {
        assert(a + b == a);
    } else {
        lemma_one_more(element, a, ("extradata", "3"));
        xml::lemma_value_is_read_back(e1, "extradata"@, "3"@);
        xml::lemma_other_values_are_kept(e1, "extradata"@, "3"@, "enabled"@);
        xml::lemma_other_values_are_kept(e1, "extradata"@, "3"@, "ip"@);
        xml::lemma_others_stay_apart(e1, "extradata"@, "3"@, "enabled"@, "ip"@);
    }
    lemma_apart_either_way(e2, "enabled"@, "ip"@);
    lemma_apart_either_way(e2, "extradata"@, "ip"@);
    if ip_is_real {
        assert(a + b + c == a + b);
    } else {
        lemma_one_more(element, a + b, ("ip", "127.0.0.1"));
        xml::lemma_value_is_read_back(e2, "ip"@, "127.0.0.1"@);
        xml::lemma_other_values_are_kept(e2, "ip"@, "127.0.0.1"@, "enabled"@);
        xml::lemma_other_values_are_kept(e2, "ip"@, "127.0.0.1"@, "extradata"@);
    }
}

/// The settings file with some attributes of its element changed.
pub open spec fn file_with(raw: Seq<char>, changes: Seq<(&'static str, &'static str)>) -> Seq<char> {
    let (start, end) = xml::element_in(raw)->0;
    raw.take(start) + xml::with_attrs(raw.subrange(start, end), changes) + raw.skip(end)
}

/// Whether changes can be made one after the other without hiding the element.
spec fn harmless(changes: Seq<(&'static str, &'static str)>) -> bool {
    forall|i: int|
        0 <= i < changes.len() ==> {
            let value = (#[trigger] changes[i]).1@;
            !value.contains('"') && !value.contains('/') && !value.contains('<')
        }
}

/// The element of a settings file is still its element after changes.
proof fn lemma_element_stays(raw: Seq<char>, changes: Seq<(&'static str, &'static str)>)
    requires
        xml::element_in(raw) is Some,
        harmless(changes),
    ensures
        ({
            let (start, end) = xml::element_in(raw)->0;
            let changed = xml::with_attrs(raw.subrange(start, end), changes);
            let after = file_with(raw, changes);
            &&& xml::element_in(after) == Some((start, start + changed.len()))
            &&& after.subrange(start, start + changed.len()) == changed
            &&& after.take(start) == raw.take(start)
            &&& after.skip(start + changed.len()) == raw.skip(end)
        }),
    decreases changes.len(),
{
    let (start, end) = xml::element_in(raw)->0;
    let line = raw.subrange(start, end);
    if changes.len() == 0 {
        text::lemma_find_from(raw, "<udp "@, 0);
        text::lemma_find_from(raw, "<motion "@, 0);
        text::lemma_find_from(raw, "/>"@, start);
        reveal_strlit("/>");
        assert(file_with(raw, changes) =~= raw);
    } else {
        let before = changes.drop_last();
        assert(harmless(before)) by {
            assert forall|i: int| 0 <= i < before.len() implies {
                let value = (#[trigger] before[i]).1@;
                !value.contains('"') && !value.contains('/') && !value.contains('<')
            } by {
                assert(before[i] == changes[i]);
            }
        }
        lemma_element_stays(raw, before);
        let last = changes.last();
        assert(changes[changes.len() - 1] == last);
        xml::lemma_element_stays(file_with(raw, before), last.0@, last.1@);
    }
}

/// The change lasts: in the file that is written, the element that was changed
/// is the one that is found, it is enabled with all fields and has an address,
/// so that there is nothing left to change. This is so where the three
/// attributes of the element stand one before the other.
pub proof fn lemma_nothing_left_to_change(raw: Seq<char>, ip_is_real: bool)
    requires
        xml::element_in(raw) is Some,
        ({
            let (start, end) = xml::element_in(raw)->0;
            let line = raw.subrange(start, end);
            &&& xml::apart(line, "enabled"@, "extradata"@)
            &&& xml::apart(line, "enabled"@, "ip"@)
            &&& xml::apart(line, "extradata"@, "ip"@)
        }),
    ensures
        ({
            let (start, end) = xml::element_in(raw)->0;
            let line = raw.subrange(start, end);
            let after = file_with(
                raw,
                wanted(
                    xml::attr_value(line, "enabled"@),
                    xml::attr_value(line, "extradata"@),
                    ip_is_real,
                ),
            );
            &&& xml::element_in(after) is Some
            &&& {
                let (from, to) = xml::element_in(after)->0;
                let found = after.subrange(from, to);
                &&& wanted(
                    xml::attr_value(found, "enabled"@),
                    xml::attr_value(found, "extradata"@),
                    true,
                ).len() == 0
                &&& xml::attr_value(found, "ip"@) == if ip_is_real {
                    xml::attr_value(line, "ip"@)
                } else {
                    Some("127.0.0.1"@)
                }
            }
        }),
{
    let (start, end) = xml::element_in(raw)->0;
    let line = raw.subrange(start, end);
    let changes = wanted(
        xml::attr_value(line, "enabled"@),
        xml::attr_value(line, "extradata"@),
        ip_is_real,
    );
    lemma_plain_words();
    lemma_changed_element_is_enabled(line, ip_is_real);
    assert(harmless(changes));
    lemma_element_stays(raw, changes);
}

/// Whether a settings file has an element that says that telemetry is enabled with
/// all fields and has this address.
pub open spec fn sends_to(raw: Seq<char>, ip: Option<Seq<char>>) -> bool {
    &&& xml::element_in(raw) is Some
    &&& {
        let (start, end) = xml::element_in(raw)->0;
        let line = raw.subrange(start, end);
        &&& xml::attr_value(line, "enabled"@) == Some("true"@)
        &&& xml::attr_value(line, "extradata"@) == Some("3"@)
        &&& xml::attr_value(line, "ip"@) == ip
    }
}

/// Whether some bytes are those of a settings file that sends to this address.
pub open spec fn bytes_send_to(b: Seq<u8>, ip: Option<Seq<char>>) -> bool {
    exists|after: Seq<char>| #[trigger] vstd::utf8::encode_utf8(after) == b && sends_to(after, ip)
}

/// Whether a finding does what a settings file calls for. Without an element there
/// is nothing to do. With one, nothing is to be done exactly where it says that
/// telemetry is enabled with all fields and has an address. Else there is an offer;
/// and where the three attributes of the element stand one before the other, the
/// file that it writes sends to the address that was there, or to this machine if
/// that was none.
pub open spec fn does_what_it_should(raw: Seq<char>, ip_is_real: bool, r: Finding) -> bool {
    match xml::element_in(raw) {
        None => r.next is Nothing,
        Some((start, end)) => {
            let line = raw.subrange(start, end);
            let ip = xml::attr_value(line, "ip"@);
            &&& r.next is Nothing <==> sends_to(raw, ip) && ip_is_real
            &&& !(r.next is Nothing) ==> r.next is Ask && r.next->Ask_0.contents is Bytes
                && r.next->Ask_0.backs_up
            &&& r.next is Ask && xml::apart(line, "enabled"@, "extradata"@) && xml::apart(
                line,
                "enabled"@,
                "ip"@,
            ) && xml::apart(line, "extradata"@, "ip"@) ==> bytes_send_to(
                r.next->Ask_0.contents->Bytes_0@,
                if ip_is_real {
                    ip
                } else {
                    Some("127.0.0.1"@)
                },
            )
        },
    }
}

/// What is found about a file is what the file calls for.
pub proof fn lemma_finding_does_what_it_should(
    enabled: bool,
    name: Seq<char>,
    path: Seq<char>,
    raw: Seq<char>,
    ip_is_real: bool,
    r: Finding,
)
    requires
        finding_for(enabled, name, path, raw, ip_is_real, r),
    ensures
        does_what_it_should(raw, ip_is_real, r),
{
    if let Some((start, end)) = xml::element_in(raw) {
        let line = raw.subrange(start, end);
        let changes = wanted(
            xml::attr_value(line, "enabled"@),
            xml::attr_value(line, "extradata"@),
            ip_is_real,
        );
        let after = file_with(raw, changes);
        if xml::apart(line, "enabled"@, "extradata"@) && xml::apart(line, "enabled"@, "ip"@)
            && xml::apart(line, "extradata"@, "ip"@) {
            lemma_nothing_left_to_change(raw, ip_is_real);
            let ip = if ip_is_real {
                xml::attr_value(line, "ip"@)
            } else {
                Some("127.0.0.1"@)
            };
            assert(sends_to(after, ip));
            assert(bytes_send_to(vstd::utf8::encode_utf8(after), ip));
        }
    }
}

} // verus!
