//! The one element of an XML settings file that turns telemetry on: finding it,
//! reading its attributes and replacing their values.

use std::ops::Range;

use vstd::prelude::*;

use crate::text;

verus! {

/// Where the first element that starts with `opening` stands: from there to the
/// first `/>` behind.
pub open spec fn element_from(xml: Seq<char>, opening: Seq<char>) -> Option<(int, int)> {
    match text::find_from(xml, opening, 0) {
        Some(start) => match text::find_from(xml, "/>"@, start) {
            Some(end) => Some((start, end + 2)),
            None => None,
        },
        None => None,
    }
}

/// Where the element stands that turns telemetry on. Newer games call it `udp`,
/// older ones `motion`.
pub open spec fn element_in(xml: Seq<char>) -> Option<(int, int)> {
    match element_from(xml, "<udp "@) {
        Some(range) => Some(range),
        None => element_from(xml, "<motion "@),
    }
}

/// What stands before the value of an attribute.
pub open spec fn attr_opening(attr: Seq<char>) -> Seq<char> {
    attr + "=\""@
}

/// Where the value of an attribute stands in an element.
pub open spec fn attr_range(element: Seq<char>, attr: Seq<char>) -> Option<(int, int)> {
    match text::find_from(element, attr_opening(attr), 0) {
        Some(i) => {
            let start = i + attr_opening(attr).len();
            match text::find_from(element, "\""@, start) {
                Some(end) => Some((start, end)),
                None => None,
            }
        },
        None => None,
    }
}

/// The value of an attribute.
pub open spec fn attr_value(element: Seq<char>, attr: Seq<char>) -> Option<Seq<char>> {
    match attr_range(element, attr) {
        Some((start, end)) => Some(element.subrange(start, end)),
        None => None,
    }
}

/// The element with another value for an attribute, if it has that attribute.
pub open spec fn with_attr(element: Seq<char>, attr: Seq<char>, value: Seq<char>) -> Seq<char> {
    match attr_range(element, attr) {
        Some((start, end)) => element.take(start) + value + element.skip(end),
        None => element,
    }
}

/// The element with other values for some attributes, one after the other.
pub open spec fn with_attrs(element: Seq<char>, updates: Seq<(&str, &str)>) -> Seq<char>
    decreases updates.len(),
{
    if updates.len() == 0 {
        element
    } else {
        with_attr(
            with_attrs(element, updates.drop_last()),
            updates.last().0@,
            updates.last().1@,
        )
    }
}

/// How many bytes the first `i` characters take in UTF-8.
pub open spec fn byte_offset(s: Seq<char>, i: int) -> nat {
    vstd::utf8::encode_utf8(s.take(i)).len()
}

fn find_element(xml: &[char], opening: &str) -> (r: Option<(usize, usize)>)
    ensures
        r matches Some((i, j)) ==> element_from(xml@, opening@) == Some((i as int, j as int))
            && i <= j <= xml.len(),
        r is None ==> element_from(xml@, opening@) is None,
{
    let opening: Vec<char> = text::chars_of(opening);
    let closing: Vec<char> = text::chars_of("/>");
    proof {
        reveal_strlit("/>");
    }
    match text::find(xml, opening.as_slice(), 0) {
        Some(start) => match text::find(xml, closing.as_slice(), start) {
            Some(end) => Some((start, end + 2)),
            None => None,
        },
        None => None,
    }
}

/// Where the element stands that turns telemetry on, in characters.
pub fn find_element_chars(xml: &[char]) -> (r: Option<(usize, usize)>)
    ensures
        r matches Some((i, j)) ==> element_in(xml@) == Some((i as int, j as int)) && i <= j
            <= xml.len(),
        r is None ==> element_in(xml@) is None,
{
    match find_element(xml, "<udp ") {
        Some(range) => Some(range),
        None => find_element(xml, "<motion "),
    }
}

proof fn lemma_encode_push(s: Seq<char>, c: char)
    ensures
        vstd::utf8::encode_utf8(s.push(c)) == vstd::utf8::encode_utf8(s) + vstd::utf8::encode_scalar(
            c as u32,
        ),
    decreases s.len(),
{
    let e = s.push(c);
    if s.len() == 0 {
        assert(e.drop_first() == Seq::<char>::empty());
        assert(vstd::utf8::encode_utf8(Seq::<char>::empty()) == Seq::<u8>::empty());
        assert(vstd::utf8::encode_utf8(e) == vstd::utf8::encode_scalar(c as u32)
            + Seq::<u8>::empty());
        assert(s == Seq::<char>::empty());
    } else {
        assert(e.drop_first() == s.drop_first().push(c));
        lemma_encode_push(s.drop_first(), c);
        let a = vstd::utf8::encode_scalar(s[0] as u32);
        let b = vstd::utf8::encode_utf8(s.drop_first());
        let d = vstd::utf8::encode_scalar(c as u32);
        assert(a + (b + d) == (a + b) + d);
    }
}

/// A longer beginning takes no fewer bytes.
proof fn lemma_byte_offset_monotone(s: Seq<char>, i: int, j: int)
    requires
        0 <= i <= j <= s.len(),
    ensures
        byte_offset(s, i) <= byte_offset(s, j),
    decreases j - i,
{
    if i < j {
        lemma_byte_offset_monotone(s, i, j - 1);
        assert(s.take(j) == s.take(j - 1).push(s[j - 1]));
        lemma_encode_push(s.take(j - 1), s[j - 1]);
    }
}

/// How many bytes a character takes.
fn char_bytes(c: char) -> (r: usize)
    ensures
        r == vstd::utf8::encode_scalar(c as u32).len(),
{
    let n: u32 = c as u32;
    proof {
        vstd::utf8::char_is_scalar(c);
    }
    if n < 0x80 {
        1
    } else if n < 0x800 {
        2
    } else if n < 0x1_0000 {
        3
    } else {
        4
    }
}

fn offset_of(chars: &[char], i: usize, limit: usize) -> (r: usize)
    requires
        i <= chars.len(),
        byte_offset(chars@, chars@.len() as int) <= limit,
    ensures
        r == byte_offset(chars@, i as int),
{
    let mut n: usize = 0;
    let mut k: usize = 0;
    proof {
        assert(chars@.take(0) == Seq::<char>::empty());
    }
    while k < i
        invariant
            k <= i <= chars.len(),
            n == byte_offset(chars@, k as int),
            byte_offset(chars@, chars@.len() as int) <= limit,
        decreases i - k,
    {
        proof {
            assert(chars@.take(k + 1) == chars@.take(k as int).push(chars@[k as int]));
            lemma_encode_push(chars@.take(k as int), chars@[k as int]);
            lemma_byte_offset_monotone(chars@, k + 1, chars@.len() as int);
        }
        n = n + char_bytes(chars[k]);
        k = k + 1;
    }
    n
}

/// Where the element stands that turns telemetry on, in bytes.
pub fn find_motion_or_udp_element(xml: &str) -> (r: Option<Range<usize>>)
    ensures
        r is Some <==> element_in(xml@) is Some,
        r matches Some(range) ==> {
            let (i, j) = element_in(xml@)->0;
            range.start == byte_offset(xml@, i) && range.end == byte_offset(xml@, j)
        },
{
    let chars: Vec<char> = text::chars_of(xml);
    let limit: usize = xml.as_bytes().len();
    proof {
        assert(xml@.take(xml@.len() as int) == xml@);
    }
    match find_element_chars(chars.as_slice()) {
        Some((i, j)) => Some(
            Range {
                start: offset_of(chars.as_slice(), i, limit),
                end: offset_of(chars.as_slice(), j, limit),
            },
        ),
        None => None,
    }
}

/// Where the value of an attribute stands in an element.
fn find_attr(element: &[char], attr: &str) -> (r: Option<(usize, usize)>)
    ensures
        r matches Some((i, j)) ==> attr_range(element@, attr@) == Some((i as int, j as int)) && i
            <= j <= element.len(),
        r is None ==> attr_range(element@, attr@) is None,
{
    let mut opening: Vec<char> = text::chars_of(attr);
    opening.push('=');
    opening.push('"');
    let mut quote: Vec<char> = Vec::new();
    quote.push('"');
    proof {
        reveal_strlit("=\"");
        reveal_strlit("\"");
        assert(opening@ == attr_opening(attr@));
        assert(quote@ == "\""@);
    }
    match text::find(element, opening.as_slice(), 0) {
        Some(i) => {
            let start: usize = i + opening.len();
            match text::find(element, quote.as_slice(), start) {
                Some(end) => Some((start, end)),
                None => None,
            }
        },
        None => None,
    }
}

/// The value of an attribute.
pub fn parse_xml_attr(element: &str, attr: &str) -> (r: Option<String>)
    ensures
        r is Some <==> attr_value(element@, attr@) is Some,
        r matches Some(v) ==> attr_value(element@, attr@) == Some(v@),
{
    let chars: Vec<char> = text::chars_of(element);
    match find_attr(chars.as_slice(), attr) {
        Some((i, j)) => Some(text::string_of(&chars.as_slice()[i..j])),
        None => None,
    }
}

/// The element with other values for some of its attributes; those that it does
/// not have are passed over.
pub fn rewrite_xml_attrs(element: &str, updates: &[(&str, &str)]) -> (r: String)
    ensures
        r@ == with_attrs(element@, updates@),
{
    let mut out: Vec<char> = text::chars_of(element);
    let mut i: usize = 0;
    while i < updates.len()
        invariant
            i <= updates.len(),
            out@ == with_attrs(element@, updates@.take(i as int)),
        decreases updates.len() - i,
    {
        let (key, value) = updates[i];
        proof {
            assert(updates@.take(i + 1).drop_last() == updates@.take(i as int));
        }
        match find_attr(out.as_slice(), key) {
            Some((a, b)) => {
                let value: Vec<char> = text::chars_of(value);
                let mut next: Vec<char> = Vec::new();
                push_all(&mut next, &out.as_slice()[0..a]);
                push_all(&mut next, value.as_slice());
                push_all(&mut next, &out.as_slice()[b..out.len()]);
                proof {
                    assert(out@.subrange(0, a as int) == out@.take(a as int));
                    assert(out@.subrange(b as int, out@.len() as int) == out@.skip(b as int));
                    assert(next@ == out@.take(a as int) + value@ + out@.skip(b as int));
                }
                out = next;
            },
            None => {},
        }
        i = i + 1;
    }
    proof {
        assert(updates@.take(i as int) == updates@);
    }
    text::string_of(out.as_slice())
}

/// Appends some characters.
pub fn push_all(out: &mut Vec<char>, chars: &[char])
    ensures
        final(out)@ == old(out)@ + chars@,
{
    let mut i: usize = 0;
    while i < chars.len()
        invariant
            i <= chars.len(),
            out@ == old(out)@ + chars@.take(i as int),
        decreases chars.len() - i,
    {
        out.push(chars[i]);
        proof {
            assert(chars@.take(i + 1) == chars@.take(i as int).push(chars@[i as int]));
        }
        i = i + 1;
    }
    proof {
        assert(chars@.take(i as int) == chars@);
    }
}

/// What is known of an attribute where its value was found.
proof fn lemma_attr_range(element: Seq<char>, attr: Seq<char>)
    ensures
        attr_opening(attr).len() == attr.len() + 2,
        attr_range(element, attr) matches Some((start, end)) ==> {
            &&& attr.len() + 2 <= start <= end < element.len()
            &&& text::occurs_at(element, attr_opening(attr), start - attr.len() - 2)
            &&& forall|j: int|
                0 <= j < start - attr.len() - 2 ==> !#[trigger] text::occurs_at(
                    element,
                    attr_opening(attr),
                    j,
                )
            &&& element[end] == '"'
            &&& element[start - 1] == '"'
            &&& element[start - 2] == '='
            &&& forall|k: int| start <= k < end ==> element[k] != '"'
        },
{
    reveal_strlit("=\"");
    reveal_strlit("\"");
    let opening = attr_opening(attr);
    text::lemma_find_from(element, opening, 0);
    match text::find_from(element, opening, 0) {
        Some(i) => {
            let start = i + opening.len();
            text::lemma_find_from(element, "\""@, start);
            let part = element.subrange(i, start);
            assert(part[attr.len() as int] == '=' && part[attr.len() as int + 1] == '"');
            match text::find_from(element, "\""@, start) {
                Some(end) => {
                    assert(element.subrange(end, end + 1)[0] == '"');
                    assert forall|k: int| start <= k < end implies element[k] != '"' by {
                        if element[k] == '"' {
                            assert(element.subrange(k, k + 1) == "\""@);
                            assert(text::occurs_at(element, "\""@, k));
                        }
                    }
                },
                None => {},
            }
        },
        None => {},
    }
}

/// The value of an attribute is where its opening first stands, up to the next
/// quotation mark.
proof fn lemma_attr_range_is(element: Seq<char>, attr: Seq<char>, start: int, end: int)
    requires
        attr.len() + 2 <= start <= end < element.len(),
        text::occurs_at(element, attr_opening(attr), start - attr.len() - 2),
        forall|j: int|
            0 <= j < start - attr.len() - 2 ==> !#[trigger] text::occurs_at(
                element,
                attr_opening(attr),
                j,
            ),
        element[end] == '"',
        forall|k: int| start <= k < end ==> element[k] != '"',
    ensures
        attr_range(element, attr) == Some((start, end)),
{
    reveal_strlit("=\"");
    reveal_strlit("\"");
    text::lemma_found(element, attr_opening(attr), 0, start - attr.len() - 2);
    assert(element.subrange(end, end + 1) == "\""@);
    assert forall|j: int| start <= j < end implies !#[trigger] text::occurs_at(
        element,
        "\""@,
        j,
    ) by {
        if text::occurs_at(element, "\""@, j) {
            assert(element.subrange(j, j + 1)[0] == '"');
        }
    }
    text::lemma_found(element, "\""@, start, end);
}

/// What stands in a text stands there in another one that has the same
/// characters there.
proof fn lemma_occurs_elsewhere(a: Seq<char>, i: int, b: Seq<char>, j: int, needle: Seq<char>)
    requires
        text::occurs_at(a, needle, i),
        0 <= j,
        j + needle.len() <= b.len(),
        forall|k: int| 0 <= k < needle.len() ==> #[trigger] a[i + k] == b[j + k],
    ensures
        text::occurs_at(b, needle, j),
{
    assert forall|k: int| 0 <= k < needle.len() implies b.subrange(j, j + needle.len())[k]
        == needle[k] by {
        assert(a.subrange(i, i + needle.len())[k] == needle[k]);
        assert(a[i + k] == b[j + k]);
    }
    assert(b.subrange(j, j + needle.len()) == needle);
}

/// An attribute that was given a value has that value, as long as no quotation
/// mark is in it. The text before and behind is as it was.
pub proof fn lemma_value_is_read_back(element: Seq<char>, attr: Seq<char>, value: Seq<char>)
    requires
        attr_value(element, attr) is Some,
        !value.contains('"'),
    ensures
        attr_value(with_attr(element, attr, value), attr) == Some(value),
        ({
            let (start, end) = attr_range(element, attr)->0;
            let after = with_attr(element, attr, value);
            &&& attr_range(after, attr) == Some((start, start + value.len()))
            &&& after.take(start) == element.take(start)
            &&& after.skip(start + value.len()) == element.skip(end)
        }),
{
    let opening = attr_opening(attr);
    let (start, end) = attr_range(element, attr)->0;
    let after = with_attr(element, attr, value);
    lemma_attr_range(element, attr);
    let i = start - opening.len();
    lemma_occurs_elsewhere(element, i, after, i, opening);
    assert forall|j: int| 0 <= j < i implies !#[trigger] text::occurs_at(after, opening, j) by {
        if text::occurs_at(after, opening, j) {
            lemma_occurs_elsewhere(after, j, element, j, opening);
        }
    }
    assert(after[start + value.len()] == element[end]);
    assert forall|k: int| start <= k < start + value.len() implies after[k] != '"' by {
        assert(after[k] == value[k - start]);
    }
    lemma_attr_range_is(after, attr, start, start + value.len() as int);
    assert(after.subrange(start, start + value.len()) == value);
    assert(attr_range(after, attr) == Some((start, start + value.len() as int)));
    assert(after.take(start) == element.take(start));
    assert(after.skip(start + value.len()) == element.skip(end));
}

/// Whether an element has two attributes, one wholly before the other.
pub open spec fn apart(element: Seq<char>, one: Seq<char>, other: Seq<char>) -> bool {
    match (attr_range(element, one), attr_range(element, other)) {
        (Some((a, b)), Some((c, d))) => d < a - one.len() - 2 || b < c - other.len() - 2,
        _ => false,
    }
}

/// Where a range stands after the one from `a` to `b` has been given another
/// length.
spec fn shifted(range: (int, int), a: int, b: int, n: int) -> (int, int) {
    if range.1 < a {
        range
    } else {
        (range.0 + n - (b - a), range.1 + n - (b - a))
    }
}

/// Giving one attribute a value leaves another as it was, but for its place.
proof fn lemma_other_ranges(
    element: Seq<char>,
    attr: Seq<char>,
    value: Seq<char>,
    other: Seq<char>,
)
    requires
        apart(element, attr, other),
        !value.contains('"'),
        !value.contains('='),
        !other.contains('"'),
    ensures
        ({
            let (a, b) = attr_range(element, attr)->0;
            attr_range(with_attr(element, attr, value), other) == Some(
                shifted(attr_range(element, other)->0, a, b, value.len() as int),
            )
        }),
        attr_value(with_attr(element, attr, value), other) == attr_value(element, other),
{
    let opening = attr_opening(other);
    let (a, b) = attr_range(element, attr)->0;
    let (c, d) = attr_range(element, other)->0;
    let after = with_attr(element, attr, value);
    let n = value.len() as int;
    lemma_attr_range(element, attr);
    lemma_attr_range(element, other);
    let i = c - opening.len();
    if d < a {
        lemma_occurs_elsewhere(element, i, after, i, opening);
        assert forall|j: int| 0 <= j < i implies !#[trigger] text::occurs_at(
            after,
            opening,
            j,
        ) by {
            if text::occurs_at(after, opening, j) {
                lemma_occurs_elsewhere(after, j, element, j, opening);
            }
        }
        lemma_attr_range_is(after, other, c, d);
        assert(after.subrange(c, d) == element.subrange(c, d));
    } else {
        let shift = n - (b - a);
        assert forall|k: int| b <= k < element.len() implies #[trigger] element[k] == after[k
            + shift] by {}
        lemma_occurs_elsewhere(element, i, after, i + shift, opening);
        assert forall|j: int| 0 <= j < i + shift implies !#[trigger] text::occurs_at(
            after,
            opening,
            j,
        ) by {
            lemma_no_new_opening(element, attr, value, other, j);
        }
        lemma_attr_range_is(after, other, c + shift, d + shift);
        assert(after.subrange(c + shift, d + shift) == element.subrange(c, d));
    }
}

/// Giving one attribute a value leaves the value of another as it was, where
/// one stands wholly before the other and the new value holds no quotation mark
/// and no equals sign.
pub proof fn lemma_other_values_are_kept(
    element: Seq<char>,
    attr: Seq<char>,
    value: Seq<char>,
    other: Seq<char>,
)
    requires
        apart(element, attr, other),
        !value.contains('"'),
        !value.contains('='),
        !other.contains('"'),
    ensures
        attr_value(with_attr(element, attr, value), other) == attr_value(element, other),
        apart(with_attr(element, attr, value), attr, other),
{
    lemma_other_ranges(element, attr, value, other);
    lemma_attr_range(element, attr);
    lemma_attr_range(element, other);
    lemma_value_is_read_back(element, attr, value);
}

/// Attributes that stand one before the other still do when a third one has
/// been given a value.
pub proof fn lemma_others_stay_apart(
    element: Seq<char>,
    attr: Seq<char>,
    value: Seq<char>,
    one: Seq<char>,
    other: Seq<char>,
)
    requires
        apart(element, attr, one),
        apart(element, attr, other),
        apart(element, one, other),
        !value.contains('"'),
        !value.contains('='),
        !one.contains('"'),
        !other.contains('"'),
    ensures
        apart(with_attr(element, attr, value), one, other),
{
    lemma_other_ranges(element, attr, value, one);
    lemma_other_ranges(element, attr, value, other);
    lemma_attr_range(element, attr);
    lemma_attr_range(element, one);
    lemma_attr_range(element, other);
}

/// A new value does not bring forth an opening of another attribute.
proof fn lemma_no_new_opening(
    element: Seq<char>,
    attr: Seq<char>,
    value: Seq<char>,
    other: Seq<char>,
    j: int,
)
    requires
        attr_range(element, attr) is Some,
        attr_range(element, other) is Some,
        !value.contains('"'),
        !value.contains('='),
        !other.contains('"'),
        ({
            let (a, b) = attr_range(element, attr)->0;
            let (c, d) = attr_range(element, other)->0;
            b < c - other.len() - 2 && j < c - other.len() - 2 + value.len() - (b - a)
        }),
        0 <= j,
    ensures
        !text::occurs_at(with_attr(element, attr, value), attr_opening(other), j),
{
    reveal_strlit("=\"");
    let opening = attr_opening(other);
    let len = opening.len() as int;
    let (a, b) = attr_range(element, attr)->0;
    let after = with_attr(element, attr, value);
    let n = value.len() as int;
    let shift = n - (b - a);
    lemma_attr_range(element, attr);
    lemma_attr_range(element, other);
    if text::occurs_at(after, opening, j) {
        let part = after.subrange(j, j + len);
        assert(part[len - 1] == '"' && part[len - 2] == '=');
        let q = j + len - 1;
        assert(after[q] == '"' && after[q - 1] == '=');
        if j + len <= a {
            lemma_occurs_elsewhere(after, j, element, j, opening);
        } else if j >= a + n {
            lemma_occurs_elsewhere(after, j, element, j - shift, opening);
        } else {
            // The closing quotation mark of the changed attribute.
            let m = a + n;
            assert(after[m] == element[b]);
            if q < m {
                if q >= a {
                    assert(after[q] == value[q - a]);
                }
                assert(false);
            } else if q == m {
                if n > 0 {
                    assert(after[q - 1] == value[n - 1]);
                } else {
                    assert(after[q - 1] == element[a - 1]);
                }
                assert(false);
            } else {
                assert(part[m - j] == '"');
                if m - j < other.len() {
                    assert(other[m - j] == '"');
                }
                assert(false);
            }
        }
    }
}

/// The text with another value between two places.
spec fn replaced(s: Seq<char>, p: int, q: int, value: Seq<char>) -> Seq<char> {
    s.take(p) + value + s.skip(q)
}

/// Where a value behind a quotation mark is replaced, a word that holds no such
/// mark and whose first character is not in the value stands where it stood
/// before or behind the old value, and nowhere else.
proof fn lemma_occurrences_after(
    s: Seq<char>,
    p: int,
    q: int,
    value: Seq<char>,
    word: Seq<char>,
    j: int,
)
    requires
        1 <= p <= q <= s.len(),
        s[p - 1] == '"',
        word.len() > 0,
        !word.contains('"'),
        !value.contains(word[0]),
    ensures
        text::occurs_at(replaced(s, p, q, value), word, j) <==> {
            ||| j + word.len() <= p && text::occurs_at(s, word, j)
            ||| j >= p + value.len() && text::occurs_at(s, word, j - value.len() + (q - p))
        },
{
    let after = replaced(s, p, q, value);
    let n = value.len() as int;
    let back = (q - p) - n;
    if text::occurs_at(after, word, j) {
        let part = after.subrange(j, j + word.len());
        if j + word.len() <= p {
            lemma_occurs_elsewhere(after, j, s, j, word);
        } else if j < p {
            assert(part[p - 1 - j] == '"');
            assert(word[p - 1 - j] == '"');
        } else if j < p + n {
            assert(part[0] == value[j - p]);
            assert(value[j - p] == word[0]);
        } else {
            lemma_occurs_elsewhere(after, j, s, j + back, word);
        }
    }
    if j + word.len() <= p && text::occurs_at(s, word, j) {
        lemma_occurs_elsewhere(s, j, after, j, word);
    }
    if j >= p + n && text::occurs_at(s, word, j + back) {
        lemma_occurs_elsewhere(s, j + back, after, j, word);
    }
}

/// Whether a word can open or close an element while `value` is put into it.
spec fn is_foreign(word: Seq<char>, value: Seq<char>) -> bool {
    &&& word.len() > 0
    &&& !word.contains('"')
    &&& !value.contains(word[0])
}

/// An element of the given opening stays where it is while a value in it is
/// replaced, and ends where its end has moved to.
proof fn lemma_element_from_stays(
    s: Seq<char>,
    opening: Seq<char>,
    p: int,
    q: int,
    value: Seq<char>,
)
    requires
        is_foreign(opening, value),
        is_foreign("/>"@, value),
        element_from(s, opening) is Some,
        ({
            let (start, end) = element_from(s, opening)->0;
            start + opening.len() <= p <= q <= end - 2
        }),
        1 <= p,
        s[p - 1] == '"',
    ensures
        ({
            let (start, end) = element_from(s, opening)->0;
            element_from(replaced(s, p, q, value), opening) == Some(
                (start, end + value.len() - (q - p)),
            )
        }),
{
    reveal_strlit("/>");
    let after = replaced(s, p, q, value);
    let (start, end) = element_from(s, opening)->0;
    let shift = value.len() - (q - p);
    text::lemma_find_from(s, opening, 0);
    text::lemma_find_from(s, "/>"@, start);
    lemma_occurrences_after(s, p, q, value, opening, start);
    assert forall|j: int| 0 <= j < start implies !#[trigger] text::occurs_at(
        after,
        opening,
        j,
    ) by {
        lemma_occurrences_after(s, p, q, value, opening, j);
    }
    text::lemma_found(after, opening, 0, start);
    lemma_occurrences_after(s, p, q, value, "/>"@, end - 2 + shift);
    assert forall|j: int| start <= j < end - 2 + shift implies !#[trigger] text::occurs_at(
        after,
        "/>"@,
        j,
    ) by {
        lemma_occurrences_after(s, p, q, value, "/>"@, j);
    }
    text::lemma_found(after, "/>"@, start, end - 2 + shift);
}

/// Where there is no element of the given opening, replacing a value in another
/// element brings forth none.
proof fn lemma_no_element_from(
    s: Seq<char>,
    opening: Seq<char>,
    p: int,
    q: int,
    value: Seq<char>,
    close: int,
)
    requires
        is_foreign(opening, value),
        is_foreign("/>"@, value),
        element_from(s, opening) is None,
        1 <= p <= q <= close,
        s[p - 1] == '"',
        text::occurs_at(s, "/>"@, close),
    ensures
        element_from(replaced(s, p, q, value), opening) is None,
{
    let after = replaced(s, p, q, value);
    let back = (q - p) - value.len();
    text::lemma_find_from(after, opening, 0);
    text::lemma_find_from(s, opening, 0);
    match text::find_from(after, opening, 0) {
        Some(u) => {
            lemma_occurrences_after(s, p, q, value, opening, u);
            let first = text::find_from(s, opening, 0)->0;
            text::lemma_find_from(s, "/>"@, first);
            assert(first > close);
            text::lemma_find_from(after, "/>"@, u);
            match text::find_from(after, "/>"@, u) {
                Some(v) => {
                    lemma_occurrences_after(s, p, q, value, "/>"@, v);
                    assert(text::occurs_at(s, "/>"@, v + back));
                },
                None => {},
            }
        },
        None => {},
    }
}

/// The element of a settings file is still its element when an attribute of it
/// has been given a value that holds none of `"`, `/` and `<`.
pub proof fn lemma_element_stays(xml: Seq<char>, attr: Seq<char>, value: Seq<char>)
    requires
        element_in(xml) is Some,
        !value.contains('"'),
        !value.contains('/'),
        !value.contains('<'),
    ensures
        ({
            let (start, end) = element_in(xml)->0;
            let changed = with_attr(xml.subrange(start, end), attr, value);
            let after = xml.take(start) + changed + xml.skip(end);
            &&& element_in(after) == Some((start, start + changed.len()))
            &&& after.subrange(start, start + changed.len()) == changed
            &&& after.take(start) == xml.take(start)
            &&& after.skip(start + changed.len()) == xml.skip(end)
        }),
{
    let udp = element_from(xml, "<udp "@) is Some;
    let opening = if udp {
        "<udp "@
    } else {
        "<motion "@
    };
    let (start, end) = element_in(xml)->0;
    let line = xml.subrange(start, end);
    let changed = with_attr(line, attr, value);
    let after = xml.take(start) + changed + xml.skip(end);
    reveal_strlit("<udp ");
    reveal_strlit("<motion ");
    reveal_strlit("/>");
    assert("<udp "@ == seq!['<', 'u', 'd', 'p', ' ']);
    assert("<motion "@ == seq!['<', 'm', 'o', 't', 'i', 'o', 'n', ' ']);
    assert("/>"@ == seq!['/', '>']);
    text::lemma_find_from(xml, opening, 0);
    text::lemma_find_from(xml, "/>"@, start);
    assert(after.subrange(start, start + changed.len()) =~= changed);
    assert(after.take(start) =~= xml.take(start));
    assert(after.skip(start + changed.len()) =~= xml.skip(end));
    match attr_range(line, attr) {
        Some((a, b)) => {
            lemma_attr_range(line, attr);
            let p = start + a;
            let q = start + b;
            assert(xml[p - 1] == '"');
            assert(xml[q] == '"');
            // The opening and the end of the element hold no quotation mark.
            let head = xml.subrange(start, start + opening.len());
            assert(p - 1 >= start + opening.len()) by {
                if p - 1 < start + opening.len() {
                    assert(head[a - 1] == '"');
                    assert(head[a - 1] == opening[a - 1]);
                }
            }
            let tail = xml.subrange(end - 2, end);
            assert(tail[0] == '/' && tail[1] == '>');
            assert(q < end - 2);
            assert(after =~= replaced(xml, p, q, value));
            lemma_element_from_stays(xml, opening, p, q, value);
            if !udp {
                lemma_no_element_from(xml, "<udp "@, p, q, value, end - 2);
            }
        },
        None => {
            assert(after =~= xml);
        },
    }
}

/// The element is found where it was written: what stands between the first
/// `<udp ` and the first `/>` behind it.
pub proof fn lemma_udp_element_is_found(before: Seq<char>, body: Seq<char>, after: Seq<char>)
    requires
        ({
            let xml = before + "<udp "@ + body + "/>"@ + after;
            let behind = before.len() + "<udp "@.len() + body.len();
            &&& forall|i: int|
                0 <= i < before.len() ==> !#[trigger] text::occurs_at(xml, "<udp "@, i)
            &&& forall|i: int|
                before.len() <= i < behind ==> !#[trigger] text::occurs_at(xml, "/>"@, i)
        }),
    ensures
        ({
            let xml = before + "<udp "@ + body + "/>"@ + after;
            let element = "<udp "@ + body + "/>"@;
            &&& element_in(xml) == Some((before.len() as int, (before + element).len() as int))
            &&& xml.subrange(before.len() as int, (before + element).len() as int) == element
        }),
{
    lemma_element_is_found(before, "<udp "@, body, after);
}

/// Without any `<udp `, the element is what stands between the first `<motion ` and
/// the first `/>` behind it.
pub proof fn lemma_motion_element_is_found(before: Seq<char>, body: Seq<char>, after: Seq<char>)
    requires
        ({
            let xml = before + "<motion "@ + body + "/>"@ + after;
            let behind = before.len() + "<motion "@.len() + body.len();
            &&& !text::contains(xml, "<udp "@)
            &&& forall|i: int|
                0 <= i < before.len() ==> !#[trigger] text::occurs_at(xml, "<motion "@, i)
            &&& forall|i: int|
                before.len() <= i < behind ==> !#[trigger] text::occurs_at(xml, "/>"@, i)
        }),
    ensures
        ({
            let xml = before + "<motion "@ + body + "/>"@ + after;
            let element = "<motion "@ + body + "/>"@;
            &&& element_in(xml) == Some((before.len() as int, (before + element).len() as int))
            &&& xml.subrange(before.len() as int, (before + element).len() as int) == element
        }),
{
    let xml = before + "<motion "@ + body + "/>"@ + after;
    lemma_element_is_found(before, "<motion "@, body, after);
    text::lemma_find_from(xml, "<udp "@, 0);
}

/// There is no element in a file without `<udp ` and `<motion `, nor in one
/// without `/>`.
pub proof fn lemma_no_element_is_found(xml: Seq<char>)
    requires
        !text::contains(xml, "/>"@) || (!text::contains(xml, "<udp "@) && !text::contains(
            xml,
            "<motion "@,
        )),
    ensures
        element_in(xml) is None,
{
    text::lemma_find_from(xml, "<udp "@, 0);
    text::lemma_find_from(xml, "<motion "@, 0);
    if let Some(i) = text::find_from(xml, "<udp "@, 0) {
        text::lemma_find_from(xml, "/>"@, i);
    }
    if let Some(i) = text::find_from(xml, "<motion "@, 0) {
        text::lemma_find_from(xml, "/>"@, i);
    }
}

proof fn lemma_element_is_found(
    before: Seq<char>,
    opening: Seq<char>,
    body: Seq<char>,
    after: Seq<char>,
)
    requires
        ({
            let xml = before + opening + body + "/>"@ + after;
            let behind = before.len() + opening.len() + body.len();
            &&& forall|i: int|
                0 <= i < before.len() ==> !#[trigger] text::occurs_at(xml, opening, i)
            &&& forall|i: int|
                before.len() <= i < behind ==> !#[trigger] text::occurs_at(xml, "/>"@, i)
        }),
    ensures
        ({
            let xml = before + opening + body + "/>"@ + after;
            let element = opening + body + "/>"@;
            &&& element_from(xml, opening) == Some(
                (before.len() as int, (before + element).len() as int),
            )
            &&& xml.subrange(before.len() as int, (before + element).len() as int) == element
        }),
{
    let xml = before + opening + body + "/>"@ + after;
    let element = opening + body + "/>"@;
    let start = before.len() as int;
    let behind = start + opening.len() + body.len();
    reveal_strlit("/>");
    assert(xml.subrange(start, start + opening.len()) =~= opening);
    assert(xml.subrange(behind, behind + 2) =~= "/>"@);
    text::lemma_found(xml, opening, 0, start);
    text::lemma_found(xml, "/>"@, start, behind);
    assert(xml.subrange(start, behind + 2) =~= element);
}

/// An attribute is read as it was written: what stands between the first
/// `name="` and the next quotation mark.
pub proof fn lemma_attribute_is_read(
    before: Seq<char>,
    attr: Seq<char>,
    value: Seq<char>,
    after: Seq<char>,
)
    requires
        !value.contains('"'),
        ({
            let element = before + (attr + "=\""@) + value + "\""@ + after;
            forall|i: int|
                0 <= i < before.len() ==> !#[trigger] text::occurs_at(element, attr + "=\""@, i)
        }),
    ensures
        attr_value(before + (attr + "=\""@) + value + "\""@ + after, attr) == Some(value),
{
    let opening = attr + "=\""@;
    let element = before + opening + value + "\""@ + after;
    let start = before.len() + opening.len();
    let end = start + value.len();
    reveal_strlit("\"");
    assert("\""@ =~= seq!['"']);
    assert(element.subrange(before.len() as int, start as int) =~= opening);
    text::lemma_found(element, opening, 0, before.len() as int);
    assert(element.subrange(end as int, end as int + 1) =~= "\""@);
    assert forall|j: int| start <= j < end implies !#[trigger] text::occurs_at(
        element,
        "\""@,
        j,
    ) by {
        assert(element[j] == value[j - start]);
        if text::occurs_at(element, "\""@, j) {
            assert(element.subrange(j, j + 1)[0] == '"');
            assert(value.contains(value[j - start]));
        }
    }
    text::lemma_found(element, "\""@, start as int, end as int);
    assert(element.subrange(start as int, end as int) =~= value);
}

/// An attribute that does not stand in an element has no value.
pub proof fn lemma_missing_attribute(element: Seq<char>, attr: Seq<char>)
    requires
        !text::contains(element, attr + "=\""@),
    ensures
        attr_value(element, attr) is None,
        forall|value: Seq<char>| #[trigger] with_attr(element, attr, value) == element,
{
    text::lemma_find_from(element, attr_opening(attr), 0);
}

} // verus!
