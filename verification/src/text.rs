//! Text as sequences of characters: building it, formatting numbers into it
//! and searching in it.

use vstd::prelude::*;

verus! {

/// `String::push` appends the character to the end of the string.
pub assume_specification[ String::push ](s: &mut String, c: char)
    ensures
        final(s)@ == old(s)@.push(c),
;

/// What `str::to_lowercase` makes of some text.
pub uninterp spec fn lowercase(s: Seq<char>) -> Seq<char>;

/// The character with `A` to `Z` replaced by `a` to `z`.
pub open spec fn ascii_lower_char(c: char) -> char {
    if 'A' <= c && c <= 'Z' {
        (c as int + 0x20) as char
    } else {
        c
    }
}

/// The text with `A` to `Z` replaced by `a` to `z`.
pub open spec fn ascii_lower(s: Seq<char>) -> Seq<char> {
    Seq::new(s.len(), |i: int| ascii_lower_char(s[i]))
}

/// `str::to_lowercase` depends on the text alone. Of ASCII text it replaces the
/// upper case letters. What it makes of other characters is left unsaid: that
/// is the whole of Unicode's lower case mapping.
pub assume_specification[ str::to_lowercase ](s: &str) -> (r: String)
    ensures
        r@ == lowercase(s@),
        vstd::utf8::is_ascii_chars(s@) ==> r@ == ascii_lower(s@),
;

/// The string that some bytes encode. `String::from_utf8` accepts exactly valid
/// UTF-8 and decodes it.
#[verifier::external_body]
pub(crate) fn utf8_string(bytes: Vec<u8>) -> (r: Option<String>)
    ensures
        r is Some <==> vstd::utf8::valid_utf8(bytes@),
        r matches Some(s) ==> s@ == vstd::utf8::decode_utf8(bytes@),
{
    String::from_utf8(bytes).ok()
}

/// What `String::from_utf8_lossy` makes of some bytes.
pub uninterp spec fn utf8_lossy(bytes: Seq<u8>) -> Seq<char>;

/// The string that some bytes encode, with a replacement character for what is
/// not valid. `String::from_utf8_lossy` depends on the bytes alone and decodes
/// valid UTF-8. How it cuts up invalid bytes is left unsaid: its documentation
/// gives no rule for that.
#[verifier::external_body]
pub(crate) fn utf8_string_lossy(bytes: &[u8]) -> (r: String)
    ensures
        r@ == utf8_lossy(bytes@),
        vstd::utf8::valid_utf8(bytes@) ==> r@ == vstd::utf8::decode_utf8(bytes@),
{
    String::from_utf8_lossy(bytes).into_owned()
}

/// What `str::trim` makes of some text.
pub uninterp spec fn trimmed(s: Seq<char>) -> Seq<char>;

/// Whether an ASCII character is white space.
pub open spec fn ascii_space(c: char) -> bool {
    c == ' ' || ('\t' <= c && c <= '\r')
}

/// The text without the ASCII white space that it starts with.
pub open spec fn trim_start(s: Seq<char>) -> Seq<char>
    decreases s.len(),
{
    if s.len() > 0 && ascii_space(s[0]) {
        trim_start(s.skip(1))
    } else {
        s
    }
}

/// The text without the ASCII white space that it ends with.
pub open spec fn trim_end(s: Seq<char>) -> Seq<char>
    decreases s.len(),
{
    if s.len() > 0 && ascii_space(s.last()) {
        trim_end(s.drop_last())
    } else {
        s
    }
}

/// `str::trim` depends on the text alone. Of ASCII text it removes the white
/// space at both ends. Which other characters are white space is left unsaid:
/// that is a property of Unicode's tables.
pub assume_specification[ str::trim ](s: &str) -> (r: &str)
    ensures
        r@ == trimmed(s@),
        vstd::utf8::is_ascii_chars(s@) ==> r@ == trim_end(trim_start(s@)),
;

/// What the `Debug` implementation of `str` makes of some text.
pub uninterp spec fn quoted(s: Seq<char>) -> Seq<char>;

/// The text in quotation marks and with escapes. The `Debug` implementation of
/// `str` depends on the text alone. Which characters it escapes is left unsaid:
/// that is a property of Unicode's tables.
#[verifier::external_body]
pub(crate) fn quote(s: &str) -> (r: String)
    ensures
        r@ == quoted(s@),
{
    format!("{:?}", s)
}

/// The bytes that encode some text.
pub fn bytes_of(s: &str) -> (r: Vec<u8>)
    ensures
        r@ == vstd::utf8::encode_utf8(s@),
{
    let mut r: Vec<u8> = Vec::new();
    crate::wire::append(&mut r, s.as_bytes());
    assert(r@ == vstd::utf8::encode_utf8(s@));
    r
}

/// The decimal or hexadecimal digit that stands for `d`.
pub open spec fn digit(d: int) -> char {
    if d < 10 {
        (0x30 + d) as char
    } else {
        (0x37 + d) as char
    }
}

/// The decimal digits of `n`, without leading zeros.
pub open spec fn decimal(n: nat) -> Seq<char>
    decreases n,
{
    if n < 10 {
        seq![digit(n as int)]
    } else {
        decimal(n / 10).push(digit((n % 10) as int))
    }
}

/// The decimal notation of `n`, with a minus sign where it is negative.
pub open spec fn signed_decimal(n: int) -> Seq<char> {
    if n < 0 {
        seq!['-'] + decimal((-n) as nat)
    } else {
        decimal(n as nat)
    }
}

/// `count` times the character `c`.
pub open spec fn repeated(c: char, count: int) -> Seq<char> {
    Seq::new(
        (if count < 0 {
            0
        } else {
            count
        }) as nat,
        |i: int| c,
    )
}

/// `s` with as many `fill` characters in front as it takes to be `width` long.
pub open spec fn padded(s: Seq<char>, width: int, fill: char) -> Seq<char> {
    repeated(fill, width - s.len()) + s
}

/// The two hexadecimal digits of a byte.
pub open spec fn hex_byte(b: u8) -> Seq<char> {
    seq![digit((b / 16) as int), digit((b % 16) as int)]
}

/// Whether `needle` stands in `hay` from position `i` on.
pub open spec fn occurs_at(hay: Seq<char>, needle: Seq<char>, i: int) -> bool {
    &&& 0 <= i
    &&& i + needle.len() <= hay.len()
    &&& hay.subrange(i, i + needle.len()) == needle
}

/// The first position from `from` on at which `needle` stands in `hay`.
pub open spec fn find_from(hay: Seq<char>, needle: Seq<char>, from: int) -> Option<int>
    decreases hay.len() + 1 - from,
{
    if from < 0 || from + needle.len() > hay.len() {
        None
    } else if occurs_at(hay, needle, from) {
        Some(from)
    } else {
        find_from(hay, needle, from + 1)
    }
}

/// Whether `needle` stands somewhere in `hay`.
pub open spec fn contains(hay: Seq<char>, needle: Seq<char>) -> bool {
    exists|i: int| occurs_at(hay, needle, i)
}

/// Finding gives the first occurrence and misses none.
pub proof fn lemma_find_from(hay: Seq<char>, needle: Seq<char>, from: int)
    requires
        0 <= from,
    ensures
        find_from(hay, needle, from) matches Some(i) ==> from <= i && occurs_at(hay, needle, i)
            && forall|j: int| from <= j < i ==> !#[trigger] occurs_at(hay, needle, j),
        find_from(hay, needle, from) is None ==> forall|j: int|
            from <= j ==> !#[trigger] occurs_at(hay, needle, j),
    decreases hay.len() + 1 - from,
{
    if from + needle.len() <= hay.len() && !occurs_at(hay, needle, from) {
        lemma_find_from(hay, needle, from + 1);
    }
}

/// A position that is an occurrence without an earlier one is what finding
/// gives.
pub proof fn lemma_found(hay: Seq<char>, needle: Seq<char>, from: int, i: int)
    requires
        0 <= from <= i,
        occurs_at(hay, needle, i),
        forall|j: int| from <= j < i ==> !#[trigger] occurs_at(hay, needle, j),
    ensures
        find_from(hay, needle, from) == Some(i),
{
    lemma_find_from(hay, needle, from);
}

/// The characters of a string.
pub fn chars_of(s: &str) -> (r: Vec<char>)
    ensures
        r@ == s@,
{
    let mut r: Vec<char> = Vec::new();
    for c in it: s.chars()
        invariant
            r@ == it.seq().take(it.index()),
            it.seq() == s@,
    {
        r.push(c);
        proof {
            assert(it.seq().take(it.index() + 1) == it.seq().take(it.index()).push(c));
        }
    }
    proof {
        assert(r@ == s@);
    }
    r
}

/// The string of some characters.
pub fn string_of(chars: &[char]) -> (r: String)
    ensures
        r@ == chars@,
{
    let mut r: String = String::new();
    let mut i: usize = 0;
    while i < chars.len()
        invariant
            i <= chars.len(),
            r@ == chars@.take(i as int),
        decreases chars.len() - i,
    {
        r.push(chars[i]);
        i = i + 1;
        proof {
            assert(chars@.take(i as int) == chars@.take(i - 1).push(chars@[i - 1]));
        }
    }
    proof {
        assert(chars@.take(i as int) == chars@);
    }
    r
}

/// The text with `A` to `Z` replaced by `a` to `z`.
pub fn to_ascii_lower(s: &str) -> (r: String)
    ensures
        r@ == ascii_lower(s@),
{
    let chars: Vec<char> = chars_of(s);
    let mut r: String = String::new();
    let mut i: usize = 0;
    while i < chars.len()
        invariant
            i <= chars.len(),
            chars@ == s@,
            r@ == ascii_lower(s@).take(i as int),
        decreases chars.len() - i,
    {
        let c: char = chars[i];
        if 'A' <= c && c <= 'Z' {
            r.push((c as u8 + 0x20) as char);
        } else {
            r.push(c);
        }
        i = i + 1;
        proof {
            assert(ascii_lower(s@).take(i as int) == ascii_lower(s@).take(i - 1).push(
                ascii_lower_char(s@[i - 1]),
            ));
        }
    }
    proof {
        assert(ascii_lower(s@).take(i as int) == ascii_lower(s@));
    }
    r
}

/// Whether the characters of `needle` stand in `hay` from position `i` on.
pub fn stands_at(hay: &[char], needle: &[char], i: usize) -> (r: bool)
    ensures
        r <==> occurs_at(hay@, needle@, i as int),
{
    if needle.len() > hay.len() || i > hay.len() - needle.len() {
        return false;
    }
    let mut k: usize = 0;
    while k < needle.len()
        invariant
            k <= needle.len(),
            i + needle.len() <= hay.len(),
            forall|j: int| 0 <= j < k ==> needle@[j] == hay@[i + j],
        decreases needle.len() - k,
    {
        if hay[i + k] != needle[k] {
            proof {
                assert(hay@.subrange(i as int, i + needle.len())[k as int] != needle@[k as int]);
            }
            return false;
        }
        k = k + 1;
    }
    proof {
        assert(hay@.subrange(i as int, i + needle.len()) == needle@);
    }
    true
}

/// The first position from `from` on at which `needle` stands in `hay`.
pub fn find(hay: &[char], needle: &[char], from: usize) -> (r: Option<usize>)
    ensures
        r matches Some(i) ==> find_from(hay@, needle@, from as int) == Some(i as int) && from <= i
            && i + needle.len() <= hay.len(),
        r is None ==> find_from(hay@, needle@, from as int) is None,
{
    let mut i: usize = from;
    while needle.len() <= hay.len() && i <= hay.len() - needle.len()
        invariant
            from <= i,
            find_from(hay@, needle@, from as int) == find_from(hay@, needle@, i as int),
        decreases hay.len() - i,
    {
        if stands_at(hay, needle, i) {
            return Some(i);
        }
        if i == hay.len() - needle.len() {
            proof {
                reveal_with_fuel(find_from, 2);
            }
            return None;
        }
        i = i + 1;
    }
    None
}

/// Whether `needle` stands somewhere in `hay`.
pub fn has(hay: &str, needle: &str) -> (r: bool)
    ensures
        r <==> contains(hay@, needle@),
{
    let h: Vec<char> = chars_of(hay);
    let n: Vec<char> = chars_of(needle);
    proof {
        lemma_find_from(hay@, needle@, 0);
    }
    match find(h.as_slice(), n.as_slice(), 0) {
        Some(_) => true,
        None => {
            proof {
                assert forall|i: int| !occurs_at(hay@, needle@, i) by {
                    if i < 0 {
                    }
                }
            }
            false
        },
    }
}

fn digit_char(d: u32) -> (c: char)
    requires
        d < 16,
    ensures
        c == digit(d as int),
{
    if d < 10 {
        (0x30 + d) as u8 as char
    } else {
        (0x37 + d) as u8 as char
    }
}

/// Appends the decimal notation of `n`.
pub fn push_u64(out: &mut String, n: u64)
    ensures
        final(out)@ == old(out)@ + decimal(n as nat),
    decreases n,
{
    if n >= 10 {
        push_u64(out, n / 10);
    }
    out.push(digit_char((n % 10) as u32));
    proof {
        if n >= 10 {
            assert(out@ == old(out)@ + decimal((n / 10) as nat).push(digit((n % 10) as int)));
        } else {
            assert(out@ == old(out)@ + decimal(n as nat));
        }
    }
}

/// Appends the decimal notation of `n`.
pub fn push_i64(out: &mut String, n: i64)
    ensures
        final(out)@ == old(out)@ + signed_decimal(n as int),
{
    if n < 0 {
        out.push('-');
        let m: u64 = (0i128 - n as i128) as u64;
        push_u64(out, m);
        proof {
            assert(out@ == old(out)@ + (seq!['-'] + decimal((-n) as nat)));
        }
    } else {
        push_u64(out, n as u64);
    }
}

/// The decimal notation of `n`.
pub fn number(n: i64) -> (r: String)
    ensures
        r@ == signed_decimal(n as int),
{
    let mut r: String = String::new();
    push_i64(&mut r, n);
    proof {
        assert(Seq::<char>::empty() + signed_decimal(n as int) == signed_decimal(n as int));
    }
    r
}

/// Appends `s`, with `fill` characters in front up to the given width.
pub fn push_padded(out: &mut String, s: &str, width: usize, fill: char)
    ensures
        final(out)@ == old(out)@ + padded(s@, width as int, fill),
{
    let len: usize = s.unicode_len();
    let mut i: usize = 0;
    let missing: usize = if len < width {
        width - len
    } else {
        0
    };
    while i < missing
        invariant
            i <= missing,
            out@ == old(out)@ + repeated(fill, i as int),
        decreases missing - i,
    {
        out.push(fill);
        i = i + 1;
        proof {
            assert(repeated(fill, i as int) == repeated(fill, i - 1).push(fill));
        }
    }
    out.append(s);
    proof {
        assert(repeated(fill, width - len) == repeated(fill, missing as int));
        assert(out@ == old(out)@ + padded(s@, width as int, fill));
    }
}

/// Whether all characters are decimal digits.
pub open spec fn all_digits(s: Seq<char>) -> bool {
    forall|i: int| 0 <= i < s.len() ==> '0' <= #[trigger] s[i] && s[i] <= '9'
}

/// The number that decimal digits stand for, zeros in front among them.
pub open spec fn number_in(digits: Seq<char>) -> nat
    decreases digits.len(),
{
    if digits.len() == 0 {
        0
    } else {
        (10 * number_in(digits.drop_last()) + (digits.last() as int - 0x30)) as nat
    }
}

/// A number is read back from its decimal notation, which has as many digits as
/// it takes.
pub proof fn lemma_decimal_read_back(n: nat)
    ensures
        all_digits(decimal(n)),
        number_in(decimal(n)) == n,
        decimal(n).len() >= 1,
        n < 100 ==> decimal(n).len() <= 2,
        n < 1000 ==> decimal(n).len() <= 3,
    decreases n,
{
    if n < 10 {
        let s = decimal(n);
        assert(s.drop_last() == Seq::<char>::empty());
        assert(number_in(s.drop_last()) == 0);
    } else {
        lemma_decimal_read_back(n / 10);
        let s = decimal(n);
        assert(s.drop_last() == decimal(n / 10));
        if n < 100 {
            assert(decimal(n / 10).len() == 1);
        }
    }
}

proof fn lemma_zeros_in_front(count: int, s: Seq<char>)
    ensures
        number_in(repeated('0', count) + s) == number_in(s),
    decreases s.len(), repeated('0', count).len(),
{
    let zeros = repeated('0', count);
    let all = zeros + s;
    if s.len() > 0 {
        assert(all.drop_last() == zeros + s.drop_last());
        lemma_zeros_in_front(count, s.drop_last());
    } else if zeros.len() > 0 {
        assert(all.drop_last() == repeated('0', count - 1) + s);
        lemma_zeros_in_front(count - 1, s);
    } else {
        assert(all == s);
    }
}

/// A number is read back from its decimal notation with zeros in front.
pub proof fn lemma_padded_read_back(n: nat, width: int)
    ensures
        ({
            let s = padded(decimal(n), width, '0');
            &&& all_digits(s)
            &&& number_in(s) == n
            &&& s.len() == if decimal(n).len() < width {
                width
            } else {
                decimal(n).len() as int
            }
        }),
{
    lemma_decimal_read_back(n);
    lemma_zeros_in_front(width - decimal(n).len(), decimal(n));
}

/// Appends the two hexadecimal digits of a byte.
pub fn push_hex(out: &mut String, b: u8)
    ensures
        final(out)@ == old(out)@ + hex_byte(b),
{
    out.push(digit_char((b / 16) as u32));
    out.push(digit_char((b % 16) as u32));
    proof {
        assert(out@ == old(out)@ + hex_byte(b));
    }
}

/// The characters of an optional string.
pub open spec fn optional_text(s: Option<String>) -> Option<Seq<char>> {
    match s {
        Some(s) => Some(s@),
        None => None,
    }
}

/// A value, or a question mark where there is none.
pub open spec fn or_unknown(s: Option<Seq<char>>) -> Seq<char> {
    match s {
        Some(s) => s,
        None => "?"@,
    }
}

/// Appends a value, or a question mark where there is none.
pub fn push_or_unknown(out: &mut String, s: &Option<String>)
    ensures
        final(out)@ == old(out)@ + or_unknown(optional_text(*s)),
{
    match s {
        Some(s) => out.append(s.as_str()),
        None => out.append("?"),
    }
}

/// A text contains a word exactly where it is something, the word, and something
/// else.
pub proof fn lemma_contains(hay: Seq<char>, needle: Seq<char>)
    ensures
        contains(hay, needle) <==> exists|before: Seq<char>, after: Seq<char>|
            #[trigger] (before + needle + after) == hay,
{
    if contains(hay, needle) {
        let i = choose|i: int| occurs_at(hay, needle, i);
        let before = hay.take(i);
        let after = hay.skip(i + needle.len());
        assert(before + needle + after =~= hay);
    }
    if exists|before: Seq<char>, after: Seq<char>| #[trigger] (before + needle + after) == hay {
        let (before, after) = choose|before: Seq<char>, after: Seq<char>|
            #[trigger] (before + needle + after) == hay;
        assert(hay.subrange(before.len() as int, (before.len() + needle.len()) as int) =~= needle);
        assert(occurs_at(hay, needle, before.len() as int));
    }
}

/// A word is found at the end of what comes before it, unless it occurs earlier.
pub proof fn lemma_found_behind(before: Seq<char>, needle: Seq<char>, after: Seq<char>)
    requires
        forall|i: int|
            0 <= i < before.len() ==> !#[trigger] occurs_at(before + needle + after, needle, i),
    ensures
        find_from(before + needle + after, needle, 0) == Some(before.len() as int),
{
    let hay = before + needle + after;
    assert(hay.subrange(before.len() as int, (before.len() + needle.len()) as int) =~= needle);
    lemma_found(hay, needle, 0, before.len() as int);
}

/// A byte in hexadecimal is two of the characters from `0` to `9` and from `A` to
/// `F`, the high half first, and says the byte.
pub proof fn lemma_hex_read_back(b: u8)
    ensures
        hex_byte(b).len() == 2,
        16 * hex_value(hex_byte(b)[0]) + hex_value(hex_byte(b)[1]) == b,
{
    lemma_digit_value((b / 16) as int);
    lemma_digit_value((b % 16) as int);
}

proof fn lemma_digit_value(d: int)
    requires
        0 <= d < 16,
    ensures
        hex_value(digit(d)) == d,
{
}

/// What a hexadecimal digit counts.
pub open spec fn hex_value(c: char) -> int {
    if '0' <= c <= '9' {
        c as int - '0' as int
    } else if 'A' <= c <= 'F' {
        10 + (c as int - 'A' as int)
    } else {
        -1
    }
}

/// A padded text is at least as long as asked for, ends with the text, and has
/// nothing but the fill in front of it; one that is long enough is not changed.
pub proof fn lemma_padded(s: Seq<char>, width: int, fill: char)
    ensures
        ({
            let p = padded(s, width, fill);
            let n = if width > s.len() {
                width
            } else {
                s.len() as int
            };
            &&& p.len() == n
            &&& p.subrange(n - s.len(), n) == s
            &&& forall|i: int| 0 <= i < n - s.len() ==> p[i] == fill
        }),
{
    let p = padded(s, width, fill);
    assert(p.subrange(p.len() - s.len(), p.len() as int) =~= s);
}

/// A number is read back from its notation: the minus sign says that it is negative,
/// and the digits behind it how much.
pub proof fn lemma_signed_decimal_read_back(n: int)
    ensures
        n < 0 ==> {
            let s = signed_decimal(n);
            &&& s.len() > 1 && s[0] == '-'
            &&& all_digits(s.skip(1))
            &&& number_in(s.skip(1)) == -n
        },
        n >= 0 ==> all_digits(signed_decimal(n)) && number_in(signed_decimal(n)) == n,
{
    if n < 0 {
        let d = decimal((-n) as nat);
        lemma_decimal_read_back((-n) as nat);
        assert(signed_decimal(n).skip(1) =~= d);
    } else {
        lemma_decimal_read_back(n as nat);
    }
}

/// Lower case turns each of the 26 capitals into its small letter and leaves every
/// other character as it is, one for one.
pub proof fn lemma_ascii_lower(s: Seq<char>, i: int)
    requires
        0 <= i < s.len(),
    ensures
        ascii_lower(s).len() == s.len(),
        65 <= s[i] as int <= 90 ==> ascii_lower(s)[i] as int == s[i] as int + 32,
        !(65 <= s[i] as int <= 90) ==> ascii_lower(s)[i] == s[i],
{
}

/// How many digits a number has.
pub proof fn lemma_digits_of_small_numbers(n: nat)
    ensures
        decimal(n).len() >= 1,
        n < 10_000 ==> decimal(n).len() <= 4,
        n < 100_000 ==> decimal(n).len() <= 5,
{
    reveal_with_fuel(decimal, 5);
}

} // verus!
