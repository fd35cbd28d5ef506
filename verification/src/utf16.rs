//! UTF-16: what text looks like as 16-bit units, and what units and bytes say
//! as text.

use vstd::prelude::*;

use crate::text;
use crate::wire;

verus! {

/// `char::from_u32` gives a character for every Unicode scalar value, the one
/// with that number, and for nothing else.
pub assume_specification[ char::from_u32 ](i: u32) -> (r: Option<char>)
    ensures
        r is Some <==> (i < 0xD800 || 0xE000 <= i <= 0x10_FFFF),
        r matches Some(c) ==> c as u32 == i,
;

/// Whether a unit begins a pair.
pub open spec fn is_high(u: u16) -> bool {
    0xD800 <= u < 0xDC00
}

/// Whether a unit ends a pair.
pub open spec fn is_low(u: u16) -> bool {
    0xDC00 <= u < 0xE000
}

/// Whether the units start with a pair.
pub open spec fn starts_with_pair(u: Seq<u16>) -> bool {
    u.len() >= 2 && is_high(u[0]) && is_low(u[1])
}

/// The character that a pair stands for.
pub open spec fn pair_char(high: u16, low: u16) -> char {
    (0x1_0000 + (high - 0xD800) * 0x400 + (low - 0xDC00)) as char
}

/// The text that the units say. A unit of a pair without its other half says
/// the replacement character.
pub open spec fn decode(u: Seq<u16>) -> Seq<char>
    decreases u.len(),
{
    if u.len() == 0 {
        Seq::empty()
    } else if starts_with_pair(u) {
        seq![pair_char(u[0], u[1])] + decode(u.skip(2))
    } else if is_high(u[0]) || is_low(u[0]) {
        seq!['\u{FFFD}'] + decode(u.skip(1))
    } else {
        seq![u[0] as char] + decode(u.skip(1))
    }
}

/// Whether every unit of a pair has its other half.
pub open spec fn well_formed(u: Seq<u16>) -> bool
    decreases u.len(),
{
    if u.len() == 0 {
        true
    } else if starts_with_pair(u) {
        well_formed(u.skip(2))
    } else {
        !is_high(u[0]) && !is_low(u[0]) && well_formed(u.skip(1))
    }
}

/// The units of a character.
pub open spec fn encode_char(c: char) -> Seq<u16> {
    if (c as u32) < 0x1_0000 {
        seq![c as u16]
    } else {
        seq![
            (0xD800 + (c as u32 - 0x1_0000) / 0x400) as u16,
            (0xDC00 + (c as u32 - 0x1_0000) % 0x400) as u16,
        ]
    }
}

/// The units of a text.
pub open spec fn encode(s: Seq<char>) -> Seq<u16>
    decreases s.len(),
{
    if s.len() == 0 {
        Seq::empty()
    } else {
        encode_char(s[0]) + encode(s.skip(1))
    }
}

/// The bytes of some units, low byte first.
pub open spec fn le_bytes(u: Seq<u16>) -> Seq<u8> {
    Seq::new(
        2 * u.len(),
        |i: int|
            if i % 2 == 0 {
                (u[i / 2] % 0x100) as u8
            } else {
                (u[i / 2] / 0x100) as u8
            },
    )
}

/// The units in some bytes, low byte first.
pub open spec fn le_units(b: Seq<u8>) -> Seq<u16> {
    Seq::new(b.len() / 2, |i: int| wire::u16_at(b, 2 * i))
}

/// The numbers that characters have.
proof fn lemma_scalar(c: char)
    ensures
        0 <= c as int <= 0x10_FFFF,
        c as int <= 0xD7FF || 0xE000 <= c as int,
        c as u32 == c as int,
        (c as int) as char == c,
        (c as u32) as char == c,
{
}

/// Encoded text decodes to itself, and is well formed.
pub proof fn lemma_decode_of_encode(s: Seq<char>)
    ensures
        decode(encode(s)) == s,
        well_formed(encode(s)),
    decreases s.len(),
{
    if s.len() > 0 {
        let rest = s.skip(1);
        lemma_decode_of_encode(rest);
        let c = s[0];
        lemma_scalar(c);
        let u = encode(s);
        let e = encode(rest);
        if (c as u32) < 0x1_0000 {
            assert(u.skip(1) == e);
            assert(u[0] == c as u32);
            assert(u[0] as char == c);
            assert(decode(u) == seq![c] + decode(e));
        } else {
            assert(u.skip(2) == e);
            assert(starts_with_pair(u));
            assert(pair_char(u[0], u[1]) == c);
        }
        assert(seq![c] + rest == s);
    }
}

/// Well formed units are what the text that they say encodes to.
pub proof fn lemma_encode_of_decode(u: Seq<u16>)
    requires
        well_formed(u),
    ensures
        encode(decode(u)) == u,
    decreases u.len(),
{
    if u.len() > 0 {
        let n: int = if starts_with_pair(u) {
            2
        } else {
            1
        };
        let rest = u.skip(n);
        lemma_encode_of_decode(rest);
        let s = decode(u);
        assert(s.skip(1) == decode(rest));
        let c = s[0];
        lemma_scalar(c);
        if starts_with_pair(u) {
            assert(c == pair_char(u[0], u[1]));
            assert(c as int == 0x1_0000 + (u[0] - 0xD800) * 0x400 + (u[1] - 0xDC00));
            assert(encode_char(c) =~= u.take(2));
        } else {
            assert(c as int == u[0]);
            assert(encode_char(c) =~= u.take(1));
        }
        assert(u.take(n) + rest == u);
    }
}

/// An even number of bytes is what the units in them give.
pub proof fn lemma_bytes_of_units(b: Seq<u8>)
    requires
        b.len() % 2 == 0,
    ensures
        le_bytes(le_units(b)) == b,
{
    let again = le_bytes(le_units(b));
    assert forall|i: int| 0 <= i < b.len() implies again[i] == b[i] by {
        let k = i / 2;
        assert(le_units(b)[k] == wire::u16_at(b, 2 * k));
        if i % 2 == 0 {
            assert(i == 2 * k);
        } else {
            assert(i == 2 * k + 1);
        }
    }
}

/// Units are read back from their bytes.
pub proof fn lemma_units_of_bytes(u: Seq<u16>)
    ensures
        le_units(le_bytes(u)) == u,
{
    let b = le_bytes(u);
    assert forall|i: int| 0 <= i < u.len() implies wire::u16_at(b, 2 * i) == u[i] by {
        assert((2 * i) % 2 == 0 && (2 * i) / 2 == i);
        assert((2 * i + 1) % 2 == 1 && (2 * i + 1) / 2 == i);
    }
}

/// The text of some units, with a replacement character for each unit of a
/// pair without its other half, and whether there was none of these.
fn decode_units(units: &[u16]) -> (r: (String, bool))
    ensures
        r.0@ == decode(units@),
        r.1 == well_formed(units@),
{
    let mut out: String = String::new();
    let mut whole: bool = true;
    let mut i: usize = 0;
    let ghost all = units@;
    proof {
        assert(all.skip(0) == all);
        assert(Seq::<char>::empty() + decode(all) == decode(all));
    }
    while i < units.len()
        invariant
            i <= units.len(),
            all == units@,
            decode(all) == out@ + decode(all.skip(i as int)),
            well_formed(all) == (whole && well_formed(all.skip(i as int))),
        decreases units.len() - i,
    {
        let u: u16 = units[i];
        let ghost rest = all.skip(i as int);
        let ghost before = out@;
        proof {
            assert(rest[0] == u);
            assert(rest.skip(1) == all.skip(i + 1));
            if rest.len() >= 2 {
                assert(rest[1] == all[i + 1]);
                assert(rest.skip(2) == all.skip(i + 2));
            }
        }
        if 0xD800 <= u && u < 0xDC00 && i + 1 < units.len() && 0xDC00 <= units[i + 1] && units[i + 1]
            < 0xE000 {
            let n: u32 = 0x1_0000 + (u as u32 - 0xD800) * 0x400 + (units[i + 1] as u32 - 0xDC00);
            match char::from_u32(n) {
                Some(c) => {
                    proof {
                        lemma_scalar(c);
                        assert(c == pair_char(rest[0], rest[1]));
                    }
                    out.push(c);
                },
                None => {
                    assert(false);
                },
            }
            i = i + 2;
            proof {
                assert(out@ + decode(all.skip(i as int)) == before + decode(rest));
            }
        } else if 0xD800 <= u && u < 0xE000 {
            out.push('\u{FFFD}');
            whole = false;
            i = i + 1;
            proof {
                assert(out@ + decode(all.skip(i as int)) == before + decode(rest));
            }
        } else {
            match char::from_u32(u as u32) {
                Some(c) => {
                    proof {
                        lemma_scalar(c);
                        assert(c == rest[0] as char);
                    }
                    out.push(c);
                },
                None => {
                    assert(false);
                },
            }
            i = i + 1;
            proof {
                assert(out@ + decode(all.skip(i as int)) == before + decode(rest));
            }
        }
    }
    proof {
        assert(all.skip(i as int).len() == 0);
        assert(out@ + Seq::<char>::empty() == out@);
    }
    (out, whole)
}

/// The text of some units, with a replacement character for each unit of a
/// pair without its other half.
pub fn decode_lossy(units: &[u16]) -> (r: String)
    ensures
        r@ == decode(units@),
{
    decode_units(units).0
}

/// What is wrong with bytes of an odd number.
pub open spec fn odd_length_message(len: nat) -> Seq<char> {
    "odd-length UTF-16 byte stream ("@ + text::decimal(len) + " bytes)"@
}

/// The text in some bytes, low byte of each unit first and without a byte order
/// mark.
pub fn decode_utf16_le(bytes: &[u8]) -> (r: Result<String, String>)
    ensures
        r is Ok <==> bytes.len() % 2 == 0 && well_formed(le_units(bytes@)),
        r matches Ok(s) ==> s@ == decode(le_units(bytes@)) && le_bytes(encode(s@)) == bytes@,
        r matches Err(e) ==> e@ == if bytes.len() % 2 != 0 {
            odd_length_message(bytes.len() as nat)
        } else {
            "invalid utf-16: lone surrogate found"@
        },
{
    if bytes.len() % 2 != 0 {
        let mut e: String = String::new();
        e.append("odd-length UTF-16 byte stream (");
        text::push_u64(&mut e, bytes.len() as u64);
        e.append(" bytes)");
        proof {
            assert(e@ == odd_length_message(bytes@.len()));
        }
        return Err(e);
    }
    let mut units: Vec<u16> = Vec::new();
    let mut i: usize = 0;
    while i < bytes.len()
        invariant
            i <= bytes.len(),
            i % 2 == 0,
            bytes.len() % 2 == 0,
            units@ == le_units(bytes@).take(i as int / 2),
        decreases bytes.len() - i,
    {
        units.push(wire::read_u16(bytes, i));
        proof {
            assert(le_units(bytes@).take(i as int / 2 + 1) == le_units(bytes@).take(
                i as int / 2,
            ).push(wire::u16_at(bytes@, i as int)));
        }
        i = i + 2;
    }
    proof {
        assert(units@ == le_units(bytes@));
    }
    let (s, whole) = decode_units(units.as_slice());
    if whole {
        proof {
            lemma_utf16_le_keeps_the_bytes(bytes@);
        }
        Ok(s)
    } else {
        Err("invalid utf-16: lone surrogate found".to_owned())
    }
}

/// The bytes of a text, low byte of each unit first and without a byte order
/// mark.
pub fn encode_utf16_le(s: &str) -> (r: Vec<u8>)
    ensures
        r@ == le_bytes(encode(s@)),
{
    let chars: Vec<char> = text::chars_of(s);
    let mut out: Vec<u8> = Vec::new();
    let mut i: usize = 0;
    let ghost all = s@;
    proof {
        assert(all.skip(0) == all);
        assert(le_bytes(encode(all)) == out@ + le_bytes(encode(all)));
    }
    while i < chars.len()
        invariant
            i <= chars.len(),
            all == chars@,
            le_bytes(encode(all)) == out@ + le_bytes(encode(all.skip(i as int))),
        decreases chars.len() - i,
    {
        proof {
            lemma_scalar(chars@[i as int]);
        }
        let c: u32 = chars[i] as u32;
        let ghost before = out@;
        let ghost rest = all.skip(i as int);
        proof {
            assert(rest[0] == all[i as int]);
            assert(rest.skip(1) == all.skip(i + 1));
        }
        if c < 0x1_0000 {
            let unit: [u8; 2] = wire::u16_bytes(c as u16);
            wire::append(&mut out, &unit);
        } else {
            let high: [u8; 2] = wire::u16_bytes((0xD800 + (c - 0x1_0000) / 0x400) as u16);
            let low: [u8; 2] = wire::u16_bytes((0xDC00 + (c - 0x1_0000) % 0x400) as u16);
            wire::append(&mut out, &high);
            wire::append(&mut out, &low);
        }
        proof {
            lemma_le_bytes_adds(encode_char(rest[0]), encode(rest.skip(1)));
            assert(out@ == before + le_bytes(encode_char(rest[0])));
            assert(out@ + le_bytes(encode(rest.skip(1))) == before + (le_bytes(
                encode_char(rest[0]),
            ) + le_bytes(encode(rest.skip(1)))));
        }
        i = i + 1;
    }
    proof {
        assert(all.skip(i as int).len() == 0);
        assert(out@ + le_bytes(encode(all.skip(i as int))) == out@);
    }
    out
}

proof fn lemma_le_bytes_adds(a: Seq<u16>, b: Seq<u16>)
    ensures
        le_bytes(a + b) == le_bytes(a) + le_bytes(b),
{
    assert forall|i: int| 0 <= i < 2 * (a.len() + b.len()) implies le_bytes(a + b)[i] == (le_bytes(
        a,
    ) + le_bytes(b))[i] by {
        if i >= 2 * a.len() {
            assert((i - 2 * a.len()) / 2 == i / 2 - a.len());
            assert((i - 2 * a.len()) % 2 == i % 2);
        }
    }
}

/// What was encoded is decoded again: the bytes of a text are an even number,
/// well formed, and say that text.
pub proof fn lemma_utf16_le_round_trip(s: Seq<char>)
    ensures
        le_bytes(encode(s)).len() % 2 == 0,
        well_formed(le_units(le_bytes(encode(s)))),
        decode(le_units(le_bytes(encode(s)))) == s,
{
    lemma_decode_of_encode(s);
    lemma_units_of_bytes(encode(s));
}

/// What was decoded is encoded again: the text of an even number of well formed
/// bytes gives just those bytes.
pub proof fn lemma_utf16_le_keeps_the_bytes(b: Seq<u8>)
    requires
        b.len() % 2 == 0,
        well_formed(le_units(b)),
    ensures
        le_bytes(encode(decode(le_units(b)))) == b,
{
    lemma_encode_of_decode(le_units(b));
    lemma_bytes_of_units(b);
}

/// Half of a pair without its other half is read as the replacement character, and
/// does not keep what follows it from being read.
pub proof fn lemma_half_a_pair(half: u16, rest: Seq<u16>)
    requires
        0xD800 <= half <= 0xDFFF,
        half < 0xDC00 ==> rest.len() == 0 || !(0xDC00 <= rest[0] <= 0xDFFF),
    ensures
        decode(seq![half] + rest) == seq!['\u{FFFD}'] + decode(rest),
        !well_formed(seq![half] + rest),
{
    let u = seq![half] + rest;
    assert(u.skip(1) =~= rest);
}

} // verus!
