//! Little-endian fields inside a byte buffer.
//!
//! The spec functions say what value a field at some offset has; the readers
//! take it out of a buffer and the writers put it into one.

use vstd::prelude::*;

use crate::binary32::Binary32;

verus! {

/// The unsigned 16-bit field at offset `i`.
pub open spec fn u16_at(b: Seq<u8>, i: int) -> u16 {
    (b[i] + 0x100 * b[i + 1]) as u16
}

/// The unsigned 32-bit field at offset `i`.
pub open spec fn u32_at(b: Seq<u8>, i: int) -> u32 {
    (b[i] + 0x100 * b[i + 1] + 0x1_0000 * b[i + 2] + 0x100_0000 * b[i + 3]) as u32
}

/// The two's complement reading of an unsigned 8-bit number.
pub open spec fn signed_8(n: u8) -> i8 {
    if n < 0x80 {
        n as i8
    } else {
        (n - 0x100) as i8
    }
}

/// The two's complement reading of an unsigned 16-bit number.
pub open spec fn signed_16(n: u16) -> i16 {
    if n < 0x8000 {
        n as i16
    } else {
        (n - 0x1_0000) as i16
    }
}

/// The two's complement reading of an unsigned 32-bit number.
pub open spec fn signed_32(n: u32) -> i32 {
    if n < 0x8000_0000 {
        n as i32
    } else {
        (n - 0x1_0000_0000) as i32
    }
}

/// The signed 8-bit field at offset `i`.
pub open spec fn i8_at(b: Seq<u8>, i: int) -> i8 {
    signed_8(b[i])
}

/// The signed 16-bit field at offset `i`.
pub open spec fn i16_at(b: Seq<u8>, i: int) -> i16 {
    signed_16(u16_at(b, i))
}

/// The signed 32-bit field at offset `i`.
pub open spec fn i32_at(b: Seq<u8>, i: int) -> i32 {
    signed_32(u32_at(b, i))
}

/// The binary32 field at offset `i`.
pub open spec fn f32_at(b: Seq<u8>, i: int) -> Binary32 {
    Binary32 { bits: u32_at(b, i) }
}

/// The two bytes of a 16-bit number, low byte first.
pub open spec fn u16_image(n: u16) -> Seq<u8> {
    seq![(n % 0x100) as u8, (n / 0x100) as u8]
}

/// The four bytes of a 32-bit number, low byte first.
pub open spec fn u32_image(n: u32) -> Seq<u8> {
    seq![
        (n % 0x100) as u8,
        ((n / 0x100) % 0x100) as u8,
        ((n / 0x1_0000) % 0x100) as u8,
        (n / 0x100_0000) as u8,
    ]
}

/// The unsigned number with the same 32 bits as `n`.
pub open spec fn unsigned_32(n: i32) -> u32 {
    if n >= 0 {
        n as u32
    } else {
        (n + 0x1_0000_0000) as u32
    }
}

/// The four bytes of a signed 32-bit number, low byte first.
pub open spec fn i32_image(n: i32) -> Seq<u8> {
    u32_image(unsigned_32(n))
}

/// A 16-bit number is read back from its bytes.
pub proof fn lemma_u16_read_back(n: u16, b: Seq<u8>, i: int)
    requires
        0 <= i,
        i + 2 <= b.len(),
        b.subrange(i, i + 2) == u16_image(n),
    ensures
        u16_at(b, i) == n,
{
    let s = b.subrange(i, i + 2);
    assert(b[i] == s[0] && b[i + 1] == s[1]);
}

/// A 32-bit number is read back from its bytes.
pub proof fn lemma_u32_read_back(n: u32, b: Seq<u8>, i: int)
    requires
        0 <= i,
        i + 4 <= b.len(),
        b.subrange(i, i + 4) == u32_image(n),
    ensures
        u32_at(b, i) == n,
{
    let s = b.subrange(i, i + 4);
    assert(b[i] == s[0] && b[i + 1] == s[1] && b[i + 2] == s[2] && b[i + 3] == s[3]);
}

/// A signed 32-bit number is read back from its bytes.
pub proof fn lemma_i32_read_back(n: i32, b: Seq<u8>, i: int)
    requires
        0 <= i,
        i + 4 <= b.len(),
        b.subrange(i, i + 4) == i32_image(n),
    ensures
        i32_at(b, i) == n,
{
    lemma_u32_read_back(unsigned_32(n), b, i);
}

/// Whether the `n` bytes of `a` from `i` on are the `n` bytes of `b` from `j`
/// on.
pub open spec fn agree(a: Seq<u8>, i: int, b: Seq<u8>, j: int, n: int) -> bool {
    &&& 0 <= i
    &&& 0 <= j
    &&& i + n <= a.len()
    &&& j + n <= b.len()
    &&& a.subrange(i, i + n) == b.subrange(j, j + n)
}

/// Stretches that agree one after the other agree as one.
pub proof fn lemma_agree_join(a: Seq<u8>, i: int, b: Seq<u8>, j: int, m: int, n: int)
    requires
        0 <= m,
        0 <= n,
        agree(a, i, b, j, m),
        agree(a, i + m, b, j + m, n),
    ensures
        agree(a, i, b, j, m + n),
{
    assert(a.subrange(i, i + m + n) == a.subrange(i, i + m) + a.subrange(i + m, i + m + n));
    assert(b.subrange(j, j + m + n) == b.subrange(j, j + m) + b.subrange(j + m, j + m + n));
}

/// A byte that is the same in both buffers.
pub proof fn lemma_u8_agree(a: Seq<u8>, i: int, b: Seq<u8>, j: int)
    requires
        0 <= i < a.len(),
        0 <= j < b.len(),
        a[i] == b[j],
    ensures
        agree(a, i, b, j, 1),
{
    assert(a.subrange(i, i + 1) == b.subrange(j, j + 1));
}

/// Buffers in which a 16-bit field reads the same hold the same two bytes.
pub proof fn lemma_u16_agree(a: Seq<u8>, i: int, b: Seq<u8>, j: int)
    requires
        0 <= i,
        0 <= j,
        i + 2 <= a.len(),
        j + 2 <= b.len(),
        u16_at(a, i) == u16_at(b, j),
    ensures
        agree(a, i, b, j, 2),
{
    assert(a[i] == b[j] && a[i + 1] == b[j + 1]);
    assert(a.subrange(i, i + 2) == b.subrange(j, j + 2));
}

/// Buffers in which a 32-bit field reads the same hold the same four bytes.
pub proof fn lemma_u32_agree(a: Seq<u8>, i: int, b: Seq<u8>, j: int)
    requires
        0 <= i,
        0 <= j,
        i + 4 <= a.len(),
        j + 4 <= b.len(),
        u32_at(a, i) == u32_at(b, j),
    ensures
        agree(a, i, b, j, 4),
{
    lemma_digits(a[i], a[i + 1], a[i + 2], a[i + 3]);
    lemma_digits(b[j], b[j + 1], b[j + 2], b[j + 3]);
    assert(a.subrange(i, i + 4) == b.subrange(j, j + 4));
}

/// The digits of a number in base 256 are quotients and remainders of it.
proof fn lemma_digits(b0: u8, b1: u8, b2: u8, b3: u8)
    ensures
        ({
            let n = b0 + 0x100 * b1 + 0x1_0000 * b2 + 0x100_0000 * b3;
            &&& n as u32 == n
            &&& b0 == n % 0x100
            &&& b1 == (n / 0x100) % 0x100
            &&& b2 == (n / 0x1_0000) % 0x100
            &&& b3 == n / 0x100_0000
        }),
{
    let n = b0 + 0x100 * b1 + 0x1_0000 * b2 + 0x100_0000 * b3;
    let n1 = b1 + 0x100 * b2 + 0x1_0000 * b3;
    let n2 = b2 + 0x100 * b3;
    vstd::arithmetic::div_mod::lemma_fundamental_div_mod_converse(n, 0x100, n1, b0 as int);
    vstd::arithmetic::div_mod::lemma_fundamental_div_mod_converse(
        n,
        0x1_0000,
        n2,
        b0 + 0x100 * b1,
    );
    vstd::arithmetic::div_mod::lemma_fundamental_div_mod_converse(
        n,
        0x100_0000,
        b3 as int,
        b0 + 0x100 * b1 + 0x1_0000 * b2,
    );
    vstd::arithmetic::div_mod::lemma_fundamental_div_mod_converse(n1, 0x100, n2, b1 as int);
    vstd::arithmetic::div_mod::lemma_fundamental_div_mod_converse(
        n2,
        0x100,
        b3 as int,
        b2 as int,
    );
}

/// Consecutive records that read the same in both buffers take the same bytes
/// in both.
pub proof fn lemma_records_agree<T: Dense>(
    r: Seq<T>,
    a: Seq<u8>,
    i: int,
    b: Seq<u8>,
    j: int,
    stride: int,
    n: int,
)
    requires
        0 <= n <= r.len(),
        stride == T::size(),
        0 <= i,
        0 <= j,
        i + stride * n <= a.len(),
        j + stride * n <= b.len(),
        forall|k: int| 0 <= k < n ==> (#[trigger] r[k]).decodes(a, i + stride * k),
        forall|k: int| 0 <= k < n ==> (#[trigger] r[k]).decodes(b, j + stride * k),
    ensures
        agree(a, i, b, j, stride * n),
    decreases n,
{
    if n == 0 {
        assert(a.subrange(i, i) == b.subrange(j, j));
    } else {
        assert(stride * (n - 1) + stride == stride * n) by (nonlinear_arith);
        assert(0 <= stride * (n - 1)) by (nonlinear_arith)
            requires
                1 <= n,
                0 <= stride,
        ;
        lemma_records_agree(r, a, i, b, j, stride, n - 1);
        assert(r[n - 1].decodes(a, i + stride * (n - 1)));
        T::lemma_faithful(r[n - 1], a, i + stride * (n - 1), b, j + stride * (n - 1));
        lemma_agree_join(a, i, b, j, stride * (n - 1), stride);
    }
}

pub fn to_signed_8(n: u8) -> (r: i8)
    ensures
        r == signed_8(n),
{
    if n < 0x80 {
        n as i8
    } else {
        (n as i16 - 0x100) as i8
    }
}

pub fn to_signed_16(n: u16) -> (r: i16)
    ensures
        r == signed_16(n),
{
    if n < 0x8000 {
        n as i16
    } else {
        (n as i32 - 0x1_0000) as i16
    }
}

pub fn to_signed_32(n: u32) -> (r: i32)
    ensures
        r == signed_32(n),
{
    if n < 0x8000_0000 {
        n as i32
    } else {
        (n as i64 - 0x1_0000_0000) as i32
    }
}

pub fn read_u8(buf: &[u8], at: usize) -> (r: u8)
    requires
        at < buf.len(),
    ensures
        r == buf@[at as int],
{
    buf[at]
}

pub fn read_i8(buf: &[u8], at: usize) -> (r: i8)
    requires
        at < buf.len(),
    ensures
        r == i8_at(buf@, at as int),
{
    to_signed_8(buf[at])
}

pub fn read_u16(buf: &[u8], at: usize) -> (r: u16)
    requires
        at + 2 <= buf.len(),
    ensures
        r == u16_at(buf@, at as int),
{
    buf[at] as u16 + 0x100 * buf[at + 1] as u16
}

pub fn read_i16(buf: &[u8], at: usize) -> (r: i16)
    requires
        at + 2 <= buf.len(),
    ensures
        r == i16_at(buf@, at as int),
{
    to_signed_16(read_u16(buf, at))
}

pub fn read_u32(buf: &[u8], at: usize) -> (r: u32)
    requires
        at + 4 <= buf.len(),
    ensures
        r == u32_at(buf@, at as int),
{
    buf[at] as u32 + 0x100 * buf[at + 1] as u32 + 0x1_0000 * buf[at + 2] as u32 + 0x100_0000 * buf[
    at + 3] as u32
}

pub fn read_i32(buf: &[u8], at: usize) -> (r: i32)
    requires
        at + 4 <= buf.len(),
    ensures
        r == i32_at(buf@, at as int),
{
    to_signed_32(read_u32(buf, at))
}

pub fn read_f32(buf: &[u8], at: usize) -> (r: Binary32)
    requires
        at + 4 <= buf.len(),
    ensures
        r == f32_at(buf@, at as int),
{
    Binary32 { bits: read_u32(buf, at) }
}

/// `N` bytes from offset `at` on.
pub fn read_bytes<const N: usize>(buf: &[u8], at: usize) -> (r: [u8; N])
    requires
        at + N <= buf.len(),
    ensures
        r@ == buf@.subrange(at as int, at + N),
{
    let mut r: [u8; N] = [0u8;N];
    let mut i: usize = 0;
    while i < N
        invariant
            i <= N,
            at + N <= buf.len(),
            forall|k: int| 0 <= k < i ==> r@[k] == buf@[at + k],
        decreases N - i,
    {
        r[i] = buf[at + i];
        i = i + 1;
    }
    r
}

/// `N` consecutive unsigned 16-bit fields from offset `at` on.
pub fn read_u16s<const N: usize>(buf: &[u8], at: usize) -> (r: [u16; N])
    requires
        at + 2 * N <= buf.len(),
    ensures
        forall|k: int| 0 <= k < N ==> #[trigger] r@[k] == u16_at(buf@, at + 2 * k),
{
    let mut r: [u16; N] = [0u16;N];
    let mut i: usize = 0;
    while i < N
        invariant
            i <= N,
            at + 2 * N <= buf.len(),
            forall|k: int| 0 <= k < i ==> #[trigger] r@[k] == u16_at(buf@, at + 2 * k),
        decreases N - i,
    {
        r[i] = read_u16(buf, at + 2 * i);
        i = i + 1;
    }
    r
}

/// `N` consecutive signed 16-bit fields from offset `at` on.
pub fn read_i16s<const N: usize>(buf: &[u8], at: usize) -> (r: [i16; N])
    requires
        at + 2 * N <= buf.len(),
    ensures
        forall|k: int| 0 <= k < N ==> #[trigger] r@[k] == i16_at(buf@, at + 2 * k),
{
    let mut r: [i16; N] = [0i16;N];
    let mut i: usize = 0;
    while i < N
        invariant
            i <= N,
            at + 2 * N <= buf.len(),
            forall|k: int| 0 <= k < i ==> #[trigger] r@[k] == i16_at(buf@, at + 2 * k),
        decreases N - i,
    {
        r[i] = read_i16(buf, at + 2 * i);
        i = i + 1;
    }
    r
}

/// `N` consecutive binary32 fields from offset `at` on.
pub fn read_f32s<const N: usize>(buf: &[u8], at: usize) -> (r: [Binary32; N])
    requires
        at + 4 * N <= buf.len(),
    ensures
        forall|k: int| 0 <= k < N ==> #[trigger] r@[k] == f32_at(buf@, at + 4 * k),
{
    let mut r: [Binary32; N] = [Binary32 { bits: 0 };N];
    let mut i: usize = 0;
    while i < N
        invariant
            i <= N,
            at + 4 * N <= buf.len(),
            forall|k: int| 0 <= k < i ==> #[trigger] r@[k] == f32_at(buf@, at + 4 * k),
        decreases N - i,
    {
        r[i] = read_f32(buf, at + 4 * i);
        i = i + 1;
    }
    r
}

/// A record of fixed size inside a packet.
pub trait Record: Copy {
    /// How many bytes the record takes.
    spec fn size() -> nat;

    /// Whether the record is what the bytes from offset `at` on hold.
    spec fn decodes(self, b: Seq<u8>, at: int) -> bool;

    /// The record at offset `at`.
    fn read(buf: &[u8], at: usize) -> (r: Self)
        requires
            at + Self::size() <= buf.len(),
        ensures
            r.decodes(buf@, at as int),
    ;
}

/// A record without padding.
pub trait Dense: Record {
    /// The record is a byte-for-byte copy: where it is what two buffers hold, the
    /// two hold the same bytes there.
    proof fn lemma_faithful(self, a: Seq<u8>, i: int, b: Seq<u8>, j: int)
        requires
            0 <= i,
            0 <= j,
            i + Self::size() <= a.len(),
            j + Self::size() <= b.len(),
            self.decodes(a, i),
            self.decodes(b, j),
        ensures
            agree(a, i, b, j, Self::size() as int),
    ;
}

/// `N` consecutive records from offset `at` on, `stride` bytes each.
pub fn read_records<T: Record, const N: usize>(buf: &[u8], at: usize, stride: usize) -> (r: [T; N])
    requires
        0 < N,
        stride == T::size(),
        at + stride * N <= buf.len(),
    ensures
        forall|k: int| 0 <= k < N ==> (#[trigger] r@[k]).decodes(buf@, at + stride * k),
{
    proof {
        assert(stride <= stride * N) by (nonlinear_arith)
            requires
                1 <= N,
                0 <= stride,
        ;
    }
    let mut r: [T; N] = [T::read(buf, at);N];
    let mut i: usize = 1;
    let mut o: usize = at;
    while i < N
        invariant
            1 <= i <= N,
            stride == T::size(),
            at + stride * N <= buf.len(),
            o == at + stride * (i - 1),
            forall|k: int| 0 <= k < i ==> (#[trigger] r@[k]).decodes(buf@, at + stride * k),
        decreases N - i,
    {
        proof {
            assert(stride * (i - 1) + stride == stride * i) by (nonlinear_arith);
            assert(stride * i + stride == stride * (i + 1)) by (nonlinear_arith);
            assert(stride * (i + 1) <= stride * N) by (nonlinear_arith)
                requires
                    i + 1 <= N,
                    0 <= stride,
            ;
        }
        o = o + stride;
        r[i] = T::read(buf, o);
        i = i + 1;
    }
    r
}

pub fn u16_bytes(n: u16) -> (r: [u8; 2])
    ensures
        r@ == u16_image(n),
{
    [(n % 0x100) as u8, (n / 0x100) as u8]
}

pub fn u32_bytes(n: u32) -> (r: [u8; 4])
    ensures
        r@ == u32_image(n),
{
    [
        (n % 0x100) as u8,
        ((n / 0x100) % 0x100) as u8,
        ((n / 0x1_0000) % 0x100) as u8,
        (n / 0x100_0000) as u8,
    ]
}

pub fn i32_bytes(n: i32) -> (r: [u8; 4])
    ensures
        r@ == i32_image(n),
{
    let u: u32 = if n >= 0 {
        n as u32
    } else {
        (n as i64 + 0x1_0000_0000) as u32
    };
    u32_bytes(u)
}

/// Appends the bytes of a slice.
pub fn append(out: &mut Vec<u8>, bytes: &[u8])
    ensures
        final(out)@ == old(out)@ + bytes@,
{
    let mut i: usize = 0;
    while i < bytes.len()
        invariant
            i <= bytes.len(),
            out@ == old(out)@ + bytes@.take(i as int),
        decreases bytes.len() - i,
    {
        out.push(bytes[i]);
        proof {
            assert(bytes@.take(i + 1) == bytes@.take(i as int).push(bytes@[i as int]));
        }
        i = i + 1;
    }
    proof {
        assert(bytes@.take(i as int) == bytes@);
    }
}

} // verus!
