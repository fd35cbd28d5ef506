//! What records look like on the wire, written from the sender's side.
//!
//! The image of a record is the images of its fields, one after the other in the
//! order of the packed structure. Nothing here knows an offset: where a field
//! stands follows from the sizes of those before it. The laws say that a reader
//! gives back every field of a record that was laid out so.

use vstd::prelude::*;

use crate::binary32::Binary32;
use crate::wire;
use crate::wire::Record;

pub mod assetto_corsa;
pub mod codemasters_legacy;
pub mod competizione;
pub mod forza;
pub mod madness;
pub mod outgauge;
pub mod wreckfest;

verus! {

/// The byte of a signed 8-bit number.
pub open spec fn i8_image(n: i8) -> Seq<u8> {
    seq![
        if n >= 0 {
            n as u8
        } else {
            (n + 0x100) as u8
        },
    ]
}

/// The two bytes of a signed 16-bit number, low byte first.
pub open spec fn i16_image(n: i16) -> Seq<u8> {
    wire::u16_image(
        if n >= 0 {
            n as u16
        } else {
            (n + 0x1_0000) as u16
        },
    )
}

/// The four bytes of a binary32 number, low byte first.
#[verifier::opaque]
pub open spec fn f32_image(n: Binary32) -> Seq<u8> {
    wire::u32_image(n.bits)
}

/// The images of some values, one after the other.
pub open spec fn run<T>(s: Seq<T>, image: spec_fn(T) -> Seq<u8>) -> Seq<u8>
    decreases s.len(),
{
    if s.len() == 0 {
        Seq::empty()
    } else {
        run(s.drop_last(), image) + image(s.last())
    }
}

/// Unsigned 16-bit numbers, one after the other.
pub open spec fn u16s_image(s: Seq<u16>) -> Seq<u8> {
    run(s, |n: u16| wire::u16_image(n))
}

/// Signed 16-bit numbers, one after the other.
pub open spec fn i16s_image(s: Seq<i16>) -> Seq<u8> {
    run(s, |n: i16| i16_image(n))
}

/// Binary32 numbers, one after the other.
pub open spec fn f32s_image(s: Seq<Binary32>) -> Seq<u8> {
    run(s, |n: Binary32| f32_image(n))
}

/// A record that can be laid out.
pub trait Packed: Record {
    /// The bytes of the record.
    spec fn image(self) -> Seq<u8>;

    /// The image has the record's size, and the record is what its image holds,
    /// wherever the image stands.
    proof fn lemma_read_back(self, b: Seq<u8>, at: int)
        requires
            stands(b, at, self.image()),
        ensures
            self.image().len() == Self::size(),
            self.decodes(b, at),
    ;

    /// The image has the record's size.
    proof fn lemma_image_size(self)
        ensures
            self.image().len() == Self::size(),
    ;

    /// Bytes hold one record.
    proof fn lemma_one_reading(self, other: Self, b: Seq<u8>, at: int)
        requires
            self.decodes(b, at),
            other.decodes(b, at),
        ensures
            self == other,
    ;
}

/// Records, one after the other.
pub open spec fn records_image<T: Packed>(s: Seq<T>) -> Seq<u8> {
    run(s, |r: T| r.image())
}

/// Whether some bytes stand in a buffer at an offset.
#[verifier::opaque]
pub open spec fn stands(b: Seq<u8>, at: int, part: Seq<u8>) -> bool {
    &&& 0 <= at
    &&& at + part.len() <= b.len()
    &&& b.subrange(at, at + part.len()) == part
}

/// Whether a buffer starts with the image of a record.
pub open spec fn starts_with<T: Packed>(b: Seq<u8>, sent: T) -> bool {
    &&& sent.image().len() <= b.len()
    &&& b.subrange(0, sent.image().len() as int) == sent.image()
}

/// Whether a buffer is the image of a record but for zeros at the end of the
/// image, which are missing.
pub open spec fn cut_short<T: Packed>(b: Seq<u8>, sent: T) -> bool {
    &&& b.len() <= sent.image().len()
    &&& b == sent.image().subrange(0, b.len() as int)
    &&& forall|i: int| b.len() <= i < sent.image().len() ==> #[trigger] sent.image()[i] == 0
}

/// What is read of bytes that were filled up with zeros, or cut off, to the size of
/// a record is the record that they are from.
pub proof fn lemma_filled_read_back<T: Packed>(sent: T, received: T, b: Seq<u8>, whole: Seq<u8>)
    requires
        cut_short(b, sent) || starts_with(b, sent),
        whole.len() == T::size(),
        forall|i: int|
            0 <= i < whole.len() ==> #[trigger] whole[i] == if i < b.len() {
                b[i]
            } else {
                0
            },
        received.decodes(whole, 0),
    ensures
        received == sent,
{
    sent.lemma_image_size();
    let image = sent.image();
    let n = T::size() as int;
    assert forall|i: int| 0 <= i < n implies #[trigger] whole[i] == image[i] by {
        if starts_with(b, sent) {
            assert(b.subrange(0, n)[i] == b[i]);
        } else if i < b.len() {
            assert(image.subrange(0, b.len() as int)[i] == image[i]);
        }
    }
    assert(whole == image);
    assert(whole.subrange(0, n) == whole);
    lemma_record_read_back(sent, received, whole, 0);
}

/// The same of every record at once.
pub proof fn lemma_all_filled<T: Packed>(received: T, b: Seq<u8>, whole: Seq<u8>)
    requires
        whole.len() == T::size(),
        forall|i: int|
            0 <= i < whole.len() ==> #[trigger] whole[i] == if i < b.len() {
                b[i]
            } else {
                0
            },
        received.decodes(whole, 0),
    ensures
        forall|sent: T| #[trigger] cut_short(b, sent) ==> received == sent,
        forall|sent: T| #[trigger] starts_with(b, sent) ==> received == sent,
{
    assert forall|sent: T| #[trigger] cut_short(b, sent) implies received == sent by {
        lemma_filled_read_back(sent, received, b, whole);
    }
    assert forall|sent: T| #[trigger] starts_with(b, sent) implies received == sent by {
        lemma_filled_read_back(sent, received, b, whole);
    }
}

/// A record is what a buffer holds that starts with its image.
pub proof fn lemma_start_decodes<T: Packed>(sent: T, b: Seq<u8>)
    requires
        starts_with(b, sent),
    ensures
        sent.decodes(b, 0),
        b.len() >= T::size(),
{
    reveal(stands);
    sent.lemma_read_back(b, 0);
}

/// Whatever is read at the start of a buffer that starts with the image of a
/// record is that record.
pub proof fn lemma_start_read_back<T: Packed>(sent: T, received: T, b: Seq<u8>)
    requires
        starts_with(b, sent),
        received.decodes(b, 0),
    ensures
        received == sent,
{
    lemma_record_read_back(sent, received, b, 0);
}

/// Whatever is read where the image of a record stands is that record, field by
/// field.
pub proof fn lemma_record_read_back<T: Packed>(sent: T, received: T, b: Seq<u8>, at: int)
    requires
        0 <= at,
        at + sent.image().len() <= b.len(),
        b.subrange(at, at + sent.image().len()) == sent.image(),
        received.decodes(b, at),
    ensures
        received == sent,
        sent.image().len() == T::size(),
{
    reveal(stands);
    sent.lemma_read_back(b, at);
    sent.lemma_one_reading(received, b, at);
}

/// Where two parts stand one after the other, each of them stands.
pub proof fn lemma_split(b: Seq<u8>, at: int, x: Seq<u8>, y: Seq<u8>)
    requires
        stands(b, at, x + y),
    ensures
        stands(b, at, x),
        stands(b, at + x.len(), y),
{
    reveal(stands);
    let s = b.subrange(at, at + (x + y).len());
    assert(s.len() == x.len() + y.len());
    assert(b.subrange(at, at + x.len()) == s.subrange(0, x.len() as int));
    assert(s.subrange(0, x.len() as int) == x);
    assert(b.subrange(at + x.len(), at + x.len() + y.len()) == s.subrange(
        x.len() as int,
        s.len() as int,
    ));
    assert(s.subrange(x.len() as int, s.len() as int) == y);
}

/// Where parts stand.
pub proof fn lemma_stands(b: Seq<u8>, at: int, part: Seq<u8>)
    ensures
        stands(b, at, part) <==> 0 <= at && at + part.len() <= b.len() && b.subrange(
            at,
            at + part.len(),
        ) == part,
{
    reveal(stands);
}

pub proof fn lemma_u8_stands(b: Seq<u8>, at: int, n: u8)
    requires
        stands(b, at, seq![n]),
    ensures
        b[at] == n,
{
    reveal(stands);
    assert(b.subrange(at, at + 1)[0] == b[at]);
}

pub proof fn lemma_i8_stands(b: Seq<u8>, at: int, n: i8)
    requires
        stands(b, at, i8_image(n)),
    ensures
        wire::i8_at(b, at) == n,
{
    reveal(stands);
    assert(b.subrange(at, at + 1)[0] == b[at]);
}

pub proof fn lemma_u16_stands(b: Seq<u8>, at: int, n: u16)
    requires
        stands(b, at, wire::u16_image(n)),
    ensures
        wire::u16_at(b, at) == n,
{
    reveal(stands);
    wire::lemma_u16_read_back(n, b, at);
}

pub proof fn lemma_i16_stands(b: Seq<u8>, at: int, n: i16)
    requires
        stands(b, at, i16_image(n)),
    ensures
        wire::i16_at(b, at) == n,
{
    reveal(stands);
    let u: u16 = if n >= 0 {
        n as u16
    } else {
        (n + 0x1_0000) as u16
    };
    wire::lemma_u16_read_back(u, b, at);
}

pub proof fn lemma_u32_stands(b: Seq<u8>, at: int, n: u32)
    requires
        stands(b, at, wire::u32_image(n)),
    ensures
        wire::u32_at(b, at) == n,
{
    reveal(stands);
    wire::lemma_u32_read_back(n, b, at);
}

pub proof fn lemma_i32_stands(b: Seq<u8>, at: int, n: i32)
    requires
        stands(b, at, wire::i32_image(n)),
    ensures
        wire::i32_at(b, at) == n,
{
    reveal(stands);
    wire::lemma_i32_read_back(n, b, at);
}

pub proof fn lemma_f32_stands(b: Seq<u8>, at: int, n: Binary32)
    requires
        stands(b, at, f32_image(n)),
    ensures
        wire::f32_at(b, at) == n,
{
    reveal(f32_image);
    lemma_u32_stands(b, at, n.bits);
}

pub proof fn lemma_f32_size(n: Binary32)
    ensures
        f32_image(n).len() == 4,
{
    reveal(f32_image);
}

pub proof fn lemma_bytes_stand(b: Seq<u8>, at: int, s: Seq<u8>)
    requires
        stands(b, at, s),
    ensures
        b.subrange(at, at + s.len()) == s,
{
    reveal(stands);
}

/// How long a run is whose images are of one size.
pub proof fn lemma_run_size<T>(s: Seq<T>, image: spec_fn(T) -> Seq<u8>, w: int)
    requires
        forall|k: int| 0 <= k < s.len() ==> image(#[trigger] s[k]).len() == w,
    ensures
        run(s, image).len() == w * s.len(),
    decreases s.len(),
{
    if s.len() > 0 {
        let t = s.drop_last();
        assert forall|k: int| 0 <= k < t.len() implies image(#[trigger] t[k]).len() == w by {
            assert(t[k] == s[k]);
        }
        lemma_run_size(t, image, w);
        assert(image(s[s.len() - 1]).len() == w);
        assert(w * (s.len() - 1) + w == w * s.len()) by (nonlinear_arith);
    } else {
        assert(w * s.len() == 0) by (nonlinear_arith)
            requires
                s.len() == 0,
        ;
    }
}

/// In a run, the images stand at equal distances.
pub proof fn lemma_run_stands<T>(
    b: Seq<u8>,
    at: int,
    s: Seq<T>,
    image: spec_fn(T) -> Seq<u8>,
    w: int,
)
    requires
        stands(b, at, run(s, image)),
        forall|k: int| 0 <= k < s.len() ==> image(#[trigger] s[k]).len() == w,
    ensures
        run(s, image).len() == w * s.len(),
        forall|k: int| 0 <= k < s.len() ==> stands(b, at + w * k, image(#[trigger] s[k])),
    decreases s.len(),
{
    lemma_run_size(s, image, w);
    if s.len() > 0 {
        let t = s.drop_last();
        assert forall|k: int| 0 <= k < t.len() implies image(#[trigger] t[k]).len() == w by {
            assert(t[k] == s[k]);
        }
        lemma_run_size(t, image, w);
        lemma_split(b, at, run(t, image), image(s.last()));
        lemma_run_stands(b, at, t, image, w);
        assert forall|k: int| 0 <= k < s.len() implies stands(b, at + w * k, image(#[trigger] s[k])) by {
            if k < t.len() {
                assert(t[k] == s[k]);
            }
        }
    }
}

pub proof fn lemma_u16s_stand(b: Seq<u8>, at: int, s: Seq<u16>)
    requires
        stands(b, at, u16s_image(s)),
    ensures
        u16s_image(s).len() == 2 * s.len(),
        forall|k: int| 0 <= k < s.len() ==> #[trigger] s[k] == wire::u16_at(b, at + 2 * k),
{
    let f = |n: u16| wire::u16_image(n);
    lemma_run_stands(b, at, s, f, 2);
    assert forall|k: int| 0 <= k < s.len() implies #[trigger] s[k] == wire::u16_at(b, at + 2 * k) by {
        assert(stands(b, at + 2 * k, f(s[k])));
        lemma_u16_stands(b, at + 2 * k, s[k]);
    }
}

pub proof fn lemma_i16s_stand(b: Seq<u8>, at: int, s: Seq<i16>)
    requires
        stands(b, at, i16s_image(s)),
    ensures
        i16s_image(s).len() == 2 * s.len(),
        forall|k: int| 0 <= k < s.len() ==> #[trigger] s[k] == wire::i16_at(b, at + 2 * k),
{
    let f = |n: i16| i16_image(n);
    lemma_run_stands(b, at, s, f, 2);
    assert forall|k: int| 0 <= k < s.len() implies #[trigger] s[k] == wire::i16_at(b, at + 2 * k) by {
        assert(stands(b, at + 2 * k, f(s[k])));
        lemma_i16_stands(b, at + 2 * k, s[k]);
    }
}

pub proof fn lemma_f32s_stand(b: Seq<u8>, at: int, s: Seq<Binary32>)
    requires
        stands(b, at, f32s_image(s)),
    ensures
        f32s_image(s).len() == 4 * s.len(),
        forall|k: int| 0 <= k < s.len() ==> #[trigger] s[k] == wire::f32_at(b, at + 4 * k),
{
    let f = |n: Binary32| f32_image(n);
    reveal(f32_image);
    lemma_run_stands(b, at, s, f, 4);
    assert forall|k: int| 0 <= k < s.len() implies #[trigger] s[k] == wire::f32_at(b, at + 4 * k) by {
        assert(stands(b, at + 4 * k, f(s[k])));
        lemma_f32_stands(b, at + 4 * k, s[k]);
    }
}

pub proof fn lemma_records_stand<T: Packed>(b: Seq<u8>, at: int, s: Seq<T>)
    requires
        stands(b, at, records_image(s)),
    ensures
        records_image(s).len() == T::size() * s.len(),
        forall|k: int| 0 <= k < s.len() ==> (#[trigger] s[k]).decodes(b, at + T::size() * k),
{
    let f = |r: T| r.image();
    assert forall|k: int| 0 <= k < s.len() implies f(#[trigger] s[k]).len() == T::size() by {
        s[k].lemma_image_size();
    }
    lemma_run_stands(b, at, s, f, T::size() as int);
    assert forall|k: int| 0 <= k < s.len() implies (#[trigger] s[k]).decodes(
        b,
        at + T::size() * k,
    ) by {
        assert(stands(b, at + T::size() * k, f(s[k])));
        s[k].lemma_read_back(b, at + T::size() * k);
    }
}

pub proof fn lemma_u16s_size(s: Seq<u16>)
    ensures
        u16s_image(s).len() == 2 * s.len(),
{
    lemma_run_size(s, |n: u16| wire::u16_image(n), 2);
}

pub proof fn lemma_i16s_size(s: Seq<i16>)
    ensures
        i16s_image(s).len() == 2 * s.len(),
{
    lemma_run_size(s, |n: i16| i16_image(n), 2);
}

pub proof fn lemma_f32s_size(s: Seq<Binary32>)
    ensures
        f32s_image(s).len() == 4 * s.len(),
{
    reveal(f32_image);
    lemma_run_size(s, |n: Binary32| f32_image(n), 4);
}

pub proof fn lemma_records_size<T: Packed>(s: Seq<T>)
    ensures
        records_image(s).len() == T::size() * s.len(),
{
    let f = |r: T| r.image();
    assert forall|k: int| 0 <= k < s.len() implies f(#[trigger] s[k]).len() == T::size() by {
        s[k].lemma_image_size();
    }
    lemma_run_size(s, f, T::size() as int);
}

} // verus!
