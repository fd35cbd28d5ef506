//! Engine states from BeamNG.drive, Live For Speed and others that speak
//! OutGauge.

use vstd::prelude::*;

use crate::binary32;
use crate::binary32::Binary32;
use crate::layout;
use crate::listeners::redline;
use crate::listeners::redline::RedlineTracker;
use crate::listeners::{EngineState, GameId};
use crate::outgauge;
use crate::outgauge::Packet;
use crate::wire;

verus! {

pub const GAME: GameId = GameId::BeamNG;

/// Below this engine speed, 800, the engine counts as off.
pub open spec fn engine_off(rpm: Binary32) -> bool {
    rpm.below(Binary32 { bits: 0x4448_0000 })
}

/// The engine speed in a datagram.
pub open spec fn rpm_in(datagram: Seq<u8>) -> Binary32 {
    wire::f32_at(datagram, 16)
}

/// Whether a datagram counts: it is long enough, and the engine is on.
pub open spec fn counts(datagram: Seq<u8>) -> bool {
    datagram.len() >= outgauge::MIN_PACKET_BYTES && !engine_off(rpm_in(datagram))
}

/// Whether an engine speed is not below 800. What is not a number is not below
/// anything.
pub open spec fn reaches_800(rpm: Binary32) -> bool {
    rpm.nan() || rpm.value() >= 800 * binary32::exp2(149)
}

/// A datagram counts exactly where it has at least 92 bytes and the engine speed in
/// the four bytes from the seventeenth on is not below 800.
pub proof fn lemma_what_counts(datagram: Seq<u8>)
    ensures
        counts(datagram) <==> datagram.len() >= 92 && reaches_800(wire::f32_at(datagram, 16)),
{
    binary32::lemma_value_of_800();
}

/// Whether a datagram leads from one tracker to another and gives `r`: one that
/// counts is observed and gives an engine state, and any other is passed over.
pub open spec fn observed(
    before: RedlineTracker,
    datagram: Seq<u8>,
    after: RedlineTracker,
    r: Option<EngineState>,
) -> bool {
    if counts(datagram) {
        &&& after == before.after(rpm_in(datagram))
        &&& r == Some(after.state_for(rpm_in(datagram)))
    } else {
        after == before && r is None
    }
}

/// The engine state in a datagram, with the highest engine speed so far as the
/// redline. Datagrams that are too short, and those of an engine that is off,
/// are passed over.
pub fn observe(tracker: &mut RedlineTracker, buf: &[u8]) -> (r: Option<EngineState>)
    ensures
        observed(*old(tracker), buf@, *final(tracker), r),
        r is Some <==> buf@.len() >= 92 && reaches_800(wire::f32_at(buf@, 16)),
        r matches Some(e) ==> e.rpm == wire::f32_at(buf@, 16).clamped(
            i32::MIN as int,
            i32::MAX as int,
        ) && e.rpm_idle == 800,
        r is None ==> *final(tracker) == *old(tracker),
        forall|sent: Packet|
            #![trigger layout::starts_with(buf@, sent)]
            #![trigger layout::cut_short(buf@, sent)]
            layout::starts_with(buf@, sent) || (buf@.len() >= 92 && layout::cut_short(buf@, sent))
                ==> (r is Some <==> reaches_800(sent.rpm)) && (r matches Some(e) ==> e.rpm
                == sent.rpm.clamped(i32::MIN as int, i32::MAX as int)),
{
    proof {
        binary32::lemma_value_of_800();
    }
    let packet: Packet = match Packet::from_bytes(buf) {
        Some(p) => p,
        None => {
            return None;
        },
    };
    let rpm: Binary32 = packet.rpm;
    if Binary32::from_bits(0x4448_0000).gt(rpm) {
        return None;
    }
    tracker.observe(rpm);
    Some(tracker.engine_state(rpm))
}

/// The engine speeds of the datagrams that count.
pub open spec fn speeds(datagrams: Seq<Seq<u8>>) -> Seq<Binary32>
    decreases datagrams.len(),
{
    if datagrams.len() == 0 {
        Seq::empty()
    } else if counts(datagrams.last()) {
        speeds(datagrams.drop_last()).push(rpm_in(datagrams.last()))
    } else {
        speeds(datagrams.drop_last())
    }
}

/// Whether the datagrams lead from a fresh tracker through these trackers and give
/// these results.
pub open spec fn session(
    trackers: Seq<RedlineTracker>,
    datagrams: Seq<Seq<u8>>,
    results: Seq<Option<EngineState>>,
) -> bool {
    &&& trackers.len() == datagrams.len() + 1
    &&& results.len() == datagrams.len()
    &&& trackers[0] == redline::fresh()
    &&& forall|i: int|
        #![trigger datagrams[i]]
        0 <= i < datagrams.len() ==> observed(
            trackers[i],
            datagrams[i],
            trackers[i + 1],
            results[i],
        )
}

/// The tracker knows the datagrams so far.
proof fn lemma_tracker_so_far(
    trackers: Seq<RedlineTracker>,
    datagrams: Seq<Seq<u8>>,
    results: Seq<Option<EngineState>>,
    n: int,
)
    requires
        session(trackers, datagrams, results),
        0 <= n <= datagrams.len(),
    ensures
        trackers[n] == redline::after_all(speeds(datagrams.take(n))),
    decreases n,
{
    if n > 0 {
        lemma_tracker_so_far(trackers, datagrams, results, n - 1);
        let so_far = datagrams.take(n);
        assert(so_far.drop_last() == datagrams.take(n - 1));
        assert(so_far.last() == datagrams[n - 1]);
        let before = speeds(datagrams.take(n - 1));
        if counts(datagrams[n - 1]) {
            assert(before.push(rpm_in(datagrams[n - 1])).drop_last() == before);
        }
    }
}

/// Every engine state of a session has the engine speed of its own datagram, the
/// largest of 7000 and all engine speeds so far as the redline, and 800 as idle.
/// So the redline is at least 7000, and no engine speed lies above it.
pub proof fn lemma_redline_over_a_session(
    trackers: Seq<RedlineTracker>,
    datagrams: Seq<Seq<u8>>,
    results: Seq<Option<EngineState>>,
    n: int,
)
    requires
        session(trackers, datagrams, results),
        0 <= n < datagrams.len(),
    ensures
        results[n] is Some <==> counts(datagrams[n]),
        results[n] matches Some(e) ==> {
            let max = trackers[n + 1].max_rpm;
            &&& redline::is_largest(max, speeds(datagrams.take(n + 1)))
            &&& e.rpm == rpm_in(datagrams[n]).clamped(i32::MIN as int, i32::MAX as int)
            &&& e.rpm_redline == max.clamped(i32::MIN as int, i32::MAX as int)
            &&& e.rpm_idle == 800
            &&& e.rpm_redline >= 7000
            &&& e.rpm <= e.rpm_redline
        },
{
    lemma_tracker_so_far(trackers, datagrams, results, n + 1);
    assert(observed(trackers[n], datagrams[n], trackers[n + 1], results[n]));
    if counts(datagrams[n]) {
        let so_far = datagrams.take(n + 1);
        assert(so_far.last() == datagrams[n]);
        redline::lemma_state_over_a_session(speeds(so_far));
    }
}

/// The redline never goes down in a session.
pub proof fn lemma_redline_rises_over_a_session(
    trackers: Seq<RedlineTracker>,
    datagrams: Seq<Seq<u8>>,
    results: Seq<Option<EngineState>>,
    m: int,
    n: int,
)
    requires
        session(trackers, datagrams, results),
        0 <= m <= n < datagrams.len(),
        results[m] is Some,
        results[n] is Some,
    ensures
        (results[m]->0).rpm_redline <= (results[n]->0).rpm_redline,
{
    lemma_redline_over_a_session(trackers, datagrams, results, m);
    lemma_redline_over_a_session(trackers, datagrams, results, n);
    lemma_tracker_so_far(trackers, datagrams, results, m + 1);
    lemma_tracker_so_far(trackers, datagrams, results, n + 1);
    lemma_speeds_grow(datagrams, m + 1, n + 1);
    redline::lemma_largest_grows(
        speeds(datagrams.take(m + 1)),
        speeds(datagrams.take(n + 1)),
    );
    binary32::lemma_clamped_in_order(
        trackers[m + 1].max_rpm,
        trackers[n + 1].max_rpm,
        i32::MIN as int,
        i32::MAX as int,
    );
}

proof fn lemma_speeds_grow(datagrams: Seq<Seq<u8>>, m: int, n: int)
    requires
        0 <= m <= n <= datagrams.len(),
    ensures
        ({
            let less = speeds(datagrams.take(m));
            let more = speeds(datagrams.take(n));
            less.len() <= more.len() && more.take(less.len() as int) == less
        }),
    decreases n - m,
{
    let less = speeds(datagrams.take(m));
    let more = speeds(datagrams.take(n));
    if m == n {
        assert(more.take(less.len() as int) =~= less);
    } else {
        lemma_speeds_grow(datagrams, m, n - 1);
        assert(datagrams.take(n).drop_last() == datagrams.take(n - 1));
        let middle = speeds(datagrams.take(n - 1));
        assert(more.take(less.len() as int) =~= middle.take(less.len() as int));
    }
}

} // verus!
