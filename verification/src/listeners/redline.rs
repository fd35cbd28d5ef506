//! A redline for games that do not send one: the highest engine speed so far.

use vstd::prelude::*;

use crate::binary32;
use crate::binary32::Binary32;
use crate::listeners::EngineState;

verus! {

/// The idle speed of a typical petrol car.
pub const ASSUMED_IDLE: i32 = 800;

/// The highest engine speed so far, 7000 at first.
#[derive(Debug, Clone, Copy, PartialEq, Eq, Structural)]
pub struct RedlineTracker {
    pub max_rpm: Binary32,
}

impl RedlineTracker {
    pub fn new() -> (r: Self)
        ensures
            r == fresh(),
    {
        RedlineTracker { max_rpm: Binary32 { bits: 0x45DA_C000 } }
    }

    /// The tracker after an engine speed.
    pub open spec fn after(self, rpm: Binary32) -> Self {
        if self.max_rpm.below(rpm) {
            RedlineTracker { max_rpm: rpm }
        } else {
            self
        }
    }

    /// The engine state for an engine speed that has been observed.
    pub open spec fn state_for(self, rpm: Binary32) -> EngineState {
        EngineState {
            rpm: rpm.clamped(i32::MIN as int, i32::MAX as int) as i32,
            rpm_redline: self.max_rpm.clamped(i32::MIN as int, i32::MAX as int) as i32,
            rpm_idle: ASSUMED_IDLE,
        }
    }

    /// Takes an engine speed into account.
    pub fn observe(&mut self, rpm: Binary32)
        ensures
            *final(self) == old(self).after(rpm),
    {
        if rpm.gt(self.max_rpm) {
            self.max_rpm = rpm;
        }
    }

    /// The engine state for an engine speed that has been observed.
    pub fn engine_state(&self, rpm: Binary32) -> (r: EngineState)
        ensures
            r == self.state_for(rpm),
    {
        EngineState {
            rpm: rpm.to_i32(),
            rpm_redline: self.max_rpm.to_i32(),
            rpm_idle: ASSUMED_IDLE,
        }
    }
}

/// The redline never falls, and no engine speed that was observed lies above
/// it.
pub proof fn lemma_redline_never_falls(tracker: RedlineTracker, rpm: Binary32)
    requires
        !tracker.max_rpm.nan(),
    ensures
        !tracker.after(rpm).max_rpm.nan(),
        tracker.max_rpm.at_most(tracker.after(rpm).max_rpm),
        !rpm.nan() ==> rpm.at_most(tracker.after(rpm).max_rpm),
{
}

/// The tracker before the first engine speed.
pub open spec fn fresh() -> RedlineTracker {
    RedlineTracker { max_rpm: Binary32 { bits: 0x45DA_C000 } }
}

/// The tracker after some engine speeds.
pub open spec fn after_all(rpms: Seq<Binary32>) -> RedlineTracker
    decreases rpms.len(),
{
    if rpms.len() == 0 {
        fresh()
    } else {
        after_all(rpms.drop_last()).after(rpms.last())
    }
}

/// Whether `max` is the largest of 7000 and some engine speeds. What is not a
/// number does not count.
pub open spec fn is_largest(max: Binary32, rpms: Seq<Binary32>) -> bool {
    &&& !max.nan()
    &&& max == fresh().max_rpm || rpms.contains(max)
    &&& fresh().max_rpm.at_most(max)
    &&& forall|i: int| 0 <= i < rpms.len() && !(#[trigger] rpms[i]).nan() ==> rpms[i].at_most(max)
}

/// The redline is the largest of 7000 and all engine speeds so far.
pub proof fn lemma_redline_is_the_largest(rpms: Seq<Binary32>)
    ensures
        is_largest(after_all(rpms).max_rpm, rpms),
    decreases rpms.len(),
{
    if rpms.len() > 0 {
        let before = rpms.drop_last();
        let rpm = rpms.last();
        lemma_redline_is_the_largest(before);
        lemma_redline_never_falls(after_all(before), rpm);
        let max = after_all(rpms).max_rpm;
        assert forall|i: int| 0 <= i < rpms.len() && !(#[trigger] rpms[i]).nan() implies rpms[i]
            .at_most(max) by {
            if i < before.len() {
                assert(before[i] == rpms[i]);
            }
        }
        if max != rpm && max != fresh().max_rpm {
            let i = choose|i: int| 0 <= i < before.len() && before[i] == max;
            assert(rpms[i] == max);
        } else if max == rpm {
            assert(rpms[rpms.len() - 1] == max);
        }
    }
}

/// The largest of more engine speeds is no smaller.
pub proof fn lemma_largest_grows(less: Seq<Binary32>, more: Seq<Binary32>)
    requires
        less.len() <= more.len(),
        more.take(less.len() as int) == less,
    ensures
        after_all(less).max_rpm.at_most(after_all(more).max_rpm),
    decreases more.len(),
{
    lemma_redline_is_the_largest(less);
    if less.len() == more.len() {
        assert(more.take(less.len() as int) == more);
    } else {
        assert(more.drop_last().take(less.len() as int) == less);
        lemma_largest_grows(less, more.drop_last());
        lemma_redline_is_the_largest(more.drop_last());
        lemma_redline_never_falls(after_all(more.drop_last()), more.last());
    }
}

/// The engine state for the last of some engine speeds: the redline is the largest
/// of 7000 and all of them, so that it is no less than 7000 and the engine speed
/// does not lie above it.
pub proof fn lemma_state_over_a_session(rpms: Seq<Binary32>)
    requires
        rpms.len() > 0,
    ensures
        ({
            let e = after_all(rpms).state_for(rpms.last());
            let max = after_all(rpms).max_rpm;
            &&& is_largest(max, rpms)
            &&& e.rpm == rpms.last().clamped(i32::MIN as int, i32::MAX as int)
            &&& e.rpm_redline == max.clamped(i32::MIN as int, i32::MAX as int)
            &&& e.rpm_idle == 800
            &&& e.rpm_redline >= 7000
            &&& e.rpm <= e.rpm_redline
        }),
{
    let max = after_all(rpms).max_rpm;
    let rpm = rpms.last();
    lemma_redline_is_the_largest(rpms);
    binary32::lemma_value_of_7000();
    binary32::lemma_clamped_in_order(fresh().max_rpm, max, i32::MIN as int, i32::MAX as int);
    assert(rpms[rpms.len() - 1] == rpm);
    if !rpm.nan() {
        binary32::lemma_clamped_in_order(rpm, max, i32::MIN as int, i32::MAX as int);
    }
}

} // verus!
