//! Engine states from Assetto Corsa 1.
//!
//! The game is asked: a handshake, its answer, a subscription, and then a
//! stream of packets. This module decides what to do next; opening sockets,
//! sending and receiving is up to the caller.

use vstd::prelude::*;

use crate::assetto_corsa;
use crate::assetto_corsa::op;
use crate::assetto_corsa::{Handshake, RtCarInfo};
use crate::binary32;
use crate::binary32::Binary32;
use crate::listeners::redline;
use crate::listeners::redline::RedlineTracker;
use crate::listeners::{EngineState, GameId};
use crate::wire;

verus! {

pub const GAME: GameId = GameId::AssettoCorsa;

/// How long to wait before the next attempt, in nanoseconds.
pub const HANDSHAKE_RETRY: u64 = 3_000_000_000;

/// How long to wait for the answer to a handshake, in nanoseconds.
pub const HANDSHAKE_TIMEOUT: u64 = 800_000_000;

/// How long to wait for the next packet before the session counts as over, in
/// nanoseconds.
pub const STREAM_TIMEOUT: u64 = 2_000_000_000;

/// The game sends some 333 packets per second. Engine states are passed on no
/// more often than this, in nanoseconds.
pub const FORWARD_INTERVAL: u64 = 16_000_000;

/// What the last action was about.
#[derive(Debug, Clone, Copy, PartialEq, Eq, Structural)]
pub enum Stage {
    /// A fresh socket is being opened.
    Opening,
    /// The handshake is being sent.
    Greeting,
    /// The answer to the handshake is awaited.
    Waiting,
    /// The subscription is being sent.
    Subscribing,
    /// The time limit for packets is being set.
    Settling,
    /// The next packet is awaited.
    Streaming,
}

/// What came of the last action.
#[derive(Debug)]
pub enum Event {
    /// It worked.
    Done,
    /// It did not.
    Failed,
    /// This datagram came.
    Received(Vec<u8>),
}

/// What to do next.
#[derive(Debug)]
pub enum Action {
    /// Open a fresh socket, connect it to the game and limit the time for the
    /// answer to [`HANDSHAKE_TIMEOUT`].
    Open,
    /// Sleep for [`HANDSHAKE_RETRY`], then as for `Open`.
    Retry,
    /// Send this.
    Send([u8; 12]),
    /// Limit the time for a packet to [`STREAM_TIMEOUT`].
    LimitStream,
    /// Wait for a datagram.
    Receive,
    /// Pass this engine state on, then as for `Receive`.
    Forward(EngineState),
    /// Try to send this, then as for `Open`.
    Dismiss([u8; 12]),
}

/// Where the conversation with the game stands.
#[derive(Debug, Clone, Copy, PartialEq, Eq, Structural)]
pub struct Conversation {
    pub stage: Stage,
    pub tracker: RedlineTracker,
    /// When an engine state of this stream was last passed on.
    pub last_forwarded: Option<u64>,
}

/// The handshake for an operation, as it is sent.
pub open spec fn request(operation_id: i32) -> Seq<u8> {
    wire::i32_image(assetto_corsa::HANDSHAKE_IDENTIFIER) + wire::i32_image(
        assetto_corsa::HANDSHAKE_VERSION,
    ) + wire::i32_image(operation_id)
}

/// The engine speed in a packet.
pub open spec fn rpm_in(packet: Seq<u8>) -> Binary32 {
    wire::f32_at(packet, 68)
}

/// Whether a packet counts: it is long enough, and the engine turns.
pub open spec fn counts(packet: Seq<u8>) -> bool {
    packet.len() >= assetto_corsa::RT_CAR_INFO_BYTES && !rpm_in(packet).at_most(
        Binary32 { bits: 0x3F80_0000 },
    )
}

/// Whether an engine state may be passed on.
pub open spec fn forward_due(last: Option<u64>, now: u64) -> bool {
    match last {
        Some(t) => now - t >= FORWARD_INTERVAL,
        None => true,
    }
}

/// Whether an event can follow the last action.
pub open spec fn fits(stage: Stage, event: Event) -> bool {
    match event {
        Event::Done => stage != Stage::Waiting && stage != Stage::Streaming,
        Event::Failed => true,
        Event::Received(_) => stage == Stage::Waiting || stage == Stage::Streaming,
    }
}

impl Conversation {
    /// The stage after an event.
    pub open spec fn stage_after(self, event: Event) -> Stage {
        match (self.stage, event) {
            (_, Event::Failed) => Stage::Opening,
            (Stage::Opening, _) => Stage::Greeting,
            (Stage::Greeting, _) => Stage::Waiting,
            (Stage::Waiting, Event::Received(b)) => if b@.len()
                >= assetto_corsa::HANDSHAKE_RESPONSE_BYTES {
                Stage::Subscribing
            } else {
                Stage::Opening
            },
            (Stage::Subscribing, _) => Stage::Settling,
            _ => Stage::Streaming,
        }
    }

    /// Whether an event leads to another conversation and an action.
    pub open spec fn goes(self, event: Event, now: u64, next: Self, r: Action) -> bool {
        &&& next.stage == self.stage_after(event)
        // What is done where something failed.
        &&& event is Failed ==> match self.stage {
            Stage::Opening | Stage::Greeting | Stage::Waiting => r is Retry,
            Stage::Subscribing | Stage::Settling => r is Open,
            Stage::Streaming => r is Dismiss && r->Dismiss_0@ == request(op::DISMISS),
        }
        // What is done where it went well.
        &&& event is Done ==> match self.stage {
            Stage::Opening => r is Send && r->Send_0@ == request(op::HANDSHAKE),
            Stage::Subscribing => r is LimitStream,
            _ => r is Receive,
        }
        &&& event matches Event::Received(b) ==> self.stage == Stage::Waiting ==> if b@.len()
            >= assetto_corsa::HANDSHAKE_RESPONSE_BYTES {
            r is Send && r->Send_0@ == request(op::SUBSCRIBE_UPDATE)
        } else {
            r is Retry
        }
        // Packets of a stream are observed, and passed on at intervals.
        &&& if self.observes(event) {
            let rpm = rpm_in(event->Received_0@);
            let tracker = self.tracker.after(rpm);
            &&& next.tracker == tracker
            &&& if forward_due(self.last_forwarded, now) {
                r == Action::Forward(tracker.state_for(rpm)) && next.last_forwarded == Some(now)
            } else {
                r is Receive && next.last_forwarded == self.last_forwarded
            }
        } else {
            // Nothing else is touched, but that a new stream begins afresh.
            &&& event is Received && self.stage == Stage::Streaming ==> r is Receive
            &&& next.tracker == self.tracker
            &&& next.last_forwarded == if self.stage == Stage::Settling {
                None
            } else {
                self.last_forwarded
            }
        }
    }

    /// Whether an event is a packet of a stream that counts.
    pub open spec fn observes(self, event: Event) -> bool {
        self.stage == Stage::Streaming && (event matches Event::Received(b) && counts(b@))
    }

    /// The conversation before its first action, which is to open a socket.
    pub fn new() -> (r: Self)
        ensures
            r.stage == Stage::Opening,
            r.tracker == redline::fresh(),
            r.last_forwarded is None,
    {
        Conversation { stage: Stage::Opening, tracker: RedlineTracker::new(), last_forwarded: None }
    }

    /// What to do after an event.
    pub fn step(&mut self, event: Event, now: u64) -> (r: Action)
        requires
            fits(old(self).stage, event),
        ensures
            old(self).goes(event, now, *final(self), r),
    {
        match event {
            Event::Failed => {
                let stage: Stage = self.stage;
                self.stage = Stage::Opening;
                match stage {
                    Stage::Opening => Action::Retry,
                    Stage::Greeting => Action::Retry,
                    Stage::Waiting => Action::Retry,
                    Stage::Subscribing => Action::Open,
                    Stage::Settling => {
                        self.last_forwarded = None;
                        Action::Open
                    },
                    Stage::Streaming => Action::Dismiss(Handshake::new(op::DISMISS).to_bytes()),
                }
            },
            Event::Done => {
                match self.stage {
                    Stage::Opening => {
                        self.stage = Stage::Greeting;
                        Action::Send(Handshake::new(op::HANDSHAKE).to_bytes())
                    },
                    Stage::Greeting => {
                        self.stage = Stage::Waiting;
                        Action::Receive
                    },
                    Stage::Subscribing => {
                        self.stage = Stage::Settling;
                        Action::LimitStream
                    },
                    _ => {
                        self.stage = Stage::Streaming;
                        self.last_forwarded = None;
                        Action::Receive
                    },
                }
            },
            Event::Received(b) => {
                if self.stage == Stage::Waiting {
                    if b.len() >= assetto_corsa::HANDSHAKE_RESPONSE_BYTES {
                        self.stage = Stage::Subscribing;
                        return Action::Send(Handshake::new(op::SUBSCRIBE_UPDATE).to_bytes());
                    }
                    self.stage = Stage::Opening;
                    return Action::Retry;
                }
                let packet: RtCarInfo = match RtCarInfo::from_bytes(b.as_slice()) {
                    Some(p) => p,
                    None => {
                        return Action::Receive;
                    },
                };
                let rpm: Binary32 = packet.engine_rpm;
                if rpm.le(Binary32 { bits: 0x3F80_0000 }) {
                    return Action::Receive;
                }
                self.tracker.observe(rpm);
                let due: bool = match self.last_forwarded {
                    Some(t) => now >= t && now - t >= FORWARD_INTERVAL,
                    None => true,
                };
                if !due {
                    return Action::Receive;
                }
                self.last_forwarded = Some(now);
                Action::Forward(self.tracker.engine_state(rpm))
            },
        }
    }
}

/// Whether these are the states of one conversation, with what came of each action
/// and what was done next.
pub open spec fn conversation(
    states: Seq<Conversation>,
    events: Seq<Event>,
    nows: Seq<u64>,
    actions: Seq<Action>,
) -> bool {
    &&& states.len() == events.len() + 1
    &&& nows.len() == events.len()
    &&& actions.len() == events.len()
    &&& states[0].tracker == redline::fresh()
    &&& forall|i: int|
        #![trigger events[i]]
        0 <= i < events.len() ==> fits(states[i].stage, events[i]) && states[i].goes(
            events[i],
            nows[i],
            states[i + 1],
            actions[i],
        )
}

/// The engine speeds of the first `n` events that were packets and count.
pub open spec fn speeds(states: Seq<Conversation>, events: Seq<Event>, n: int) -> Seq<Binary32>
    decreases n,
{
    if n <= 0 {
        Seq::empty()
    } else if states[n - 1].observes(events[n - 1]) {
        speeds(states, events, n - 1).push(rpm_in(events[n - 1]->Received_0@))
    } else {
        speeds(states, events, n - 1)
    }
}

proof fn lemma_tracker_so_far(
    states: Seq<Conversation>,
    events: Seq<Event>,
    nows: Seq<u64>,
    actions: Seq<Action>,
    n: int,
)
    requires
        conversation(states, events, nows, actions),
        0 <= n <= events.len(),
    ensures
        states[n].tracker == redline::after_all(speeds(states, events, n)),
    decreases n,
{
    if n > 0 {
        lemma_tracker_so_far(states, events, nows, actions, n - 1);
        assert(fits(states[n - 1].stage, events[n - 1]));
        let before = speeds(states, events, n - 1);
        if states[n - 1].observes(events[n - 1]) {
            let rpm = rpm_in(events[n - 1]->Received_0@);
            assert(before.push(rpm).drop_last() == before);
        }
    }
}

/// Every engine state that is passed on has the engine speed of its own packet, the
/// largest of 7000 and all engine speeds so far as the redline, and 800 as idle.
/// So the redline is at least 7000, and no engine speed lies above it.
pub proof fn lemma_redline_over_a_conversation(
    states: Seq<Conversation>,
    events: Seq<Event>,
    nows: Seq<u64>,
    actions: Seq<Action>,
    n: int,
)
    requires
        conversation(states, events, nows, actions),
        0 <= n < events.len(),
        actions[n] is Forward,
    ensures
        events[n] is Received,
        ({
            let e = actions[n]->Forward_0;
            let max = states[n + 1].tracker.max_rpm;
            &&& redline::is_largest(max, speeds(states, events, n + 1))
            &&& e.rpm == rpm_in(events[n]->Received_0@).clamped(i32::MIN as int, i32::MAX as int)
            &&& e.rpm_redline == max.clamped(i32::MIN as int, i32::MAX as int)
            &&& e.rpm_idle == 800
            &&& e.rpm_redline >= 7000
            &&& e.rpm <= e.rpm_redline
        }),
{
    assert(fits(states[n].stage, events[n]));
    lemma_tracker_so_far(states, events, nows, actions, n + 1);
    redline::lemma_state_over_a_session(speeds(states, events, n + 1));
}

/// What is asked of the game: three numbers of 32 bits, of which the first two are
/// one and the third is zero for a handshake, one for a packet at every step and
/// three for no more packets.
pub open spec fn asks_for(request: Seq<u8>, operation: int) -> bool {
    &&& request.len() == 12
    &&& wire::i32_at(request, 0) == 1
    &&& wire::i32_at(request, 4) == 1
    &&& wire::i32_at(request, 8) == operation
}

proof fn lemma_request(operation_id: i32)
    ensures
        asks_for(request(operation_id), operation_id as int),
{
    let h = Handshake {
        identifier: assetto_corsa::HANDSHAKE_IDENTIFIER,
        version: assetto_corsa::HANDSHAKE_VERSION,
        operation_id,
    };
    assert(h.image() == request(operation_id));
    assetto_corsa::lemma_handshake_read_back(h);
}

/// How a stream is begun: once a socket is open a handshake is sent; once it is sent
/// the answer is awaited; an answer of at least 408 bytes is followed by the
/// subscription, and any other by another attempt from the start; once the
/// subscription is sent the time limit is set, and then packets are awaited.
pub proof fn lemma_how_a_stream_begins(
    before: Conversation,
    event: Event,
    now: u64,
    after: Conversation,
    r: Action,
)
    requires
        fits(before.stage, event),
        before.goes(event, now, after, r),
        before.stage != Stage::Streaming,
        !(event is Failed),
    ensures
        before.stage == Stage::Opening ==> r is Send && asks_for(r->Send_0@, 0) && after.stage
            == Stage::Greeting,
        before.stage == Stage::Greeting ==> r is Receive && after.stage == Stage::Waiting,
        before.stage == Stage::Waiting ==> if (event->Received_0)@.len() >= 408 {
            r is Send && asks_for(r->Send_0@, 1) && after.stage == Stage::Subscribing
        } else {
            r is Retry && after.stage == Stage::Opening
        },
        before.stage == Stage::Subscribing ==> r is LimitStream && after.stage == Stage::Settling,
        before.stage == Stage::Settling ==> r is Receive && after.stage == Stage::Streaming
            && after.last_forwarded is None,
        after.tracker == before.tracker,
{
    lemma_request(0);
    lemma_request(1);
}

/// Whatever fails, the conversation starts again: after a pause where no stream was
/// agreed on yet, at once where one was, and with a farewell to the game where
/// packets were awaited.
pub proof fn lemma_what_follows_a_failure(
    before: Conversation,
    error: Event,
    now: u64,
    after: Conversation,
    r: Action,
)
    requires
        error is Failed,
        before.goes(error, now, after, r),
    ensures
        after.stage == Stage::Opening,
        after.tracker == before.tracker,
        r is Retry <==> before.stage == Stage::Opening || before.stage == Stage::Greeting
            || before.stage == Stage::Waiting,
        r is Open <==> before.stage == Stage::Subscribing || before.stage == Stage::Settling,
        r is Dismiss <==> before.stage == Stage::Streaming,
        r matches Action::Dismiss(request) ==> asks_for(request@, 3),
{
    lemma_request(3);
}

/// Of a stream, an engine state is passed on exactly for a packet of at least 328
/// bytes whose engine speed, in the four bytes from the sixty-ninth on, is not one
/// or less, and no sooner than 16 milliseconds after the one before. It has that
/// engine speed. After any packet the stream goes on.
pub proof fn lemma_what_is_passed_on(
    before: Conversation,
    packet: Event,
    now: u64,
    after: Conversation,
    r: Action,
)
    requires
        before.stage == Stage::Streaming,
        packet is Received,
        before.goes(packet, now, after, r),
    ensures
        after.stage == Stage::Streaming,
        r is Forward || r is Receive,
        ({
            let b = packet->Received_0@;
            let rpm = wire::f32_at(b, 68);
            let turns = rpm.nan() || rpm.value() > binary32::exp2(149);
            let rested = before.last_forwarded is None || now - before.last_forwarded->0
                >= 16_000_000;
            &&& r is Forward <==> b.len() >= 328 && turns && rested
            &&& r matches Action::Forward(e) ==> e.rpm == rpm.clamped(
                i32::MIN as int,
                i32::MAX as int,
            ) && e.rpm_idle == 800 && after.last_forwarded == Some(now)
            &&& r is Receive ==> after.last_forwarded == before.last_forwarded
        }),
{
    binary32::lemma_value_of_1();
}

/// The times of the conversation: three seconds between attempts, eight tenths of a
/// second for the answer and two seconds for a packet.
pub proof fn lemma_times_of_the_conversation()
    ensures
        HANDSHAKE_RETRY == 3_000_000_000,
        HANDSHAKE_TIMEOUT == 800_000_000,
        STREAM_TIMEOUT == 2_000_000_000,
{
}

} // verus!
