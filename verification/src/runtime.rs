//! The main loop, as a state machine: what to do next with the wheel, the
//! telemetry and the status line. Opening ports, writing, receiving and
//! printing is up to the caller, who reports what came of it. Times are
//! nanoseconds of one clock that never goes back.

use vstd::prelude::*;

use crate::led;
use crate::listeners::{EngineState, GameId, Update};
use crate::moza;
use crate::moza::{BaseTemps, Protocol};
use crate::binary32;
use crate::binary32::Binary32;
use crate::text;

verus! {

/// The lights are written at least this often.
pub const HEARTBEAT_INTERVAL: u64 = 250_000_000;

/// The rolling status line is printed no more often than this.
pub const STATUS_INTERVAL: u64 = 500_000_000;

/// How long to wait between attempts to open the wheel.
pub const RECONNECT_INTERVAL: u64 = 3_000_000_000;

/// A game that has sent nothing for this long is no longer the active one.
pub const IDLE_TIMEOUT: u64 = 2_000_000_000;

/// How often the temperatures of the wheelbase are read.
pub const TEMP_POLL_INTERVAL: u64 = 5_000_000_000;

/// How long a sensor may take to answer.
pub const TEMP_READ_DEADLINE: u64 = 300_000_000;

/// How long to wait for telemetry before looking at the clock again.
pub const RECV_TIMEOUT: u64 = 250_000_000;

/// Whether `interval` has passed since `last`, or there was no last time.
pub open spec fn due(last: Option<u64>, now: u64, interval: u64) -> bool {
    match last {
        Some(t) => now - t >= interval,
        None => true,
    }
}

fn is_due(last: Option<u64>, now: u64, interval: u64) -> (r: bool)
    ensures
        r == due(last, now, interval),
    no_unwind
{
    match last {
        Some(t) => now >= t && now - t >= interval,
        None => true,
    }
}

/// What the loop does next.
#[derive(Debug, Clone, Copy, PartialEq, Eq, Structural)]
pub enum Phase {
    /// See whether to try and open the wheel.
    Reconnect,
    /// An attempt to open the wheel is under way.
    Opening,
    /// See whether to read the temperatures.
    Temps,
    /// The temperatures are being read.
    Polling,
    /// See whether the active game has fallen silent.
    Idle,
    /// See whether to write the lights again.
    Heartbeat,
    /// The lights are being written again.
    Beating(u32),
    /// Wait for telemetry.
    Receive,
    /// Telemetry is awaited.
    Receiving,
    /// See whether telemetry comes from another game than before.
    Arrived(Update),
    /// See whether telemetry changes the lights.
    Light(Update),
    /// Changed lights are being written.
    Lighting(Update, u32),
    /// See whether to print the status.
    Show(Update, u32),
}

/// What came of the last action.
#[derive(Debug, Clone, Copy, PartialEq, Eq, Structural)]
pub enum Event {
    /// The temperatures were read, a line was printed, or nothing was asked for.
    Done,
    /// Whether the wheel was opened.
    Opened(bool),
    /// Whether the lights were written.
    Written(bool),
    /// This telemetry came.
    Received(Update),
    /// No telemetry came in time.
    TimedOut,
    /// No telemetry will ever come.
    Disconnected,
}

/// What to do next.
#[derive(Debug)]
pub enum Action {
    /// Try to open the wheel; answer with `Opened`.
    OpenWheel,
    /// Read the temperatures; answer with `Done`.
    PollTemps,
    /// Report that telemetry of a game has begun; answer with `Done`.
    AnnounceStart(GameId),
    /// Report that telemetry of a game has stopped; answer with `Done`.
    AnnounceStop(GameId),
    /// Write a mask of lights to the wheel; answer with `Written`.
    WriteLights(u32),
    /// Wait for telemetry for [`RECV_TIMEOUT`]; answer with `Received`,
    /// `TimedOut` or `Disconnected`.
    Receive,
    /// Print a text; answer with `Done`.
    Print(String),
    /// End the program with a failure.
    Exit,
}

/// What an [`Action`] says.
pub enum Deed {
    OpenWheel,
    PollTemps,
    AnnounceStart(GameId),
    AnnounceStop(GameId),
    WriteLights(u32),
    Receive,
    Print(Seq<char>),
    Exit,
}

impl View for Action {
    type V = Deed;

    open spec fn view(&self) -> Deed {
        match self {
            Action::OpenWheel => Deed::OpenWheel,
            Action::PollTemps => Deed::PollTemps,
            Action::AnnounceStart(g) => Deed::AnnounceStart(*g),
            Action::AnnounceStop(g) => Deed::AnnounceStop(*g),
            Action::WriteLights(m) => Deed::WriteLights(*m),
            Action::Receive => Deed::Receive,
            Action::Print(s) => Deed::Print(s@),
            Action::Exit => Deed::Exit,
        }
    }
}

/// The state of the loop.
#[derive(Debug, Clone, Copy, PartialEq, Eq, Structural)]
pub struct Runtime {
    pub led_count: usize,
    /// Whether every packet gets a status line of its own.
    pub verbose: bool,
    /// Whether there is a rolling status line.
    pub inplace: bool,
    pub phase: Phase,
    /// Whether the wheel is open.
    pub connected: bool,
    /// When the wheel was last tried or lost.
    pub last_reconnect: Option<u64>,
    /// The lights that were last written.
    pub last_bitmask: Option<u32>,
    pub last_send: u64,
    pub last_status: u64,
    pub last_temp_poll: Option<u64>,
    pub active_game: Option<GameId>,
    pub last_packet_at: Option<u64>,
    pub packets_since_status: u32,
}

impl Runtime {
    /// Whether telemetry can be shown: its speeds are not too far apart, and the
    /// status line has room for the lights.
    pub open spec fn can_show(self, update: Update) -> bool {
        &&& update.engine.rpm_redline <= update.engine.rpm_idle || self.led_count == 0
            || led::in_range(update.engine)
        &&& self.verbose || self.inplace ==> self.led_count <= 32
    }

    /// Whether the telemetry at hand, if any, can be shown.
    pub open spec fn ready(self) -> bool {
        match self.phase {
            Phase::Arrived(u) => self.can_show(u),
            Phase::Light(u) => self.can_show(u),
            Phase::Lighting(u, _) => self.can_show(u),
            Phase::Show(u, _) => self.can_show(u),
            _ => true,
        }
    }

    pub fn shows(&self, update: &Update) -> (r: bool)
        ensures
            r == self.can_show(*update),
    {
        let e: EngineState = update.engine;
        let span: i64 = e.rpm_redline as i64 - e.rpm_idle as i64;
        let distance: i64 = e.rpm as i64 - e.rpm_idle as i64;
        let fits: bool = e.rpm_redline <= e.rpm_idle || self.led_count == 0 || (span
            <= i32::MAX as i64 && i32::MIN as i64 <= distance && distance <= i32::MAX as i64);
        fits && (!(self.verbose || self.inplace) || self.led_count <= 32)
    }

    /// The loop before its first action. A wheel that is not open yet is tried at
    /// once, and so are the temperatures.
    pub fn new(
        led_count: usize,
        verbose: bool,
        terminal: bool,
        connected: bool,
        now: u64,
    ) -> (r: Self)
        ensures
            r == (Runtime {
                led_count,
                verbose,
                inplace: !verbose && terminal,
                phase: Phase::Reconnect,
                connected,
                last_reconnect: if connected {
                    Some(now)
                } else {
                    None
                },
                last_bitmask: None,
                last_send: now,
                last_status: now,
                last_temp_poll: None,
                active_game: None,
                last_packet_at: None,
                packets_since_status: 0,
            }),
    {
        Runtime {
            led_count,
            verbose,
            inplace: !verbose && terminal,
            phase: Phase::Reconnect,
            connected,
            last_reconnect: if connected {
                Some(now)
            } else {
                None
            },
            last_bitmask: None,
            last_send: now,
            last_status: now,
            last_temp_poll: None,
            active_game: None,
            last_packet_at: None,
            packets_since_status: 0,
        }
    }

    /// Whether an event can follow the last action.
    pub open spec fn fits(self, event: Event) -> bool {
        match self.phase {
            Phase::Opening => event is Opened,
            Phase::Beating(_) => event is Written,
            Phase::Lighting(_, _) => event is Written,
            Phase::Receiving => match event {
                Event::Received(u) => self.can_show(u),
                Event::TimedOut => true,
                Event::Disconnected => true,
                _ => false,
            },
            _ => event is Done,
        }
    }

    /// The state after the lights were written, or were not: that the wheel is
    /// lost where they could not be.
    pub open spec fn after_write(self, mask: u32, ok: bool, now: u64) -> Self {
        Runtime {
            connected: self.connected && ok,
            last_reconnect: if self.connected && !ok {
                Some(now)
            } else {
                self.last_reconnect
            },
            last_bitmask: Some(mask),
            last_send: now,
            ..self
        }
    }

    /// The state after an event has been taken in.
    pub open spec fn after(self, event: Event, now: u64) -> Self {
        match (self.phase, event) {
            (Phase::Opening, Event::Opened(ok)) => Runtime {
                connected: ok,
                last_bitmask: if ok {
                    None
                } else {
                    self.last_bitmask
                },
                last_reconnect: Some(now),
                phase: Phase::Temps,
                ..self
            },
            (Phase::Polling, _) => Runtime {
                last_temp_poll: Some(now),
                phase: Phase::Idle,
                ..self
            },
            (Phase::Beating(mask), Event::Written(ok)) => Runtime {
                phase: Phase::Receive,
                ..self.after_write(mask, ok, now)
            },
            (Phase::Lighting(u, mask), Event::Written(ok)) => Runtime {
                phase: Phase::Show(u, mask),
                ..self.after_write(mask, ok, now)
            },
            (Phase::Receiving, Event::Received(u)) => Runtime { phase: Phase::Arrived(u), ..self },
            (Phase::Receiving, _) => Runtime { phase: Phase::Reconnect, ..self },
            _ => self,
        }
    }

    /// The lights that a heartbeat writes: none without an active game, else the
    /// last ones.
    pub open spec fn heartbeat_mask(self) -> u32 {
        match (self.active_game, self.last_bitmask) {
            (Some(_), Some(mask)) => mask,
            _ => 0,
        }
    }

    /// Whether there is something to print.
    pub open spec fn status_due(self, now: u64) -> bool {
        self.verbose || (self.inplace && due(Some(self.last_status), now, STATUS_INTERVAL))
    }

    /// How far a phase is from the next one in which telemetry is awaited.
    pub open spec fn distance(self) -> nat {
        match self.phase {
            Phase::Arrived(_) => 8,
            Phase::Light(_) => 7,
            Phase::Show(_, _) => 6,
            Phase::Reconnect => 5,
            Phase::Temps => 4,
            Phase::Idle => 3,
            Phase::Heartbeat => 2,
            _ => 1,
        }
    }

    /// Whether `deed` is what the loop does next, and `r` its state then.
    pub open spec fn goes_on(self, now: u64, r: Self, deed: Deed) -> bool
        decreases self.distance(),
    {
        match self.phase {
            // A lost wheel is tried again at intervals.
            Phase::Reconnect => if !self.connected && due(
                self.last_reconnect,
                now,
                RECONNECT_INTERVAL,
            ) {
                deed == Deed::OpenWheel && r == (Runtime { phase: Phase::Opening, ..self })
            } else {
                Runtime { phase: Phase::Temps, ..self }.goes_on(now, r, deed)
            },
            // The temperatures are read at intervals, if there is a wheel.
            Phase::Temps => if due(self.last_temp_poll, now, TEMP_POLL_INTERVAL) {
                if self.connected {
                    deed == Deed::PollTemps && r == (Runtime { phase: Phase::Polling, ..self })
                } else {
                    Runtime { last_temp_poll: Some(now), phase: Phase::Idle, ..self }.goes_on(
                        now,
                        r,
                        deed,
                    )
                }
            } else {
                Runtime { phase: Phase::Idle, ..self }.goes_on(now, r, deed)
            },
            // A game that has fallen silent is no longer active.
            Phase::Idle => {
                let next = Runtime { phase: Phase::Heartbeat, ..self };
                if self.last_packet_at is Some && due(self.last_packet_at, now, IDLE_TIMEOUT)
                    && self.active_game is Some {
                    deed == Deed::AnnounceStop(self.active_game->0) && r == (Runtime {
                        active_game: None,
                        ..next
                    })
                } else {
                    next.goes_on(now, r, deed)
                }
            },
            // The lights are written again at intervals.
            Phase::Heartbeat => {
                let mask = self.heartbeat_mask();
                if due(Some(self.last_send), now, HEARTBEAT_INTERVAL) {
                    if self.connected {
                        deed == Deed::WriteLights(mask) && r == (Runtime {
                            phase: Phase::Beating(mask),
                            ..self
                        })
                    } else {
                        Runtime {
                            phase: Phase::Receive,
                            ..self.after_write(mask, false, now)
                        }.goes_on(now, r, deed)
                    }
                } else {
                    Runtime { phase: Phase::Receive, ..self }.goes_on(now, r, deed)
                }
            },
            // The active game is the one that has sent last.
            Phase::Arrived(u) => {
                let next = Runtime { active_game: Some(u.game), phase: Phase::Light(u), ..self };
                if self.active_game != Some(u.game) {
                    deed == Deed::AnnounceStart(u.game) && r == next
                } else {
                    next.goes_on(now, r, deed)
                }
            },
            // Lights that change are written at once.
            Phase::Light(u) => {
                let mask = led::mask_for(u.engine, self.led_count as nat);
                let seen = Runtime {
                    last_packet_at: Some(now),
                    packets_since_status: (if self.packets_since_status == u32::MAX {
                        0
                    } else {
                        self.packets_since_status + 1
                    }) as u32,
                    ..self
                };
                if Some(mask) == self.last_bitmask {
                    Runtime { phase: Phase::Show(u, mask), ..seen }.goes_on(now, r, deed)
                } else if self.connected {
                    deed == Deed::WriteLights(mask) && r == (Runtime {
                        phase: Phase::Lighting(u, mask),
                        ..seen
                    })
                } else {
                    Runtime {
                        phase: Phase::Show(u, mask),
                        ..seen.after_write(mask, false, now)
                    }.goes_on(now, r, deed)
                }
            },
            // The status is printed for every packet, or at intervals, or never.
            Phase::Show(u, mask) => {
                let next = Runtime { phase: Phase::Reconnect, ..self };
                if self.status_due(now) {
                    let line = led::status_text(
                        u.game,
                        u.engine,
                        mask,
                        self.led_count as nat,
                        self.packets_since_status,
                    );
                    &&& deed == Deed::Print(
                        if self.verbose {
                            line + "\n"@
                        } else {
                            "\r"@ + line + "    "@
                        },
                    )
                    &&& r == (Runtime {
                        packets_since_status: 0,
                        last_status: if self.verbose {
                            self.last_status
                        } else {
                            now
                        },
                        ..next
                    })
                } else {
                    next.goes_on(now, r, deed)
                }
            },
            _ => deed == Deed::Receive && r == (Runtime { phase: Phase::Receiving, ..self }),
        }
    }

    /// Takes in what came of the last action and decides on the next one.
    pub fn step(&mut self, event: Event, now: u64) -> (r: Action)
        requires
            old(self).ready(),
            old(self).fits(event),
        ensures
            final(self).ready(),
            old(self).phase == Phase::Receiving && event == Event::Disconnected ==> r is Exit
                && *final(self) == old(self).after(event, now),
            !(old(self).phase == Phase::Receiving && event == Event::Disconnected) ==> old(
                self,
            ).after(event, now).goes_on(now, *final(self), r@),
    {
        match self.phase {
            Phase::Opening => {
                if let Event::Opened(ok) = event {
                    self.connected = ok;
                    if ok {
                        self.last_bitmask = None;
                    }
                }
                self.last_reconnect = Some(now);
                self.phase = Phase::Temps;
            },
            Phase::Polling => {
                self.last_temp_poll = Some(now);
                self.phase = Phase::Idle;
            },
            Phase::Beating(mask) => {
                if let Event::Written(ok) = event {
                    self.wrote(mask, ok, now);
                }
                self.phase = Phase::Receive;
            },
            Phase::Lighting(u, mask) => {
                if let Event::Written(ok) = event {
                    self.wrote(mask, ok, now);
                }
                self.phase = Phase::Show(u, mask);
            },
            Phase::Receiving => {
                match event {
                    Event::Received(u) => {
                        self.phase = Phase::Arrived(u);
                    },
                    Event::Disconnected => {
                        self.phase = Phase::Reconnect;
                        return Action::Exit;
                    },
                    _ => {
                        self.phase = Phase::Reconnect;
                    },
                }
            },
            _ => {},
        }
        self.go_on(now)
    }

    fn wrote(&mut self, mask: u32, ok: bool, now: u64)
        ensures
            *final(self) == old(self).after_write(mask, ok, now),
    {
        if self.connected && !ok {
            self.last_reconnect = Some(now);
        }
        self.connected = self.connected && ok;
        self.last_bitmask = Some(mask);
        self.last_send = now;
    }

    fn go_on(&mut self, now: u64) -> (r: Action)
        requires
            old(self).ready(),
        ensures
            final(self).ready(),
            old(self).goes_on(now, *final(self), r@),
        decreases old(self).distance(),
    {
        match self.phase {
            Phase::Reconnect => {
                if !self.connected && is_due(self.last_reconnect, now, RECONNECT_INTERVAL) {
                    self.phase = Phase::Opening;
                    return Action::OpenWheel;
                }
                self.phase = Phase::Temps;
                self.go_on(now)
            },
            Phase::Temps => {
                if is_due(self.last_temp_poll, now, TEMP_POLL_INTERVAL) {
                    if self.connected {
                        self.phase = Phase::Polling;
                        return Action::PollTemps;
                    }
                    self.last_temp_poll = Some(now);
                }
                self.phase = Phase::Idle;
                self.go_on(now)
            },
            Phase::Idle => {
                self.phase = Phase::Heartbeat;
                if self.last_packet_at.is_some() && is_due(self.last_packet_at, now, IDLE_TIMEOUT) {
                    if let Some(game) = self.active_game {
                        self.active_game = None;
                        return Action::AnnounceStop(game);
                    }
                }
                self.go_on(now)
            },
            Phase::Heartbeat => {
                if is_due(Some(self.last_send), now, HEARTBEAT_INTERVAL) {
                    let mask: u32 = match (self.active_game, self.last_bitmask) {
                        (Some(_), Some(mask)) => mask,
                        _ => 0,
                    };
                    if self.connected {
                        self.phase = Phase::Beating(mask);
                        return Action::WriteLights(mask);
                    }
                    self.wrote(mask, false, now);
                }
                self.phase = Phase::Receive;
                self.go_on(now)
            },
            Phase::Arrived(u) => {
                let same: bool = match self.active_game {
                    Some(g) => g == u.game,
                    None => false,
                };
                self.active_game = Some(u.game);
                self.phase = Phase::Light(u);
                if !same {
                    return Action::AnnounceStart(u.game);
                }
                self.go_on(now)
            },
            Phase::Light(u) => {
                self.last_packet_at = Some(now);
                self.packets_since_status = if self.packets_since_status == u32::MAX {
                    0
                } else {
                    self.packets_since_status + 1
                };
                let mask: u32 = led::rpm_to_bitmask(&u.engine, self.led_count);
                let same: bool = match self.last_bitmask {
                    Some(m) => m == mask,
                    None => false,
                };
                if !same {
                    if self.connected {
                        self.phase = Phase::Lighting(u, mask);
                        return Action::WriteLights(mask);
                    }
                    self.wrote(mask, false, now);
                }
                self.phase = Phase::Show(u, mask);
                self.go_on(now)
            },
            Phase::Show(u, mask) => {
                self.phase = Phase::Reconnect;
                if self.verbose {
                    let line: String = led::status_line(
                        u.game,
                        &u.engine,
                        mask,
                        self.led_count,
                        self.packets_since_status,
                        false,
                    );
                    self.packets_since_status = 0;
                    return Action::Print(line);
                }
                if self.inplace && is_due(Some(self.last_status), now, STATUS_INTERVAL) {
                    let line: String = led::status_line(
                        u.game,
                        &u.engine,
                        mask,
                        self.led_count,
                        self.packets_since_status,
                        true,
                    );
                    self.last_status = now;
                    self.packets_since_status = 0;
                    return Action::Print(line);
                }
                self.go_on(now)
            },
            _ => {
                self.phase = Phase::Receiving;
                Action::Receive
            },
        }
    }
}

/// A game that has sent nothing for two seconds is reported to have stopped,
/// and the next heartbeat turns all lights off.
pub proof fn lemma_silence_turns_the_lights_off(s: Runtime, now: u64, r: Runtime, deed: Deed)
    requires
        s.phase == Phase::Idle,
        s.active_game is Some,
        s.last_packet_at is Some,
        now - s.last_packet_at->0 >= IDLE_TIMEOUT,
        s.goes_on(now, r, deed),
    ensures
        deed == Deed::AnnounceStop(s.active_game->0),
        r.active_game is None,
        r.heartbeat_mask() == 0,
{
}

/// A wheel that is open is written to whenever a quarter of a second has passed
/// since the last time, with or without telemetry.
pub proof fn lemma_heartbeat(s: Runtime, now: u64, r: Runtime, deed: Deed)
    requires
        s.phase == Phase::Heartbeat,
        s.connected,
        now - s.last_send >= HEARTBEAT_INTERVAL,
        s.goes_on(now, r, deed),
    ensures
        deed == Deed::WriteLights(s.heartbeat_mask()),
{
}

/// Telemetry that changes the lights is written at once. After a wheel was
/// opened, any telemetry does.
pub proof fn lemma_changes_are_written(s: Runtime, update: Update, now: u64, r: Runtime, deed: Deed)
    requires
        s.phase == Phase::Light(update),
        s.connected,
        s.last_bitmask != Some(led::mask_for(update.engine, s.led_count as nat)),
        s.goes_on(now, r, deed),
    ensures
        deed == Deed::WriteLights(led::mask_for(update.engine, s.led_count as nat)),
{
}

/// Nothing is written to a wheel that is not open, and nothing is read from it.
pub proof fn lemma_no_use_of_a_lost_wheel(s: Runtime, now: u64, r: Runtime, deed: Deed)
    requires
        !s.connected,
        s.goes_on(now, r, deed),
    ensures
        !(deed is WriteLights),
        !(deed is PollTemps),
    decreases s.distance(),
{
    match s.phase {
        Phase::Reconnect => {
            if !due(s.last_reconnect, now, RECONNECT_INTERVAL) {
                lemma_no_use_of_a_lost_wheel(Runtime { phase: Phase::Temps, ..s }, now, r, deed);
            }
        },
        Phase::Temps => {
            let t = if due(s.last_temp_poll, now, TEMP_POLL_INTERVAL) {
                Some(now)
            } else {
                s.last_temp_poll
            };
            lemma_no_use_of_a_lost_wheel(
                Runtime { last_temp_poll: t, phase: Phase::Idle, ..s },
                now,
                r,
                deed,
            );
        },
        Phase::Idle => {
            if !(deed is AnnounceStop) {
                lemma_no_use_of_a_lost_wheel(
                    Runtime { phase: Phase::Heartbeat, ..s },
                    now,
                    r,
                    deed,
                );
            }
        },
        Phase::Heartbeat => {
            let next = if due(Some(s.last_send), now, HEARTBEAT_INTERVAL) {
                s.after_write(s.heartbeat_mask(), false, now)
            } else {
                s
            };
            lemma_no_use_of_a_lost_wheel(
                Runtime { phase: Phase::Receive, ..next },
                now,
                r,
                deed,
            );
        },
        Phase::Arrived(u) => {
            if s.active_game == Some(u.game) {
                lemma_no_use_of_a_lost_wheel(
                    Runtime { active_game: Some(u.game), phase: Phase::Light(u), ..s },
                    now,
                    r,
                    deed,
                );
            }
        },
        Phase::Light(u) => {
            let mask = led::mask_for(u.engine, s.led_count as nat);
            let seen = Runtime {
                last_packet_at: Some(now),
                packets_since_status: (if s.packets_since_status == u32::MAX {
                    0
                } else {
                    s.packets_since_status + 1
                }) as u32,
                ..s
            };
            let shown = if Some(mask) == s.last_bitmask {
                seen
            } else {
                seen.after_write(mask, false, now)
            };
            lemma_no_use_of_a_lost_wheel(
                Runtime { phase: Phase::Show(u, mask), ..shown },
                now,
                r,
                deed,
            );
        },
        Phase::Show(_, _) => {
            if !s.status_due(now) {
                lemma_no_use_of_a_lost_wheel(
                    Runtime { phase: Phase::Reconnect, ..s },
                    now,
                    r,
                    deed,
                );
            }
        },
        _ => {},
    }
}

/// A wheel that could not be written to is lost, and is tried again when three
/// seconds have passed, and not before.
pub proof fn lemma_lost_wheel_is_tried_again(
    s: Runtime,
    mask: u32,
    lost_at: u64,
    now: u64,
    r: Runtime,
    deed: Deed,
)
    requires
        s.connected,
        now >= lost_at,
        (Runtime { phase: Phase::Reconnect, ..s.after_write(mask, false, lost_at) }).goes_on(
            now,
            r,
            deed,
        ),
    ensures
        !s.after_write(mask, false, lost_at).connected,
        now - lost_at >= RECONNECT_INTERVAL <==> deed == Deed::OpenWheel,
{
    let lost = Runtime { phase: Phase::Reconnect, ..s.after_write(mask, false, lost_at) };
    if now - lost_at < RECONNECT_INTERVAL {
        reveal_with_fuel(Runtime::goes_on, 6);
    }
}

/// The wheel is opened only while it is not open, and three seconds after the last
/// attempt. The temperatures are read only of a wheel that is open, and five seconds
/// after the last time.
pub proof fn lemma_why_the_wheelbase_is_asked(s: Runtime, now: u64, r: Runtime, deed: Deed)
    requires
        s.goes_on(now, r, deed),
    ensures
        deed is OpenWheel ==> !s.connected && (s.last_reconnect is None || now
            - s.last_reconnect->0 >= 3_000_000_000),
        deed is PollTemps ==> s.connected && (s.last_temp_poll is None || now
            - s.last_temp_poll->0 >= 5_000_000_000),
    decreases s.distance(),
{
    match s.phase {
        Phase::Reconnect => {
            if s.connected || !due(s.last_reconnect, now, RECONNECT_INTERVAL) {
                lemma_why_the_wheelbase_is_asked(Runtime { phase: Phase::Temps, ..s }, now, r, deed);
            }
        },
        Phase::Temps => {
            if !due(s.last_temp_poll, now, TEMP_POLL_INTERVAL) {
                lemma_why_the_wheelbase_is_asked(Runtime { phase: Phase::Idle, ..s }, now, r, deed);
            } else if !s.connected {
                lemma_why_the_wheelbase_is_asked(
                    Runtime { last_temp_poll: Some(now), phase: Phase::Idle, ..s },
                    now,
                    r,
                    deed,
                );
            }
        },
        Phase::Idle => {
            if !(deed is AnnounceStop) {
                lemma_why_the_wheelbase_is_asked(Runtime { phase: Phase::Heartbeat, ..s }, now, r, deed);
            }
        },
        Phase::Arrived(u) => {
            if s.active_game == Some(u.game) {
                lemma_why_the_wheelbase_is_asked(Runtime { phase: Phase::Light(u), ..s }, now, r, deed);
            }
        },
        Phase::Light(u) => {
            let mask = led::mask_for(u.engine, s.led_count as nat);
            let seen = Runtime {
                last_packet_at: Some(now),
                packets_since_status: (if s.packets_since_status == u32::MAX {
                    0
                } else {
                    s.packets_since_status + 1
                }) as u32,
                ..s
            };
            if Some(mask) == s.last_bitmask {
                lemma_why_the_wheelbase_is_asked(
                    Runtime { phase: Phase::Show(u, mask), ..seen },
                    now,
                    r,
                    deed,
                );
            } else if !s.connected {
                lemma_why_the_wheelbase_is_asked(
                    Runtime { phase: Phase::Show(u, mask), ..seen.after_write(mask, false, now) },
                    now,
                    r,
                    deed,
                );
            }
        },
        Phase::Show(u, mask) => {
            if !s.status_due(now) {
                lemma_why_the_wheelbase_is_asked(Runtime { phase: Phase::Reconnect, ..s }, now, r, deed);
            }
        },
        _ => {
            reveal_with_fuel(Runtime::goes_on, 3);
        },
    }
}

/// A game is reported to have stopped only if it is the active one and nothing has
/// come for two seconds, and to have begun only if telemetry of it has come and
/// another game or none was active.
pub proof fn lemma_why_games_are_announced(s: Runtime, now: u64, r: Runtime, deed: Deed)
    requires
        s.goes_on(now, r, deed),
    ensures
        deed is AnnounceStop ==> s.active_game == Some(deed->AnnounceStop_0) && s.last_packet_at
            is Some && now - s.last_packet_at->0 >= 2_000_000_000,
        deed is AnnounceStart ==> s.active_game != Some(deed->AnnounceStart_0) && s.phase is Arrived
            && s.phase->Arrived_0.game == deed->AnnounceStart_0,
    decreases s.distance(),
{
    match s.phase {
        Phase::Reconnect => {
            if s.connected || !due(s.last_reconnect, now, RECONNECT_INTERVAL) {
                lemma_why_games_are_announced(Runtime { phase: Phase::Temps, ..s }, now, r, deed);
            }
        },
        Phase::Temps => {
            if !due(s.last_temp_poll, now, TEMP_POLL_INTERVAL) {
                lemma_why_games_are_announced(Runtime { phase: Phase::Idle, ..s }, now, r, deed);
            } else if !s.connected {
                lemma_why_games_are_announced(
                    Runtime { last_temp_poll: Some(now), phase: Phase::Idle, ..s },
                    now,
                    r,
                    deed,
                );
            }
        },
        Phase::Idle => {
            if !(s.last_packet_at is Some && due(s.last_packet_at, now, IDLE_TIMEOUT)
                && s.active_game is Some) {
                lemma_why_games_are_announced(Runtime { phase: Phase::Heartbeat, ..s }, now, r, deed);
            }
        },
        Phase::Arrived(u) => {
            if s.active_game == Some(u.game) {
                lemma_why_games_are_announced(Runtime { phase: Phase::Light(u), ..s }, now, r, deed);
            }
        },
        Phase::Light(u) => {
            let mask = led::mask_for(u.engine, s.led_count as nat);
            let seen = Runtime {
                last_packet_at: Some(now),
                packets_since_status: (if s.packets_since_status == u32::MAX {
                    0
                } else {
                    s.packets_since_status + 1
                }) as u32,
                ..s
            };
            if Some(mask) == s.last_bitmask {
                lemma_why_games_are_announced(
                    Runtime { phase: Phase::Show(u, mask), ..seen },
                    now,
                    r,
                    deed,
                );
            } else if !s.connected {
                lemma_why_games_are_announced(
                    Runtime { phase: Phase::Show(u, mask), ..seen.after_write(mask, false, now) },
                    now,
                    r,
                    deed,
                );
            }
        },
        Phase::Show(u, mask) => {
            if !s.status_due(now) {
                lemma_why_games_are_announced(Runtime { phase: Phase::Reconnect, ..s }, now, r, deed);
            }
        },
        _ => {
            reveal_with_fuel(Runtime::goes_on, 3);
        },
    }
}

/// A status is printed for every packet if that was asked for, and else only on a
/// terminal and half a second after the last one. The loop never ends by itself.
pub proof fn lemma_why_lines_are_printed(s: Runtime, now: u64, r: Runtime, deed: Deed)
    requires
        s.goes_on(now, r, deed),
    ensures
        deed is Print ==> s.verbose || (s.inplace && now - s.last_status >= 500_000_000),
        !(deed is Exit),
    decreases s.distance(),
{
    match s.phase {
        Phase::Reconnect => {
            if s.connected || !due(s.last_reconnect, now, RECONNECT_INTERVAL) {
                lemma_why_lines_are_printed(Runtime { phase: Phase::Temps, ..s }, now, r, deed);
            }
        },
        Phase::Temps => {
            if !due(s.last_temp_poll, now, TEMP_POLL_INTERVAL) {
                lemma_why_lines_are_printed(Runtime { phase: Phase::Idle, ..s }, now, r, deed);
            } else if !s.connected {
                lemma_why_lines_are_printed(
                    Runtime { last_temp_poll: Some(now), phase: Phase::Idle, ..s },
                    now,
                    r,
                    deed,
                );
            }
        },
        Phase::Idle => {
            if !(deed is AnnounceStop) {
                lemma_why_lines_are_printed(Runtime { phase: Phase::Heartbeat, ..s }, now, r, deed);
            }
        },
        Phase::Arrived(u) => {
            if s.active_game == Some(u.game) {
                lemma_why_lines_are_printed(Runtime { phase: Phase::Light(u), ..s }, now, r, deed);
            }
        },
        Phase::Light(u) => {
            let mask = led::mask_for(u.engine, s.led_count as nat);
            let seen = Runtime {
                last_packet_at: Some(now),
                packets_since_status: (if s.packets_since_status == u32::MAX {
                    0
                } else {
                    s.packets_since_status + 1
                }) as u32,
                ..s
            };
            if Some(mask) == s.last_bitmask {
                lemma_why_lines_are_printed(
                    Runtime { phase: Phase::Show(u, mask), ..seen },
                    now,
                    r,
                    deed,
                );
            } else if !s.connected {
                lemma_why_lines_are_printed(
                    Runtime { phase: Phase::Show(u, mask), ..seen.after_write(mask, false, now) },
                    now,
                    r,
                    deed,
                );
            }
        },
        Phase::Show(u, mask) => {
            if !s.status_due(now) {
                lemma_why_lines_are_printed(Runtime { phase: Phase::Reconnect, ..s }, now, r, deed);
            }
        },
        _ => {
            reveal_with_fuel(Runtime::goes_on, 3);
        },
    }
}

/// Lights are written only to a wheel that is open: those for telemetry that has
/// just come, unless they are the ones that were written last; or, a quarter of a
/// second after the last time, the last ones again, and none without an active game.
pub proof fn lemma_why_lights_are_written(s: Runtime, now: u64, r: Runtime, deed: Deed)
    requires
        s.goes_on(now, r, deed),
    ensures
        deed is WriteLights ==> s.connected,
        deed is WriteLights && !(s.phase is Arrived || s.phase is Light) ==> now - s.last_send
            >= 250_000_000 && deed->WriteLights_0 == s.heartbeat_mask(),
        s.phase matches Phase::Arrived(u) ==> deed is WriteLights ==> deed->WriteLights_0
            == led::mask_for(u.engine, s.led_count as nat) && (s.last_bitmask != Some(
            deed->WriteLights_0,
        ) || now - s.last_send >= 250_000_000),
        s.phase matches Phase::Light(u) ==> s.active_game is Some ==> deed is WriteLights
            ==> deed->WriteLights_0 == led::mask_for(u.engine, s.led_count as nat) && (
        s.last_bitmask != Some(deed->WriteLights_0) || now - s.last_send >= 250_000_000),
    decreases s.distance(),
{
    match s.phase {
        Phase::Reconnect => {
            if s.connected || !due(s.last_reconnect, now, RECONNECT_INTERVAL) {
                lemma_why_lights_are_written(Runtime { phase: Phase::Temps, ..s }, now, r, deed);
            }
        },
        Phase::Temps => {
            if !due(s.last_temp_poll, now, TEMP_POLL_INTERVAL) {
                lemma_why_lights_are_written(Runtime { phase: Phase::Idle, ..s }, now, r, deed);
            } else if !s.connected {
                lemma_why_lights_are_written(
                    Runtime { last_temp_poll: Some(now), phase: Phase::Idle, ..s },
                    now,
                    r,
                    deed,
                );
            }
        },
        Phase::Idle => {
            if !(deed is AnnounceStop) {
                lemma_why_lights_are_written(Runtime { phase: Phase::Heartbeat, ..s }, now, r, deed);
            }
        },
        Phase::Arrived(u) => {
            if s.active_game == Some(u.game) {
                lemma_why_lights_are_written(Runtime { phase: Phase::Light(u), ..s }, now, r, deed);
            }
        },
        Phase::Light(u) => {
            let mask = led::mask_for(u.engine, s.led_count as nat);
            let seen = Runtime {
                last_packet_at: Some(now),
                packets_since_status: (if s.packets_since_status == u32::MAX {
                    0
                } else {
                    s.packets_since_status + 1
                }) as u32,
                ..s
            };
            if Some(mask) == s.last_bitmask {
                lemma_why_lights_are_written(
                    Runtime { phase: Phase::Show(u, mask), ..seen },
                    now,
                    r,
                    deed,
                );
            } else if !s.connected {
                lemma_why_lights_are_written(
                    Runtime { phase: Phase::Show(u, mask), ..seen.after_write(mask, false, now) },
                    now,
                    r,
                    deed,
                );
            }
        },
        Phase::Show(u, mask) => {
            if !s.status_due(now) {
                lemma_why_lights_are_written(Runtime { phase: Phase::Reconnect, ..s }, now, r, deed);
            }
        },
        _ => {
            reveal_with_fuel(Runtime::goes_on, 3);
        },
    }
}

/// What is due is done. Before the loop waits for telemetry again it has opened a
/// wheel that is not open, if three seconds have passed since the last attempt;
/// read the temperatures of one that is, if five seconds have passed; reported a
/// game as stopped that has sent nothing for two seconds; and written the lights
/// again, if a quarter of a second has passed.
pub proof fn lemma_what_is_due_is_done(s: Runtime, now: u64, r: Runtime, deed: Deed)
    requires
        s.phase == Phase::Reconnect,
        s.goes_on(now, r, deed),
        deed is Receive,
    ensures
        !s.connected ==> (s.last_reconnect matches Some(t) && now - t < 3_000_000_000),
        s.connected ==> (s.last_temp_poll matches Some(t) && now - t < 5_000_000_000),
        s.active_game is Some ==> s.last_packet_at is None || (
        s.last_packet_at matches Some(t) && now - t < 2_000_000_000),
        s.connected ==> now - s.last_send < 250_000_000,
        r.phase == Phase::Receiving,
        r.connected == s.connected,
        r.active_game == s.active_game,
{
    reveal_with_fuel(Runtime::goes_on, 7);
}

/// What is printed. With a line for every packet, telemetry is always followed by
/// its line; and a line says how many packets have come since the one before it,
/// which then start from zero.
pub proof fn lemma_what_is_printed(
    s: Runtime,
    u: Update,
    mask: u32,
    now: u64,
    r: Runtime,
    deed: Deed,
)
    requires
        s.phase == Phase::Show(u, mask),
        s.goes_on(now, r, deed),
    ensures
        s.verbose ==> deed == Deed::Print(
            led::status_text(u.game, u.engine, mask, s.led_count as nat, s.packets_since_status)
                + "\n"@,
        ),
        !s.verbose && s.inplace && now - s.last_status >= 500_000_000 ==> deed == Deed::Print(
            "\r"@ + led::status_text(
                u.game,
                u.engine,
                mask,
                s.led_count as nat,
                s.packets_since_status,
            ) + "    "@,
        ),
        !s.verbose && !s.inplace ==> !(deed is Print),
        deed is Print ==> r.packets_since_status == 0 && r.last_packet_at == s.last_packet_at,
        deed is Print && !s.verbose ==> r.last_status == now,
{
    lemma_why_lines_are_printed(s, now, r, deed);
}

/// Telemetry is counted, one by one, and its time is kept.
pub proof fn lemma_telemetry_is_counted(s: Runtime, u: Update, now: u64, r: Runtime, deed: Deed)
    requires
        s.phase == Phase::Light(u),
        s.goes_on(now, r, deed),
        s.packets_since_status < u32::MAX,
        !(deed is Print),
    ensures
        r.packets_since_status == s.packets_since_status + 1,
        r.last_packet_at == Some(now),
{
    reveal_with_fuel(Runtime::goes_on, 9);
}

impl Runtime {
    /// Whether telemetry is at hand.
    pub open spec fn holds_update(self) -> bool {
        match self.phase {
            Phase::Arrived(_) => true,
            Phase::Light(_) => true,
            Phase::Lighting(_, _) => true,
            Phase::Show(_, _) => true,
            _ => false,
        }
    }

    /// Whether the loop can stand like this between two actions.
    pub open spec fn resting(self) -> bool {
        match self.phase {
            Phase::Reconnect | Phase::Polling | Phase::Beating(_) | Phase::Receiving =>
            self.active_game is Some ==> self.last_packet_at is Some,
            Phase::Opening => !self.connected && (self.active_game is Some ==> self.last_packet_at
                is Some),
            Phase::Heartbeat => self.active_game is None,
            Phase::Light(u) => self.active_game == Some(u.game),
            Phase::Lighting(u, mask) => {
                &&& self.active_game == Some(u.game)
                &&& self.last_packet_at is Some
                &&& mask == led::mask_for(u.engine, self.led_count as nat)
            },
            _ => false,
        }
    }

    /// Whether two seconds have passed since the last telemetry.
    pub open spec fn silent(self, now: u64) -> bool {
        self.last_packet_at is Some && now - self.last_packet_at->0 >= IDLE_TIMEOUT
    }

    /// Whether an event leads to another state and to what is done next, short of
    /// the end of the program.
    pub open spec fn takes(self, event: Event, now: u64, r: Self, deed: Deed) -> bool {
        &&& self.ready()
        &&& self.fits(event)
        &&& event != Event::Disconnected
        &&& self.after(event, now).goes_on(now, r, deed)
    }

    /// What holds of the next action and of the state then, where no telemetry is
    /// at hand.
    spec fn passes(self, now: u64, r: Self, deed: Deed) -> bool {
        &&& r.led_count == self.led_count
        &&& r.last_packet_at == self.last_packet_at
        &&& self.connected ==> r.connected && r.last_bitmask == self.last_bitmask && r.last_send
            == self.last_send
        &&& !self.connected ==> !r.connected
        &&& match deed {
            Deed::OpenWheel => r.phase == Phase::Opening && r.active_game == self.active_game
                && !self.connected,
            Deed::PollTemps => r.phase == Phase::Polling && r.active_game == self.active_game
                && self.connected,
            Deed::AnnounceStop(game) => r.phase == Phase::Heartbeat && r.active_game is None
                && self.active_game == Some(game) && self.silent(now),
            Deed::WriteLights(mask) => {
                &&& r.phase == Phase::Beating(mask)
                &&& r.active_game == self.active_game
                &&& self.connected
                &&& mask == self.heartbeat_mask()
                &&& self.phase != Phase::Heartbeat ==> self.active_game is None || !self.silent(now)
            },
            Deed::Receive => {
                &&& r.phase == Phase::Receiving
                &&& r.active_game == self.active_game
                &&& self.phase != Phase::Receive && self.connected ==> !due(
                    Some(self.last_send),
                    now,
                    HEARTBEAT_INTERVAL,
                )
            },
            _ => false,
        }
    }

    /// What holds after telemetry was shown or was not, where `self` is the state
    /// without it.
    spec fn passes_after_showing(self, now: u64, r: Self, deed: Deed) -> bool {
        ||| {
            &&& deed is Print
            &&& r.phase == Phase::Reconnect
            &&& r.led_count == self.led_count
            &&& r.connected == self.connected
            &&& r.active_game == self.active_game
            &&& r.last_bitmask == self.last_bitmask
            &&& r.last_packet_at == self.last_packet_at
        }
        ||| self.passes(now, r, deed)
    }

    /// The state once telemetry has been taken in without a write.
    spec fn taken_in(self, u: Update, now: u64) -> Self {
        let mask = led::mask_for(u.engine, self.led_count as nat);
        let seen = Runtime {
            last_packet_at: Some(now),
            packets_since_status: (if self.packets_since_status == u32::MAX {
                0
            } else {
                self.packets_since_status + 1
            }) as u32,
            ..self
        };
        let lit = if Some(mask) == self.last_bitmask {
            seen
        } else {
            seen.after_write(mask, false, now)
        };
        Runtime { phase: Phase::Reconnect, ..lit }
    }

    /// What holds of the next action and of the state then, where telemetry is about
    /// to be taken in.
    spec fn lights(self, u: Update, now: u64, r: Self, deed: Deed) -> bool {
        let mask = led::mask_for(u.engine, self.led_count as nat);
        if self.connected && Some(mask) != self.last_bitmask {
            &&& deed == Deed::WriteLights(mask)
            &&& r.phase == Phase::Lighting(u, mask)
            &&& r.led_count == self.led_count
            &&& r.connected
            &&& r.active_game == self.active_game
            &&& r.last_bitmask == self.last_bitmask
            &&& r.last_packet_at == Some(now)
        } else {
            self.taken_in(u, now).passes_after_showing(now, r, deed)
        }
    }
}

proof fn lemma_passes(s: Runtime, now: u64, r: Runtime, deed: Deed)
    requires
        s.goes_on(now, r, deed),
        s.phase == Phase::Reconnect || s.phase == Phase::Temps || s.phase == Phase::Idle || s.phase
            == Phase::Heartbeat || s.phase == Phase::Receive,
    ensures
        s.passes(now, r, deed),
    decreases s.distance(),
{
    match s.phase {
        Phase::Reconnect => {
            if s.connected || !due(s.last_reconnect, now, RECONNECT_INTERVAL) {
                lemma_passes(Runtime { phase: Phase::Temps, ..s }, now, r, deed);
            }
        },
        Phase::Temps => {
            if due(s.last_temp_poll, now, TEMP_POLL_INTERVAL) {
                if !s.connected {
                    lemma_passes(
                        Runtime { last_temp_poll: Some(now), phase: Phase::Idle, ..s },
                        now,
                        r,
                        deed,
                    );
                }
            } else {
                lemma_passes(Runtime { phase: Phase::Idle, ..s }, now, r, deed);
            }
        },
        Phase::Idle => {
            if !(s.silent(now) && s.active_game is Some) {
                lemma_passes(Runtime { phase: Phase::Heartbeat, ..s }, now, r, deed);
            }
        },
        Phase::Heartbeat => {
            if due(Some(s.last_send), now, HEARTBEAT_INTERVAL) {
                if !s.connected {
                    lemma_passes(
                        Runtime {
                            phase: Phase::Receive,
                            ..s.after_write(s.heartbeat_mask(), false, now)
                        },
                        now,
                        r,
                        deed,
                    );
                }
            } else {
                lemma_passes(Runtime { phase: Phase::Receive, ..s }, now, r, deed);
            }
        },
        _ => {},
    }
}

proof fn lemma_passes_after_showing(s: Runtime, u: Update, mask: u32, now: u64, r: Runtime, deed: Deed)
    requires
        s.phase == Phase::Show(u, mask),
        s.goes_on(now, r, deed),
    ensures
        (Runtime { phase: Phase::Reconnect, ..s }).passes_after_showing(now, r, deed),
{
    if !s.status_due(now) {
        lemma_passes(Runtime { phase: Phase::Reconnect, ..s }, now, r, deed);
    }
}

proof fn lemma_lights(s: Runtime, u: Update, now: u64, r: Runtime, deed: Deed)
    requires
        s.phase == Phase::Light(u),
        s.goes_on(now, r, deed),
    ensures
        s.lights(u, now, r, deed),
{
    let mask = led::mask_for(u.engine, s.led_count as nat);
    let q = s.taken_in(u, now);
    if !(s.connected && Some(mask) != s.last_bitmask) {
        let shown = Runtime { phase: Phase::Show(u, mask), ..q };
        assert(shown.goes_on(now, r, deed));
        lemma_passes_after_showing(shown, u, mask, now, r, deed);
        assert(Runtime { phase: Phase::Reconnect, ..shown } == q);
    }
}

/// What holds of a step with no telemetry at hand.
proof fn lemma_quiet_step(s: Runtime, event: Event, now: u64, r: Runtime, deed: Deed)
    requires
        s.resting(),
        s.takes(event, now, r, deed),
        !s.holds_update(),
        !(event is Received),
    ensures
        s.after(event, now).passes(now, r, deed),
        r.resting(),
        !r.holds_update(),
        s.phase == Phase::Receiving ==> s.after(event, now).phase == Phase::Reconnect,
        s.after(event, now).phase != Phase::Receive || s.phase is Beating,
        s.after(event, now).phase == Phase::Heartbeat ==> s.phase == Phase::Heartbeat,
{
    lemma_passes(s.after(event, now), now, r, deed);
}

/// What holds of a step in which telemetry comes or is at hand.
proof fn lemma_update_step(s: Runtime, u: Update, event: Event, now: u64, r: Runtime, deed: Deed)
    requires
        s.resting(),
        s.takes(event, now, r, deed),
        event == Event::Received(u) || s.phase == Phase::Light(u) || (s.phase is Lighting
            && s.phase->Lighting_0 == u),
    ensures
        r.resting(),
        r.led_count == s.led_count,
        match s.phase {
            Phase::Receiving => {
                let arrived = Runtime {
                    active_game: Some(u.game),
                    phase: Phase::Light(u),
                    ..s
                };
                if s.active_game == Some(u.game) {
                    arrived.lights(u, now, r, deed)
                } else {
                    deed == Deed::AnnounceStart(u.game) && r == arrived
                }
            },
            Phase::Light(_) => s.lights(u, now, r, deed),
            Phase::Lighting(_, mask) => {
                let ok = event->Written_0;
                let q = Runtime { phase: Phase::Reconnect, ..s.after_write(mask, ok, now) };
                q.passes_after_showing(now, r, deed)
            },
            _ => false,
        },
{
    match s.phase {
        Phase::Receiving => {
            let arrived = Runtime { active_game: Some(u.game), phase: Phase::Light(u), ..s };
            if s.active_game == Some(u.game) {
                assert(arrived.goes_on(now, r, deed));
                lemma_lights(arrived, u, now, r, deed);
            }
        },
        Phase::Light(_) => {
            lemma_lights(s, u, now, r, deed);
        },
        Phase::Lighting(_, mask) => {
            let a = s.after(event, now);
            lemma_passes_after_showing(a, u, mask, now, r, deed);
            let ok = event->Written_0;
            assert(Runtime { phase: Phase::Reconnect, ..a } == (Runtime {
                phase: Phase::Reconnect,
                ..s.after_write(mask, ok, now)
            }));
        },
        _ => {},
    }
}

/// The lights that were written last.
pub open spec fn last_written(deeds: Seq<Deed>) -> Option<u32>
    decreases deeds.len(),
{
    if deeds.len() == 0 {
        None
    } else {
        match deeds.last() {
            Deed::WriteLights(mask) => Some(mask),
            _ => last_written(deeds.drop_last()),
        }
    }
}

/// Whether these are the states of one run of the loop from its start, with what
/// came of each action, the time and what was done next.
pub open spec fn is_run(
    states: Seq<Runtime>,
    events: Seq<Event>,
    nows: Seq<u64>,
    deeds: Seq<Deed>,
) -> bool {
    &&& states.len() == events.len() + 1
    &&& nows.len() == events.len()
    &&& deeds.len() == events.len()
    &&& states[0].phase == Phase::Reconnect
    &&& states[0].last_bitmask is None
    &&& states[0].active_game is None
    &&& states[0].last_packet_at is None
    &&& forall|i: int, j: int| 0 <= i <= j < nows.len() ==> nows[i] <= nows[j]
    &&& forall|i: int|
        #![trigger events[i]]
        0 <= i < events.len() ==> states[i].takes(events[i], nows[i], states[i + 1], deeds[i])
}

/// Whether the lights that were written last are those that the loop holds to be
/// on a wheel that is open.
spec fn knows_lights(s: Runtime, written: Option<u32>) -> bool {
    match s.phase {
        Phase::Beating(mask) => written == Some(mask),
        Phase::Lighting(_, mask) => written == Some(mask),
        _ => s.connected && s.last_bitmask is Some ==> written == s.last_bitmask,
    }
}

/// What holds at every point of a run.
proof fn lemma_run_so_far(
    states: Seq<Runtime>,
    events: Seq<Event>,
    nows: Seq<u64>,
    deeds: Seq<Deed>,
    n: int,
)
    requires
        is_run(states, events, nows, deeds),
        0 <= n <= events.len(),
    ensures
        states[n].resting(),
        states[n].led_count == states[0].led_count,
        knows_lights(states[n], last_written(deeds.take(n))),
    decreases n,
{
    if n > 0 {
        lemma_run_so_far(states, events, nows, deeds, n - 1);
        let s = states[n - 1];
        let event = events[n - 1];
        let now = nows[n - 1];
        let r = states[n];
        let deed = deeds[n - 1];
        assert(s.takes(event, now, r, deed));
        let before = deeds.take(n - 1);
        assert(deeds.take(n).drop_last() == before);
        assert(deeds.take(n).last() == deed);
        if event is Received {
            lemma_update_step(s, event->Received_0, event, now, r, deed);
        } else if let Phase::Light(u) = s.phase {
            lemma_update_step(s, u, event, now, r, deed);
        } else if let Phase::Lighting(u, _) = s.phase {
            lemma_update_step(s, u, event, now, r, deed);
        } else {
            lemma_quiet_step(s, event, now, r, deed);
        }
    }
}

/// Whether no telemetry comes from one step of a run to another.
pub open spec fn no_telemetry(events: Seq<Event>, from: int, to: int) -> bool {
    forall|i: int| from <= i <= to ==> !((#[trigger] events[i]) is Received)
}

/// The loop stays quiet as long as no telemetry comes.
proof fn lemma_stays_quiet(
    states: Seq<Runtime>,
    events: Seq<Event>,
    nows: Seq<u64>,
    deeds: Seq<Deed>,
    from: int,
    n: int,
)
    requires
        is_run(states, events, nows, deeds),
        0 <= from <= n <= events.len(),
        !states[from].holds_update(),
        no_telemetry(events, from, n - 1),
    ensures
        !states[n].holds_update(),
        states[n].last_packet_at == states[from].last_packet_at,
    decreases n - from,
{
    if from < n {
        lemma_stays_quiet(states, events, nows, deeds, from, n - 1);
        lemma_run_so_far(states, events, nows, deeds, n - 1);
        assert(states[n - 1].takes(events[n - 1], nows[n - 1], states[n], deeds[n - 1]));
        lemma_quiet_step(states[n - 1], events[n - 1], nows[n - 1], states[n], deeds[n - 1]);
    }
}

/// The bar is dark in silence: once two seconds have passed since the last
/// telemetry, or where there was none yet, all that is written to the wheel turns
/// every light off, until the next telemetry comes.
pub proof fn lemma_dark_until_the_next_telemetry(
    states: Seq<Runtime>,
    events: Seq<Event>,
    nows: Seq<u64>,
    deeds: Seq<Deed>,
    from: int,
    n: int,
)
    requires
        is_run(states, events, nows, deeds),
        0 <= from <= n < events.len(),
        !states[from].holds_update(),
        no_telemetry(events, from, n),
        states[from].silent(nows[from]) || states[from].last_packet_at is None,
        deeds[n] is WriteLights,
    ensures
        deeds[n] == Deed::WriteLights(0),
{
    lemma_stays_quiet(states, events, nows, deeds, from, n);
    lemma_run_so_far(states, events, nows, deeds, n);
    let s = states[n];
    assert(s.takes(events[n], nows[n], states[n + 1], deeds[n]));
    lemma_quiet_step(s, events[n], nows[n], states[n + 1], deeds[n]);
}

/// The bar goes dark in silence: when two seconds have passed since the last
/// telemetry and a quarter of a second since the lights were written, a wheel that
/// is open gets all lights turned off before the loop waits for telemetry again.
pub proof fn lemma_goes_dark_before_waiting(
    states: Seq<Runtime>,
    events: Seq<Event>,
    nows: Seq<u64>,
    deeds: Seq<Deed>,
    from: int,
    n: int,
)
    requires
        is_run(states, events, nows, deeds),
        0 <= from <= n < events.len(),
        states[from].phase == Phase::Receiving,
        states[from].connected,
        no_telemetry(events, from, n),
        states[from].silent(nows[from]) || states[from].last_packet_at is None,
        nows[from] - states[from].last_send >= HEARTBEAT_INTERVAL,
        deeds[n] is Receive,
    ensures
        exists|k: int| from <= k < n && #[trigger] deeds[k] == Deed::WriteLights(0),
{
    if forall|k: int| from <= k < n ==> #[trigger] deeds[k] != Deed::WriteLights(0) {
        lemma_waits_for_the_heartbeat(states, events, nows, deeds, from, n);
        let s = states[n];
        lemma_run_so_far(states, events, nows, deeds, n);
        assert(s.takes(events[n], nows[n], states[n + 1], deeds[n]));
        lemma_quiet_step(s, events[n], nows[n], states[n + 1], deeds[n]);
        assert(nows[from] <= nows[n]);
    }
}

/// As long as a due heartbeat has not been written, the loop has not waited for
/// telemetry.
proof fn lemma_waits_for_the_heartbeat(
    states: Seq<Runtime>,
    events: Seq<Event>,
    nows: Seq<u64>,
    deeds: Seq<Deed>,
    from: int,
    n: int,
)
    requires
        is_run(states, events, nows, deeds),
        0 <= from <= n < events.len(),
        states[from].phase == Phase::Receiving,
        states[from].connected,
        no_telemetry(events, from, n),
        states[from].silent(nows[from]) || states[from].last_packet_at is None,
        nows[from] - states[from].last_send >= HEARTBEAT_INTERVAL,
        forall|k: int| from <= k < n ==> #[trigger] deeds[k] != Deed::WriteLights(0),
    ensures
        states[n].connected,
        states[n].last_send == states[from].last_send,
        states[n].phase == Phase::Receiving || states[n].phase == Phase::Polling
            || states[n].phase == Phase::Heartbeat,
    decreases n - from,
{
    if from < n {
        lemma_waits_for_the_heartbeat(states, events, nows, deeds, from, n - 1);
        let s = states[n - 1];
        lemma_run_so_far(states, events, nows, deeds, n - 1);
        assert(s.takes(events[n - 1], nows[n - 1], states[n], deeds[n - 1]));
        lemma_quiet_step(s, events[n - 1], nows[n - 1], states[n], deeds[n - 1]);
        assert(nows[from] <= nows[n - 1]);
        if deeds[n - 1] is WriteLights {
            lemma_dark_until_the_next_telemetry(states, events, nows, deeds, from, n - 1);
        }
    }
}

/// Whether the loop is about to show this telemetry, or has.
spec fn follows(s: Runtime, u: Update, since: u64) -> bool {
    let mask = led::mask_for(u.engine, s.led_count as nat);
    let fresh = s.last_packet_at is Some && s.last_packet_at->0 >= since;
    match s.phase {
        Phase::Light(v) => v == u,
        Phase::Lighting(v, _) => v == u && fresh,
        _ => {
            &&& fresh
            &&& !s.holds_update()
            &&& s.active_game == Some(u.game)
            &&& s.last_bitmask == Some(mask)
            &&& s.phase matches Phase::Beating(m) ==> m == mask
        },
    }
}

/// Whether telemetry has been taken in, and its lights are held to be on.
spec fn has_shown(s: Runtime, u: Update, since: u64) -> bool {
    &&& s.connected
    &&& s.last_packet_at is Some
    &&& s.last_packet_at->0 >= since
    &&& s.active_game == Some(u.game)
    &&& s.last_bitmask == Some(led::mask_for(u.engine, s.led_count as nat))
}

proof fn lemma_passes_and_follows(
    s: Runtime,
    u: Update,
    since: u64,
    now: u64,
    r: Runtime,
    deed: Deed,
)
    requires
        s.passes_after_showing(now, r, deed),
        has_shown(s, u, since),
        now - since < IDLE_TIMEOUT,
    ensures
        follows(r, u, since),
{
    assert(!s.silent(now));
}

proof fn lemma_lights_and_follows(
    s: Runtime,
    u: Update,
    since: u64,
    now: u64,
    r: Runtime,
    deed: Deed,
)
    requires
        s.lights(u, now, r, deed),
        s.connected,
        s.active_game == Some(u.game),
        since <= now,
        now - since < IDLE_TIMEOUT,
    ensures
        follows(r, u, since),
{
    let mask = led::mask_for(u.engine, s.led_count as nat);
    if Some(mask) == s.last_bitmask {
        lemma_passes_and_follows(s.taken_in(u, now), u, since, now, r, deed);
    }
}

/// Once telemetry has come, the loop is about to show it or has.
proof fn lemma_begins_to_follow(s: Runtime, u: Update, now: u64, r: Runtime, deed: Deed)
    requires
        s.resting(),
        s.takes(Event::Received(u), now, r, deed),
        s.connected,
    ensures
        follows(r, u, now),
{
    lemma_update_step(s, u, Event::Received(u), now, r, deed);
    if s.active_game == Some(u.game) {
        let arrived = Runtime { active_game: Some(u.game), phase: Phase::Light(u), ..s };
        lemma_lights_and_follows(arrived, u, now, now, r, deed);
    }
}

/// A wheel that could not be written to is not open in the next state.
proof fn lemma_stays_lost(s: Runtime, now: u64, r: Runtime, deed: Deed)
    requires
        s.passes_after_showing(now, r, deed),
        r.connected,
    ensures
        s.connected,
{
}

/// That stays so for two seconds, while the wheel stays open.
proof fn lemma_goes_on_to_follow(
    s: Runtime,
    u: Update,
    since: u64,
    event: Event,
    now: u64,
    r: Runtime,
    deed: Deed,
)
    requires
        s.resting(),
        follows(s, u, since),
        s.takes(event, now, r, deed),
        !(event is Received),
        s.connected,
        r.connected,
        since <= now,
        now - since < IDLE_TIMEOUT,
    ensures
        follows(r, u, since),
{
    match s.phase {
        Phase::Light(_) => {
            lemma_update_step(s, u, event, now, r, deed);
            lemma_lights_and_follows(s, u, since, now, r, deed);
        },
        Phase::Lighting(_, mask) => {
            lemma_update_step(s, u, event, now, r, deed);
            let q = Runtime {
                phase: Phase::Reconnect,
                ..s.after_write(mask, event->Written_0, now)
            };
            lemma_stays_lost(q, now, r, deed);
            lemma_passes_and_follows(q, u, since, now, r, deed);
        },
        _ => {
            lemma_quiet_step(s, event, now, r, deed);
            lemma_stays_lost(s.after(event, now), now, r, deed);
            lemma_passes_and_follows(s.after(event, now), u, since, now, r, deed);
        },
    }
}

proof fn lemma_follows(
    states: Seq<Runtime>,
    events: Seq<Event>,
    nows: Seq<u64>,
    deeds: Seq<Deed>,
    u: Update,
    i: int,
    n: int,
)
    requires
        is_run(states, events, nows, deeds),
        0 <= i < n <= events.len(),
        events[i] == Event::Received(u),
        no_telemetry(events, i + 1, n - 1),
        forall|k: int| i <= k <= n ==> (#[trigger] states[k]).connected,
        nows[n - 1] - nows[i] < IDLE_TIMEOUT,
    ensures
        follows(states[n], u, nows[i]),
    decreases n - i,
{
    lemma_run_so_far(states, events, nows, deeds, n - 1);
    assert(states[n - 1].takes(events[n - 1], nows[n - 1], states[n], deeds[n - 1]));
    assert(states[n - 1].connected && states[n].connected);
    if n - 1 == i {
        lemma_begins_to_follow(states[i], u, nows[i], states[n], deeds[i]);
    } else {
        assert(nows[n - 2] <= nows[n - 1]);
        assert(nows[i] <= nows[n - 1]);
        lemma_follows(states, events, nows, deeds, u, i, n - 1);
        lemma_goes_on_to_follow(
            states[n - 1],
            u,
            nows[i],
            events[n - 1],
            nows[n - 1],
            states[n],
            deeds[n - 1],
        );
    }
}

/// The bar follows the telemetry: when the loop waits again less than two seconds
/// after telemetry has come, whichever game it came from, the lights that were
/// written last are those for that telemetry. This is so while the wheel stays
/// open; one that was opened in between gets its lights with the next telemetry.
pub proof fn lemma_lights_follow_the_telemetry(
    states: Seq<Runtime>,
    events: Seq<Event>,
    nows: Seq<u64>,
    deeds: Seq<Deed>,
    u: Update,
    i: int,
    n: int,
)
    requires
        is_run(states, events, nows, deeds),
        0 <= i <= n < events.len(),
        events[i] == Event::Received(u),
        no_telemetry(events, i + 1, n),
        forall|k: int| i <= k <= n + 1 ==> (#[trigger] states[k]).connected,
        nows[n] - nows[i] < IDLE_TIMEOUT,
        deeds[n] is Receive,
    ensures
        last_written(deeds.take(n + 1)) == Some(
            led::mask_for(u.engine, states[0].led_count as nat),
        ),
{
    lemma_run_so_far(states, events, nows, deeds, n);
    lemma_run_so_far(states, events, nows, deeds, n + 1);
    lemma_follows(states, events, nows, deeds, u, i, n + 1);
    let s = states[n];
    assert(s.takes(events[n], nows[n], states[n + 1], deeds[n]));
    if events[n] is Received {
        lemma_update_step(s, events[n]->Received_0, events[n], nows[n], states[n + 1], deeds[n]);
    } else if let Phase::Light(v) = s.phase {
        lemma_update_step(s, v, events[n], nows[n], states[n + 1], deeds[n]);
    } else if let Phase::Lighting(v, _) = s.phase {
        lemma_update_step(s, v, events[n], nows[n], states[n + 1], deeds[n]);
    } else {
        lemma_quiet_step(s, events[n], nows[n], states[n + 1], deeds[n]);
    }
}

/// The warning thresholds in degrees Celsius: 75, 70 and 95.
pub open spec fn mcu_limit() -> Binary32 {
    Binary32 { bits: 0x4296_0000 }
}

pub open spec fn mosfet_limit() -> Binary32 {
    Binary32 { bits: 0x428C_0000 }
}

pub open spec fn motor_limit() -> Binary32 {
    Binary32 { bits: 0x42BE_0000 }
}

/// Whether a sensor answered with its limit or more.
pub open spec fn too_hot(reading: Option<Binary32>, limit: Binary32) -> bool {
    match reading {
        Some(c) => limit.at_most(c),
        None => false,
    }
}

fn is_too_hot(reading: Option<Binary32>, limit: Binary32) -> (r: bool)
    ensures
        r == too_hot(reading, limit),
{
    match reading {
        Some(c) => limit.le(c),
        None => false,
    }
}

/// Whether a sensor answered with at least this many degrees.
pub open spec fn reaches(reading: Option<Binary32>, degrees: int) -> bool {
    match reading {
        Some(c) => !c.nan() && c.value() >= degrees * binary32::exp2(149),
        None => false,
    }
}

/// Which of the temperatures are elevated.
#[derive(Debug, Clone, Copy, PartialEq, Eq, Structural)]
pub struct TempWarnings {
    pub mcu: bool,
    pub mosfet: bool,
    pub motor: bool,
}

/// Which of the temperatures are elevated: the controller's from 75 degrees up,
/// the transistors' from 70 and the motor's from 95.
pub fn temp_warnings(temps: &BaseTemps) -> (r: TempWarnings)
    ensures
        r.mcu == too_hot(temps.mcu_c, mcu_limit()),
        r.mosfet == too_hot(temps.mosfet_c, mosfet_limit()),
        r.motor == too_hot(temps.motor_c, motor_limit()),
        r.mcu <==> reaches(temps.mcu_c, 75),
        r.mosfet <==> reaches(temps.mosfet_c, 70),
        r.motor <==> reaches(temps.motor_c, 95),
{
    proof {
        binary32::lemma_values_of_limits();
    }
    TempWarnings {
        mcu: is_too_hot(temps.mcu_c, Binary32 { bits: 0x4296_0000 }),
        mosfet: is_too_hot(temps.mosfet_c, Binary32 { bits: 0x428C_0000 }),
        motor: is_too_hot(temps.motor_c, Binary32 { bits: 0x42BE_0000 }),
    }
}

/// The wheel to open: at the given path or else the one that is found among the
/// names of serial devices, in the given protocol or else the one that its path
/// calls for.
pub fn wheel_to_open(
    user_serial: Option<String>,
    names: &[String],
    user_protocol: Option<Protocol>,
) -> (r: Option<(String, Protocol)>)
    ensures
        user_serial matches Some(p) ==> r is Some && (r->0).0@ == p@,
        user_serial is None && r is None ==> moza::is_wheelbase_choice(
            moza::lowercase_texts(names@),
            None,
        ),
        user_serial is None && r is Some ==> exists|i: int|
            #![trigger names@[i]]
            moza::is_wheelbase_choice(moza::lowercase_texts(names@), Some(i)) && (r->0).0@
                == "/dev/serial/by-id/"@ + names@[i]@,
        r matches Some(w) ==> w.1 == match user_protocol {
            Some(p) => p,
            None => moza::protocol_for(text::lowercase(w.0@)),
        },
{
    let path: String = match user_serial {
        Some(p) => p,
        None => match moza::find_wheelbase(names) {
            Some(p) => p,
            None => {
                return None;
            },
        },
    };
    let protocol: Protocol = match user_protocol {
        Some(p) => p,
        None => moza::detect_protocol(path.as_str()),
    };
    Some((path, protocol))
}

/// What events do. An attempt to open the wheel succeeds or not, its time is kept,
/// and after a success the lights count as unknown. A wheel stays open exactly as
/// long as lights can be written to it; when one is lost the time is kept. Lights
/// that were written are known then, and their time is kept. Telemetry that comes is
/// taken up. Nothing but that touches the active game or what was last received.
pub proof fn lemma_what_events_do(s: Runtime, event: Event, now: u64)
    requires
        s.fits(event),
    ensures
        ({
            let r = s.after(event, now);
            &&& s.phase == Phase::Opening ==> {
                &&& r.connected == event->Opened_0
                &&& r.last_reconnect == Some(now)
                &&& event->Opened_0 ==> r.last_bitmask is None
                &&& r.last_temp_poll == s.last_temp_poll
            }
            &&& s.phase == Phase::Polling ==> r.last_temp_poll == Some(now) && r.connected
                == s.connected
            &&& s.phase is Beating || s.phase is Lighting ==> {
                let mask = match s.phase {
                    Phase::Beating(m) => m,
                    Phase::Lighting(_, m) => m,
                    _ => 0,
                };
                &&& r.connected == (s.connected && event->Written_0)
                &&& s.connected && !r.connected ==> r.last_reconnect == Some(now)
                &&& r.connected ==> r.last_reconnect == s.last_reconnect
                &&& r.last_bitmask == Some(mask)
                &&& r.last_send == now
            }
            &&& event is Received ==> r.phase == Phase::Arrived(event->Received_0)
            &&& event is TimedOut ==> r == (Runtime { phase: Phase::Reconnect, ..s })
            &&& r.active_game == s.active_game
            &&& r.last_packet_at == s.last_packet_at
            &&& r.packets_since_status == s.packets_since_status
            &&& r.led_count == s.led_count && r.verbose == s.verbose && r.inplace == s.inplace
        }),
{
}

/// The times of the loop: it waits a quarter of a second for telemetry, and a sensor
/// has three tenths of a second to answer.
pub proof fn lemma_times_of_the_loop()
    ensures
        RECV_TIMEOUT == 250_000_000,
        TEMP_READ_DEADLINE == 300_000_000,
        4 * RECV_TIMEOUT == 4 * HEARTBEAT_INTERVAL == 2 * STATUS_INTERVAL == 1_000_000_000,
        IDLE_TIMEOUT == 8 * RECV_TIMEOUT,
{
}

} // verus!
