//! The scrub session's state machine. Dragging the strip to sim-time `t` restarts the cast when
//! the request lies behind the clock (or no cast is live yet) and then runs the fixed schedule
//! synchronously until the clock reaches `t`; between drags the sim is frozen. Replay restarts
//! the cast, runs it at 1x and freezes at the base span. Leaving Editing ends the session.
//!
//! Running the schedule, advancing the clock and the span arithmetic are the caller's; this module
//! makes every decision and keeps the session's state. Times are `f32` bit patterns compared with
//! IEEE semantics (see `floatbits`).
use vstd::prelude::*;

use crate::floatbits::{
    f32_eq, f32_eq_exec, f32_is_nan, f32_is_nan_exec, f32_le, f32_le_exec, f32_lt, f32_lt_exec, F32Bits, F32_ZERO,
};

verus! {

/// Hard cap on fixed ticks one synchronous seek may run.
pub const MAX_SEEK_TICKS: u32 = 3600;

/// The scrub session's mode.
#[derive(Debug, Clone, Copy, PartialEq, Eq, Structural)]
pub enum ScrubMode {
    /// No session: the sim runs free.
    Idle,
    /// Fast-forwarding toward the sought time.
    Seeking,
    /// Frozen at the reached time.
    Frozen,
    /// Replaying at 1x from the start; freezes at `end`.
    Replaying,
}

/// The scrub controller's state.
pub struct ScrubSim {
    pub mode: ScrubMode,
    /// Requested sim time (strip drag); none until the first grab.
    pub target: Option<F32Bits>,
    /// Sim seconds since the scrub cast started.
    pub clock: F32Bits,
    /// Set by the replay button.
    pub replay_requested: bool,
    /// The cast's charge byte.
    pub charge: u8,
    /// The furthest instant at which a hitbox or triggered sub-cast was seen alive.
    pub dynamic_end: F32Bits,
    /// Whether a scrub cast has been fired this session.
    pub cast_live: bool,
    /// The target the last seek served.
    pub sought: Option<F32Bits>,
    /// Where a replay freezes.
    pub end: F32Bits,
    /// Set only while a synchronous seek runs the schedule.
    pub exclusive_running: bool,
}

impl Default for ScrubSim {
    /// No session, nothing sought, an uncharged tap (85, about 1.0x).
    fn default() -> (r: Self)
        ensures
            r.mode == ScrubMode::Idle,
            r.target is None,
            r.clock == F32_ZERO,
            !r.replay_requested,
            r.charge == 85,
            r.dynamic_end == F32_ZERO,
            !r.cast_live,
            r.sought is None,
            r.end == F32_ZERO,
            !r.exclusive_running,
    {
        ScrubSim {
            mode: ScrubMode::Idle,
            target: None,
            clock: F32_ZERO,
            replay_requested: false,
            charge: 85,
            dynamic_end: F32_ZERO,
            cast_live: false,
            sought: None,
            end: F32_ZERO,
            exclusive_running: false,
        }
    }
}

/// Whether the sim may advance on the ambient fixed loop: always without a session or while idle
/// or replaying; while seeking or frozen only inside the seek's own tick loop.
pub open spec fn spec_sim_unfrozen(scrub: Option<ScrubSim>) -> bool {
    match scrub {
        None => true,
        Some(s) => match s.mode {
            ScrubMode::Idle | ScrubMode::Replaying => true,
            ScrubMode::Seeking | ScrubMode::Frozen => s.exclusive_running,
        },
    }
}

/// Whether the sim may advance (the run condition of the sim and its clocks).
pub fn sim_unfrozen(scrub: Option<&ScrubSim>) -> (r: bool)
    ensures
        r == spec_sim_unfrozen(
            match scrub {
                None => None,
                Some(s) => Some(*s),
            },
        ),
{
    match scrub {
        None => true,
        Some(s) => match s.mode {
            ScrubMode::Idle | ScrubMode::Replaying => true,
            ScrubMode::Seeking | ScrubMode::Frozen => s.exclusive_running,
        },
    }
}

/// `x` clamped to `[lo, hi]` as `f32::clamp` does: below `lo` gives `lo`, above `hi` gives `hi`,
/// anything else (a NaN included) is kept.
pub open spec fn clamped(x: F32Bits, lo: F32Bits, hi: F32Bits) -> F32Bits {
    if f32_lt(x, lo) {
        lo
    } else if f32_lt(hi, x) {
        hi
    } else {
        x
    }
}

/// The smaller of `a` and `b` as `f32::min` gives it: a NaN gives way to the other value.
pub open spec fn min_of(a: F32Bits, b: F32Bits) -> F32Bits {
    if f32_is_nan(a) {
        b
    } else if f32_is_nan(b) {
        a
    } else if f32_lt(b, a) {
        b
    } else {
        a
    }
}

/// What the scrub machine does this frame.
#[derive(Debug, Clone, Copy, PartialEq, Eq, Structural)]
pub enum ScrubStep {
    /// The sim belongs to Play: end the session.
    EndSession,
    /// Nothing to do.
    Stay,
    /// Restart the cast and replay it at 1x.
    Replay,
    /// Run the sim to `target`, restarting the cast first when `restart`.
    Seek { target: F32Bits, restart: bool },
}

impl ScrubSim {
    /// The decision `step` stands for, given whether the editor is editing, whether a skill is
    /// open, the seek range's upper end `hard_cap`, and `restart_below`, the time under which a
    /// request counts as behind the clock.
    pub open spec fn spec_step(self, editing: bool, has_open: bool, hard_cap: F32Bits, restart_below: F32Bits) -> ScrubStep {
        if !editing {
            ScrubStep::EndSession
        } else if !has_open {
            ScrubStep::Stay
        } else if self.replay_requested {
            ScrubStep::Replay
        } else if self.mode == ScrubMode::Replaying {
            ScrubStep::Stay
        } else {
            match self.target {
                None => ScrubStep::Stay,
                Some(raw) => {
                    let target = clamped(raw, F32_ZERO, hard_cap);
                    let held = match self.sought {
                        Some(s) => f32_eq(s, target),
                        None => false,
                    };
                    if held && self.cast_live {
                        ScrubStep::Stay
                    } else {
                        ScrubStep::Seek { target, restart: !self.cast_live || f32_lt(target, restart_below) }
                    }
                },
            }
        }
    }

    /// This frame's decision. Leaving Editing ends the session; with nothing open there is
    /// nothing to do; a replay request wins; a replay in progress is left to the fixed loop; a
    /// request already served while the cast lives is held; any other request (clamped to
    /// `[0, hard_cap]`) is sought, from a fresh cast when none is live or it lies behind
    /// `restart_below` (the clock less a tick-rounding margin).
    pub fn step(&self, editing: bool, has_open: bool, hard_cap: F32Bits, restart_below: F32Bits) -> (r: ScrubStep)
        requires
            !f32_is_nan(hard_cap),
            f32_le(F32_ZERO, hard_cap),
        ensures
            r == self.spec_step(editing, has_open, hard_cap, restart_below),
    {
        if !editing {
            return ScrubStep::EndSession;
        }
        if !has_open {
            return ScrubStep::Stay;
        }
        if self.replay_requested {
            return ScrubStep::Replay;
        }
        if self.mode == ScrubMode::Replaying {
            return ScrubStep::Stay;
        }
        match self.target {
            None => ScrubStep::Stay,
            Some(raw) => {
                let target = if f32_lt_exec(raw, F32_ZERO) {
                    F32_ZERO
                } else if f32_lt_exec(hard_cap, raw) {
                    hard_cap
                } else {
                    raw
                };
                let held = match self.sought {
                    Some(s) => f32_eq_exec(s, target),
                    None => false,
                };
                if held && self.cast_live {
                    ScrubStep::Stay
                } else {
                    ScrubStep::Seek { target, restart: !self.cast_live || f32_lt_exec(target, restart_below) }
                }
            },
        }
    }

    /// End the session (Play took the sim): an active session goes idle with no live cast; an
    /// idle one is left as it is.
    pub fn end_session(&mut self)
        ensures
            old(self).mode != ScrubMode::Idle ==> *final(self) == (ScrubSim {
                mode: ScrubMode::Idle,
                cast_live: false,
                ..*old(self)
            }),
            old(self).mode == ScrubMode::Idle ==> *final(self) == *old(self),
    {
        if self.mode != ScrubMode::Idle {
            self.mode = ScrubMode::Idle;
            self.cast_live = false;
        }
    }

    /// The cast was restarted on a stage reset: the clock is back at zero, the cast is live,
    /// nothing has been sought in it yet, and the strip's end is back at the base span `base`.
    pub fn restarted(&mut self, base: F32Bits)
        ensures
            *final(self) == (ScrubSim {
                clock: F32_ZERO,
                cast_live: true,
                sought: None,
                dynamic_end: base,
                ..*old(self)
            }),
    {
        self.clock = F32_ZERO;
        self.cast_live = true;
        self.sought = None;
        self.dynamic_end = base;
    }

    /// A replay begins (after a restart): the request is served, the mode is replaying, it will
    /// freeze at `base`, and no drag target stands.
    pub fn begin_replay(&mut self, base: F32Bits)
        ensures
            *final(self) == (ScrubSim {
                replay_requested: false,
                mode: ScrubMode::Replaying,
                end: base,
                target: None,
                ..*old(self)
            }),
    {
        self.replay_requested = false;
        self.mode = ScrubMode::Replaying;
        self.end = base;
        self.target = None;
    }

    /// A seek toward `target` begins: it is recorded as sought, the mode is seeking, and the sim
    /// is unfrozen for the seek's own tick loop.
    pub fn begin_seek(&mut self, target: F32Bits)
        ensures
            *final(self) == (ScrubSim {
                sought: Some(target),
                mode: ScrubMode::Seeking,
                exclusive_running: true,
                ..*old(self)
            }),
    {
        self.sought = Some(target);
        self.mode = ScrubMode::Seeking;
        self.exclusive_running = true;
    }

    /// Whether the seek runs another tick: the clock is short of `target` and fewer than
    /// [`MAX_SEEK_TICKS`] ticks have run.
    pub fn seek_continues(&self, target: F32Bits, ticks_run: u32) -> (r: bool)
        ensures
            r == (f32_lt(self.clock, target) && ticks_run < MAX_SEEK_TICKS),
    {
        f32_lt_exec(self.clock, target) && ticks_run < MAX_SEEK_TICKS
    }

    /// The seek is over: the sim freezes where it stands.
    pub fn finish_seek(&mut self)
        ensures
            *final(self) == (ScrubSim { exclusive_running: false, mode: ScrubMode::Frozen, ..*old(self) }),
    {
        self.exclusive_running = false;
        self.mode = ScrubMode::Frozen;
    }

    /// One fixed tick passed, the clock reading `advanced` after it. Without a live cast nothing
    /// changes; otherwise the clock takes the new reading and a replay that reached its end
    /// freezes.
    pub fn tick_clock(&mut self, advanced: F32Bits)
        ensures
            !old(self).cast_live ==> *final(self) == *old(self),
            old(self).cast_live ==> *final(self) == (ScrubSim {
                clock: advanced,
                mode: if old(self).mode == ScrubMode::Replaying && f32_le(old(self).end, advanced) {
                    ScrubMode::Frozen
                } else {
                    old(self).mode
                },
                ..*old(self)
            }),
    {
        if !self.cast_live {
            return;
        }
        self.clock = advanced;
        if self.mode == ScrubMode::Replaying && f32_le_exec(self.end, advanced) {
            self.mode = ScrubMode::Frozen;
        }
    }

    /// The strip's end after `extend_dynamic_end`: it grows to the clock, capped at `cap`, when a
    /// live cast has a hitbox or triggered sub-cast alive (`sub_casts_alive`), a skill is open,
    /// and the clock has passed the current end.
    pub open spec fn extended_end(self, sub_casts_alive: bool, has_open: bool, cap: F32Bits) -> F32Bits {
        if !self.cast_live || !sub_casts_alive || !has_open || f32_le(self.clock, self.dynamic_end) {
            self.dynamic_end
        } else {
            min_of(self.clock, cap)
        }
    }

    /// Grow the strip's end while something spawned by the cast still lives past it.
    pub fn extend_dynamic_end(&mut self, sub_casts_alive: bool, has_open: bool, cap: F32Bits)
        ensures
            *final(self) == (ScrubSim {
                dynamic_end: old(self).extended_end(sub_casts_alive, has_open, cap),
                ..*old(self)
            }),
    {
        if !self.cast_live || !sub_casts_alive || !has_open {
            return;
        }
        if f32_le_exec(self.clock, self.dynamic_end) {
            return;
        }
        let clock = self.clock;
        self.dynamic_end = if f32_is_nan_exec(clock) {
            cap
        } else if f32_is_nan_exec(cap) {
            clock
        } else if f32_lt_exec(cap, clock) {
            cap
        } else {
            clock
        };
    }
}

/// Which discrete moment of the scrubbed cast a strip marker records.
#[derive(Debug, Clone, Copy, PartialEq, Eq, Structural)]
pub enum MarkerKind {
    WindowOpened,
    Hit,
    Ended,
    Trigger,
}

/// The hover text of a marker of kind `kind`.
pub open spec fn spec_marker_label(kind: MarkerKind) -> Seq<char> {
    match kind {
        MarkerKind::WindowOpened => "window opened"@,
        MarkerKind::Hit => "hit"@,
        MarkerKind::Ended => "window ended"@,
        MarkerKind::Trigger => "trigger fired"@,
    }
}

/// The hover text of a marker of kind `kind`.
pub fn marker_label(kind: MarkerKind) -> (r: &'static str)
    ensures
        r@ == spec_marker_label(kind),
{
    match kind {
        MarkerKind::WindowOpened => "window opened",
        MarkerKind::Hit => "hit",
        MarkerKind::Ended => "window ended",
        MarkerKind::Trigger => "trigger fired",
    }
}

/// The strip's end never shrinks, and once within the cap it stays within it: extending an end
/// at or below a (non-NaN) cap gives an end at or above the old one and at or below the cap.
pub proof fn law_dynamic_end_grows_within_cap(s: ScrubSim, sub_casts_alive: bool, has_open: bool, cap: F32Bits)
    requires
        !f32_is_nan(cap),
        f32_le(s.dynamic_end, cap),
    ensures
        f32_le(s.dynamic_end, s.extended_end(sub_casts_alive, has_open, cap)),
        f32_le(s.extended_end(sub_casts_alive, has_open, cap), cap),
{
}

/// Between drags the sim is frozen: while a seek runs its own ticks the sim may advance, and once
/// the seek is over it may not, until the session ends or a replay starts.
pub proof fn law_sim_is_frozen_between_drags(s: ScrubSim, target: F32Bits, base: F32Bits)
    ensures
        spec_sim_unfrozen(Some(ScrubSim { sought: Some(target), mode: ScrubMode::Seeking, exclusive_running: true, ..s })),
        !spec_sim_unfrozen(Some(ScrubSim { exclusive_running: false, mode: ScrubMode::Frozen, ..s })),
        spec_sim_unfrozen(
            Some(ScrubSim { replay_requested: false, mode: ScrubMode::Replaying, end: base, target: None, ..s }),
        ),
        spec_sim_unfrozen(Some(ScrubSim { mode: ScrubMode::Idle, cast_live: false, ..s })),
{
}

} // verus!
