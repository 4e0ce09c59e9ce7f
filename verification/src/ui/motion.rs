//! Durations and the progress of animations. Times are nanoseconds of the
//! caller's clock.

use vstd::prelude::*;

verus! {

/// Hover.
pub const INSTANT: u64 = 100_000_000;

/// Selection.
pub const QUICK: u64 = 180_000_000;

/// Changes of theme.
pub const STANDARD: u64 = 250_000_000;

/// Steps of the calibration.
pub const DELIBERATE: u64 = 400_000_000;

/// From one beat of the listening pulse to the next.
pub const HEARTBEAT_PERIOD: u64 = 6_000_000_000;

/// Length of one beat.
pub const HEARTBEAT_PULSE_LEN: u64 = 2_200_000_000;

/// From one frame of the background to the next.
pub const AMBIENT_FRAME: u64 = 33_000_000;

/// An animation that runs once.
#[derive(Clone, Copy, Debug, PartialEq, Eq, Structural)]
pub struct AnimState {
    pub started_at: u64,
    pub duration: u64,
}

impl AnimState {
    /// How long it has run; nothing before it starts.
    pub open spec fn elapsed(self, now: u64) -> int {
        if now >= self.started_at {
            now - self.started_at
        } else {
            0
        }
    }

    /// It has started and run its whole duration.
    pub open spec fn over(self, now: u64) -> bool {
        now >= self.started_at && now - self.started_at >= self.duration
    }

    /// How far it has come, as a fraction of two numbers: nothing before it
    /// starts, and one whole where it is over, at once where it takes no time.
    pub open spec fn progress(self, now: u64) -> (int, int) {
        let whole = if self.duration == 0 {
            1
        } else {
            self.duration as int
        };
        if self.over(now) {
            (whole, whole)
        } else {
            (self.elapsed(now), whole)
        }
    }

    /// An animation that starts now.
    pub fn start(duration: u64, now: u64) -> (a: AnimState)
        ensures
            a == (AnimState { started_at: now, duration }),
    {
        AnimState { started_at: now, duration }
    }

    /// An animation that starts at a given time.
    pub fn start_delayed(duration: u64, starts_at: u64) -> (a: AnimState)
        ensures
            a == (AnimState { started_at: starts_at, duration }),
    {
        AnimState { started_at: starts_at, duration }
    }

    fn elapsed_at(&self, now: u64) -> (t: u64)
        ensures
            t == self.elapsed(now),
    {
        if now >= self.started_at {
            now - self.started_at
        } else {
            0
        }
    }

    /// How far it has come, as a fraction of two numbers.
    pub fn linear_at(&self, now: u64) -> (f: (u64, u64))
        ensures
            (f.0 as int, f.1 as int) == self.progress(now),
            f.0 <= f.1,
            f.1 > 0,
    {
        let whole: u64 = if self.duration == 0 {
            1
        } else {
            self.duration
        };
        if self.is_complete_at(now) {
            (whole, whole)
        } else {
            (self.elapsed_at(now), whole)
        }
    }

    /// Whether it is over at a time; it is not before it starts.
    pub fn is_complete_at(&self, now: u64) -> (r: bool)
        ensures
            r == (now >= self.started_at && now - self.started_at >= self.duration),
    {
        now >= self.started_at && now - self.started_at >= self.duration
    }

    /// Whether it is over.
    pub fn is_complete(&self, now: u64) -> (r: bool)
        ensures
            r == self.over(now),
    {
        self.is_complete_at(now)
    }
}

/// An animation runs forward only, starts at nothing, and is over exactly when
/// it has come the whole way.
pub proof fn progress_runs_forward(a: AnimState, t: u64, u: u64)
    requires
        t <= u,
    ensures
        a.progress(t).0 <= a.progress(u).0,
        a.progress(t).1 == a.progress(u).1,
        a.progress(t).0 == a.progress(t).1 <==> a.over(t),
        a.over(t) ==> a.over(u),
        t < a.started_at ==> a.progress(t).0 == 0 && !a.over(t),
        t == a.started_at && a.duration > 0 ==> a.progress(t).0 == 0,
{
}

/// How a spring moves.
#[derive(Clone, Copy, Debug, PartialEq, Eq, Structural)]
pub enum SpringPreset {
    Stiff,
    Smooth,
    Bouncy,
}

impl SpringPreset {
    /// Stiffness and damping.
    pub fn constants(self) -> (c: (u32, u32))
        ensures
            c == match self {
                SpringPreset::Stiff => (320u32, 32u32),
                SpringPreset::Smooth => (210u32, 20u32),
                SpringPreset::Bouncy => (180u32, 12u32),
            },
    {
        match self {
            SpringPreset::Stiff => (320, 32),
            SpringPreset::Smooth => (210, 20),
            SpringPreset::Bouncy => (180, 12),
        }
    }
}

/// Halfway through its duration an animation has come half the way; it starts at its
/// start and lasts as long as it is given.
pub proof fn animations_run_evenly(a: AnimState, now: u64, f: (u64, u64), done: bool)
    requires
        call_ensures(AnimState::linear_at, (&a, now), f),
        call_ensures(AnimState::is_complete, (&a, now), done),
        now >= a.started_at,
        a.duration > 0,
    ensures
        f.1 == a.duration,
        now - a.started_at < a.duration ==> f.0 == now - a.started_at && !done,
        now - a.started_at >= a.duration ==> f.0 == a.duration && done,
{
}

} // verus!
