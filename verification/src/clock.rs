//! The game clock and speed controller: integer-microsecond timers for
//! gravity, soft drop and the line-clear delay, and the speed curve that
//! maps total cleared lines to a gravity interval.
use vstd::prelude::*;

verus! {

/// One frame of the fixed-rate clock, in microseconds.
pub const FRAME_MICROS: u64 = 16666;

/// A timer over integer microseconds. `tick` accumulates elapsed time and
/// reports `finished` exactly when the accumulated time reaches the
/// duration; a repeating timer then starts over from zero, a one-shot timer
/// stays finished.
#[derive(Debug, Clone, Copy, PartialEq, Eq, Structural)]
pub struct TickTimer {
    pub elapsed: u64,
    pub duration: u64,
    pub finished: bool,
    pub repeating: bool,
}

/// The timer after `dt` more microseconds have passed.
pub open spec fn timer_tick_spec(t: TickTimer, dt: u64) -> TickTimer {
    let sum = if t.elapsed + dt <= u64::MAX {
        (t.elapsed + dt) as u64
    } else {
        u64::MAX
    };
    if sum >= t.duration {
        TickTimer {
            elapsed: if t.repeating {
                0
            } else {
                sum
            },
            duration: t.duration,
            finished: true,
            repeating: t.repeating,
        }
    } else {
        TickTimer { elapsed: sum, duration: t.duration, finished: false, repeating: t.repeating }
    }
}

impl TickTimer {
    /// A timer that has seen no time yet.
    pub fn new(duration: u64, repeating: bool) -> (r: Self)
        ensures
            r == (TickTimer { elapsed: 0, duration, finished: false, repeating }),
    {
        TickTimer { elapsed: 0, duration, finished: false, repeating }
    }

    /// Advances the timer by `dt` microseconds.
    pub fn tick(&mut self, dt: u64)
        ensures
            *final(self) == timer_tick_spec(*old(self), dt),
    {
        let sum = if self.elapsed <= u64::MAX - dt {
            self.elapsed + dt
        } else {
            u64::MAX
        };
        if sum >= self.duration {
            self.finished = true;
            self.elapsed = if self.repeating {
                0
            } else {
                sum
            };
        } else {
            self.finished = false;
            self.elapsed = sum;
        }
    }

    /// Starts the timer over.
    pub fn reset(&mut self)
        ensures
            *final(self) == (TickTimer {
                elapsed: 0,
                duration: old(self).duration,
                finished: false,
                repeating: old(self).repeating,
            }),
    {
        self.elapsed = 0;
        self.finished = false;
    }
}

/// The speed level for `lines` total cleared rows: one level per ten rows,
/// capped at the last entry of the speed curve.
pub open spec fn level_of(lines: int) -> int {
    if lines / 10 < 20 {
        lines / 10
    } else {
        20
    }
}

/// The speed curve: how many frames a piece rests per row at each level.
pub open spec fn frames_per_row(level: int) -> int {
    seq![53, 49, 45, 41, 37, 33, 28, 22, 17, 11, 10, 9, 8, 7, 6, 6, 5, 5, 4, 4, 3][level]
}

/// The gravity interval, in microseconds, for `lines` total cleared rows.
pub open spec fn gravity_interval_spec(lines: int) -> int {
    FRAME_MICROS * frames_per_row(level_of(lines))
}

/// The speed-curve entry for `level`.
fn frames_for_level(level: usize) -> (r: u64)
    requires
        level <= 20,
    ensures
        r == frames_per_row(level as int),
        3 <= r <= 53,
{
    let table: [u64; 21] = [53, 49, 45, 41, 37, 33, 28, 22, 17, 11, 10, 9, 8, 7, 6, 6, 5, 5, 4, 4, 3];
    let r = table[level];
    proof {
        assert(table@[level as int] == frames_per_row(level as int) && 3 <= table@[level as int]
            <= 53) by {
            assert(table@ =~= seq![
                53u64, 49, 45, 41, 37, 33, 28, 22, 17, 11, 10, 9, 8, 7, 6, 6, 5, 5, 4, 4, 3,
            ]);
        }
    }
    r
}

/// The gravity and soft-drop clocks and the line total they are driven by.
pub struct State {
    pub timer: TickTimer,
    pub fast_timer: TickTimer,
    pub fast_generation: Option<u64>,
    pub lines: usize,
}

impl State {
    /// The state the game starts in: both clocks at three frames per row,
    /// no lines cleared, no soft drop latched.
    pub fn new() -> (r: Self)
        ensures
            r == (State {
                timer: TickTimer {
                    elapsed: 0,
                    duration: (3 * FRAME_MICROS) as u64,
                    finished: false,
                    repeating: true,
                },
                fast_timer: TickTimer {
                    elapsed: 0,
                    duration: (3 * FRAME_MICROS) as u64,
                    finished: false,
                    repeating: true,
                },
                fast_generation: None::<u64>,
                lines: 0,
            }),
    {
        State {
            timer: TickTimer::new(3 * FRAME_MICROS, true),
            fast_timer: TickTimer::new(3 * FRAME_MICROS, true),
            fast_generation: None,
            lines: 0,
        }
    }

    /// Recomputes the gravity interval from the current line total — the
    /// level rises one step per ten lines and is capped at the end of the
    /// speed curve — and restarts the gravity clock. The soft-drop clock is
    /// untouched.
    pub fn update_speed(&mut self)
        ensures
            final(self).timer == (TickTimer {
                elapsed: 0,
                duration: gravity_interval_spec(old(self).lines as int) as u64,
                finished: false,
                repeating: old(self).timer.repeating,
            }),
            final(self).fast_timer == old(self).fast_timer,
            final(self).fast_generation == old(self).fast_generation,
            final(self).lines == old(self).lines,
    {
        let mut level = self.lines / 10;
        if level > 20 {
            level = 20;
        }
        let f = frames_for_level(level);
        self.timer.duration = FRAME_MICROS * f;
        self.timer.reset();
    }
}

} // verus!
