use vstd::prelude::*;

verus! {

/// Tri-state elapsed-time tracker for the stopwatch display.
///
/// Time is carried as plain milliseconds handed in by the caller from a
/// monotonic clock; the timer itself never reads a clock. `Idle` holds no
/// time, `Ticking` holds the instant the stopwatch was started, and
/// `Stopped` holds the captured elapsed duration.
#[derive(Clone, Copy, PartialEq, Eq, Structural, Debug)]
pub enum Timer {
    Idle,
    Ticking(u64),
    Stopped(u64),
}

/// Elapsed milliseconds from `start` to `now`, clamped at zero so that a
/// non-monotonic caller can never underflow.
pub open spec fn elapsed_ms(start: u64, now: u64) -> u64 {
    if now >= start {
        (now - start) as u64
    } else {
        0u64
    }
}

impl Timer {
    /// What `get_time` returns at instant `now_ms`.
    pub open spec fn spec_get_time(self, now_ms: u64) -> Option<u64> {
        match self {
            Timer::Idle => None,
            Timer::Ticking(start) => Some(elapsed_ms(start, now_ms)),
            Timer::Stopped(d) => Some(d),
        }
    }

    /// The timer after a `stop` at instant `now_ms`.
    pub open spec fn spec_stop(self, now_ms: u64) -> Timer {
        match self {
            Timer::Ticking(start) => Timer::Stopped(elapsed_ms(start, now_ms)),
            _ => self,
        }
    }

    /// No time while idle, the live elapsed time while ticking, the
    /// captured duration once stopped.
    pub fn get_time(&self, now_ms: u64) -> (r: Option<u64>)
        ensures
            r == self.spec_get_time(now_ms),
    {
        match self {
            Timer::Idle => None,
            Timer::Ticking(start) => {
                if now_ms >= *start {
                    Some(now_ms - *start)
                } else {
                    Some(0)
                }
            },
            Timer::Stopped(d) => Some(*d),
        }
    }

    /// Capture the elapsed time if the timer is ticking; a stop while idle
    /// or already stopped is a no-op.
    pub fn stop(&mut self, now_ms: u64)
        ensures
            *final(self) == old(self).spec_stop(now_ms),
    {
        if let Timer::Ticking(start) = *self {
            if now_ms >= start {
                *self = Timer::Stopped(now_ms - start);
            } else {
                *self = Timer::Stopped(0);
            }
        }
    }

    /// A stopped timer reports the same duration at every instant: once the
    /// game ends, the stopwatch display is frozen.
    pub proof fn lemma_stopped_time_is_constant(self, now_a: u64, now_b: u64)
        requires
            self is Stopped,
        ensures
            self.spec_get_time(now_a) == self.spec_get_time(now_b),
    {
    }
}

} // verus!
