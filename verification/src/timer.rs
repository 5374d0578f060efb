use vstd::prelude::*;
use crate::duration::Duration;

verus! {

/// Why a time limit is refused.
#[derive(Debug, Clone, Copy, PartialEq, Eq, Structural, PartialOrd, Ord, Hash)]
pub enum TimeLimitError {
    TooLess,
    TooMuch,
}

/// The time given to answer one question: between `MIN_TIME_LIMIT_SECS`
/// and `MAX_TIME_LIMIT_SECS` seconds.
#[derive(Debug, Clone, Copy, PartialEq, Eq, Structural, PartialOrd, Ord, Hash)]
pub struct TimeLimit(Duration);

impl View for TimeLimit {
    type V = int;

    closed spec fn view(&self) -> int {
        self.0@
    }
}

impl TimeLimit {
    /// Seconds of the shortest time limit.
    pub const MIN_TIME_LIMIT_SECS: u64 = 3;
    /// Seconds of the longest time limit.
    pub const MAX_TIME_LIMIT_SECS: u64 = 20;
    /// Seconds of the time limit that a quiz has unless told otherwise.
    pub const DEFAULT_TIME_LIMIT_SECS: u64 = 15;

    /// What holds of every time limit: it lies within the bounds.
    #[verifier::type_invariant]
    closed spec fn within_bounds(&self) -> bool {
        Self::MIN_TIME_LIMIT_SECS * 1_000_000_000 <= self.0@ <= Self::MAX_TIME_LIMIT_SECS
            * 1_000_000_000
    }

    /// Accepts `time_limit` if it lies within the bounds.
    pub fn new(time_limit: Duration) -> (r: Result<Self, TimeLimitError>)
        ensures
            time_limit@ < Self::MIN_TIME_LIMIT_SECS * 1_000_000_000 <==> r == Err::<Self, _>(
                TimeLimitError::TooLess,
            ),
            time_limit@ > Self::MAX_TIME_LIMIT_SECS * 1_000_000_000 <==> r == Err::<Self, _>(
                TimeLimitError::TooMuch,
            ),
            r is Ok ==> r->Ok_0@ == time_limit@,
    {
        if time_limit.is_shorter_than(&Duration::from_secs(Self::MIN_TIME_LIMIT_SECS)) {
            Err(TimeLimitError::TooLess)
        } else if time_limit.is_longer_than(&Duration::from_secs(Self::MAX_TIME_LIMIT_SECS)) {
            Err(TimeLimitError::TooMuch)
        } else {
            Ok(TimeLimit(time_limit))
        }
    }

    /// The time limit.
    pub fn duration(&self) -> (d: Duration)
        ensures
            d@ == self@,
            Self::MIN_TIME_LIMIT_SECS * 1_000_000_000 <= d@ <= Self::MAX_TIME_LIMIT_SECS * 1_000_000_000,
    {
        proof {
            use_type_invariant(self);
        }
        self.0
    }
}

impl Default for TimeLimit {
    fn default() -> (t: Self)
        ensures
            t@ == TimeLimit::DEFAULT_TIME_LIMIT_SECS * 1_000_000_000,
    {
        TimeLimit(Duration::from_secs(Self::DEFAULT_TIME_LIMIT_SECS))
    }
}

/// The time left to answer the current question.
#[derive(Debug, Default, Clone, Copy, PartialEq, Eq, Structural, PartialOrd, Ord, Hash)]
pub struct Timer {
    timer: Duration,
}

impl View for Timer {
    type V = int;

    closed spec fn view(&self) -> int {
        self.timer@
    }
}

impl Timer {
    /// A timer with the whole time limit left.
    pub fn new(time_limit: TimeLimit) -> (t: Self)
        ensures
            t@ == time_limit@,
    {
        Timer { timer: time_limit.duration() }
    }

    /// The time left.
    pub fn timer(&self) -> (d: Duration)
        ensures
            d@ == self@,
    {
        self.timer
    }

    /// One second passes: `None` if no time was left, else the time left
    /// after one more second, never below zero. The caller waits the second
    /// before it calls this.
    pub fn tick(&mut self) -> (r: Option<Duration>)
        ensures
            old(self)@ == 0 ==> r is None && final(self)@ == 0,
            old(self)@ != 0 ==> {
                &&& final(self)@ == if old(self)@ >= 1_000_000_000 {
                    old(self)@ - 1_000_000_000
                } else {
                    0
                }
                &&& r matches Some(d) && d@ == final(self)@
            },
    {
        if self.timer.is_zero() {
            return None;
        }
        self.timer = self.timer.saturating_sub(Duration::from_secs(1));
        Some(self.timer)
    }
}

} // verus!
