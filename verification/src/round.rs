use vstd::prelude::*;
use std::ops::Range;
use crate::duration::Duration;
use crate::ids::{is_uuid_v7, RoundId};
use crate::question::random_index;

verus! {

/// Why a timeout is refused.
#[derive(Debug, Clone, Copy, PartialEq, Eq, Structural, PartialOrd, Ord, Hash)]
pub enum TimeoutError {
    TooLess,
    TooMuch,
}

/// Why a round cannot be made.
#[derive(Debug, Clone, Copy, PartialEq, Eq, Structural, PartialOrd, Ord, Hash)]
pub enum RoundError {
    InvalidTimeout(TimeoutError),
}

/// How hard the expressions of a round are.
#[derive(Debug, Default, Clone, PartialEq, Eq, Structural, PartialOrd, Ord, Hash)]
pub enum Complexity {
    #[default]
    Easy,
    Medium,
    Hard,
}

/// The numbers that the operands of an expression are drawn from.
#[derive(Debug, Clone, Copy, PartialEq, Eq, Structural, PartialOrd, Ord, Hash)]
pub enum NumberSet {
    Natural,
    Integer,
    Rational,
}

/// The settings of an expression of a round: how many operands, which
/// operations, the set the operands are drawn from and the limits of the
/// operands.
#[derive(Debug, PartialEq, Eq, Hash)]
pub struct Config {
    operands_count: u8,
    operations: Vec<Operation>,
    set: NumberSet,
    limits: Range<i32>,
}

impl Config {
    /// How many operands an expression has.
    pub closed spec fn spec_operands_count(&self) -> u8 {
        self.operands_count
    }

    /// The operations an expression may use.
    pub closed spec fn spec_operations(&self) -> Seq<Operation> {
        self.operations@
    }

    /// The set the operands are drawn from.
    pub closed spec fn spec_set(&self) -> NumberSet {
        self.set
    }

    /// The lower and the upper limit of the operands.
    pub closed spec fn spec_limits(&self) -> (i32, i32) {
        (self.limits.start, self.limits.end)
    }
}

impl Clone for Config {
    fn clone(&self) -> (r: Self)
        ensures
            r.spec_operands_count() == self.spec_operands_count(),
            r.spec_operations() == self.spec_operations(),
            r.spec_set() == self.spec_set(),
            r.spec_limits() == self.spec_limits(),
    {
        let operations = self.operations.clone();
        assert(operations@ =~= self.operations@);
        Config {
            operands_count: self.operands_count,
            operations,
            set: self.set,
            limits: Range { start: self.limits.start, end: self.limits.end },
        }
    }
}

/// An arithmetic operation of a round.
#[derive(Debug, Clone, Copy, PartialEq, Eq, Structural, PartialOrd, Ord, Hash)]
pub enum Operation {
    Add,
    Sub,
    Mul,
    Div,
}

impl Operation {
    /// The operation numbered `n`: `Add`, `Sub`, `Mul`, `Div` for 0 to 3.
    pub open spec fn numbered(n: usize) -> Operation {
        if n == 0 {
            Operation::Add
        } else if n == 1 {
            Operation::Sub
        } else if n == 2 {
            Operation::Mul
        } else {
            Operation::Div
        }
    }

    /// One of the four operations, picked at random with equal odds.
    pub fn random() -> (op: Operation)
        ensures
            exists|n: usize| n < 4 && op == Operation::numbered(n),
    {
        let n = random_index(4);
        let op = if n == 0 {
            Operation::Add
        } else if n == 1 {
            Operation::Sub
        } else if n == 2 {
            Operation::Mul
        } else {
            Operation::Div
        };
        assert(op == Operation::numbered(n));
        op
    }
}

/// The time given for a round: between `MIN_TIMEOUT_SECS` and
/// `MAX_TIMEOUT_SECS` seconds.
#[derive(Debug, Clone, PartialEq, Eq, Structural, PartialOrd, Ord, Hash)]
pub struct Timeout(Duration);

impl View for Timeout {
    type V = int;

    closed spec fn view(&self) -> int {
        self.0@
    }
}

/// Seconds of the shortest timeout.
pub const MIN_TIMEOUT_SECS: u64 = 3;
/// Seconds of the longest timeout.
pub const MAX_TIMEOUT_SECS: u64 = 20;
/// Seconds of the timeout that a round has unless told otherwise.
pub const DEFAULT_TIMEOUT_SECS: u64 = 5;

impl Default for Timeout {
    fn default() -> (t: Self)
        ensures
            t@ == DEFAULT_TIMEOUT_SECS * 1_000_000_000,
    {
        Timeout(Duration::from_secs(DEFAULT_TIMEOUT_SECS))
    }
}

impl Timeout {
    /// Accepts `timeout` if it lies within the bounds.
    pub fn new(timeout: Duration) -> (r: Result<Self, TimeoutError>)
        ensures
            timeout@ < MIN_TIMEOUT_SECS * 1_000_000_000 <==> r == Err::<Self, _>(
                TimeoutError::TooLess,
            ),
            timeout@ > MAX_TIMEOUT_SECS * 1_000_000_000 <==> r == Err::<Self, _>(
                TimeoutError::TooMuch,
            ),
            r is Ok ==> r->Ok_0@ == timeout@,
    {
        if timeout.is_shorter_than(&Duration::from_secs(MIN_TIMEOUT_SECS)) {
            Err(TimeoutError::TooLess)
        } else if timeout.is_longer_than(&Duration::from_secs(MAX_TIMEOUT_SECS)) {
            Err(TimeoutError::TooMuch)
        } else {
            Ok(Timeout(timeout))
        }
    }
}

/// A round of a game: its complexity and timeout.
#[derive(Debug, Clone, PartialEq, Eq, PartialOrd, Ord, Hash)]
pub struct Round {
    id: RoundId,
    complexity: Complexity,
    timeout: Timeout,
}

impl Round {
    pub closed spec fn spec_id(&self) -> u128 {
        self.id@
    }

    pub closed spec fn spec_complexity(&self) -> Complexity {
        self.complexity
    }

    pub closed spec fn spec_timeout(&self) -> int {
        self.timeout@
    }

    /// A round with a fresh identifier, if `timeout` lies within the
    /// bounds of a `Timeout`.
    pub fn new(complexity: Complexity, timeout: Duration) -> (r: Result<Self, RoundError>)
        ensures
            timeout@ < MIN_TIMEOUT_SECS * 1_000_000_000 <==> r == Err::<Self, _>(
                RoundError::InvalidTimeout(TimeoutError::TooLess),
            ),
            timeout@ > MAX_TIMEOUT_SECS * 1_000_000_000 <==> r == Err::<Self, _>(
                RoundError::InvalidTimeout(TimeoutError::TooMuch),
            ),
            r matches Ok(round) ==> {
                &&& round.spec_complexity() == complexity
                &&& round.spec_timeout() == timeout@
                &&& is_uuid_v7(round.spec_id())
            },
    {
        let timeout = match Timeout::new(timeout) {
            Ok(t) => t,
            Err(e) => {
                return Err(RoundError::InvalidTimeout(e));
            },
        };
        let id = RoundId::random();
        Ok(Round { id, complexity, timeout })
    }
}

} // verus!
