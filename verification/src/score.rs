use vstd::prelude::*;

verus! {

/// Points of one participant, kept between `MIN_SCORE` and `MAX_SCORE`
/// by addition.
#[derive(Debug, Default, Clone, Copy, PartialEq, Eq, Structural, PartialOrd, Ord, Hash)]
pub struct Score(pub(crate) u16);

/// The sum of two score values, clamped to the range of scores.
pub open spec fn clamped_sum(a: u16, b: u16) -> u16 {
    if a + b > Score::MAX_SCORE {
        Score::MAX_SCORE
    } else {
        (a + b) as u16
    }
}

impl View for Score {
    type V = u16;

    closed spec fn view(&self) -> u16 {
        self.0
    }
}

impl Score {
    /// Value of the smallest score that an addition yields.
    pub const MIN_SCORE: u16 = 0;
    /// Value of the largest score that an addition yields.
    pub const MAX_SCORE: u16 = 100;
    /// Value of one tenth of `MAX_SCORE`.
    pub const SCORE_STEP: u16 = 10;

    pub fn new(score: u16) -> (s: Self)
        ensures
            s@ == score,
    {
        Score(score)
    }

    pub fn value(&self) -> (v: u16)
        ensures
            v == self@,
    {
        self.0
    }

    /// Replaces `self` by `self.add(rhs)`.
    pub fn add_assign(&mut self, rhs: Score)
        requires
            old(self)@ + rhs@ <= u16::MAX,
        ensures
            final(self)@ == clamped_sum(old(self)@, rhs@),
            old(self)@ + rhs@ <= Score::MAX_SCORE ==> final(self)@ == old(self)@ + rhs@,
            old(self)@ + rhs@ > Score::MAX_SCORE ==> final(self)@ == Score::MAX_SCORE,
    {
        *self = Score::combine(*self, rhs);
    }
}

impl Score {
    /// Adds two scores and clamps the sum to `MIN_SCORE ..= MAX_SCORE`.
    fn combine(a: Score, b: Score) -> (s: Score)
        requires
            a@ + b@ <= u16::MAX,
        ensures
            s@ == clamped_sum(a@, b@),
            a@ + b@ <= Score::MAX_SCORE ==> s@ == a@ + b@,
            a@ + b@ > Score::MAX_SCORE ==> s@ == Score::MAX_SCORE,
    {
        let min: u16 = Self::MIN_SCORE;
        let max: u16 = Self::MAX_SCORE;
        let result: u16 = a.0 + b.0;
        let clamped: u16 = if result < min {
            min
        } else if result > max {
            max
        } else {
            result
        };
        Score(clamped)
    }
}

impl core::ops::Add for Score {
    type Output = Score;

    fn add(self, rhs: Score) -> (s: Score)
        ensures
            s@ == clamped_sum(self@, rhs@),
            self@ + rhs@ <= Score::MAX_SCORE ==> s@ == self@ + rhs@,
            self@ + rhs@ > Score::MAX_SCORE ==> s@ == Score::MAX_SCORE,
    {
        Score::combine(self, rhs)
    }
}

impl vstd::std_specs::ops::AddSpecImpl for Score {
    open spec fn obeys_add_spec() -> bool {
        true
    }

    open spec fn add_req(self, rhs: Score) -> bool {
        self@ + rhs@ <= u16::MAX
    }

    closed spec fn add_spec(self, rhs: Score) -> Score {
        Score(clamped_sum(self@, rhs@))
    }
}

} // verus!
