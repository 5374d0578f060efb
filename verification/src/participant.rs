use vstd::prelude::*;
use crate::ids::UserId;
use crate::score::{clamped_sum, Score};
use crate::user::Username;

verus! {

/// A user taking part in a quiz, with the points earned so far.
#[derive(Debug, PartialEq, Eq, PartialOrd, Ord, Hash)]
pub struct Participant {
    id: UserId,
    username: Username,
    score: Score,
}

/// What a participant is made of, as plain values.
pub struct ParticipantView {
    pub id: u128,
    pub username: Seq<char>,
    pub score: u16,
}

impl View for Participant {
    type V = ParticipantView;

    closed spec fn view(&self) -> ParticipantView {
        ParticipantView { id: self.id@, username: self.username@, score: self.score@ }
    }
}

impl Clone for Participant {
    fn clone(&self) -> (r: Self)
        ensures
            r@ == self@,
    {
        Participant { id: self.id, username: self.username.clone(), score: self.score }
    }
}

impl Participant {
    /// A participant with no points yet.
    pub fn new(id: UserId, username: Username) -> (p: Self)
        ensures
            p@ == (ParticipantView { id: id@, username: username@, score: 0 }),
    {
        Participant { id, username, score: Score::new(0) }
    }

    pub fn id(&self) -> (id: UserId)
        ensures
            id@ == self@.id,
    {
        self.id
    }

    pub fn username(&self) -> (name: &Username)
        ensures
            name@ == self@.username,
    {
        &self.username
    }

    pub fn score(&self) -> (s: Score)
        ensures
            s@ == self@.score,
    {
        self.score
    }

    /// Adds `score` to the points, clamped to `Score::MAX_SCORE`, and
    /// returns the new points.
    pub fn add_score(&mut self, score: Score) -> (s: Score)
        requires
            old(self)@.score + score@ <= u16::MAX,
        ensures
            s@ == clamped_sum(old(self)@.score, score@),
            final(self)@ == (ParticipantView { score: s@, ..old(self)@ }),
    {
        self.score.add_assign(score);
        self.score
    }
}

} // verus!
