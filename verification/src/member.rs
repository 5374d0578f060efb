use vstd::prelude::*;
use crate::ids::UserId;
use crate::score::Score;
use crate::user::Username;

verus! {

/// A member of a quiz: a user and the points earned so far.
#[derive(Debug, PartialEq, Eq, PartialOrd, Ord, Hash)]
pub struct Member {
    id: UserId,
    username: Username,
    score: Score,
}

/// What a member is made of, as plain values.
pub struct MemberView {
    pub id: u128,
    pub username: Seq<char>,
    pub score: u16,
}

impl View for Member {
    type V = MemberView;

    closed spec fn view(&self) -> MemberView {
        MemberView { id: self.id@, username: self.username@, score: self.score@ }
    }
}

impl Clone for Member {
    fn clone(&self) -> (r: Self)
        ensures
            r@ == self@,
    {
        Member { id: self.id, username: self.username.clone(), score: self.score }
    }
}

impl Member {
    /// A member with no points yet.
    pub fn new(id: UserId, username: Username) -> (p: Self)
        ensures
            p@ == (MemberView { id: id@, username: username@, score: 0 }),
    {
        Member { id, username, score: Score::new(0) }
    }

    pub fn id(&self) -> (id: UserId)
        ensures
            id@ == self@.id,
    {
        self.id
    }

    pub fn score(&self) -> (s: Score)
        ensures
            s@ == self@.score,
    {
        self.score
    }
}

} // verus!
