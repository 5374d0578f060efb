use vstd::prelude::*;
use crate::ids::UserId;
use crate::order::{slot_view, sort_descending, sorted_descending};
use crate::participant::{Participant, ParticipantView};
use crate::score::{clamped_sum, Score};
use crate::user::User;

verus! {

/// The participants of a quiz in `N` slots, some of them empty.
#[derive(Debug)]
pub struct Leaderboard<const N: usize> {
    participants: Vec<Option<Participant>>,
}

/// The index of the first occupied slot of `entries` whose participant has
/// identifier `id`, if any.
pub open spec fn first_slot_of(entries: Seq<Option<ParticipantView>>, id: u128) -> Option<int> {
    if exists|i: int| 0 <= i < entries.len() && #[trigger] slot_has(entries[i], id) {
        Some(
            choose|i: int|
                0 <= i < entries.len() && #[trigger] slot_has(entries[i], id) && forall|j: int|
                    0 <= j < i ==> !slot_has(#[trigger] entries[j], id),
        )
    } else {
        None
    }
}

/// The slot holds a participant with identifier `id`.
pub open spec fn slot_has(slot: Option<ParticipantView>, id: u128) -> bool {
    slot is Some && slot->0.id == id
}

/// The points that a leaderboard shows for `id`: those of the first
/// participant with that identifier.
pub open spec fn score_in(entries: Seq<Option<ParticipantView>>, id: u128) -> Option<u16> {
    match first_slot_of(entries, id) {
        Some(i) => Some(entries[i]->0.score),
        None => None,
    }
}

/// No participant of `entries` has more than `Score::MAX_SCORE` points.
pub open spec fn scores_bounded(entries: Seq<Option<ParticipantView>>) -> bool {
    forall|i: int| 0 <= i < entries.len() && #[trigger] entries[i] is Some ==> entries[i]->0.score <= Score::MAX_SCORE
}

/// The participant that a user becomes when a quiz starts.
pub open spec fn newcomer(user: crate::user::UserView) -> ParticipantView {
    ParticipantView { id: user.id, username: user.username, score: 0 }
}

/// What `first_slot_of` finds.
pub proof fn lemma_first_slot_found(entries: Seq<Option<ParticipantView>>, id: u128)
    ensures
        first_slot_of(entries, id) matches Some(i) ==> {
            &&& 0 <= i < entries.len()
            &&& slot_has(entries[i], id)
            &&& forall|j: int| 0 <= j < i ==> !slot_has(#[trigger] entries[j], id)
        },
        first_slot_of(entries, id) is None ==> forall|j: int|
            0 <= j < entries.len() ==> !slot_has(#[trigger] entries[j], id),
{
    if exists|i: int| 0 <= i < entries.len() && #[trigger] slot_has(entries[i], id) {
        let w = choose|i: int| 0 <= i < entries.len() && #[trigger] slot_has(entries[i], id);
        lemma_least_slot_exists(entries, id, w);
    }
}

proof fn lemma_least_slot_exists(entries: Seq<Option<ParticipantView>>, id: u128, w: int)
    requires
        0 <= w < entries.len(),
        slot_has(entries[w], id),
    ensures
        exists|i: int|
            0 <= i < entries.len() && #[trigger] slot_has(entries[i], id) && forall|j: int|
                0 <= j < i ==> !slot_has(#[trigger] entries[j], id),
    decreases w,
{
    if exists|j: int| 0 <= j < w && #[trigger] slot_has(entries[j], id) {
        let j = choose|j: int| 0 <= j < w && #[trigger] slot_has(entries[j], id);
        lemma_least_slot_exists(entries, id, j);
    } else {
        assert(forall|j: int| 0 <= j < w ==> !slot_has(#[trigger] entries[j], id));
    }
}

proof fn lemma_first_slot(entries: Seq<Option<ParticipantView>>, id: u128, i: int)
    requires
        0 <= i < entries.len(),
        slot_has(entries[i], id),
        forall|j: int| 0 <= j < i ==> !slot_has(#[trigger] entries[j], id),
    ensures
        first_slot_of(entries, id) == Some(i),
{
    let k = choose|k: int|
        0 <= k < entries.len() && #[trigger] slot_has(entries[k], id) && forall|j: int|
            0 <= j < k ==> !slot_has(#[trigger] entries[j], id);
    assert(k == i) by {
        if k < i {
            assert(!slot_has(entries[k], id));
        }
        if i < k {
            assert(!slot_has(entries[i], id));
        }
    }
}

impl<const N: usize> Leaderboard<N> {
    /// The slots, as values.
    pub closed spec fn slots(&self) -> Seq<Option<Participant>> {
        self.participants@
    }

    /// The slots, as plain values.
    pub open spec fn entries(&self) -> Seq<Option<ParticipantView>> {
        self.slots().map_values(|s: Option<Participant>| slot_view(s))
    }

    /// What holds of every leaderboard: `N` slots, and no participant with
    /// more than `Score::MAX_SCORE` points.
    pub open spec fn wf(&self) -> bool {
        &&& self.entries().len() == N
        &&& scores_bounded(self.entries())
    }

    /// One participant with no points per user, in the order of `users`,
    /// and empty slots after them.
    pub fn from(users: &[User]) -> (board: Self)
        requires
            users@.len() <= N,
        ensures
            board.wf(),
            forall|i: int|
                0 <= i < users@.len() ==> #[trigger] board.entries()[i] == Some(
                    newcomer(users@[i]@),
                ),
            forall|i: int| users@.len() <= i < N ==> #[trigger] board.entries()[i] is None,
    {
        let mut participants: Vec<Option<Participant>> = Vec::new();
        let mut i: usize = 0;
        while i < users.len()
            invariant
                i <= users@.len() <= N,
                participants@.len() == i,
                forall|k: int|
                    0 <= k < i ==> #[trigger] slot_view(participants@[k]) == Some(
                        newcomer(users@[k]@),
                    ),
            decreases users@.len() - i,
        {
            let user = &users[i];
            participants.push(Some(Participant::new(user.id(), user.username().clone())));
            i += 1;
        }
        while participants.len() < N
            invariant
                users@.len() <= participants@.len() <= N,
                forall|k: int|
                    0 <= k < users@.len() ==> #[trigger] slot_view(participants@[k]) == Some(
                        newcomer(users@[k]@),
                    ),
                forall|k: int|
                    users@.len() <= k < participants@.len() ==> #[trigger] participants@[k] is None,
            decreases N - participants@.len(),
        {
            participants.push(None);
        }
        let board = Leaderboard { participants };
        assert(forall|i: int| 0 <= i < N ==> #[trigger] board.entries()[i] == slot_view(board.slots()[i]));
        board
    }

    /// The number of slots, occupied or not.
    pub fn count_of_participants(&self) -> (n: usize)
        requires
            self.wf(),
        ensures
            n == N,
    {
        self.participants.len()
    }

    /// The index of the first slot with a participant of identifier `id`.
    fn find(&self, id: UserId) -> (r: Option<usize>)
        requires
            self.wf(),
        ensures
            match r {
                Some(i) => i < N && first_slot_of(self.entries(), id@) == Some(i as int),
                None => first_slot_of(self.entries(), id@) is None,
            },
    {
        let ghost entries = self.entries();
        let mut i: usize = 0;
        while i < self.participants.len()
            invariant
                i <= self.participants@.len(),
                entries == self.entries(),
                self.wf(),
                entries.len() == self.participants@.len(),
                forall|j: int| 0 <= j < i ==> !slot_has(#[trigger] entries[j], id@),
            decreases self.participants@.len() - i,
        {
            assert(entries[i as int] == slot_view(self.participants@[i as int]));
            match &self.participants[i] {
                Some(p) => {
                    if p.id().value() == id.value() {
                        proof {
                            lemma_first_slot(entries, id@, i as int);
                        }
                        return Some(i);
                    }
                },
                None => {},
            }
            i += 1;
        }
        None
    }

    /// The points of the first participant with identifier `user_id`.
    pub fn score(&self, user_id: &UserId) -> (r: Option<Score>)
        requires
            self.wf(),
        ensures
            match r {
                Some(s) => score_in(self.entries(), user_id@) == Some(s@),
                None => score_in(self.entries(), user_id@) is None,
            },
    {
        match self.find(*user_id) {
            Some(i) => {
                proof {
                    lemma_first_slot_found(self.entries(), user_id@);
                }
                assert(self.entries()[i as int] == slot_view(self.participants@[i as int]));
                match &self.participants[i] {
                    Some(p) => Some(p.score()),
                    None => None,
                }
            },
            None => None,
        }
    }

    /// Adds `score` to the points of the first participant with identifier
    /// `user_id` and returns that participant's new points.
    pub fn add_score(&mut self, user_id: UserId, score: Score) -> (r: Option<Score>)
        requires
            old(self).wf(),
            score_in(old(self).entries(), user_id@) matches Some(s) ==> s + score@ <= u16::MAX,
        ensures
            match first_slot_of(old(self).entries(), user_id@) {
                Some(i) => {
                    &&& r matches Some(s) && s@ == clamped_sum(old(self).entries()[i]->0.score, score@)
                    &&& final(self).entries() == old(self).entries().update(
                        i,
                        Some(ParticipantView { score: r->0@, ..old(self).entries()[i]->0 }),
                    )
                },
                None => r is None && final(self).entries() == old(self).entries(),
            },
            final(self).wf(),
    {
        match self.find(user_id) {
            Some(i) => {
                proof {
                    lemma_first_slot_found(self.entries(), user_id@);
                }
                let ghost before = self.participants@;
                assert(self.entries()[i as int] == slot_view(before[i as int]));
                let mut participants: Vec<Option<Participant>> = Vec::new();
                core::mem::swap(&mut participants, &mut self.participants);
                let slot = participants.remove(i);
                match slot {
                    Some(mut p) => {
                        let s = p.add_score(score);
                        participants.insert(i, Some(p));
                        proof {
                            assert(participants@ == before.update(i as int, Some(p)));
                            assert(s@ <= Score::MAX_SCORE);
                        }
                        self.participants = participants;
                        proof {
                            assert(self.entries() =~= old(self).entries().update(
                                i as int,
                                Some(ParticipantView { score: s@, ..old(self).entries()[i as int]->0 }),
                            ));
                        }
                        Some(s)
                    },
                    None => {
                        participants.insert(i, None);
                        self.participants = participants;
                        proof {
                            assert(false);
                        }
                        None
                    },
                }
            },
            None => None,
        }
    }

    /// Orders the slots so that no slot comes before a slot that follows it
    /// (participants by identifier, name and points, largest first, empty
    /// slots last) and returns the participants in that order.
    pub fn leaderboard(&mut self) -> (r: Vec<Participant>)
        requires
            old(self).wf(),
        ensures
            final(self).wf(),
            final(self).slots().to_multiset() == old(self).slots().to_multiset(),
            sorted_descending(final(self).slots()),
            r@.len() <= N,
            forall|i: int| 0 <= i < r@.len() ==> #[trigger] final(self).entries()[i] == Some(r@[i]@),
            forall|i: int| r@.len() <= i < N ==> #[trigger] final(self).entries()[i] is None,
    {
        broadcast use vstd::seq_lib::group_to_multiset_ensures;
        let mut participants: Vec<Option<Participant>> = Vec::new();
        core::mem::swap(&mut participants, &mut self.participants);
        let ghost before = participants@;
        let sorted = sort_descending(participants);
        proof {
            before.to_multiset_ensures();
            sorted@.to_multiset_ensures();
            assert(sorted@.len() == N);
            let old_entries = old(self).entries();
            assert forall|i: int| 0 <= i < sorted@.len() && #[trigger] sorted@[i] is Some implies sorted@[i]->0@.score <= Score::MAX_SCORE by {
                assert(sorted@.to_multiset().count(sorted@[i]) > 0);
                assert(before.contains(sorted@[i]));
                let k = choose|k: int| 0 <= k < before.len() && before[k] == sorted@[i];
                assert(old_entries[k] == slot_view(before[k]));
                assert(old_entries[k] is Some);
            }
        }
        self.participants = sorted;
        proof {
            assert forall|k: int| 0 <= k < N implies #[trigger] self.entries()[k] == slot_view(sorted@[k]) by {}
            assert(self.wf());
        }
        let mut r: Vec<Participant> = Vec::new();
        let mut i: usize = 0;
        while i < self.participants.len()
            invariant
                self.participants@ == sorted@,
                self.wf(),
                self.slots().to_multiset() == old(self).slots().to_multiset(),
                forall|k: int| 0 <= k < N ==> #[trigger] self.entries()[k] == slot_view(sorted@[k]),
                sorted@.len() == N,
                sorted_descending(sorted@),
                i <= N,
                r@.len() == i,
                forall|k: int| 0 <= k < i ==> #[trigger] slot_view(sorted@[k]) == Some(r@[k]@),
            decreases N - i,
        {
            match &self.participants[i] {
                Some(p) => {
                    r.push(p.clone());
                },
                None => {
                    proof {
                        assert forall|k: int| i <= k < N implies #[trigger] sorted@[k] is None by {
                            if k > i && sorted@[k] is Some {
                                assert(!crate::order::slot_lt(slot_view(sorted@[i as int]), slot_view(sorted@[k])));
                            }
                        }
                    }
                    return r;
                },
            }
            i += 1;
        }
        r
    }
}

} // verus!
