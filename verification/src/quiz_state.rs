use vstd::prelude::*;
use vstd::hash_set::HashSetWithView;
use crate::duration::Duration;
use crate::ids::UserId;
use crate::leaderboard::{first_slot_of, newcomer, score_in, slot_has, Leaderboard};
use crate::participant::{Participant, ParticipantView};
use crate::question::{Question, QuestionError};
use crate::quiz::{
    AnswerEvaluated, AnswerOutcome, AnswerSubmitted, LeadingEvent, ParticipantEvent, QuizConfig,
    QuizError, ScoreUpdated, ScoreUpdatedView, POINTS_PER_QUESTION,
};
use crate::score::{clamped_sum, Score};
use crate::user::User;

verus! {

/// The plain value of a list of answers: who answered, and whether rightly.
pub open spec fn answer_views(answers: Seq<(UserId, bool)>) -> Seq<(u128, bool)> {
    answers.map_values(|a: (UserId, bool)| (a.0@, a.1))
}

/// The users who answered, in the order of their answers.
pub open spec fn answerers(answers: Seq<(u128, bool)>) -> Seq<u128> {
    answers.map_values(|a: (u128, bool)| a.0)
}

/// The state of a quiz during one question: the question, the answers
/// given so far, the time left, the leaderboard of `N` slots and the
/// users taking part.
pub struct QuizState<T, const N: usize> {
    answers: Vec<(UserId, bool)>,
    question: Question<T>,
    remaining_time: Duration,
    leaderboard: Leaderboard<N>,
    participant_ids: HashSetWithView<u128>,
}

/// The index of the answer of `id` in `answers`, if there is one.
fn answer_position(answers: &Vec<(UserId, bool)>, id: UserId) -> (r: Option<usize>)
    ensures
        r is None <==> !answerers(answer_views(answers@)).contains(id@),
        r matches Some(i) ==> i < answers@.len() && answerers(answer_views(answers@))[i as int] == id@,
{
    let ghost who = answerers(answer_views(answers@));
    let mut i: usize = 0;
    while i < answers.len()
        invariant
            i <= answers@.len(),
            who == answerers(answer_views(answers@)),
            forall|k: int| 0 <= k < i ==> (#[trigger] answers@[k]).0@ != id@,
        decreases answers@.len() - i,
    {
        if answers[i].0.value() == id.value() {
            assert(who[i as int] == id@);
            return Some(i);
        }
        i += 1;
    }
    proof {
        assert forall|k: int| 0 <= k < who.len() implies who[k] != id@ by {
            assert(who[k] == answers@[k].0@);
        }
    }
    None
}

/// Appending a new element to a list without repetitions keeps it so.
proof fn lemma_push_distinct<A>(s: Seq<A>, x: A)
    requires
        s.no_duplicates(),
        !s.contains(x),
    ensures
        s.push(x).no_duplicates(),
        s.push(x).to_set() == s.to_set().insert(x),
{
    let r = s.push(x);
    assert forall|a: int, b: int| 0 <= a < b < r.len() implies r[a] != r[b] by {
        if b == s.len() {
            assert(r[a] == s[a]);
        } else {
            assert(r[a] == s[a] && r[b] == s[b]);
        }
    }
    assert forall|y: A| #[trigger] r.to_set().contains(y) <==> s.to_set().insert(x).contains(y) by {
        if r.contains(y) {
            let k = choose|k: int| 0 <= k < r.len() && r[k] == y;
            if k < s.len() {
                assert(s[k] == y);
            }
        }
        if s.contains(y) {
            let k = choose|k: int| 0 <= k < s.len() && s[k] == y;
            assert(r[k] == y);
        }
        if y == x {
            assert(r[s.len() as int] == y);
        }
    }
    assert(r.to_set() =~= s.to_set().insert(x));
}

/// The number of correct answers in `answers`.
pub open spec fn correct_count(answers: Seq<(u128, bool)>) -> nat
    decreases answers.len(),
{
    if answers.len() == 0 {
        0
    } else {
        correct_count(answers.drop_last()) + if answers.last().1 { 1nat } else { 0nat }
    }
}

/// The points that each correct answer earns when `count` answers are
/// correct: `POINTS_PER_QUESTION` divided by the count taken as a `u16`,
/// or none when that is zero.
pub open spec fn points_share(count: nat) -> Option<u16> {
    let c = count as u16;
    if c == 0 {
        None
    } else {
        Some((POINTS_PER_QUESTION / c) as u16)
    }
}

/// `entries` after `points` are added to the first participant with
/// identifier `id`, if any.
pub open spec fn award(entries: Seq<Option<ParticipantView>>, id: u128, points: u16) -> Seq<
    Option<ParticipantView>,
> {
    match first_slot_of(entries, id) {
        Some(i) => entries.update(
            i,
            Some(
                ParticipantView {
                    score: clamped_sum(entries[i]->0.score, points),
                    ..entries[i]->0
                },
            ),
        ),
        None => entries,
    }
}

/// `entries` after each correct answer of `answers`, in order, earns
/// `points`.
pub open spec fn awarded(
    entries: Seq<Option<ParticipantView>>,
    answers: Seq<(u128, bool)>,
    points: u16,
) -> Seq<Option<ParticipantView>>
    decreases answers.len(),
{
    if answers.len() == 0 {
        entries
    } else {
        let prev = awarded(entries, answers.drop_last(), points);
        if answers.last().1 {
            award(prev, answers.last().0, points)
        } else {
            prev
        }
    }
}

/// The awards that `awarded` makes, in order: for each correct answer,
/// the points before and after.
pub open spec fn awards(
    entries: Seq<Option<ParticipantView>>,
    answers: Seq<(u128, bool)>,
    points: u16,
) -> Seq<ScoreUpdatedView>
    decreases answers.len(),
{
    if answers.len() == 0 {
        seq![]
    } else {
        let prev = awards(entries, answers.drop_last(), points);
        let last = answers.last();
        if last.1 {
            let before = score_in(awarded(entries, answers.drop_last(), points), last.0)->0;
            prev.push(
                ScoreUpdatedView {
                    user_id: last.0,
                    current_score: clamped_sum(before, points),
                    previous_score: before,
                    points_earned: points,
                },
            )
        } else {
            prev
        }
    }
}

/// The points of all `awards`, added up.
pub open spec fn points_total(awards: Seq<ScoreUpdatedView>) -> int
    decreases awards.len(),
{
    if awards.len() == 0 {
        0
    } else {
        points_total(awards.drop_last()) + awards.last().points_earned
    }
}

/// Each correct answer of `answers` comes from a participant on the
/// leaderboard `entries`.
pub open spec fn answerers_on_board(
    entries: Seq<Option<ParticipantView>>,
    answers: Seq<(u128, bool)>,
) -> bool {
    forall|k: int| 0 <= k < answers.len() && (#[trigger] answers[k]).1 ==> first_slot_of(entries, answers[k].0) is Some
}

/// Adding points keeps every participant in its slot.
pub proof fn lemma_award_keeps_slots(entries: Seq<Option<ParticipantView>>, id: u128, points: u16, x: u128)
    ensures
        award(entries, id, points).len() == entries.len(),
        first_slot_of(award(entries, id, points), x) == first_slot_of(entries, x),
        forall|j: int| 0 <= j < entries.len() ==> (#[trigger] award(entries, id, points)[j] is Some) == (entries[j] is Some),
{
    let after = award(entries, id, points);
    crate::leaderboard::lemma_first_slot_found(entries, id);
    assert forall|j: int| 0 <= j < entries.len() implies #[trigger] slot_has(after[j], x) == slot_has(entries[j], x) by {}
    crate::leaderboard::lemma_first_slot_found(entries, x);
    crate::leaderboard::lemma_first_slot_found(after, x);
    match (first_slot_of(entries, x), first_slot_of(after, x)) {
        (Some(i), Some(k)) => {
            assert(slot_has(after[i], x));
            assert(slot_has(entries[k], x));
        },
        (Some(i), None) => {
            assert(slot_has(after[i], x));
        },
        (None, Some(k)) => {
            assert(slot_has(entries[k], x));
        },
        (None, None) => {},
    }
}

/// Adding points for a list of answers keeps every participant in its slot.
proof fn lemma_awarded_keeps_slots(
    entries: Seq<Option<ParticipantView>>,
    answers: Seq<(u128, bool)>,
    points: u16,
    x: u128,
)
    ensures
        awarded(entries, answers, points).len() == entries.len(),
        first_slot_of(awarded(entries, answers, points), x) == first_slot_of(entries, x),
    decreases answers.len(),
{
    if answers.len() > 0 {
        lemma_awarded_keeps_slots(entries, answers.drop_last(), points, x);
        let prev = awarded(entries, answers.drop_last(), points);
        lemma_award_keeps_slots(prev, answers.last().0, points, x);
    }
}

impl<T, const N: usize> QuizState<T, N> {
    /// The answers given to the current question, in order.
    pub closed spec fn answers(&self) -> Seq<(u128, bool)> {
        answer_views(self.answers@)
    }

    /// The users taking part.
    pub closed spec fn participants(&self) -> Set<u128> {
        self.participant_ids@
    }

    pub closed spec fn spec_question(&self) -> Question<T> {
        self.question
    }

    pub closed spec fn spec_remaining_time(&self) -> Duration {
        self.remaining_time
    }

    pub closed spec fn board(&self) -> Leaderboard<N> {
        self.leaderboard
    }

    /// What holds of every quiz state: each user answers and takes part at
    /// most once, and the leaderboard is valid.
    pub open spec fn wf(&self) -> bool {
        &&& self.board().wf()
        &&& answerers(self.answers()).no_duplicates()
    }

    /// The state at the start of a quiz for `users`, asking `question`:
    /// no answers yet, the whole time limit left, one participant with no
    /// points per user on the leaderboard, and each user taking part.
    pub fn new(users: &[User], cfg: &QuizConfig, question: Question<T>) -> (s: Self)
        requires
            users@.len() <= N,
        ensures
            s.wf(),
            s.answers().len() == 0,
            s.spec_question() == question,
            s.spec_remaining_time()@ == cfg.spec_time_limit()@,
            s.participants() == users@.map_values(|u: User| u@.id).to_set(),
            forall|i: int| 0 <= i < users@.len() ==> #[trigger] s.board().entries()[i] == Some(newcomer(users@[i]@)),
            forall|i: int| users@.len() <= i < N ==> #[trigger] s.board().entries()[i] is None,
    {
        broadcast use vstd::std_specs::hash::group_hash_axioms;

        let ghost user_ids = users@.map_values(|u: User| u@.id);
        let mut participant_ids: HashSetWithView<u128> = HashSetWithView::new();
        let mut i: usize = 0;
        while i < users.len()
            invariant
                i <= users@.len(),
                user_ids == users@.map_values(|u: User| u@.id),
                participant_ids@ == user_ids.take(i as int).to_set(),
            decreases users@.len() - i,
        {
            let id = users[i].id();
            assert(user_ids.take(i + 1) == user_ids.take(i as int).push(id@));
            proof {
                user_ids.take(i as int).lemma_push_to_set_commute(id@);
            }
            let _ = participant_ids.insert(id.value());
            i += 1;
        }
        let state = QuizState {
            answers: Vec::new(),
            question,
            remaining_time: cfg.time_limit().duration(),
            leaderboard: Leaderboard::from(users),
            participant_ids,
        };
        proof {
            assert(user_ids.take(users@.len() as int) == user_ids);
            assert(state.answers() =~= Seq::<(u128, bool)>::empty());
            assert(answerers(state.answers()) =~= Seq::<u128>::empty());
        }
        state
    }

    /// The leaderboard, ordered as `Leaderboard::leaderboard` orders it.
    pub fn leaderboard(&mut self) -> (r: Vec<Participant>)
        requires
            old(self).wf(),
        ensures
            final(self).wf(),
            final(self).board().slots().to_multiset() == old(self).board().slots().to_multiset(),
            crate::order::sorted_descending(final(self).board().slots()),
            r@.len() <= N,
            forall|i: int| 0 <= i < r@.len() ==> #[trigger] final(self).board().entries()[i] == Some(r@[i]@),
            forall|i: int| r@.len() <= i < N ==> #[trigger] final(self).board().entries()[i] is None,
            final(self).answers() == old(self).answers(),
            final(self).participants() == old(self).participants(),
            final(self).spec_question() == old(self).spec_question(),
            final(self).spec_remaining_time() == old(self).spec_remaining_time(),
    {
        self.leaderboard.leaderboard()
    }

    /// Checks the answer `answer` to the current question and records it.
    /// An answer to another question is refused as not relevant, a second
    /// answer of the same user as already given; neither is recorded.
    pub fn check_answer(&mut self, answer: AnswerSubmitted) -> (r: Result<AnswerEvaluated, QuizError>)
        requires
            old(self).wf(),
        ensures
            final(self).wf(),
            final(self).participants() == old(self).participants(),
            final(self).spec_question() == old(self).spec_question(),
            final(self).spec_remaining_time() == old(self).spec_remaining_time(),
            final(self).board() == old(self).board(),
            answer.question_id@ != old(self).spec_question().spec_id() ==> {
                &&& r == Err::<AnswerEvaluated, QuizError>(QuizError::Question(QuestionError::NotRelevant))
                &&& final(self).answers() == old(self).answers()
            },
            answer.question_id@ == old(self).spec_question().spec_id() && answerers(old(self).answers()).contains(answer.user_id@) ==> {
                &&& r == Err::<AnswerEvaluated, QuizError>(QuizError::AlreadyAnswered)
                &&& final(self).answers() == old(self).answers()
            },
            answer.question_id@ == old(self).spec_question().spec_id() && !answerers(old(self).answers()).contains(answer.user_id@) ==> {
                let is_correct = answer.variant_id@ == old(self).spec_question().spec_correct_variant_id();
                &&& r matches Ok(e) && {
                    &&& e.user_id@ == answer.user_id@
                    &&& e.is_correct == is_correct
                    &&& e.submitted_variant_id@ == answer.variant_id@
                    &&& e.correct_variant_id@ == old(self).spec_question().spec_correct_variant_id()
                }
                &&& final(self).answers() == old(self).answers().push((answer.user_id@, is_correct))
            },
    {
        let is_correct = match self.question.check_answer(answer.question_id, answer.variant_id) {
            Ok(b) => b,
            Err(e) => {
                return Err(QuizError::Question(e));
            },
        };
        match self.add_user_answer(answer.user_id, is_correct) {
            Ok(()) => {},
            Err(e) => {
                return Err(e);
            },
        }
        Ok(AnswerEvaluated {
            user_id: answer.user_id,
            is_correct,
            submitted_variant_id: answer.variant_id,
            correct_variant_id: self.question.correct_variant_id(),
        })
    }

    /// The question being asked.
    pub fn question(&self) -> (q: &Question<T>)
        ensures
            *q == self.spec_question(),
    {
        &self.question
    }

    /// The time left for the current question.
    pub fn remaining_time(&self) -> (d: Duration)
        ensures
            d == self.spec_remaining_time(),
    {
        self.remaining_time
    }

    /// The number of answers given to the current question.
    pub fn answers_total(&self) -> (n: usize)
        ensures
            n == self.answers().len(),
    {
        self.answers.len()
    }

    /// The number of users taking part.
    pub fn participants_count(&self) -> (n: usize)
        ensures
            n == self.participants().len(),
    {
        self.participant_ids.len()
    }

    /// A user takes part (again); nothing changes if it already does.
    pub fn participant_returned(&mut self, user_id: UserId)
        requires
            old(self).wf(),
        ensures
            final(self).wf(),
            final(self).participants() == old(self).participants().insert(user_id@),
            final(self).answers() == old(self).answers(),
            final(self).spec_question() == old(self).spec_question(),
            final(self).spec_remaining_time() == old(self).spec_remaining_time(),
            final(self).board() == old(self).board(),
    {
        let _ = self.participant_ids.insert(user_id.value());
    }

    /// A user stops taking part; returns how many users still take part.
    pub fn participant_left(&mut self, user_id: &UserId) -> (n: usize)
        requires
            old(self).wf(),
        ensures
            final(self).wf(),
            final(self).participants() == old(self).participants().remove(user_id@),
            n == final(self).participants().len(),
            final(self).answers() == old(self).answers(),
            final(self).spec_question() == old(self).spec_question(),
            final(self).spec_remaining_time() == old(self).spec_remaining_time(),
            final(self).board() == old(self).board(),
    {
        let _ = self.participant_ids.remove(&user_id.value());
        self.participant_ids.len()
    }

    /// Sets the time left for the current question.
    pub fn update_remaining_time(&mut self, remaining_time: Duration)
        requires
            old(self).wf(),
        ensures
            final(self).wf(),
            final(self).spec_remaining_time() == remaining_time,
            final(self).answers() == old(self).answers(),
            final(self).participants() == old(self).participants(),
            final(self).spec_question() == old(self).spec_question(),
            final(self).board() == old(self).board(),
    {
        self.remaining_time = remaining_time;
    }

    /// Moves on to `question`; the answers to the previous one are dropped.
    pub fn update_question(&mut self, question: Question<T>)
        requires
            old(self).wf(),
        ensures
            final(self).wf(),
            final(self).spec_question() == question,
            final(self).answers().len() == 0,
            final(self).participants() == old(self).participants(),
            final(self).spec_remaining_time() == old(self).spec_remaining_time(),
            final(self).board() == old(self).board(),
    {
        self.question = question;
        self.answers.clear();
        assert(self.answers() =~= Seq::<(u128, bool)>::empty());
        assert(answerers(self.answers()) =~= Seq::<u128>::empty());
    }

    /// Records the answer of `user_id`, unless it already answered.
    fn add_user_answer(&mut self, user_id: UserId, is_correct: bool) -> (r: Result<(), QuizError>)
        requires
            old(self).wf(),
        ensures
            final(self).wf(),
            answerers(old(self).answers()).contains(user_id@) ==> r == Err::<(), QuizError>(
                QuizError::AlreadyAnswered,
            ) && final(self).answers() == old(self).answers(),
            !answerers(old(self).answers()).contains(user_id@) ==> r is Ok && final(self).answers()
                == old(self).answers().push((user_id@, is_correct)),
            final(self).participants() == old(self).participants(),
            final(self).spec_question() == old(self).spec_question(),
            final(self).spec_remaining_time() == old(self).spec_remaining_time(),
            final(self).board() == old(self).board(),
    {
        if answer_position(&self.answers, user_id).is_some() {
            return Err(QuizError::AlreadyAnswered);
        }
        let ghost before = self.answers();
        self.answers.push((user_id, is_correct));
        proof {
            assert(self.answers() =~= before.push((user_id@, is_correct)));
            assert(answerers(self.answers()) =~= answerers(before).push(user_id@));
            lemma_push_distinct(answerers(before), user_id@);
        }
        Ok(())
    }

    /// Each correct answer comes from a participant on the leaderboard.
    pub open spec fn rewardable(&self) -> bool {
        answerers_on_board(self.board().entries(), self.answers())
    }

    /// Whether `rewardable` holds, so that `update_leaderboard` may be
    /// called.
    pub fn is_rewardable(&self) -> (b: bool)
        requires
            self.wf(),
        ensures
            b == self.rewardable(),
    {
        let ghost answers = self.answers();
        let mut i: usize = 0;
        while i < self.answers.len()
            invariant
                i <= self.answers@.len(),
                answers == self.answers(),
                self.wf(),
                forall|k: int| 0 <= k < i && (#[trigger] answers[k]).1 ==> first_slot_of(self.board().entries(), answers[k].0) is Some,
            decreases self.answers@.len() - i,
        {
            let (id, correct) = self.answers[i];
            assert(answers[i as int] == (id@, correct));
            if correct {
                if self.leaderboard.score(&id).is_none() {
                    return false;
                }
            }
            i += 1;
        }
        true
    }

    /// Ends the question: `POINTS_PER_QUESTION` are shared out among the
    /// correct answers (see `points_share`) and added to the points of the
    /// participants who gave them, in the order of the answers. Returns
    /// one award per correct answer; none when no answer is correct.
    pub fn update_leaderboard(&mut self) -> (r: Vec<ScoreUpdated>)
        requires
            old(self).wf(),
            old(self).rewardable(),
        ensures
            final(self).wf(),
            final(self).answers() == old(self).answers(),
            final(self).participants() == old(self).participants(),
            final(self).spec_question() == old(self).spec_question(),
            final(self).spec_remaining_time() == old(self).spec_remaining_time(),
            match points_share(correct_count(old(self).answers())) {
                None => r@.len() == 0 && final(self).board() == old(self).board(),
                Some(p) => {
                    &&& final(self).board().entries() == awarded(old(self).board().entries(), old(self).answers(), p)
                    &&& r@.map_values(|u: ScoreUpdated| u@) == awards(old(self).board().entries(), old(self).answers(), p)
                },
            },
            correct_count(old(self).answers()) <= u16::MAX ==> points_total(r@.map_values(|u: ScoreUpdated| u@)) <= POINTS_PER_QUESTION,
            1 <= correct_count(old(self).answers()) <= u16::MAX ==> {
                &&& r@.len() == correct_count(old(self).answers())
                &&& forall|i: int| 0 <= i < r@.len() ==> {
                    &&& (#[trigger] r@[i])@.points_earned as int == POINTS_PER_QUESTION as int / correct_count(old(self).answers()) as int
                    &&& r@[i]@.current_score == clamped_sum(r@[i]@.previous_score, r@[i]@.points_earned)
                }
            },
    {
        let ghost answers = self.answers();
        let ghost entries0 = self.board().entries();
        let mut count: usize = 0;
        let mut i: usize = 0;
        while i < self.answers.len()
            invariant
                i <= self.answers@.len(),
                answers == self.answers(),
                answers.len() == self.answers@.len(),
                count == correct_count(answers.take(i as int)),
                count <= i,
            decreases self.answers@.len() - i,
        {
            let (_, correct) = self.answers[i];
            assert(answers[i as int].1 == correct);
            assert(answers.take(i + 1).drop_last() == answers.take(i as int));
            if correct {
                count += 1;
            }
            i += 1;
        }
        assert(answers.take(answers.len() as int) == answers);
        let c: u16 = #[verifier::truncate] (count as u16);
        if c == 0 {
            let none: Vec<ScoreUpdated> = Vec::new();
            assert(none@.map_values(|u: ScoreUpdated| u@) =~= Seq::<ScoreUpdatedView>::empty());
            return none;
        }
        let points = Score::new(POINTS_PER_QUESTION / c);
        let ghost p: u16 = points@;
        assert(p <= 10) by (nonlinear_arith)
            requires
                p == POINTS_PER_QUESTION / c,
                c >= 1,
                POINTS_PER_QUESTION == 10,
        ;
        let mut updates: Vec<ScoreUpdated> = Vec::new();
        let mut i: usize = 0;
        assert(answers.take(0) =~= Seq::<(u128, bool)>::empty());
        while i < self.answers.len()
            invariant
                i <= self.answers@.len(),
                answers == self.answers(),
                answers.len() == self.answers@.len(),
                self.wf(),
                self.answers@ == old(self).answers@,
                self.participant_ids@ == old(self).participant_ids@,
                self.question == old(self).question,
                self.remaining_time == old(self).remaining_time,
                entries0 == old(self).board().entries(),
                answerers_on_board(entries0, answers),
                p == POINTS_PER_QUESTION / c,
                p <= 10,
                points@ == p,
                self.board().entries() == awarded(entries0, answers.take(i as int), p),
                updates@.map_values(|u: ScoreUpdated| u@) == awards(entries0, answers.take(i as int), p),
            decreases self.answers@.len() - i,
        {
            let (id, correct) = self.answers[i];
            assert(answers[i as int] == (id@, correct));
            assert(answers.take(i + 1).drop_last() == answers.take(i as int));
            assert(answers.take(i + 1).last() == answers[i as int]);
            let ghost cur = self.board().entries();
            proof {
                lemma_awarded_keeps_slots(entries0, answers.take(i as int), p, id@);
                crate::leaderboard::lemma_first_slot_found(cur, id@);
            }
            if correct {
                proof {
                    let k = first_slot_of(cur, id@)->0;
                    assert(cur[k] is Some);
                    assert(cur[k]->0.score <= Score::MAX_SCORE);
                }
                let previous = self.leaderboard.score(&id).expect("user not found");
                let current = self.leaderboard.add_score(id, points).expect("failed to award points to user");
                let ghost before_updates = updates@;
                updates.push(ScoreUpdated {
                    user_id: id,
                    previous_score: previous,
                    current_score: current,
                    points_earned: points,
                });
                proof {
                    assert(updates@.map_values(|u: ScoreUpdated| u@) =~= before_updates.map_values(|u: ScoreUpdated| u@).push(updates@[before_updates.len() as int]@));
                    assert(self.board().entries() =~= award(cur, id@, p));
                }
            }
            i += 1;
        }
        assert(answers.take(answers.len() as int) == answers);
        proof {
            if correct_count(answers) <= u16::MAX {
                crate::laws::lemma_question_points_total(entries0, answers, p);
                crate::laws::lemma_points_share_exact(correct_count(answers));
                crate::laws::lemma_one_award_per_correct_answer(entries0, answers, p);
                crate::laws::lemma_awards_earn_the_points(entries0, answers, p);
                let views = updates@.map_values(|u: ScoreUpdated| u@);
                assert forall|i: int| 0 <= i < updates@.len() implies #[trigger] updates@[i]@ == views[i] by {}
            }
        }
        updates
    }
}

/// The board `after` is the board `before` reordered as
/// `Leaderboard::leaderboard` orders it, and `shown` lists its
/// participants in that order.
pub open spec fn reordered<const N: usize>(
    before: Leaderboard<N>,
    after: Leaderboard<N>,
    shown: Seq<Participant>,
) -> bool {
    &&& after.wf()
    &&& after.slots().to_multiset() == before.slots().to_multiset()
    &&& crate::order::sorted_descending(after.slots())
    &&& shown.len() <= N
    &&& forall|i: int| 0 <= i < shown.len() ==> #[trigger] after.entries()[i] == Some(shown[i]@)
    &&& forall|i: int| shown.len() <= i < N ==> #[trigger] after.entries()[i] is None
}

/// The end of a question on the leaderboard `before` with the answers
/// `answers`: each correct answer earns the share of the question's points
/// that `points_share` gives (nothing when none is correct), the leaderboard
/// becomes `after`, that award reordered, and `out` tells one
/// `ScoreUpdated` per award, in order, then the reordered leaderboard.
pub open spec fn question_closed<T, const N: usize>(
    before: Leaderboard<N>,
    answers: Seq<(u128, bool)>,
    after: Leaderboard<N>,
    out: Seq<LeadingEvent<T>>,
) -> bool {
    &&& out.len() >= 1
    &&& out.last() matches LeadingEvent::LeaderboardUpdated(v) && exists|mid: Leaderboard<N>| {
        &&& reordered(mid, after, v@)
        &&& match points_share(correct_count(answers)) {
            None => mid == before,
            Some(p) => mid.entries() == awarded(before.entries(), answers, p),
        }
    }
    &&& match points_share(correct_count(answers)) {
        None => out.len() == 1,
        Some(p) => {
            let expected = awards(before.entries(), answers, p);
            &&& out.len() == expected.len() + 1
            &&& forall|i: int| 0 <= i < expected.len() ==> ((#[trigger] out[i]) matches LeadingEvent::ScoreUpdated(u) && u@ == expected[i])
        },
    }
}

impl<T: Copy, const N: usize> QuizState<T, N> {
    /// All users taking part have answered.
    pub fn is_all_answered(&self) -> (b: bool)
        ensures
            b == (self.answers().len() == self.participants().len()),
    {
        self.answers_total() == self.participants_count()
    }

    /// Answers a request of a participant: updates the state and returns
    /// the messages to send, in order.
    ///
    /// - `QuestionRequested`: the current question.
    /// - `TimeRequested`: the time left.
    /// - `LeaderboardRequested`: the leaderboard, after it is reordered.
    /// - `AnswerSubmitted`: nothing for a user who does not take part; else
    ///   the outcome of `check_answer`: the verdict, or that the answer
    ///   was already given, or that it is not relevant.
    /// - `ParticipantReturned`: the user takes part; the return is passed on.
    /// - `ParticipantLeft`: the user stops taking part; the leave is passed
    ///   on, followed by `Finished` when nobody is left.
    pub fn handle_event(&mut self, event: ParticipantEvent) -> (out: Vec<LeadingEvent<T>>)
        requires
            old(self).wf(),
        ensures
            final(self).wf(),
            match event {
                ParticipantEvent::QuestionRequested => {
                    &&& *final(self) == *old(self)
                    &&& out@.len() == 1
                    &&& out@[0] matches LeadingEvent::QuestionReady(q) && q == old(self).spec_question()
                },
                ParticipantEvent::TimeRequested => {
                    &&& *final(self) == *old(self)
                    &&& out@.len() == 1
                    &&& out@[0] matches LeadingEvent::TimeUpdate(d) && d == old(self).spec_remaining_time()
                },
                ParticipantEvent::LeaderboardRequested => {
                    &&& final(self).answers() == old(self).answers()
                    &&& final(self).participants() == old(self).participants()
                    &&& final(self).spec_question() == old(self).spec_question()
                    &&& final(self).spec_remaining_time() == old(self).spec_remaining_time()
                    &&& out@.len() == 1
                    &&& out@[0] matches LeadingEvent::LeaderboardUpdated(v) && reordered(old(self).board(), final(self).board(), v@)
                },
                ParticipantEvent::AnswerSubmitted(a) => {
                    &&& final(self).participants() == old(self).participants()
                    &&& final(self).spec_question() == old(self).spec_question()
                    &&& final(self).spec_remaining_time() == old(self).spec_remaining_time()
                    &&& final(self).board() == old(self).board()
                    &&& if !old(self).participants().contains(a.user_id@) {
                        final(self).answers() == old(self).answers() && out@.len() == 0
                    } else if a.question_id@ != old(self).spec_question().spec_id() {
                        &&& final(self).answers() == old(self).answers()
                        &&& out@.len() == 1
                        &&& out@[0] matches LeadingEvent::AnswerOutcome(AnswerOutcome::NotRelevant(u)) && u@ == a.user_id@
                    } else if answerers(old(self).answers()).contains(a.user_id@) {
                        &&& final(self).answers() == old(self).answers()
                        &&& out@.len() == 1
                        &&& out@[0] matches LeadingEvent::AnswerOutcome(AnswerOutcome::AlreadyAnswered(u)) && u@ == a.user_id@
                    } else {
                        let is_correct = a.variant_id@ == old(self).spec_question().spec_correct_variant_id();
                        &&& final(self).answers() == old(self).answers().push((a.user_id@, is_correct))
                        &&& out@.len() == 1
                        &&& out@[0] matches LeadingEvent::AnswerOutcome(AnswerOutcome::AnswerEvaluated(e)) && {
                            &&& e.user_id@ == a.user_id@
                            &&& e.is_correct == is_correct
                            &&& e.submitted_variant_id@ == a.variant_id@
                            &&& e.correct_variant_id@ == old(self).spec_question().spec_correct_variant_id()
                        }
                    }
                },
                ParticipantEvent::ParticipantReturned(u) => {
                    &&& final(self).participants() == old(self).participants().insert(u@)
                    &&& final(self).answers() == old(self).answers()
                    &&& final(self).spec_question() == old(self).spec_question()
                    &&& final(self).spec_remaining_time() == old(self).spec_remaining_time()
                    &&& final(self).board() == old(self).board()
                    &&& out@.len() == 1
                    &&& out@[0] matches LeadingEvent::ParticipantReturned(v) && v == u
                },
                ParticipantEvent::ParticipantLeft(u) => {
                    &&& final(self).participants() == old(self).participants().remove(u@)
                    &&& final(self).answers() == old(self).answers()
                    &&& final(self).spec_question() == old(self).spec_question()
                    &&& final(self).spec_remaining_time() == old(self).spec_remaining_time()
                    &&& final(self).board() == old(self).board()
                    &&& out@.len() == if final(self).participants().len() == 0 { 2int } else { 1int }
                    &&& out@[0] matches LeadingEvent::ParticipantLeft(v) && v == u
                    &&& final(self).participants().len() == 0 ==> out@[1] is Finished
                },
            },
    {
        let mut out: Vec<LeadingEvent<T>> = Vec::new();
        match event {
            ParticipantEvent::QuestionRequested => {
                out.push(LeadingEvent::QuestionReady(self.question().clone()));
            },
            ParticipantEvent::TimeRequested => {
                out.push(LeadingEvent::TimeUpdate(self.remaining_time()));
            },
            ParticipantEvent::LeaderboardRequested => {
                let participants = self.leaderboard();
                out.push(LeadingEvent::LeaderboardUpdated(participants));
            },
            ParticipantEvent::AnswerSubmitted(answer) => {
                if self.participant_ids.contains(&answer.user_id.value()) {
                    let user_id = answer.user_id;
                    match self.check_answer(answer) {
                        Ok(result) => {
                            out.push(LeadingEvent::AnswerOutcome(AnswerOutcome::AnswerEvaluated(result)));
                        },
                        Err(QuizError::AlreadyAnswered) => {
                            out.push(LeadingEvent::AnswerOutcome(AnswerOutcome::AlreadyAnswered(user_id)));
                        },
                        Err(QuizError::Question(QuestionError::NotRelevant)) => {
                            out.push(LeadingEvent::AnswerOutcome(AnswerOutcome::NotRelevant(user_id)));
                        },
                        Err(_) => {},
                    }
                }
            },
            ParticipantEvent::ParticipantReturned(user_id) => {
                self.participant_returned(user_id);
                out.push(LeadingEvent::ParticipantReturned(user_id));
            },
            ParticipantEvent::ParticipantLeft(user_id) => {
                let count = self.participant_left(&user_id);
                out.push(LeadingEvent::ParticipantLeft(user_id));
                if count == 0 {
                    out.push(LeadingEvent::Finished);
                }
            },
        }
        out
    }

    /// Starts the next question: the state moves on to `question`, which
    /// the returned message announces.
    pub fn start_round(&mut self, question: Question<T>) -> (out: LeadingEvent<T>)
        requires
            old(self).wf(),
        ensures
            final(self).wf(),
            final(self).spec_question() == question,
            final(self).answers().len() == 0,
            final(self).participants() == old(self).participants(),
            final(self).spec_remaining_time() == old(self).spec_remaining_time(),
            final(self).board() == old(self).board(),
            out matches LeadingEvent::QuestionReady(q) && q == question,
    {
        let announced = question.clone();
        self.update_question(question);
        LeadingEvent::QuestionReady(announced)
    }

    /// One second of the question has passed and `time_left` remains.
    /// `None` when the question ends early, because nobody takes part any
    /// more or everybody has answered; else the time left is recorded and
    /// the message that tells it is returned.
    pub fn time_passed(&mut self, time_left: Duration) -> (out: Option<LeadingEvent<T>>)
        requires
            old(self).wf(),
        ensures
            final(self).wf(),
            final(self).answers() == old(self).answers(),
            final(self).participants() == old(self).participants(),
            final(self).spec_question() == old(self).spec_question(),
            final(self).board() == old(self).board(),
            (old(self).participants().len() == 0 || old(self).answers().len() == old(self).participants().len()) ==> {
                &&& out is None
                &&& final(self).spec_remaining_time() == old(self).spec_remaining_time()
            },
            !(old(self).participants().len() == 0 || old(self).answers().len() == old(self).participants().len()) ==> {
                &&& out matches Some(LeadingEvent::TimeUpdate(d)) && d == time_left
                &&& final(self).spec_remaining_time() == time_left
            },
    {
        if self.participants_count() == 0 {
            return None;
        }
        if self.is_all_answered() {
            return None;
        }
        self.update_remaining_time(time_left);
        Some(LeadingEvent::TimeUpdate(time_left))
    }

    /// Ends the question: awards the points as `update_leaderboard` does and
    /// returns one `ScoreUpdated` message per award, in order, followed by
    /// the reordered leaderboard.
    pub fn end_round(&mut self) -> (out: Vec<LeadingEvent<T>>)
        requires
            old(self).wf(),
            old(self).rewardable(),
        ensures
            final(self).wf(),
            final(self).answers() == old(self).answers(),
            final(self).participants() == old(self).participants(),
            final(self).spec_question() == old(self).spec_question(),
            final(self).spec_remaining_time() == old(self).spec_remaining_time(),
            question_closed(old(self).board(), old(self).answers(), final(self).board(), out@),
    {
        let scores = self.update_leaderboard();
        let ghost mid = self.board();
        let ghost score_views = scores@.map_values(|u: ScoreUpdated| u@);
        let mut out: Vec<LeadingEvent<T>> = Vec::new();
        let mut i: usize = 0;
        while i < scores.len()
            invariant
                i <= scores@.len(),
                score_views == scores@.map_values(|u: ScoreUpdated| u@),
                out@.len() == i,
                forall|k: int| 0 <= k < i ==> ((#[trigger] out@[k]) matches LeadingEvent::ScoreUpdated(u) && u@ == score_views[k]),
            decreases scores@.len() - i,
        {
            out.push(LeadingEvent::ScoreUpdated(scores[i]));
            i += 1;
        }
        let participants = self.leaderboard();
        out.push(LeadingEvent::LeaderboardUpdated(participants));
        proof {
            let last = out@.last();
            assert(last matches LeadingEvent::LeaderboardUpdated(v) && reordered(mid, self.board(), v@));
        }
        out
    }
}

} // verus!
