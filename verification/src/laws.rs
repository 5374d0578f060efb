use vstd::prelude::*;
use crate::leaderboard::{first_slot_of, lemma_first_slot_found, score_in, slot_has};
use crate::participant::ParticipantView;
use crate::quiz::POINTS_PER_QUESTION;
use crate::quiz_state::{answerers, award, awarded, awards, correct_count, points_share, points_total};
use crate::score::{clamped_sum, Score};
use crate::ids::UserId;
use crate::expression::{expression_text, int_text, laid_out, leaf_count, leaves, Expression};
use crate::leading::{after_second, lead_clock, lead_step, rounds_ended, time_told, LeadAction, LeadPhase};
use crate::quiz::LeadingEvent;
use crate::session::{answering_user, forward_step, ids_of, joined, without, EventShare, Forward, Session};
use crate::state::{member_ids, registered, AppState};
use crate::user::User;
use crate::ids::uuid_parsed;

verus! {

/// Adding scores does not depend on their order.
pub proof fn lemma_score_sum_commutative(a: u16, b: u16)
    ensures
        clamped_sum(a, b) == clamped_sum(b, a),
{
}

/// A sum of scores is never above `Score::MAX_SCORE`, and adding to a score
/// that is within the bounds never lowers it.
pub proof fn lemma_score_sum_bounded(a: u16, b: u16)
    ensures
        clamped_sum(a, b) <= Score::MAX_SCORE,
        a <= Score::MAX_SCORE ==> a <= clamped_sum(a, b),
        clamped_sum(a, b) <= a + b,
{
}

/// The correct answers of one question share at most
/// `POINTS_PER_QUESTION` points: each earns the same share, and the shares
/// add up to no more than that.
pub proof fn lemma_points_shared_out(count: nat)
    requires
        count <= u16::MAX,
    ensures
        points_share(count) is None <==> count == 0,
        points_share(count) matches Some(p) ==> p * count <= POINTS_PER_QUESTION,
{
    if count > 0 {
        assert(count as u16 == count);
        let c = count as u16;
        let p = (POINTS_PER_QUESTION / c) as u16;
        assert(p * c <= POINTS_PER_QUESTION) by (nonlinear_arith)
            requires
                c >= 1,
                p == POINTS_PER_QUESTION / c,
        ;
    }
}

/// One award is made per correct answer.
pub proof fn lemma_one_award_per_correct_answer(
    entries: Seq<Option<ParticipantView>>,
    answers: Seq<(u128, bool)>,
    points: u16,
)
    ensures
        awards(entries, answers, points).len() == correct_count(answers),
    decreases answers.len(),
{
    if answers.len() > 0 {
        lemma_one_award_per_correct_answer(entries, answers.drop_last(), points);
    }
}

/// Each award of a question carries the same share, so together they carry
/// the share times the number of correct answers.
pub proof fn lemma_awards_total(
    entries: Seq<Option<ParticipantView>>,
    answers: Seq<(u128, bool)>,
    points: u16,
)
    ensures
        points_total(awards(entries, answers, points)) == points * correct_count(answers),
    decreases answers.len(),
{
    if answers.len() == 0 {
        assert(points * 0 == 0) by (nonlinear_arith);
    } else {
        let prefix = answers.drop_last();
        lemma_awards_total(entries, prefix, points);
        let c = correct_count(prefix);
        let before = awards(entries, prefix, points);
        let after = awards(entries, answers, points);
        if answers.last().1 {
            assert(after.drop_last() == before);
            assert(after.last().points_earned == points);
            assert(correct_count(answers) == c + 1);
            assert(points * (c + 1) == points * c + points) by (nonlinear_arith);
        } else {
            assert(after == before);
            assert(correct_count(answers) == c);
        }
    }
}

/// The awards of one question add up to at most `POINTS_PER_QUESTION`
/// points, when there are no more correct answers than a `u16` counts.
pub proof fn lemma_question_points_total(
    entries: Seq<Option<ParticipantView>>,
    answers: Seq<(u128, bool)>,
    points: u16,
)
    requires
        correct_count(answers) <= u16::MAX,
        points_share(correct_count(answers)) == Some(points),
    ensures
        points_total(awards(entries, answers, points)) <= POINTS_PER_QUESTION,
{
    lemma_awards_total(entries, answers, points);
    lemma_points_shared_out(correct_count(answers));
}

/// Adding points to one participant leaves the points of another where
/// they were.
proof fn lemma_award_other(entries: Seq<Option<ParticipantView>>, y: u128, points: u16, x: u128)
    requires
        x != y,
    ensures
        score_in(award(entries, y, points), x) == score_in(entries, x),
        first_slot_of(award(entries, y, points), x) == first_slot_of(entries, x),
{
    lemma_first_slot_found(entries, y);
    lemma_first_slot_found(entries, x);
    let after = award(entries, y, points);
    assert forall|j: int| 0 <= j < entries.len() implies #[trigger] slot_has(after[j], x) == slot_has(entries[j], x) by {}
    lemma_first_slot_found(after, x);
    match (first_slot_of(entries, x), first_slot_of(after, x)) {
        (Some(i), Some(k)) => {
            assert(slot_has(after[i], x));
            assert(slot_has(entries[k], x));
            if let Some(j) = first_slot_of(entries, y) {
                assert(j != i);
            }
        },
        (Some(i), None) => {
            assert(slot_has(after[i], x));
        },
        (None, Some(k)) => {
            assert(slot_has(entries[k], x));
        },
        (None, None) => {},
    }
}

/// The points that a question brings a participant on the leaderboard:
/// the share if it answered correctly, nothing otherwise. Each user answers
/// at most once.
#[verifier::rlimit(40)]
pub proof fn lemma_question_outcome(
    entries: Seq<Option<ParticipantView>>,
    answers: Seq<(u128, bool)>,
    points: u16,
    x: u128,
)
    requires
        answerers(answers).no_duplicates(),
        score_in(entries, x) is Some,
    ensures
        score_in(awarded(entries, answers, points), x) == Some(
            if answers.contains((x, true)) {
                clamped_sum(score_in(entries, x)->0, points)
            } else {
                score_in(entries, x)->0
            },
        ),
    decreases answers.len(),
{
    if answers.len() > 0 {
        let prefix = answers.drop_last();
        let last = answers.last();
        assert(answerers(prefix) =~= answerers(answers).drop_last());
        assert forall|a: int, b: int| 0 <= a < b < answerers(prefix).len() implies answerers(prefix)[a] != answerers(prefix)[b] by {
            assert(answerers(prefix)[a] == answerers(answers)[a]);
            assert(answerers(prefix)[b] == answerers(answers)[b]);
        }
        lemma_question_outcome(entries, prefix, points, x);
        let prev = awarded(entries, prefix, points);
        if last.0 == x {
            assert(!prefix.contains((x, true))) by {
                if prefix.contains((x, true)) {
                    let k = choose|k: int| 0 <= k < prefix.len() && prefix[k] == (x, true);
                    assert(answerers(answers)[k] == x);
                    assert(answerers(answers)[answers.len() - 1] == x);
                }
            }
            assert(!prefix.contains((x, false))) by {
                if prefix.contains((x, false)) {
                    let k = choose|k: int| 0 <= k < prefix.len() && prefix[k] == (x, false);
                    assert(answerers(answers)[k] == x);
                    assert(answerers(answers)[answers.len() - 1] == x);
                }
            }
            if last.1 {
                assert(answers.contains((x, true))) by {
                    assert(answers[answers.len() - 1] == (x, true));
                }
                lemma_first_slot_found(prev, x);
                crate::quiz_state::lemma_award_keeps_slots(prev, x, points, x);
            } else {
                assert(!answers.contains((x, true))) by {
                    if answers.contains((x, true)) {
                        let k = choose|k: int| 0 <= k < answers.len() && answers[k] == (x, true);
                        if k < prefix.len() {
                            assert(prefix[k] == (x, true));
                        }
                    }
                }
            }
        } else {
            assert(answers.contains((x, true)) == prefix.contains((x, true))) by {
                if answers.contains((x, true)) {
                    let k = choose|k: int| 0 <= k < answers.len() && answers[k] == (x, true);
                    assert(k < prefix.len());
                    assert(prefix[k] == (x, true));
                }
                if prefix.contains((x, true)) {
                    let k = choose|k: int| 0 <= k < prefix.len() && prefix[k] == (x, true);
                    assert(answers[k] == (x, true));
                }
            }
            if last.1 {
                lemma_award_other(prev, last.0, points, x);
            }
        }
    }
}

/// Once the forwarding of a quiz's messages has seen the end of the quiz,
/// it stays ended.
proof fn lemma_forwarding_stays_finished(finished: Seq<bool>, n: int, a: int, b: int)
    requires
        finished.len() == n + 1,
        0 <= a <= b <= n,
        finished[a],
        forall|i: int| 0 <= i < n && finished[i] ==> #[trigger] finished[i + 1],
    ensures
        finished[b],
    decreases b - a,
{
    if a < b {
        assert(finished[a + 1]);
        lemma_forwarding_stays_finished(finished, n, a + 1, b);
    }
}

/// Over any run of the forwarding of a quiz's messages from its start
/// (`events` in the order they came, `outs` what became of each, `finished`
/// whether the quiz had ended before each): the end is forwarded as a
/// `Finish` only for the first `Finished` message, nothing at all is
/// forwarded after it, and the outcome of an answer goes to the user who
/// gave it alone.
pub proof fn lemma_forwarding_run<T>(
    members: Seq<UserId>,
    events: Seq<LeadingEvent<T>>,
    outs: Seq<Forward<T>>,
    finished: Seq<bool>,
)
    requires
        outs.len() == events.len(),
        finished.len() == events.len() + 1,
        !finished[0],
        forall|i: int| 0 <= i < events.len() ==> #[trigger] forward_step(members, finished[i], events[i], outs[i], finished[i + 1]),
    ensures
        forall|i: int, j: int| 0 <= i < j < events.len() && outs[i] is Finish ==> outs[j] is Skip,
        forall|i: int| 0 <= i < events.len() && outs[i] is Finish ==> {
            &&& events[i] is Finished
            &&& forall|k: int| 0 <= k < i ==> !(#[trigger] events[k] is Finished)
        },
        forall|i: int| 0 <= i < events.len() && !(outs[i] is Skip) && events[i] is Finished ==> outs[i] is Finish,
        forall|i: int| 0 <= i < events.len() && !(outs[i] is Skip) && (#[trigger] events[i] is AnswerOutcome) ==> {
            &&& outs[i] matches Forward::Send(e) && e.share matches EventShare::One(u) && u@ == answering_user(events[i]->AnswerOutcome_0)@
        },
{
    let n = events.len() as int;
    assert forall|i: int| 0 <= i < n && finished[i] implies #[trigger] finished[i + 1] by {
        assert(forward_step(members, finished[i], events[i], outs[i], finished[i + 1]));
    }
    assert forall|i: int, j: int| 0 <= i < j < n && outs[i] is Finish implies outs[j] is Skip by {
        assert(forward_step(members, finished[i], events[i], outs[i], finished[i + 1]));
        assert(forward_step(members, finished[j], events[j], outs[j], finished[j + 1]));
        lemma_forwarding_stays_finished(finished, n, i + 1, j);
    }
    assert forall|i: int| 0 <= i < n && outs[i] is Finish implies {
        &&& events[i] is Finished
        &&& forall|k: int| 0 <= k < i ==> !(#[trigger] events[k] is Finished)
    } by {
        assert(forward_step(members, finished[i], events[i], outs[i], finished[i + 1]));
        assert forall|k: int| 0 <= k < i implies !(#[trigger] events[k] is Finished) by {
            assert(forward_step(members, finished[k], events[k], outs[k], finished[k + 1]));
            if events[k] is Finished {
                if finished[k] {
                    lemma_forwarding_stays_finished(finished, n, k, i);
                } else {
                    lemma_forwarding_stays_finished(finished, n, k + 1, i);
                }
            }
        }
    }
    assert forall|i: int| 0 <= i < n && !(outs[i] is Skip) && events[i] is Finished implies outs[i] is Finish by {
        assert(forward_step(members, finished[i], events[i], outs[i], finished[i + 1]));
    }
    assert forall|i: int| 0 <= i < n && !(outs[i] is Skip) && (#[trigger] events[i] is AnswerOutcome) implies {
        &&& outs[i] matches Forward::Send(e) && e.share matches EventShare::One(u) && u@ == answering_user(events[i]->AnswerOutcome_0)@
    } by {
        assert(forward_step(members, finished[i], events[i], outs[i], finished[i + 1]));
    }
}

/// Once the leading of a quiz is over, it stays over and does nothing.
proof fn lemma_leading_stays_over<T>(total: nat, done: Seq<nat>, phases: Seq<LeadPhase>, actions: Seq<LeadAction<T>>, a: int, b: int)
    requires
        done.len() == actions.len() + 1,
        phases.len() == actions.len() + 1,
        forall|i: int| 0 <= i < actions.len() ==> #[trigger] lead_step(total, done[i], phases[i], actions[i], done[i + 1], phases[i + 1]),
        0 <= a <= b <= actions.len(),
        phases[a] is Over,
    ensures
        phases[b] is Over,
        b < actions.len() ==> actions[b] is Ignore,
    decreases b - a,
{
    if a < b {
        assert(lead_step(total, done[a], phases[a], actions[a], done[a + 1], phases[a + 1]));
        lemma_leading_stays_over(total, done, phases, actions, a + 1, b);
    } else if b < actions.len() {
        assert(lead_step(total, done[b], phases[b], actions[b], done[b + 1], phases[b + 1]));
    }
}

/// Over any run of the leading of a quiz of `total` questions from its
/// start (`actions` the actions of its steps in order, `done` and `phases`
/// the count of questions done and where it stood before each step and
/// after the last): the count is the number of questions ended so far and
/// never above `total`; the quiz is ended with `Finish` only once exactly
/// `total` questions have ended, and after that every step does nothing.
pub proof fn lemma_leading_run<T>(total: nat, done: Seq<nat>, phases: Seq<LeadPhase>, actions: Seq<LeadAction<T>>)
    requires
        done.len() == actions.len() + 1,
        phases.len() == actions.len() + 1,
        done[0] == 0,
        forall|i: int| 0 <= i < actions.len() ==> #[trigger] lead_step(total, done[i], phases[i], actions[i], done[i + 1], phases[i + 1]),
    ensures
        forall|i: int| 0 <= i <= actions.len() ==> #[trigger] done[i] == rounds_ended(actions.take(i)),
        forall|i: int| 0 <= i <= actions.len() ==> #[trigger] rounds_ended(actions.take(i)) <= total,
        forall|i: int| 0 <= i < actions.len() && #[trigger] actions[i] is Finish ==> rounds_ended(actions.take(i)) == total,
        forall|i: int, j: int| 0 <= i < j < actions.len() && actions[i] is Finish ==> actions[j] is Ignore,
{
    let n = actions.len() as int;
    assert forall|i: int| 0 <= i <= n implies #[trigger] done[i] == rounds_ended(actions.take(i)) by {
        lemma_leading_counts(total, done, phases, actions, i);
    }
    assert forall|i: int| 0 <= i <= n implies #[trigger] rounds_ended(actions.take(i)) <= total by {
        lemma_leading_counts(total, done, phases, actions, i);
        if i > 0 {
            let k = i - 1;
            assert(lead_step(total, done[k], phases[k], actions[k], done[k + 1], phases[k + 1]));
        }
    }
    assert forall|i: int| 0 <= i < n && #[trigger] actions[i] is Finish implies rounds_ended(actions.take(i)) == total by {
        lemma_leading_counts(total, done, phases, actions, i);
        assert(lead_step(total, done[i], phases[i], actions[i], done[i + 1], phases[i + 1]));
    }
    assert forall|i: int, j: int| 0 <= i < j < n && actions[i] is Finish implies actions[j] is Ignore by {
        assert(lead_step(total, done[i], phases[i], actions[i], done[i + 1], phases[i + 1]));
        lemma_leading_stays_over(total, done, phases, actions, i + 1, j);
    }
}

/// The count of questions done before step `i` is the number of questions
/// the earlier steps ended.
proof fn lemma_leading_counts<T>(total: nat, done: Seq<nat>, phases: Seq<LeadPhase>, actions: Seq<LeadAction<T>>, i: int)
    requires
        done.len() == actions.len() + 1,
        phases.len() == actions.len() + 1,
        done[0] == 0,
        forall|k: int| 0 <= k < actions.len() ==> #[trigger] lead_step(total, done[k], phases[k], actions[k], done[k + 1], phases[k + 1]),
        0 <= i <= actions.len(),
    ensures
        done[i] == rounds_ended(actions.take(i)),
    decreases i,
{
    if i == 0 {
        assert(actions.take(0) =~= Seq::<LeadAction<T>>::empty());
    } else {
        lemma_leading_counts(total, done, phases, actions, i - 1);
        let k = i - 1;
        assert(lead_step(total, done[k], phases[k], actions[k], done[k + 1], phases[k + 1]));
        assert(actions.take(i).drop_last() =~= actions.take(i - 1));
        assert(actions.take(i).last() == actions[i - 1]);
    }
}

/// The decimal texts of the numbers `xs`.
pub open spec fn number_texts(xs: Seq<i32>) -> Seq<Seq<char>> {
    xs.map_values(|x: i32| int_text(x as int))
}

/// The left operand of an operation.
pub open spec fn left_of<T>(e: Expression<T>) -> Expression<T> {
    match e {
        Expression::Branch { a, .. } => *a,
        Expression::Leaf(_) => e,
    }
}

/// The right operand of an operation.
pub open spec fn right_of<T>(e: Expression<T>) -> Expression<T> {
    match e {
        Expression::Branch { b, .. } => *b,
        Expression::Leaf(_) => e,
    }
}

/// An expression has as many numbers as `leaf_count` says.
proof fn lemma_leaves_counted<T>(e: Expression<T>)
    ensures
        leaves(e).len() == leaf_count(e),
    decreases e,
{
    match e {
        Expression::Leaf(_) => {},
        Expression::Branch { .. } => {
            lemma_leaves_counted(left_of(e));
            lemma_leaves_counted(right_of(e));
        },
    }
}

/// The text of an integer expression is its layout with the decimal texts
/// of its numbers.
pub proof fn lemma_integer_text_laid_out(e: Expression<i32>)
    ensures
        expression_text(e) == laid_out(e, number_texts(leaves(e))),
    decreases e,
{
    match e {
        Expression::Leaf(_) => {},
        Expression::Branch { .. } => {
            let a = left_of(e);
            let b = right_of(e);
            lemma_integer_text_laid_out(a);
            lemma_integer_text_laid_out(b);
            lemma_leaves_counted(a);
            let n = leaf_count(a) as int;
            assert(number_texts(leaves(e)).take(n) =~= number_texts(leaves(a)));
            assert(number_texts(leaves(e)).skip(n) =~= number_texts(leaves(b)));
        },
    }
}

/// While a question runs, the time left never grows from one step to a
/// later one.
proof fn lemma_clock_never_grows<T>(limit: int, phases: Seq<LeadPhase>, times: Seq<int>, actions: Seq<LeadAction<T>>, a: int, b: int)
    requires
        phases.len() == actions.len() + 1,
        times.len() == actions.len() + 1,
        forall|i: int| 0 <= i < actions.len() ==> #[trigger] lead_clock(limit, phases[i], times[i], actions[i], phases[i + 1], times[i + 1]),
        1 <= a <= b <= actions.len(),
        forall|k: int| a <= k <= b ==> #[trigger] phases[k] is Running,
    ensures
        times[b] <= times[a],
    decreases b - a,
{
    if a < b {
        let k = b - 1;
        assert(phases[k] is Running);
        assert(phases[k + 1] is Running);
        assert(lead_clock(limit, phases[k], times[k], actions[k], phases[k + 1], times[k + 1]));
        let j = k - 1;
        assert(lead_clock(limit, phases[j], times[j], actions[j], phases[j + 1], times[j + 1]));
        lemma_clock_never_grows(limit, phases, times, actions, a, k);
    }
}

/// Over any run of the leading of a quiz with the time limit `limit` from
/// its start (`actions` the actions of its steps in order, `phases` and
/// `times` where it stood and the time left before each step and after the
/// last): every time told is below the limit, and within one question,
/// while the leading runs throughout, the times told strictly decrease.
pub proof fn lemma_leading_clock_run<T>(limit: int, phases: Seq<LeadPhase>, times: Seq<int>, actions: Seq<LeadAction<T>>)
    requires
        phases.len() == actions.len() + 1,
        times.len() == actions.len() + 1,
        phases[0] is Between,
        forall|i: int| 0 <= i < actions.len() ==> #[trigger] lead_clock(limit, phases[i], times[i], actions[i], phases[i + 1], times[i + 1]),
    ensures
        forall|i: int| 0 <= i < actions.len() && #[trigger] time_told(actions[i]) is Some ==> 0 <= time_told(actions[i])->Some_0 < limit,
        forall|i: int, j: int|
            0 <= i < j < actions.len() && time_told(actions[i]) is Some && time_told(actions[j]) is Some
                && (forall|k: int| i <= k <= j ==> #[trigger] phases[k] is Running)
                ==> time_told(actions[j])->Some_0 < time_told(actions[i])->Some_0,
{
    let n = actions.len() as int;
    assert forall|i: int| 0 <= i < n && #[trigger] time_told(actions[i]) is Some implies 0 <= time_told(actions[i])->Some_0 < limit by {
        assert(lead_clock(limit, phases[i], times[i], actions[i], phases[i + 1], times[i + 1]));
        let k = i - 1;
        assert(lead_clock(limit, phases[k], times[k], actions[k], phases[k + 1], times[k + 1]));
    }
    assert forall|i: int, j: int|
        0 <= i < j < n && time_told(actions[i]) is Some && time_told(actions[j]) is Some
            && (forall|k: int| i <= k <= j ==> #[trigger] phases[k] is Running)
        implies time_told(actions[j])->Some_0 < time_told(actions[i])->Some_0 by {
        assert(phases[i] is Running);
        assert(phases[i + 1] is Running);
        assert(phases[j] is Running);
        assert(lead_clock(limit, phases[i], times[i], actions[i], phases[i + 1], times[i + 1]));
        assert(lead_clock(limit, phases[j], times[j], actions[j], phases[j + 1], times[j + 1]));
        let k = j - 1;
        assert(lead_clock(limit, phases[k], times[k], actions[k], phases[k + 1], times[k + 1]));
        assert(!(actions[i] is Ignore));
        assert forall|m: int| i + 1 <= m <= j implies #[trigger] phases[m] is Running by {
            assert(i <= m <= j);
        }
        lemma_clock_never_grows(limit, phases, times, actions, i + 1, j);
    }
}

/// The points of a question are shared out exactly: with `c` correct
/// answers (from one up to what a `u16` counts), each earns
/// `POINTS_PER_QUESTION` divided by `c`, rounded down; with none, there is
/// no share.
pub proof fn lemma_points_share_exact(c: nat)
    ensures
        c == 0 ==> points_share(c) is None,
        1 <= c <= u16::MAX ==> points_share(c) is Some && points_share(c)->Some_0 as int == POINTS_PER_QUESTION as int / c as int,
{
    if 1 <= c <= u16::MAX {
        assert(c as u16 == c);
    }
}

/// Every award of a question earns the points given to it, on top of the
/// score the participant had before.
pub proof fn lemma_awards_earn_the_points(
    entries: Seq<Option<ParticipantView>>,
    answers: Seq<(u128, bool)>,
    points: u16,
)
    ensures
        forall|i: int| 0 <= i < awards(entries, answers, points).len() ==> {
            &&& (#[trigger] awards(entries, answers, points)[i]).points_earned == points
            &&& awards(entries, answers, points)[i].current_score == clamped_sum(awards(entries, answers, points)[i].previous_score, points)
        },
    decreases answers.len(),
{
    if answers.len() > 0 {
        lemma_awards_earn_the_points(entries, answers.drop_last(), points);
        let before = awards(entries, answers.drop_last(), points);
        let after = awards(entries, answers, points);
        assert forall|i: int| 0 <= i < after.len() implies {
            &&& (#[trigger] after[i]).points_earned == points
            &&& after[i].current_score == clamped_sum(after[i].previous_score, points)
        } by {
            if i < before.len() {
                assert(after[i] == before[i]);
            }
        }
    }
}

/// Adding scores is exact up to `Score::MAX_SCORE` and stops there.
pub proof fn lemma_score_sum_exact(a: u16, b: u16)
    ensures
        a + b <= Score::MAX_SCORE ==> clamped_sum(a, b) == a + b,
        a + b > Score::MAX_SCORE ==> clamped_sum(a, b) == Score::MAX_SCORE,
{
}

/// Leaving out `id` keeps every other identifier: `x` is among what is
/// left exactly when it is among `ids` and is not `id`.
pub proof fn lemma_without_keeps_the_others(ids: Seq<u128>, id: u128)
    ensures
        forall|x: u128| #[trigger] without(ids, id).contains(x) <==> (ids.contains(x) && x != id),
{
    broadcast use vstd::seq_lib::group_filter_ensures, Seq::lemma_filter_contains_rev;

    assert forall|x: u128| #[trigger] without(ids, id).contains(x) <==> (ids.contains(x) && x != id) by {
        if without(ids, id).contains(x) {
            let k = choose|k: int| 0 <= k < without(ids, id).len() && without(ids, id)[k] == x;
            assert(without(ids, id)[k] != id);
        }
        if ids.contains(x) && x != id {
            let k = choose|k: int| 0 <= k < ids.len() && ids[k] == x;
            assert(ids[k] != id);
        }
    }
}

/// When a user joins a room, the members told of it are exactly those who
/// were in the room before, other than the one who joined.
pub proof fn lemma_join_tells_the_members_before(
    before: AppState,
    after: AppState,
    session_before: Session,
    session_after: Session,
    owner_id: Seq<char>,
    events: Seq<crate::session::Event>,
)
    requires
        joined(before, after, session_before, session_after, owner_id, events),
        uuid_parsed(owner_id) is Some,
        before.rooms().contains_key(uuid_parsed(owner_id)->Some_0),
        before.rooms()[uuid_parsed(owner_id)->Some_0].members().len() < crate::room::ROOM_CAPACITY,
    ensures
        events.len() == 2,
        events[1].share is Many,
        forall|x: u128| #[trigger] ids_of(events[1].share->Many_0@).contains(x) <==> (member_ids(before.rooms()[uuid_parsed(owner_id)->Some_0]).contains(x) && x != session_before.user_id@),
{
    let owner = uuid_parsed(owner_id)->Some_0;
    let user = session_before.user_id@;
    let old_ids = member_ids(before.rooms()[owner]);
    let new_ids = member_ids(after.rooms()[owner]);
    let new_members = after.rooms()[owner].members();
    assert(new_members.drop_last() == before.rooms()[owner].members());
    assert(new_ids =~= old_ids.push(user)) by {
        assert forall|i: int| 0 <= i < new_ids.len() implies new_ids[i] == old_ids.push(user)[i] by {
            if i < old_ids.len() {
                assert(new_members.drop_last()[i] == new_members[i]);
            }
        }
    }
    lemma_without_keeps_the_others(new_ids, user);
    assert forall|x: u128| old_ids.push(user).contains(x) && x != user implies old_ids.contains(x) by {
        let k = choose|k: int| 0 <= k < old_ids.push(user).len() && old_ids.push(user)[k] == x;
        assert(old_ids[k] == x);
    }
    assert forall|x: u128| old_ids.contains(x) implies old_ids.push(user).contains(x) by {
        let k = choose|k: int| 0 <= k < old_ids.len() && old_ids[k] == x;
        assert(old_ids.push(user)[k] == x);
    }
}

/// The registered members of a room leave nobody out and add nobody: every
/// registered user whose identifier is among `ids` is listed, and every one
/// listed is a registered user whose identifier is among `ids`.
pub proof fn lemma_registered_lists_every_member(ids: Seq<u128>, users: Map<u128, User>)
    ensures
        forall|x: u128| users.contains_key(x) && ids.contains(x) ==> #[trigger] registered(ids, users).contains(users[x]@),
        forall|i: int| #![trigger registered(ids, users)[i]] 0 <= i < registered(ids, users).len() ==> exists|x: u128| #![trigger users[x]] {
            &&& ids.contains(x)
            &&& users.contains_key(x)
            &&& registered(ids, users)[i] == users[x]@
        },
    decreases ids.len(),
{
    if ids.len() == 0 {
        assert(registered(ids, users).len() == 0);
    } else {
        let rest = ids.drop_last();
        let last = ids.last();
        lemma_registered_lists_every_member(rest, users);
        let prev = registered(rest, users);
        let cur = registered(ids, users);
        assert forall|x: u128| users.contains_key(x) && ids.contains(x) implies #[trigger] cur.contains(users[x]@) by {
            let k = choose|k: int| 0 <= k < ids.len() && ids[k] == x;
            if k < ids.len() - 1 {
                assert(rest[k] == x);
                assert(rest.contains(x));
                assert(prev.contains(users[x]@));
                let j = choose|j: int| 0 <= j < prev.len() && prev[j] == users[x]@;
                if cur != prev {
                    assert(cur[j] == prev[j]);
                }
            } else if rest.contains(x) {
                assert(prev.contains(users[x]@));
                let j = choose|j: int| 0 <= j < prev.len() && prev[j] == users[x]@;
                if cur != prev {
                    assert(cur[j] == prev[j]);
                }
            } else {
                assert(cur[cur.len() - 1] == users[x]@);
            }
        }
        let pushed = users.contains_key(last) && !rest.contains(last);
        assert forall|i: int| #![trigger registered(ids, users)[i]] 0 <= i < registered(ids, users).len() implies exists|x: u128| #![trigger users[x]] {
            &&& ids.contains(x)
            &&& users.contains_key(x)
            &&& registered(ids, users)[i] == users[x]@
        } by {
            if i < prev.len() {
                assert(cur[i] == prev[i]);
                assert(registered(rest, users)[i] == prev[i]);
                let x = choose|x: u128| #![trigger users[x]] {
                    &&& rest.contains(x)
                    &&& users.contains_key(x)
                    &&& registered(rest, users)[i] == users[x]@
                };
                let k = choose|k: int| 0 <= k < rest.len() && rest[k] == x;
                assert(ids[k] == x);
                assert(ids.contains(x));
                assert(ids.contains(x) && users.contains_key(x) && cur[i] == users[x]@);
            } else {
                assert(pushed);
                assert(ids[ids.len() - 1] == last);
                assert(ids.contains(last));
                assert(cur[i] == users[last]@);
                assert(ids.contains(last) && users.contains_key(last) && cur[i] == users[last]@);
            }
        }
    }
}

/// In the text of an integer operation, an operand that is itself an
/// operation stands in parentheses, whatever the other operand is: the text
/// begins with the left operand's text and ends with the right operand's
/// text, each wrapped in `(` and `)` when it is an operation.
pub proof fn lemma_operands_in_parentheses(e: Expression<i32>)
    requires
        e is Branch,
    ensures
        ({
            let t = expression_text(e);
            let at = expression_text(left_of(e));
            let bt = expression_text(right_of(e));
            &&& left_of(e) is Branch ==> t.take(at.len() + 2int) == seq!['('] + at + seq![')']
            &&& left_of(e) is Leaf ==> t.take(at.len() as int) == at
            &&& right_of(e) is Branch ==> t.skip(t.len() - (bt.len() + 2)) == seq!['('] + bt + seq![')']
            &&& right_of(e) is Leaf ==> t.skip(t.len() - bt.len()) == bt
        }),
{
    let t = expression_text(e);
    let at = expression_text(left_of(e));
    let bt = expression_text(right_of(e));
    let ap = if left_of(e) is Branch { seq!['('] + at + seq![')'] } else { at };
    let bp = if right_of(e) is Branch { seq!['('] + bt + seq![')'] } else { bt };
    let sign = crate::operation::operation_sign(e->operation);
    assert(t == ap + seq![' '] + sign + seq![' '] + bp);
    assert(t.take(ap.len() as int) =~= ap);
    assert(t.skip(t.len() - bp.len()) =~= bp);
}

/// The same holds of the text laid out from any numbers' texts: an operand
/// that is itself an operation stands in parentheses, whatever the other
/// operand is.
pub proof fn lemma_laid_out_operands_in_parentheses<T>(e: Expression<T>, texts: Seq<Seq<char>>)
    requires
        e is Branch,
    ensures
        ({
            let n = leaf_count(left_of(e)) as int;
            let t = laid_out(e, texts);
            let at = laid_out(left_of(e), texts.take(n));
            let bt = laid_out(right_of(e), texts.skip(n));
            &&& left_of(e) is Branch ==> t.take(at.len() + 2int) == seq!['('] + at + seq![')']
            &&& left_of(e) is Leaf ==> t.take(at.len() as int) == at
            &&& right_of(e) is Branch ==> t.skip(t.len() - (bt.len() + 2)) == seq!['('] + bt + seq![')']
            &&& right_of(e) is Leaf ==> t.skip(t.len() - bt.len()) == bt
        }),
{
    let n = leaf_count(left_of(e)) as int;
    let t = laid_out(e, texts);
    let at = laid_out(left_of(e), texts.take(n));
    let bt = laid_out(right_of(e), texts.skip(n));
    let ap = if left_of(e) is Branch { seq!['('] + at + seq![')'] } else { at };
    let bp = if right_of(e) is Branch { seq!['('] + bt + seq![')'] } else { bt };
    let sign = crate::operation::operation_sign(e->operation);
    assert(t == ap + seq![' '] + sign + seq![' '] + bp);
    assert(t.take(ap.len() as int) =~= ap);
    assert(t.skip(t.len() - bp.len()) =~= bp);
}

} // verus!
