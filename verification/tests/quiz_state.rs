use math_battle::duration::Duration;
use math_battle::expression::Expression;
use math_battle::ids::{QuestionId, VariantId};
use math_battle::question::QuestionError;
use math_battle::{
    AnswerOutcome, AnswerSubmitted, LeadingEvent, ParticipantEvent, Question, QuizConfig,
    QuizError, QuizState, User, UserId,
};

fn users(ids: &[u128]) -> Vec<User> {
    ids.iter().map(|&i| User::from(UserId::from_value(i))).collect()
}

fn question() -> Question<i32> {
    Question::new(Expression::Leaf(5), [1, 2, 3, 4])
}

fn state(ids: &[u128]) -> QuizState<i32, 8> {
    QuizState::new(&users(ids), &QuizConfig::default(), question())
}

fn answer(s: &QuizState<i32, 8>, user: u128, right: bool) -> AnswerSubmitted {
    let q = s.question();
    AnswerSubmitted {
        user_id: UserId::from_value(user),
        question_id: q.id(),
        variant_id: if right { q.correct_variant_id() } else { VariantId::random() },
    }
}

#[test]
fn quiz_config_default() {
    let cfg = QuizConfig::default();
    assert_eq!(cfg.questions_total(), 4);
    assert_eq!(cfg.time_limit().duration().as_secs(), 15);
    assert_eq!(cfg.complexity(), math_battle::Complexity::Medium);
    assert_eq!(cfg.operations().len(), 4);
}

#[test]
fn new_state_starts_empty_with_whole_time() {
    let s = state(&[1, 2, 2, 3]);
    assert_eq!(s.answers_total(), 0);
    assert_eq!(s.participants_count(), 3);
    assert_eq!(s.remaining_time().as_secs(), 15);
}

#[test]
fn answers_are_checked_once() {
    let mut s = state(&[1, 2]);
    let ok = s.check_answer(answer(&s, 1, true)).unwrap();
    assert!(ok.is_correct);
    assert_eq!(ok.user_id, UserId::from_value(1));
    assert_eq!(ok.correct_variant_id, s.question().correct_variant_id());
    assert_eq!(
        s.check_answer(answer(&s, 1, false)).unwrap_err(),
        QuizError::AlreadyAnswered
    );
    let mut stale = answer(&s, 2, true);
    stale.question_id = QuestionId::random();
    assert_eq!(
        s.check_answer(stale).unwrap_err(),
        QuizError::Question(QuestionError::NotRelevant)
    );
    assert!(!s.check_answer(answer(&s, 2, false)).unwrap().is_correct);
    assert_eq!(s.answers_total(), 2);
    assert!(s.is_all_answered());
}

#[test]
fn correct_answers_share_the_points() {
    let mut s = state(&[1, 2, 3]);
    s.check_answer(answer(&s, 2, true)).unwrap();
    s.check_answer(answer(&s, 1, false)).unwrap();
    s.check_answer(answer(&s, 3, true)).unwrap();
    assert!(s.is_rewardable());
    let awards = s.update_leaderboard();
    let summary: Vec<(u128, u16, u16, u16)> = awards
        .iter()
        .map(|a| (a.user_id.value(), a.previous_score.value(), a.current_score.value(), a.points_earned.value()))
        .collect();
    assert_eq!(summary, vec![(2, 0, 5, 5), (3, 0, 5, 5)]);
    let board = s.leaderboard();
    let scores: Vec<(u128, u16)> = board.iter().map(|p| (p.id().value(), p.score().value())).collect();
    assert_eq!(scores, vec![(3, 5), (2, 5), (1, 0)]);
}

#[test]
fn three_correct_answers_earn_three_points_each() {
    let mut s = state(&[1, 2, 3]);
    for u in [1, 2, 3] {
        s.check_answer(answer(&s, u, true)).unwrap();
    }
    let awards = s.update_leaderboard();
    assert!(awards.iter().all(|a| a.points_earned.value() == 3));
    assert_eq!(awards.len(), 3);
}

#[test]
fn no_correct_answer_awards_nothing() {
    let mut s = state(&[1, 2]);
    s.check_answer(answer(&s, 1, false)).unwrap();
    assert!(s.update_leaderboard().is_empty());
    assert!(state(&[4]).update_leaderboard().is_empty());
}

#[test]
fn answer_of_a_stranger_is_not_rewardable() {
    let mut s = state(&[1]);
    s.participant_returned(UserId::from_value(9));
    s.check_answer(answer(&s, 9, true)).unwrap();
    assert!(!s.is_rewardable());
}

#[test]
fn participants_return_and_leave() {
    let mut s = state(&[1, 2]);
    s.participant_returned(UserId::from_value(2));
    assert_eq!(s.participants_count(), 2);
    s.participant_returned(UserId::from_value(5));
    assert_eq!(s.participants_count(), 3);
    assert_eq!(s.participant_left(&UserId::from_value(1)), 2);
    assert_eq!(s.participant_left(&UserId::from_value(1)), 2);
}

#[test]
fn new_question_clears_answers() {
    let mut s = state(&[1]);
    s.check_answer(answer(&s, 1, true)).unwrap();
    let next = question();
    let next_id = next.id();
    s.update_question(next);
    assert_eq!(s.answers_total(), 0);
    assert_eq!(s.question().id(), next_id);
    s.update_remaining_time(Duration::from_secs(4));
    assert_eq!(s.remaining_time().as_secs(), 4);
}

#[test]
fn handle_event_answers_requests() {
    let mut s = state(&[1, 2]);
    let out = s.handle_event(ParticipantEvent::QuestionRequested);
    assert!(matches!(&out[..], [LeadingEvent::QuestionReady(q)] if q.id() == s.question().id()));
    let out = s.handle_event(ParticipantEvent::TimeRequested);
    assert!(matches!(&out[..], [LeadingEvent::TimeUpdate(d)] if d.as_secs() == 15));
    let out = s.handle_event(ParticipantEvent::LeaderboardRequested);
    assert!(matches!(&out[..], [LeadingEvent::LeaderboardUpdated(v)] if v.len() == 2));

    let stranger = answer(&s, 7, true);
    assert!(s.handle_event(ParticipantEvent::AnswerSubmitted(stranger)).is_empty());

    let out = s.handle_event(ParticipantEvent::AnswerSubmitted(answer(&s, 1, true)));
    assert!(matches!(&out[..], [LeadingEvent::AnswerOutcome(AnswerOutcome::AnswerEvaluated(e))] if e.is_correct));
    let out = s.handle_event(ParticipantEvent::AnswerSubmitted(answer(&s, 1, true)));
    assert!(matches!(&out[..], [LeadingEvent::AnswerOutcome(AnswerOutcome::AlreadyAnswered(u))] if u.value() == 1));
    let mut stale = answer(&s, 2, true);
    stale.question_id = QuestionId::random();
    let out = s.handle_event(ParticipantEvent::AnswerSubmitted(stale));
    assert!(matches!(&out[..], [LeadingEvent::AnswerOutcome(AnswerOutcome::NotRelevant(u))] if u.value() == 2));
}

#[test]
fn last_leave_finishes_the_quiz() {
    let mut s = state(&[1, 2]);
    let out = s.handle_event(ParticipantEvent::ParticipantLeft(UserId::from_value(1)));
    assert!(matches!(&out[..], [LeadingEvent::ParticipantLeft(u)] if u.value() == 1));
    let out = s.handle_event(ParticipantEvent::ParticipantReturned(UserId::from_value(1)));
    assert!(matches!(&out[..], [LeadingEvent::ParticipantReturned(u)] if u.value() == 1));
    s.handle_event(ParticipantEvent::ParticipantLeft(UserId::from_value(2)));
    let out = s.handle_event(ParticipantEvent::ParticipantLeft(UserId::from_value(1)));
    assert!(matches!(&out[..], [LeadingEvent::ParticipantLeft(_), LeadingEvent::Finished]));
}

#[test]
fn rounds_start_tick_and_end() {
    let mut s = state(&[1, 2]);
    let q = question();
    let id = q.id();
    assert!(matches!(s.start_round(q), LeadingEvent::QuestionReady(q) if q.id() == id));
    let out = s.time_passed(Duration::from_secs(14));
    assert!(matches!(out, Some(LeadingEvent::TimeUpdate(d)) if d.as_secs() == 14));
    assert_eq!(s.remaining_time().as_secs(), 14);
    s.check_answer(answer(&s, 1, true)).unwrap();
    s.check_answer(answer(&s, 2, false)).unwrap();
    assert!(s.time_passed(Duration::from_secs(13)).is_none());
    assert_eq!(s.remaining_time().as_secs(), 14);
    let out = s.end_round();
    assert_eq!(out.len(), 2);
    assert!(matches!(&out[0], LeadingEvent::ScoreUpdated(u) if u.current_score.value() == 10));
    assert!(matches!(&out[1], LeadingEvent::LeaderboardUpdated(v) if v.len() == 2));
}

#[test]
fn time_stops_when_nobody_takes_part() {
    let mut s = state(&[1]);
    s.participant_left(&UserId::from_value(1));
    assert!(s.time_passed(Duration::from_secs(3)).is_none());
}
