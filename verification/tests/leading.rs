use math_battle::expression::Expression;
use math_battle::leading::{LeadAction, LeadInput, Leader};
use math_battle::{LeadingEvent, ParticipantEvent, Question, QuizConfig, QuizState, User, UserId};

fn state(ids: &[u128]) -> QuizState<i32, 8> {
    let users: Vec<User> = ids.iter().map(|&i| User::from(UserId::from_value(i))).collect();
    QuizState::new(&users, &QuizConfig::default(), Question::new(Expression::Leaf(5), [1, 2, 3, 4]))
}

fn question() -> Question<i32> {
    Question::new(Expression::Leaf(9), [1, 2, 3, 4])
}

#[test]
fn leader_runs_every_question_then_finishes() {
    let cfg = QuizConfig::default();
    let mut s = state(&[1]);
    let mut leader = Leader::new(&cfg);
    let mut rounds = 0;
    let mut sent: Vec<String> = Vec::new();
    let mut input = LeadInput::Go;
    loop {
        input = match leader.step(&mut s, input) {
            LeadAction::MakeQuestion => LeadInput::QuestionMade(question()),
            LeadAction::Wait(events) => {
                for e in &events {
                    match e {
                        LeadingEvent::QuestionReady(_) => sent.push("question".to_string()),
                        LeadingEvent::TimeUpdate(d) => sent.push(format!("time {}", d.as_secs())),
                        _ => panic!("unexpected message while waiting"),
                    }
                }
                LeadInput::SecondPassed
            }
            LeadAction::Next(events) => {
                rounds += 1;
                assert!(matches!(events.first(), Some(LeadingEvent::TimeUpdate(d)) if d.as_secs() == 0));
                assert!(matches!(events.last(), Some(LeadingEvent::LeaderboardUpdated(_))));
                assert_eq!(events.len(), 2);
                LeadInput::Go
            }
            LeadAction::Finish(event) => {
                assert!(matches!(event, LeadingEvent::Finished));
                break;
            }
            LeadAction::Ignore => panic!("step ignored"),
        };
    }
    assert_eq!(rounds, 4);
    let one_round: Vec<String> = std::iter::once("question".to_string())
        .chain((1..=14).rev().map(|t| format!("time {t}")))
        .collect();
    assert_eq!(sent.len(), 4 * one_round.len());
    assert_eq!(&sent[..one_round.len()], &one_round[..]);
    assert!(matches!(leader.step(&mut s, LeadInput::Go), LeadAction::Ignore));
    assert!(matches!(leader.step(&mut s, LeadInput::SecondPassed), LeadAction::Ignore));
}

#[test]
fn leader_ends_a_question_once_everybody_answered() {
    let cfg = QuizConfig::default();
    let mut s = state(&[1]);
    let mut leader = Leader::new(&cfg);
    assert!(matches!(leader.step(&mut s, LeadInput::Go), LeadAction::MakeQuestion));
    assert!(matches!(leader.step(&mut s, LeadInput::SecondPassed), LeadAction::Ignore));
    let q = question();
    let (qid, right) = (q.id(), q.correct_variant_id());
    match leader.step(&mut s, LeadInput::QuestionMade(q)) {
        LeadAction::Wait(events) => {
            assert_eq!(events.len(), 1);
            assert!(matches!(&events[0], LeadingEvent::QuestionReady(x) if x.id() == qid));
        }
        _ => panic!("question not announced"),
    }
    let answer = math_battle::AnswerSubmitted { user_id: UserId::from_value(1), question_id: qid, variant_id: right };
    s.handle_event(ParticipantEvent::AnswerSubmitted(answer));
    assert!(leader.question_ends_at_second(&s));
    match leader.step(&mut s, LeadInput::SecondPassed) {
        LeadAction::Next(events) => {
            assert_eq!(events.len(), 2);
            assert!(matches!(&events[0], LeadingEvent::ScoreUpdated(u) if u.points_earned.value() == 10));
            assert!(matches!(&events[1], LeadingEvent::LeaderboardUpdated(v) if v.len() == 1 && v[0].score().value() == 10));
        }
        _ => panic!("question did not end"),
    }
    assert!(matches!(leader.step(&mut s, LeadInput::Go), LeadAction::MakeQuestion));
}
