use math_battle::state::{AppStateError, QuizRegistry};
use math_battle::UserId;

#[test]
fn registry_creates_one_quiz_per_owner() {
    let owner = UserId::random();
    let mut quizzes: QuizRegistry<u32> = QuizRegistry::new();
    assert_eq!(quizzes.create_quiz(owner, || 7), owner);
    assert_eq!(quizzes.len(), 1);
    let mut called = false;
    assert_eq!(
        quizzes.create_quiz(owner, || {
            called = true;
            9
        }),
        owner
    );
    assert!(!called);
    assert_eq!(quizzes.len(), 1);
    assert_eq!(quizzes.get_quiz(&owner), Ok(&7));
}

#[test]
fn registry_reports_missing_quiz() {
    let mut quizzes: QuizRegistry<u32> = QuizRegistry::new();
    let owner = UserId::random();
    assert!(matches!(quizzes.get_quiz(&owner), Err(AppStateError::QuizNotFound)));
    assert!(matches!(quizzes.take_quiz(&owner), Err(AppStateError::QuizNotFound)));
    assert_eq!(quizzes.len(), 0);
}

#[test]
fn registry_take_put_remove() {
    let a = UserId::random();
    let b = UserId::random();
    let mut quizzes: QuizRegistry<u32> = QuizRegistry::new();
    quizzes.create_quiz(a, || 1);
    quizzes.create_quiz(b, || 2);
    assert_eq!(quizzes.take_quiz(&a), Ok(1));
    assert_eq!(quizzes.len(), 1);
    assert!(matches!(quizzes.get_quiz(&a), Err(AppStateError::QuizNotFound)));
    quizzes.put_quiz(a, 5);
    assert_eq!(quizzes.get_quiz(&a), Ok(&5));
    quizzes.remove_quiz(&b);
    assert_eq!(quizzes.len(), 1);
    assert!(matches!(quizzes.get_quiz(&b), Err(AppStateError::QuizNotFound)));
    quizzes.remove_quiz(&b);
    assert_eq!(quizzes.len(), 1);
}
