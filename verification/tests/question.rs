use math_battle::expression::Expression;
use math_battle::ids::{QuestionId, VariantId};
use math_battle::question::VARIANTS_COUNT;
use math_battle::{Question, QuestionError};

#[test]
fn new_question_has_one_correct_variant() {
    for _ in 0..20 {
        let q: Question<i32> = Question::new(Expression::Leaf(42), [1, 2, 3, 4]);
        let variants = q.variants();
        assert_eq!(variants.len(), VARIANTS_COUNT);
        let correct: Vec<usize> = (0..4).filter(|&i| variants[i].id() == q.correct_variant_id()).collect();
        assert_eq!(correct.len(), 1);
        let c = correct[0];
        assert_eq!(variants[c].value(), 42);
        for i in 0..4 {
            assert_eq!(variants[i].question_id(), q.id());
            if i != c {
                assert_eq!(variants[i].value(), (i + 1) as i32);
            }
        }
        assert_eq!(*q.expression().result(), 42);
    }
}

#[test]
fn check_answer_tells_right_wrong_and_stale() {
    let q: Question<i32> = Question::new(Expression::Leaf(7), [0, 0, 0, 0]);
    assert_eq!(q.check_answer(q.id(), q.correct_variant_id()), Ok(true));
    assert_eq!(q.check_answer(q.id(), VariantId::random()), Ok(false));
    assert_eq!(
        q.check_answer(QuestionId::random(), q.correct_variant_id()),
        Err(QuestionError::NotRelevant)
    );
}

#[test]
fn question_clone_is_equal_in_content() {
    let q: Question<i32> = Question::new(Expression::Leaf(3), [4, 5, 6, 7]);
    let c = q.clone();
    assert_eq!(c.id(), q.id());
    assert_eq!(c.correct_variant_id(), q.correct_variant_id());
    assert_eq!(c.expression(), q.expression());
}

#[test]
fn question_with_correct_at_puts_the_result_there() {
    for at in 0..VARIANTS_COUNT {
        let q: Question<i32> = Question::with_correct_at(Expression::Leaf(42), [1, 2, 3, 4], at);
        let variants = q.variants();
        assert_eq!(variants[at].value(), 42);
        assert_eq!(variants[at].id(), q.correct_variant_id());
        for i in 0..4 {
            assert_eq!(variants[i].question_id(), q.id());
            if i != at {
                assert_eq!(variants[i].value(), (i + 1) as i32);
                assert_ne!(variants[i].id(), q.correct_variant_id());
            }
        }
    }
}
