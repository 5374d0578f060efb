use math_battle::ids::{QuizId, RoomId, UserId, VariantId};
use math_battle::Score;

#[test]
fn score_new_keeps_value() {
    assert_eq!(Score::new(0).value(), 0);
    assert_eq!(Score::new(250).value(), 250);
}

#[test]
fn score_addition_clamps_to_maximum() {
    assert_eq!((Score::new(30) + Score::new(40)).value(), 70);
    assert_eq!((Score::new(95) + Score::new(10)).value(), 100);
    assert_eq!((Score::new(0) + Score::new(500)).value(), 100);
    assert_eq!((Score::new(0) + Score::new(0)).value(), 0);
}

#[test]
fn score_addition_is_commutative_on_examples() {
    for (a, b) in [(3u16, 99u16), (50, 50), (0, 101), (7, 2)] {
        assert_eq!(Score::new(a) + Score::new(b), Score::new(b) + Score::new(a));
    }
}

#[test]
fn score_add_assign_matches_addition() {
    let mut s = Score::new(92);
    s.add_assign(Score::new(Score::SCORE_STEP));
    assert_eq!(s.value(), Score::MAX_SCORE);
    assert_eq!(Score::MIN_SCORE, 0);
    assert_eq!(Score::SCORE_STEP, Score::MAX_SCORE / 10);
}

#[test]
fn random_ids_are_version_seven() {
    let id = UserId::random();
    let v = id.value();
    assert_eq!((v >> 76) & 0xf, 7);
    assert_eq!((v >> 62) & 0x3, 2);
    assert_ne!(UserId::random(), UserId::random());
}

#[test]
fn id_text_is_hyphenated_lower_hex() {
    let id = QuizId::from_value(0x67e55044_10b1_426f_9247_bb680e5fe0c8);
    assert_eq!(id.to_string(), "67e55044-10b1-426f-9247-bb680e5fe0c8");
    let zero = RoomId::from_value(0);
    assert_eq!(zero.to_string(), "00000000-0000-0000-0000-000000000000");
}

#[test]
fn id_text_parses_back() {
    let id = VariantId::random();
    assert_eq!(VariantId::try_from(id.to_string().as_str()).unwrap(), id);
    assert_eq!(VariantId::from_str(id.to_string().as_str()).unwrap(), id);
    let parsed = QuizId::from_str("67E55044-10B1-426F-9247-BB680E5FE0C8").unwrap();
    assert_eq!(parsed.value(), 0x67e55044_10b1_426f_9247_bb680e5fe0c8);
}

#[test]
fn id_parse_refuses_other_texts() {
    assert!(UserId::try_from("").is_err());
    assert!(UserId::try_from("not a uuid").is_err());
    assert!(UserId::from_str("67e55044-10b1-426f-9247-bb680e5fe0c").is_err());
}
