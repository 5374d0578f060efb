use math_battle::{Leaderboard, Participant, Score, User, UserId, Username};

fn user(id: u128, name: &str) -> User {
    let mut u = User::from(UserId::from_value(id));
    u.rename(Username::new(name.to_string()).unwrap());
    u
}

#[test]
fn leaderboard_from_users_fills_slots_in_order() {
    let users = vec![user(5, "e"), user(9, "i")];
    let board: Leaderboard<4> = Leaderboard::from(&users);
    assert_eq!(board.count_of_participants(), 4);
    assert_eq!(board.score(&UserId::from_value(5)), Some(Score::new(0)));
    assert_eq!(board.score(&UserId::from_value(9)), Some(Score::new(0)));
    assert_eq!(board.score(&UserId::from_value(7)), None);
}

#[test]
fn add_score_updates_one_participant_and_clamps() {
    let users = vec![user(1, "a"), user(2, "b")];
    let mut board: Leaderboard<3> = Leaderboard::from(&users);
    assert_eq!(board.add_score(UserId::from_value(2), Score::new(60)), Some(Score::new(60)));
    assert_eq!(board.add_score(UserId::from_value(2), Score::new(60)), Some(Score::new(100)));
    assert_eq!(board.score(&UserId::from_value(1)), Some(Score::new(0)));
    assert_eq!(board.add_score(UserId::from_value(3), Score::new(1)), None);
}

#[test]
fn leaderboard_orders_by_identifier_then_name_then_points_largest_first() {
    let users = vec![user(3, "c"), user(10, "j"), user(7, "g"), user(7, "a")];
    let mut board: Leaderboard<6> = Leaderboard::from(&users);
    board.add_score(UserId::from_value(3), Score::new(90));
    let order: Vec<(u128, String, u16)> = board
        .leaderboard()
        .iter()
        .map(|p: &Participant| (p.id().value(), p.username().as_str().to_string(), p.score().value()))
        .collect();
    assert_eq!(
        order,
        vec![
            (10, "j".to_string(), 0),
            (7, "g".to_string(), 0),
            (7, "a".to_string(), 0),
            (3, "c".to_string(), 90),
        ]
    );
    assert_eq!(board.leaderboard().len(), 4);
    assert_eq!(board.score(&UserId::from_value(3)), Some(Score::new(90)));
}

#[test]
fn leaderboard_with_same_identifier_and_name_orders_by_points() {
    let users = vec![user(1, "x"), user(1, "x")];
    let mut board: Leaderboard<2> = Leaderboard::from(&users);
    board.add_score(UserId::from_value(1), Score::new(5));
    let scores: Vec<u16> = board.leaderboard().iter().map(|p| p.score().value()).collect();
    assert_eq!(scores, vec![5, 0]);
    assert_eq!(board.score(&UserId::from_value(1)), Some(Score::new(5)));
}

#[test]
fn participant_accumulates_clamped_points() {
    let mut p = Participant::new(UserId::from_value(4), Username::new("d".to_string()).unwrap());
    assert_eq!(p.score().value(), 0);
    assert_eq!(p.add_score(Score::new(70)).value(), 70);
    assert_eq!(p.add_score(Score::new(70)).value(), 100);
    assert_eq!(p.id().value(), 4);
    assert_eq!(p.username().as_str(), "d");
}

#[test]
fn member_starts_with_no_points() {
    let m = math_battle::member::Member::new(UserId::from_value(8), Username::new("h".to_string()).unwrap());
    assert_eq!(m.id().value(), 8);
    assert_eq!(m.score().value(), 0);
}
