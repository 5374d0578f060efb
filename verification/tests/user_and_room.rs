use math_battle::room::ROOM_CAPACITY;
use math_battle::{Room, RoomError, User, UserError, UserId, Username, UsernameError};

#[test]
fn username_must_not_be_empty() {
    assert_eq!(Username::new(String::new()).unwrap_err(), UsernameError::Empty);
    assert_eq!(Username::new("ann".to_string()).unwrap().as_str(), "ann");
    assert_eq!(Username::new(" ".to_string()).unwrap().as_str(), " ");
}

#[test]
fn user_new_checks_the_name() {
    assert_eq!(
        User::new(String::new()).unwrap_err(),
        UserError::InvalidUsername(UsernameError::Empty)
    );
    let user = User::new("bob".to_string()).unwrap();
    assert_eq!(user.username().as_str(), "bob");
    assert_eq!((user.id().value() >> 76) & 0xf, 7);
}

#[test]
fn default_user_is_named_after_its_identifier() {
    let user = User::default();
    let text = user.id().to_string();
    assert_eq!(user.username().as_str(), format!("User #{}", &text[text.len() - 4..]));
}

#[test]
fn user_from_identifier_keeps_it() {
    let id = UserId::from_value(42);
    let user = User::from(id);
    assert_eq!(user.id(), id);
    assert!(user.username().as_str().starts_with("User #"));
    assert_eq!(user.username().as_str().len(), 10);
}

#[test]
fn rename_changes_only_the_name() {
    let mut user = User::new("a".to_string()).unwrap();
    let id = user.id();
    user.rename(Username::new("b".to_string()).unwrap());
    assert_eq!(user.id(), id);
    assert_eq!(user.username().as_str(), "b");
}

#[test]
fn room_refuses_members_beyond_capacity() {
    let mut room = Room::new();
    assert!(room.is_empty());
    for i in 0..ROOM_CAPACITY {
        assert_eq!(room.count(), i);
        room.add_member(User::from(UserId::from_value(i as u128))).unwrap();
    }
    assert_eq!(room.count(), ROOM_CAPACITY);
    assert_eq!(room.add_member(User::default()), Err(RoomError::Crowded));
    assert_eq!(room.count(), ROOM_CAPACITY);
}

#[test]
fn room_removes_the_first_matching_member() {
    let mut room = Room::default();
    let a = UserId::from_value(1);
    let b = UserId::from_value(2);
    room.add_member(User::from(a)).unwrap();
    room.add_member(User::from(b)).unwrap();
    room.add_member(User::from(a)).unwrap();
    room.remove_member(a);
    assert_eq!(room.members_ids(), vec![b, a]);
    room.remove_member(UserId::from_value(3));
    assert_eq!(room.members_ids(), vec![b, a]);
    room.remove_member(b);
    room.remove_member(a);
    assert!(room.is_empty());
    assert_eq!(room.count(), 0);
}
