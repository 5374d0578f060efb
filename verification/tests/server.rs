use math_battle::dto::{as_user_dto, MessageKind, ResponseData, ResponseError};
use math_battle::expression::Expression;
use math_battle::ids::QuestionId;
use math_battle::session::{self, EventShare, Forward, Forwarder, QuizStart, Session};
use math_battle::state::{AppState, AppStateError, QuizRegistry};
use math_battle::{
    AnswerOutcome, LeadingEvent, ParticipantEvent, Participant, Question, QuizError, RoomError,
    User, UserId, Username,
};

fn named(id: u128, name: &str) -> User {
    let mut u = User::from(UserId::from_value(id));
    u.rename(Username::new(name.to_string()).unwrap());
    u
}

fn session(user: u128, room: Option<u128>) -> Session {
    Session { user_id: UserId::from_value(user), room_id: room.map(UserId::from_value) }
}

fn error_code(e: &session::Event) -> Option<String> {
    e.response.error.as_ref().map(|err| err.code().to_string())
}

fn single_recipient(e: &session::Event) -> Option<u128> {
    match &e.share {
        EventShare::One(u) => Some(u.value()),
        EventShare::Many(_) => None,
    }
}

fn recipients(e: &session::Event) -> Vec<u128> {
    match &e.share {
        EventShare::One(u) => vec![u.value()],
        EventShare::Many(v) => v.iter().map(|u| u.value()).collect(),
    }
}

#[test]
fn response_error_codes() {
    assert_eq!(ResponseError::invalid_id().code(), "INVALID_ID");
    assert_eq!(ResponseError::invalid_username().code(), "INVALID_USERNAME");
    assert_eq!(ResponseError::not_found().code(), "NOT_FOUND");
    assert_eq!(ResponseError::crowded().code(), "CROWDED");
    assert_eq!(ResponseError::not_relevant().code(), "NOT_RELEVANT");
    assert_eq!(ResponseError::already_exists().code(), "ALREADY_EXISTS");
}

#[test]
fn user_dto_carries_id_text_and_name() {
    let dto = as_user_dto(named(0xabcd, "zoe"));
    assert_eq!(dto.id, "00000000-0000-0000-0000-00000000abcd");
    assert_eq!(dto.username, "zoe");
}

#[test]
fn registry_of_users() {
    let mut state = AppState::new();
    let id = state.add_user(named(1, "a"));
    assert_eq!(id.value(), 1);
    assert_eq!(state.get_user(&id).unwrap().username().as_str(), "a");
    state.rename_user(&id, Username::new("b".to_string()).unwrap());
    assert_eq!(state.get_user(&id).unwrap().username().as_str(), "b");
    state.remove_user(&id);
    assert!(state.get_user(&id).is_none());
}

#[test]
fn rooms_are_created_joined_and_left() {
    let mut state = AppState::new();
    let owner = UserId::from_value(1);
    assert_eq!(state.get_room_member_ids(&owner).unwrap_err(), AppStateError::RoomNotFound);
    assert_eq!(state.create_room(owner), owner);
    assert!(state.get_room_member_ids(&owner).unwrap().is_empty());
    state.join_room(&owner, UserId::from_value(2)).unwrap();
    state.join_room(&owner, UserId::from_value(3)).unwrap();
    assert_eq!(state.create_room(owner), owner);
    assert_eq!(state.get_room_member_ids(&owner).unwrap().len(), 2);
    assert_eq!(
        state.join_room(&UserId::from_value(9), UserId::from_value(2)).unwrap_err(),
        AppStateError::RoomNotFound
    );
    state.leave_room(&owner, &UserId::from_value(2)).unwrap();
    assert_eq!(state.get_room_member_ids(&owner).unwrap(), vec![UserId::from_value(3)]);
    state.leave_room(&owner, &UserId::from_value(3)).unwrap();
    assert_eq!(state.get_room_member_ids(&owner).unwrap_err(), AppStateError::RoomNotFound);
    assert_eq!(state.leave_room(&owner, &UserId::from_value(3)).unwrap_err(), AppStateError::RoomNotFound);
}

#[test]
fn full_room_refuses() {
    let mut state = AppState::new();
    let owner = UserId::from_value(1);
    state.create_room(owner);
    for i in 0..50u128 {
        state.join_room(&owner, UserId::from_value(100 + i)).unwrap();
    }
    assert_eq!(
        state.join_room(&owner, UserId::from_value(7)).unwrap_err(),
        AppStateError::Room(RoomError::Crowded)
    );
}

#[test]
fn room_members_are_the_registered_ones_once() {
    let mut state = AppState::new();
    state.add_user(named(2, "b"));
    state.add_user(named(3, "c"));
    let owner = UserId::from_value(1);
    state.create_room(owner);
    for id in [3u128, 4, 2, 3] {
        state.join_room(&owner, UserId::from_value(id)).unwrap();
    }
    let names: Vec<String> = state
        .get_room_members(&owner)
        .unwrap()
        .iter()
        .map(|u| u.username().as_str().to_string())
        .collect();
    assert_eq!(names, vec!["c", "b"]);
}

#[test]
fn room_join_handler_tells_user_and_members() {
    let mut state = AppState::new();
    state.add_user(named(1, "owner"));
    state.add_user(named(2, "guest"));
    let owner = UserId::from_value(1);
    let mut owner_session = session(1, None);
    let created = session::room_create(&mut state, &owner_session);
    assert_eq!(created[0].response.kind, MessageKind::RoomCreate);
    assert_eq!(
        created[0].response.data,
        Some(ResponseData::RoomCreated { room_id: owner.to_string() })
    );
    let joined = session::room_join(&mut state, &mut owner_session, owner.to_string());
    assert_eq!(joined.len(), 2);
    assert_eq!(owner_session.room_id, Some(owner));

    let mut guest = session(2, None);
    let out = session::room_join(&mut state, &mut guest, owner.to_string());
    assert_eq!(guest.room_id, Some(owner));
    assert_eq!(out[0].response.kind, MessageKind::RoomJoin);
    assert_eq!(single_recipient(&out[0]), Some(2));
    assert_eq!(out[1].response.kind, MessageKind::RoomMemberJoined);
    assert_eq!(recipients(&out[1]), vec![1]);
    match &out[1].response.data {
        Some(ResponseData::RoomMemberJoined { member }) => assert_eq!(member.username, "guest"),
        other => panic!("unexpected {other:?}"),
    }
}

#[test]
fn room_join_handler_failures() {
    let mut state = AppState::new();
    state.add_user(named(2, "guest"));
    let mut guest = session(2, None);
    let out = session::room_join(&mut state, &mut guest, "nonsense".to_string());
    assert_eq!(error_code(&out[0]).as_deref(), Some("INVALID_ID"));
    let out = session::room_join(&mut state, &mut guest, UserId::from_value(5).to_string());
    assert_eq!(error_code(&out[0]).as_deref(), Some("NOT_FOUND"));
    assert_eq!(guest.room_id, None);
    let owner = UserId::from_value(5);
    state.create_room(owner);
    for i in 0..50u128 {
        state.join_room(&owner, UserId::from_value(100 + i)).unwrap();
    }
    let out = session::room_join(&mut state, &mut guest, owner.to_string());
    assert_eq!(error_code(&out[0]).as_deref(), Some("CROWDED"));
    assert_eq!(out[0].response.kind, MessageKind::RoomJoin);
}

#[test]
fn members_list_leave_and_rename() {
    let mut state = AppState::new();
    state.add_user(named(1, "o"));
    state.add_user(named(2, "g"));
    let owner = UserId::from_value(1);
    state.create_room(owner);
    let mut o = session(1, None);
    let mut g = session(2, None);
    session::room_join(&mut state, &mut o, owner.to_string());
    session::room_join(&mut state, &mut g, owner.to_string());

    let list = session::room_members_list(&state, &g);
    match &list[0].response.data {
        Some(ResponseData::RoomMembersList { members }) => {
            let names: Vec<&str> = members.iter().map(|m| m.username.as_str()).collect();
            assert_eq!(names, vec!["o", "g"]);
        }
        other => panic!("unexpected {other:?}"),
    }
    let none = session::room_members_list(&state, &session(3, None));
    assert_eq!(error_code(&none[0]).as_deref(), Some("NOT_FOUND"));

    let out = session::username_updated(&mut state, &g, String::new());
    assert_eq!(error_code(&out[0]).as_deref(), Some("INVALID_USERNAME"));
    let out = session::username_updated(&mut state, &g, "gg".to_string());
    assert_eq!(recipients(&out[0]), vec![1, 2]);
    assert_eq!(state.get_user(&UserId::from_value(2)).unwrap().username().as_str(), "gg");

    let out = session::room_leave(&mut state, &mut g);
    assert_eq!(g.room_id, None);
    assert_eq!(out.len(), 2);
    assert_eq!(out[1].response.kind, MessageKind::RoomMemberLeaved);
    assert_eq!(recipients(&out[1]), vec![1, 2]);
    let out = session::room_leave(&mut state, &mut g);
    assert_eq!(error_code(&out[0]).as_deref(), Some("NOT_FOUND"));

    let me = session::user(&state, &o);
    assert_eq!(
        me[0].response.data,
        Some(ResponseData::User { user_id: owner.to_string(), username: "o".to_string() })
    );
    assert!(session::user(&state, &session(9, None)).is_empty());
}

#[test]
fn quiz_requests_need_a_room() {
    let lost = session(1, None);
    assert_eq!(error_code(&session::quiz_question(&lost).unwrap_err()).as_deref(), Some("NOT_FOUND"));
    assert_eq!(session::quiz_timer(&lost).unwrap_err().response.kind, MessageKind::QuizTimer);
    assert_eq!(session::quiz_leaderboard(&lost).unwrap_err().response.kind, MessageKind::QuizLeaderboard);
    assert_eq!(session::quiz_leave(&lost).unwrap_err().response.kind, MessageKind::QuizStart);
    let s = session(1, Some(4));
    assert!(matches!(session::quiz_question(&s), Ok((o, ParticipantEvent::QuestionRequested)) if o.value() == 4));
    assert!(matches!(session::quiz_leave(&s), Ok((_, ParticipantEvent::ParticipantLeft(u))) if u.value() == 1));
}

#[test]
fn quiz_check_parses_identifiers() {
    let s = session(1, Some(4));
    let q = QuestionId::random();
    let out = session::quiz_check(&s, "x".to_string(), q.to_string()).unwrap_err();
    assert_eq!(error_code(&out).as_deref(), Some("INVALID_ID"));
    let out = session::quiz_check(&s, q.to_string(), "y".to_string()).unwrap_err();
    assert_eq!(error_code(&out).as_deref(), Some("NOT_FOUND"));
    let v = UserId::random().to_string();
    match session::quiz_check(&s, q.to_string(), v.clone()) {
        Ok((owner, ParticipantEvent::AnswerSubmitted(a))) => {
            assert_eq!(owner.value(), 4);
            assert_eq!(a.question_id, q);
            assert_eq!(a.variant_id.to_string(), v);
        }
        _ => panic!("answer not passed on"),
    }
}

#[test]
fn start_quiz_decisions() {
    let mut state = AppState::new();
    let mut quizzes: QuizRegistry<u32> = QuizRegistry::new();
    let owner = UserId::from_value(1);
    match session::start_quiz(&state, &mut quizzes, &session(1, None), || 7) {
        QuizStart::Refused(e) => assert_eq!(error_code(&e).as_deref(), Some("NOT_FOUND")),
        _ => panic!("started without a room"),
    }
    match session::start_quiz(&state, &mut quizzes, &session(1, Some(1)), || 7) {
        QuizStart::Refused(e) => assert_eq!(error_code(&e).as_deref(), Some("NOT_FOUND")),
        _ => panic!("started in a missing room"),
    }
    assert_eq!(quizzes.len(), 0);
    state.create_room(owner);
    state.join_room(&owner, UserId::from_value(2)).unwrap();
    match session::start_quiz(&state, &mut quizzes, &session(1, Some(1)), || 7) {
        QuizStart::Started { owner_id, members_ids, announce, first } => {
            assert_eq!(owner_id, owner);
            assert_eq!(members_ids, vec![UserId::from_value(2)]);
            assert_eq!(announce.response.kind, MessageKind::QuizStart);
            assert_eq!(announce.response.data, Some(ResponseData::QuizStart { quiz_id: owner.to_string() }));
            assert_eq!(recipients(&announce), vec![2]);
            assert!(matches!(first, ParticipantEvent::QuestionRequested));
        }
        QuizStart::Refused(_) => panic!("quiz not started"),
    }
    assert!(quizzes.is_started(&owner));
    assert_eq!(quizzes.get_quiz(&owner), Ok(&7));
    match session::start_quiz(&state, &mut quizzes, &session(2, Some(1)), || 9) {
        QuizStart::Refused(e) => {
            assert_eq!(error_code(&e).as_deref(), Some("ALREADY_EXISTS"));
            assert_eq!(single_recipient(&e), Some(2));
        }
        _ => panic!("quiz started twice"),
    }
    assert_eq!(quizzes.get_quiz(&owner), Ok(&7));
    assert_eq!(quizzes.len(), 1);
    let failed = session::quiz_start_failed(&session(1, Some(1)), AppStateError::Quiz(QuizError::AlreadyStarted));
    assert_eq!(error_code(&failed).as_deref(), Some("ALREADY_EXISTS"));
    let failed = session::quiz_start_failed(&session(1, Some(1)), AppStateError::QuizNotFound);
    assert_eq!(error_code(&failed).as_deref(), Some("NOT_FOUND"));
}

#[test]
fn forwarder_stops_after_the_end() {
    let owner = UserId::from_value(1);
    let members = vec![UserId::from_value(1), UserId::from_value(2)];
    let mut quizzes: QuizRegistry<u32> = QuizRegistry::new();
    quizzes.create_quiz(owner, || 3);
    quizzes.mark_started(&owner);
    let mut forwarder = Forwarder::new(owner, members);
    let outcome = LeadingEvent::<i32>::AnswerOutcome(AnswerOutcome::NotRelevant(UserId::from_value(2)));
    match forwarder.step(outcome, &mut quizzes) {
        Forward::Send(e) => {
            assert_eq!(error_code(&e).as_deref(), Some("NOT_RELEVANT"));
            assert_eq!(single_recipient(&e), Some(2));
        }
        _ => panic!("outcome not sent"),
    }
    assert_eq!(quizzes.len(), 1);
    match forwarder.step(LeadingEvent::<i32>::Finished, &mut quizzes) {
        Forward::Finish(e) => {
            assert_eq!(e.response.kind, MessageKind::QuizFinished);
            assert_eq!(recipients(&e), vec![1, 2]);
        }
        _ => panic!("end not sent"),
    }
    assert_eq!(quizzes.len(), 0);
    assert!(!quizzes.is_started(&owner));
    let late = LeadingEvent::<i32>::AnswerOutcome(AnswerOutcome::NotRelevant(UserId::from_value(2)));
    assert!(matches!(forwarder.step(late, &mut quizzes), Forward::Skip));
    assert!(matches!(forwarder.step(LeadingEvent::<i32>::Finished, &mut quizzes), Forward::Skip));
}

#[test]
fn room_join_checked_refuses_unregistered_joiner() {
    let mut state = AppState::new();
    let owner = UserId::from_value(1);
    state.create_room(owner);
    let mut stranger = session(9, None);
    assert!(session::room_join_checked(&mut state, &mut stranger, owner.to_string()).is_none());
    assert_eq!(stranger.room_id, None);
    assert_eq!(state.get_room_member_ids(&owner), Ok(vec![]));
    let events = session::room_join_checked(&mut state, &mut stranger, "not a uuid".to_string()).unwrap();
    assert_eq!(error_code(&events[0]).as_deref(), Some("INVALID_ID"));
    let other = UserId::from_value(5).to_string();
    let events = session::room_join_checked(&mut state, &mut stranger, other).unwrap();
    assert_eq!(error_code(&events[0]).as_deref(), Some("NOT_FOUND"));
    let id = state.add_user(named(9, "nine"));
    let mut joiner = session(id.value(), None);
    let events = session::room_join_checked(&mut state, &mut joiner, owner.to_string()).unwrap();
    assert_eq!(events.len(), 2);
    assert_eq!(joiner.room_id, Some(owner));
}

#[test]
fn quiz_messages_are_forwarded() {
    let members = vec![UserId::from_value(1), UserId::from_value(2)];
    let f = session::forward::<i32>(LeadingEvent::TimeUpdate(math_battle::duration::Duration::new(12, 900_000_000)), members.clone());
    match f {
        Forward::Send(e) => {
            assert_eq!(e.response.data, Some(ResponseData::QuizTimer { remaining_secs: 12 }));
            assert_eq!(recipients(&e), vec![1, 2]);
        }
        _ => panic!("time not sent"),
    }
    let p = Participant::new(UserId::from_value(3), Username::new("c".to_string()).unwrap());
    match session::forward::<i32>(LeadingEvent::LeaderboardUpdated(vec![p]), members.clone()) {
        Forward::Send(e) => match e.response.data {
            Some(ResponseData::QuizLeaderboard { participants }) => {
                assert_eq!(participants[0].username, "c");
                assert_eq!(participants[0].score, 0);
            }
            other => panic!("unexpected {other:?}"),
        },
        _ => panic!("leaderboard not sent"),
    }
    match session::forward::<i32>(LeadingEvent::AnswerOutcome(AnswerOutcome::NotRelevant(UserId::from_value(2))), members.clone()) {
        Forward::Send(e) => {
            assert_eq!(error_code(&e).as_deref(), Some("NOT_RELEVANT"));
            assert_eq!(single_recipient(&e), Some(2));
        }
        _ => panic!("outcome not sent"),
    }
    match session::forward::<i32>(LeadingEvent::AnswerOutcome(AnswerOutcome::AlreadyAnswered(UserId::from_value(1))), members.clone()) {
        Forward::Send(e) => assert_eq!(error_code(&e).as_deref(), Some("ALREADY_EXISTS")),
        _ => panic!("outcome not sent"),
    }
    assert!(matches!(session::forward::<i32>(LeadingEvent::ParticipantLeft(UserId::from_value(1)), members.clone()), Forward::Skip));
    match session::forward::<i32>(LeadingEvent::Finished, members.clone()) {
        Forward::Finish(e) => assert_eq!(e.response.kind, MessageKind::QuizFinished),
        _ => panic!("finish not sent"),
    }
    let q: Question<i32> = Question::new(Expression::Leaf(1), [2, 3, 4, 5]);
    let id = q.id();
    assert!(matches!(session::forward(LeadingEvent::QuestionReady(q), members.clone()), Forward::Ask(x) if x.id() == id));
    let e = session::question_ready(id, "1".to_string(), vec![], members);
    assert_eq!(e.response.kind, MessageKind::QuizQuestion);
}
