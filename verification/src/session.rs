use vstd::prelude::*;
use crate::dto::{as_user_dto, MessageKind, Response, ResponseData, ResponseError};
use crate::ids::{hyphenated, uuid_parsed, QuestionId, UserId, VariantId};
use crate::dto::{AnswerVariant, Participant as ParticipantDto};
use crate::quiz::{AnswerOutcome, AnswerSubmitted, LeadingEvent, ParticipantEvent, QuizError};
use crate::room::{first_index_of, RoomError};
use crate::state::{member_ids, registered, AppState, AppStateError, QuizRegistry};
use crate::user::{UserView, Username};

verus! {

/// What the server knows of one connected client: the user, and the room
/// (named by its owner) that the user joined, if any.
#[derive(Debug, Clone, Copy)]
pub struct Session {
    pub user_id: UserId,
    pub room_id: Option<UserId>,
}

/// Who receives an event.
#[derive(Debug)]
pub enum EventShare {
    One(UserId),
    Many(Vec<UserId>),
}

/// A response and who receives it.
#[derive(Debug)]
pub struct Event {
    pub response: Response,
    pub share: EventShare,
}

impl Event {
    pub fn new(response: Response, share: EventShare) -> (e: Self)
        ensures
            e.response == response,
            e.share == share,
    {
        Event { response, share }
    }
}

/// The identifiers of a list of users.
pub open spec fn ids_of(ids: Seq<UserId>) -> Seq<u128> {
    ids.map_values(|u: UserId| u@)
}

/// `e` tells only `user` that a request of kind `kind` failed with `code`.
pub open spec fn is_failure(e: Event, kind: MessageKind, code: Seq<char>, user: u128) -> bool {
    &&& e.response.kind == kind
    &&& e.response.data is None
    &&& e.response.error matches Some(err) && err@ == code
    &&& e.share matches EventShare::One(u) && u@ == user
}

/// `e` tells only `user` that a request of kind `kind` succeeded, with no
/// data.
pub open spec fn is_done(e: Event, kind: MessageKind, user: u128) -> bool {
    &&& e.response.kind == kind
    &&& e.response.data is None
    &&& e.response.error is None
    &&& e.share matches EventShare::One(u) && u@ == user
}

/// `e` is sent to exactly the users `ids`, in order.
pub open spec fn is_shared_with(e: Event, ids: Seq<u128>) -> bool {
    e.share matches EventShare::Many(v) && ids_of(v@) == ids
}

/// `ids` without `id`, in order.
pub open spec fn without(ids: Seq<u128>, id: u128) -> Seq<u128> {
    ids.filter(|x: u128| x != id)
}

/// A failed request of kind `kind`, told to the user of `session`.
pub fn fail(session: &Session, kind: MessageKind, error: ResponseError) -> (e: Event)
    ensures
        is_failure(e, kind, error@, session.user_id@),
{
    Event::new(Response { kind, data: None, error: Some(error) }, EventShare::One(session.user_id))
}

/// The users of `ids` other than `id`, in order.
fn others(ids: &Vec<UserId>, id: UserId) -> (r: Vec<UserId>)
    ensures
        ids_of(r@) == without(ids_of(ids@), id@),
        forall|x: u128| #[trigger] ids_of(r@).contains(x) <==> (ids_of(ids@).contains(x) && x != id@),
{
    let ghost all = ids_of(ids@);
    let mut r: Vec<UserId> = Vec::new();
    let mut i: usize = 0;
    while i < ids.len()
        invariant
            i <= ids@.len(),
            all == ids_of(ids@),
            ids_of(r@) == without(all.take(i as int), id@),
        decreases ids@.len() - i,
    {
        let x = ids[i];
        proof {
            let pred = |y: u128| y != id@;
            assert(all.take(i + 1) == all.take(i as int).push(x@));
            all.take(i as int).lemma_filter_push(x@, pred);
        }
        let ghost before = r@;
        if x.value() != id.value() {
            r.push(x);
            assert(ids_of(r@) =~= ids_of(before).push(x@));
        }
        i += 1;
    }
    assert(all.take(ids@.len() as int) == all);
    proof {
        crate::laws::lemma_without_keeps_the_others(all, id@);
    }
    r
}

/// Creates the room of the user of `session`, unless it has one, and tells
/// the user the room's identifier.
pub fn room_create(state: &mut AppState, session: &Session) -> (events: Vec<Event>)
    ensures
        final(state).users() == old(state).users(),
        old(state).rooms().contains_key(session.user_id@) ==> final(state).rooms() == old(state).rooms(),
        !old(state).rooms().contains_key(session.user_id@) ==> {
            &&& final(state).rooms().dom() == old(state).rooms().dom().insert(session.user_id@)
            &&& forall|k: u128| k != session.user_id@ && old(state).rooms().contains_key(k) ==> #[trigger] final(state).rooms()[k] == old(state).rooms()[k]
            &&& final(state).rooms()[session.user_id@].members().len() == 0
        },
        events@.len() == 1,
        events@[0].response.kind == MessageKind::RoomCreate,
        events@[0].response.error is None,
        events@[0].response.data matches Some(ResponseData::RoomCreated { room_id }) && room_id@ == hyphenated(session.user_id@),
        events@[0].share matches EventShare::One(u) && u@ == session.user_id@,
{
    let user_id = session.user_id;
    let room_id = state.create_room(user_id).to_string();
    let mut events: Vec<Event> = Vec::new();
    events.push(Event::new(
        Response { kind: MessageKind::RoomCreate, data: Some(ResponseData::RoomCreated { room_id }), error: None },
        EventShare::One(user_id),
    ));
    events
}

/// A join to the room named by the text `owner_id` succeeds: the text is an
/// identifier, a room of that owner exists and it is not full.
pub open spec fn joins(state: AppState, owner_id: Seq<char>) -> bool {
    uuid_parsed(owner_id) matches Some(o) && state.rooms().contains_key(o)
        && state.rooms()[o].members().len() < crate::room::ROOM_CAPACITY
}

/// What `room_join` does: `before` and `after` are the server's state
/// before and after, `session_before` and `session_after` the session, and
/// `events` what it tells.
pub open spec fn joined(before: AppState, after: AppState, session_before: Session, session_after: Session, owner_id: Seq<char>, events: Seq<Event>) -> bool {
    &&& after.users() == before.users()
    &&& session_after.user_id == session_before.user_id
    &&& after.rooms().dom() == before.rooms().dom()
    &&& forall|k: u128| #[trigger] before.rooms().contains_key(k) && (uuid_parsed(owner_id) != Some(k)) ==> after.rooms()[k] == before.rooms()[k]
    &&& ({
        let user = session_before.user_id@;
        match uuid_parsed(owner_id) {
            None => {
                &&& events.len() == 1
                &&& is_failure(events[0], MessageKind::RoomJoin, ResponseError::INVALID_ID@, user)
                &&& after.rooms() == before.rooms()
                &&& session_after == session_before
            },
            Some(owner) => if !before.rooms().contains_key(owner) {
                &&& events.len() == 1
                &&& is_failure(events[0], MessageKind::RoomJoin, ResponseError::NOT_FOUND@, user)
                &&& after.rooms() == before.rooms()
                &&& session_after == session_before
            } else if before.rooms()[owner].members().len() >= crate::room::ROOM_CAPACITY {
                &&& events.len() == 1
                &&& is_failure(events[0], MessageKind::RoomJoin, ResponseError::CROWDED@, user)
                &&& after.rooms()[owner].members() == before.rooms()[owner].members()
                &&& session_after == session_before
            } else {
                let members = member_ids(after.rooms()[owner]);
                &&& after.rooms()[owner].members().len() == before.rooms()[owner].members().len() + 1
            &&& after.rooms()[owner].members().drop_last() == before.rooms()[owner].members()
                &&& after.rooms()[owner].members().last().id == user
                &&& session_after.room_id matches Some(r) && r@ == owner
                &&& events.len() == 2
                &&& is_done(events[0], MessageKind::RoomJoin, user)
                &&& events[1].response.kind == MessageKind::RoomMemberJoined
                &&& events[1].response.error is None
                &&& events[1].response.data matches Some(ResponseData::RoomMemberJoined { member }) && {
                    &&& member.id@ == hyphenated(user)
                    &&& member.username@ == before.users()[user]@.username
                }
                &&& is_shared_with(events[1], without(members, user))
            },
        }
    })
}

/// The user of `session` joins the room owned by the user whose identifier
/// is the text `owner_id`. The user is told whether that worked; on
/// success the session records the room and the other members are told
/// who joined. The user is looked up only when the join succeeds; the
/// server requires it then to be registered.
pub fn room_join(state: &mut AppState, session: &mut Session, owner_id: String) -> (events: Vec<Event>)
    requires
        old(state).wf(),
        joins(*old(state), owner_id@) ==> old(state).users().contains_key(old(session).user_id@),
    ensures
        joined(*old(state), *final(state), *old(session), *final(session), owner_id@, events@),
{
    let mut events: Vec<Event> = Vec::new();
    let owner = match UserId::try_from(owner_id.as_str()) {
        Ok(owner) => owner,
        Err(_) => {
            events.push(fail(session, MessageKind::RoomJoin, ResponseError::invalid_id()));
            return events;
        },
    };
    let user_id = session.user_id;
    match state.join_room(&owner, user_id) {
        Ok(()) => {},
        Err(AppStateError::Room(RoomError::Crowded)) => {
            events.push(fail(session, MessageKind::RoomJoin, ResponseError::crowded()));
            proof {
                assert(state.rooms()[owner@].members() =~= old(state).rooms()[owner@].members());
            }
            return events;
        },
        Err(_) => {
            events.push(fail(session, MessageKind::RoomJoin, ResponseError::not_found()));
            proof {
                assert(state.rooms() =~= old(state).rooms());
            }
            return events;
        },
    }
    session.room_id = Some(owner);
    let members_ids = match state.get_room_member_ids(&owner) {
        Ok(ids) => ids,
        Err(_) => {
            events.push(fail(session, MessageKind::RoomJoin, ResponseError::not_found()));
            return events;
        },
    };
    let user = state.get_user(&user_id).expect("user not found");
    events.push(Event::new(
        Response { kind: MessageKind::RoomJoin, data: None, error: None },
        EventShare::One(user_id),
    ));
    let recipients = others(&members_ids, user_id);
    events.push(Event::new(
        Response {
            kind: MessageKind::RoomMemberJoined,
            data: Some(ResponseData::RoomMemberJoined { member: as_user_dto(user) }),
            error: None,
        },
        EventShare::Many(recipients),
    ));
    events
}

/// As `room_join`, for any user: where the join would succeed but the user
/// of `session` is not registered, nothing changes and `None` comes back,
/// as the server cannot go on then; else what `room_join` returns.
pub fn room_join_checked(state: &mut AppState, session: &mut Session, owner_id: String) -> (r: Option<Vec<Event>>)
    requires
        old(state).wf(),
    ensures
        (r is None) == (joins(*old(state), owner_id@) && !old(state).users().contains_key(old(session).user_id@)),
        r is None ==> *final(state) == *old(state) && *final(session) == *old(session),
        r matches Some(events) ==> joined(*old(state), *final(state), *old(session), *final(session), owner_id@, events@),
{
    if let Ok(owner) = UserId::try_from(owner_id.as_str()) {
        if let Ok(ids) = state.get_room_member_ids(&owner) {
            proof {
                assert(ids@.map_values(|u: UserId| u@).len() == ids@.len());
                assert(member_ids(state.rooms()[owner@]).len() == state.rooms()[owner@].members().len());
            }
            if ids.len() < crate::room::ROOM_CAPACITY && state.get_user(&session.user_id).is_none() {
                return None;
            }
        }
    }
    Some(room_join(state, session, owner_id))
}

/// Tells the user of `session` the registered members of its room.
pub fn room_members_list(state: &AppState, session: &Session) -> (events: Vec<Event>)
    ensures
        events@.len() == 1,
        ({
            let user = session.user_id@;
            match session.room_id {
                None => is_failure(events@[0], MessageKind::RoomMembersList, ResponseError::NOT_FOUND@, user),
                Some(owner) => if !state.rooms().contains_key(owner@) {
                    is_failure(events@[0], MessageKind::RoomMembersList, ResponseError::NOT_FOUND@, user)
                } else {
                    let expected = registered(member_ids(state.rooms()[owner@]), state.users());
                    &&& events@[0].response.kind == MessageKind::RoomMembersList
                    &&& events@[0].response.error is None
                    &&& events@[0].response.data matches Some(ResponseData::RoomMembersList { members }) && {
                        &&& members@.len() == expected.len()
                        &&& forall|i: int| 0 <= i < expected.len() ==> {
                            &&& (#[trigger] members@[i]).id@ == hyphenated(expected[i].id)
                            &&& members@[i].username@ == expected[i].username
                        }
                    }
                    &&& events@[0].share matches EventShare::One(u) && u@ == user
                },
            }
        }),
{
    let mut events: Vec<Event> = Vec::new();
    let owner = match session.room_id {
        Some(owner) => owner,
        None => {
            events.push(fail(session, MessageKind::RoomMembersList, ResponseError::not_found()));
            return events;
        },
    };
    let members = match state.get_room_members(&owner) {
        Ok(members) => members,
        Err(_) => {
            events.push(fail(session, MessageKind::RoomMembersList, ResponseError::not_found()));
            return events;
        },
    };
    let ghost expected = members@.map_values(|u: crate::user::User| u@);
    let mut dtos: Vec<crate::dto::User> = Vec::new();
    let mut members = members;
    let mut i: usize = 0;
    let n = members.len();
    let ghost all = members@;
    while i < n
        invariant
            i <= n == all.len(),
            expected == all.map_values(|u: crate::user::User| u@),
            members@ == all,
            dtos@.len() == i,
            forall|k: int| 0 <= k < i ==> {
                &&& (#[trigger] dtos@[k]).id@ == hyphenated(expected[k].id)
                &&& dtos@[k].username@ == expected[k].username
            },
        decreases n - i,
    {
        let member = members[i].clone();
        dtos.push(as_user_dto(member));
        i += 1;
    }
    events.push(Event::new(
        Response {
            kind: MessageKind::RoomMembersList,
            data: Some(ResponseData::RoomMembersList { members: dtos }),
            error: None,
        },
        EventShare::One(session.user_id),
    ));
    events
}

/// The user of `session` leaves its room: the session forgets the room,
/// the user is told so, and the members the room had before are told who
/// left.
pub fn room_leave(state: &mut AppState, session: &mut Session) -> (events: Vec<Event>)
    ensures
        final(state).users() == old(state).users(),
        final(session).user_id == old(session).user_id,
        ({
            let user = old(session).user_id@;
            match old(session).room_id {
                None => {
                    &&& events@.len() == 1
                    &&& is_failure(events@[0], MessageKind::RoomLeave, ResponseError::NOT_FOUND@, user)
                    &&& final(state).rooms() == old(state).rooms()
                    &&& *final(session) == *old(session)
                },
                Some(owner) => {
                    &&& final(session).room_id is None
                    &&& is_done(events@[0], MessageKind::RoomLeave, user)
                    &&& forall|k: u128| k != owner@ && old(state).rooms().contains_key(k) ==> #[trigger] final(state).rooms().contains_key(k) && final(state).rooms()[k] == old(state).rooms()[k]
                    &&& forall|k: u128| k != owner@ && !old(state).rooms().contains_key(k) ==> !#[trigger] final(state).rooms().contains_key(k)
                    &&& if old(state).rooms().contains_key(owner@) {
                        let before = old(state).rooms()[owner@];
                        let left = match first_index_of(before.members(), user) {
                            Some(i) => before.members().remove(i),
                            None => before.members(),
                        };
                        &&& left.len() == 0 ==> !final(state).rooms().contains_key(owner@)
                        &&& left.len() > 0 ==> final(state).rooms().contains_key(owner@) && final(state).rooms()[owner@].members() == left
                        &&& events@.len() == 2
                        &&& events@[1].response.kind == MessageKind::RoomMemberLeaved
                        &&& events@[1].response.error is None
                        &&& events@[1].response.data matches Some(ResponseData::RoomMemberLeaved { member_id }) && member_id@ == hyphenated(user)
                        &&& is_shared_with(events@[1], member_ids(before))
                    } else {
                        &&& events@.len() == 1
                        &&& final(state).rooms() == old(state).rooms()
                    }
                },
            }
        }),
{
    let mut events: Vec<Event> = Vec::new();
    let owner = match session.room_id {
        Some(owner) => owner,
        None => {
            events.push(fail(session, MessageKind::RoomLeave, ResponseError::not_found()));
            return events;
        },
    };
    let members_ids = state.get_room_member_ids(&owner);
    let user_id = session.user_id;
    session.room_id = None;
    let _ = state.leave_room(&owner, &user_id);
    events.push(Event::new(
        Response { kind: MessageKind::RoomLeave, data: None, error: None },
        EventShare::One(user_id),
    ));
    match members_ids {
        Ok(ids) => {
            events.push(Event::new(
                Response {
                    kind: MessageKind::RoomMemberLeaved,
                    data: Some(ResponseData::RoomMemberLeaved { member_id: user_id.to_string() }),
                    error: None,
                },
                EventShare::Many(ids),
            ));
        },
        Err(_) => {},
    }
    events
}

/// Tells the user of `session` its identifier and name, if it is
/// registered.
pub fn user(state: &AppState, session: &Session) -> (events: Vec<Event>)
    requires
        state.wf(),
    ensures
        !state.users().contains_key(session.user_id@) ==> events@.len() == 0,
        state.users().contains_key(session.user_id@) ==> {
            &&& events@.len() == 1
            &&& events@[0].response.kind == MessageKind::User
            &&& events@[0].response.error is None
            &&& events@[0].response.data matches Some(ResponseData::User { user_id, username }) && {
                &&& user_id@ == hyphenated(session.user_id@)
                &&& username@ == state.users()[session.user_id@]@.username
            }
            &&& events@[0].share matches EventShare::One(u) && u@ == session.user_id@
        },
{
    let mut events: Vec<Event> = Vec::new();
    match state.get_user(&session.user_id) {
        Some(user) => {
            let id = user.id();
            events.push(Event::new(
                Response {
                    kind: MessageKind::User,
                    data: Some(ResponseData::User {
                        user_id: id.to_string(),
                        username: user.username().as_str().to_owned(),
                    }),
                    error: None,
                },
                EventShare::One(id),
            ));
        },
        None => {},
    }
    events
}

/// Renames the user of `session`; the members of its room are told the
/// new name. An empty name is refused.
pub fn username_updated(state: &mut AppState, session: &Session, username: String) -> (events: Vec<Event>)
    requires
        old(state).wf(),
    ensures
        final(state).wf(),
        final(state).rooms() == old(state).rooms(),
        ({
            let user = session.user_id@;
            if username@.len() == 0 {
                &&& events@.len() == 1
                &&& is_failure(events@[0], MessageKind::UsernameUpdated, ResponseError::INVALID_USERNAME@, user)
                &&& final(state).users() == old(state).users()
            } else {
                &&& final(state).users().dom() == old(state).users().dom()
                &&& forall|k: u128| k != user && old(state).users().contains_key(k) ==> #[trigger] final(state).users()[k] == old(state).users()[k]
                &&& old(state).users().contains_key(user) ==> final(state).users()[user]@ == (UserView { id: user, username: username@ })
                &&& match session.room_id {
                    Some(owner) => if old(state).rooms().contains_key(owner@) {
                        &&& events@.len() == 1
                        &&& events@[0].response.kind == MessageKind::UsernameUpdated
                        &&& events@[0].response.error is None
                        &&& events@[0].response.data matches Some(ResponseData::UsernameUpdated { user_id, username: name }) && {
                            &&& user_id@ == hyphenated(user)
                            &&& name@ == username@
                        }
                        &&& is_shared_with(events@[0], member_ids(old(state).rooms()[owner@]))
                    } else {
                        events@.len() == 0
                    },
                    None => events@.len() == 0,
                }
            }
        }),
{
    let mut events: Vec<Event> = Vec::new();
    let username = match Username::new(username) {
        Ok(name) => name,
        Err(_) => {
            events.push(fail(session, MessageKind::UsernameUpdated, ResponseError::invalid_username()));
            return events;
        },
    };
    let user_id = session.user_id;
    let text = username.as_str().to_owned();
    state.rename_user(&user_id, username);
    match session.room_id {
        Some(owner) => {
            match state.get_room_member_ids(&owner) {
                Ok(ids) => {
                    events.push(Event::new(
                        Response {
                            kind: MessageKind::UsernameUpdated,
                            data: Some(ResponseData::UsernameUpdated { user_id: user_id.to_string(), username: text }),
                            error: None,
                        },
                        EventShare::Many(ids),
                    ));
                },
                Err(_) => {},
            }
        },
        None => {},
    }
    events
}

/// The request `event` to pass to the quiz of the room of the user of
/// `session`, or, when the user is in no room, the failure of kind `kind`
/// to tell the user.
fn quiz_request(session: &Session, kind: MessageKind, event: ParticipantEvent) -> (r: Result<(UserId, ParticipantEvent), Event>)
    ensures
        match session.room_id {
            None => r matches Err(e) && is_failure(e, kind, ResponseError::NOT_FOUND@, session.user_id@),
            Some(owner) => r matches Ok((o, ev)) && o == owner && ev == event,
        },
{
    match session.room_id {
        Some(owner) => Ok((owner, event)),
        None => Err(fail(session, kind, ResponseError::not_found())),
    }
}

/// The user of `session` asks for the current question.
pub fn quiz_question(session: &Session) -> (r: Result<(UserId, ParticipantEvent), Event>)
    ensures
        match session.room_id {
            None => r matches Err(e) && is_failure(e, MessageKind::QuizQuestion, ResponseError::NOT_FOUND@, session.user_id@),
            Some(owner) => r matches Ok((o, ev)) && o == owner && ev is QuestionRequested,
        },
{
    quiz_request(session, MessageKind::QuizQuestion, ParticipantEvent::QuestionRequested)
}

/// The user of `session` asks for the time left.
pub fn quiz_timer(session: &Session) -> (r: Result<(UserId, ParticipantEvent), Event>)
    ensures
        match session.room_id {
            None => r matches Err(e) && is_failure(e, MessageKind::QuizTimer, ResponseError::NOT_FOUND@, session.user_id@),
            Some(owner) => r matches Ok((o, ev)) && o == owner && ev is TimeRequested,
        },
{
    quiz_request(session, MessageKind::QuizTimer, ParticipantEvent::TimeRequested)
}

/// The user of `session` asks for the leaderboard.
pub fn quiz_leaderboard(session: &Session) -> (r: Result<(UserId, ParticipantEvent), Event>)
    ensures
        match session.room_id {
            None => r matches Err(e) && is_failure(e, MessageKind::QuizLeaderboard, ResponseError::NOT_FOUND@, session.user_id@),
            Some(owner) => r matches Ok((o, ev)) && o == owner && ev is LeaderboardRequested,
        },
{
    quiz_request(session, MessageKind::QuizLeaderboard, ParticipantEvent::LeaderboardRequested)
}

/// The user of `session` leaves the quiz; a failure is reported with the
/// kind `QuizStart`.
pub fn quiz_leave(session: &Session) -> (r: Result<(UserId, ParticipantEvent), Event>)
    ensures
        match session.room_id {
            None => r matches Err(e) && is_failure(e, MessageKind::QuizStart, ResponseError::NOT_FOUND@, session.user_id@),
            Some(owner) => r matches Ok((o, ev)) && o == owner && (ev matches ParticipantEvent::ParticipantLeft(u) && u == session.user_id),
        },
{
    quiz_request(session, MessageKind::QuizStart, ParticipantEvent::ParticipantLeft(session.user_id))
}

/// The user of `session` answers the question whose identifier is the
/// text `question_id` with the variant whose identifier is the text
/// `variant_id`. A text that is not an identifier is refused: as an
/// invalid identifier for the question, as not found for the variant.
pub fn quiz_check(session: &Session, question_id: String, variant_id: String) -> (r: Result<(UserId, ParticipantEvent), Event>)
    ensures
        ({
            let user = session.user_id@;
            match session.room_id {
                None => r matches Err(e) && is_failure(e, MessageKind::QuizCheck, ResponseError::NOT_FOUND@, user),
                Some(owner) => match (uuid_parsed(question_id@), uuid_parsed(variant_id@)) {
                    (None, _) => r matches Err(e) && is_failure(e, MessageKind::QuizCheck, ResponseError::INVALID_ID@, user),
                    (Some(_), None) => r matches Err(e) && is_failure(e, MessageKind::QuizCheck, ResponseError::NOT_FOUND@, user),
                    (Some(q), Some(v)) => r matches Ok((o, ev)) && o == owner && (ev matches ParticipantEvent::AnswerSubmitted(a) && {
                        &&& a.user_id == session.user_id
                        &&& a.question_id@ == q
                        &&& a.variant_id@ == v
                    }),
                },
            }
        }),
{
    let owner = match session.room_id {
        Some(owner) => owner,
        None => {
            return Err(fail(session, MessageKind::QuizCheck, ResponseError::not_found()));
        },
    };
    let question_id = match QuestionId::from_str(question_id.as_str()) {
        Ok(id) => id,
        Err(_) => {
            return Err(fail(session, MessageKind::QuizCheck, ResponseError::invalid_id()));
        },
    };
    let variant_id = match VariantId::from_str(variant_id.as_str()) {
        Ok(id) => id,
        Err(_) => {
            return Err(fail(session, MessageKind::QuizCheck, ResponseError::not_found()));
        },
    };
    Ok((owner, ParticipantEvent::AnswerSubmitted(AnswerSubmitted { user_id: session.user_id, question_id, variant_id })))
}

/// What the server does when the user of a session starts the quiz of its
/// room.
pub enum QuizStart {
    /// Tell the user this; no quiz starts.
    Refused(Event),
    /// Start the quiz of the room of `owner_id` for the members
    /// `members_ids`; then send `announce`; only then pass `first` to the
    /// quiz, which asks for its first question.
    Started { owner_id: UserId, members_ids: Vec<UserId>, announce: Event, first: ParticipantEvent },
}

/// The user of `session` starts the quiz of its room. Without a room, or
/// when the room is gone, the user is told it was not found. Otherwise the
/// room gets a quiz, made by `make` unless it has one; a quiz that has
/// started already is left as it is and the user is told it already
/// exists. Else the quiz is recorded as started, and the members are to be
/// told so before the first question is asked for.
pub fn start_quiz<Q, F: FnOnce() -> Q>(state: &AppState, quizzes: &mut QuizRegistry<Q>, session: &Session, make: F) -> (r: QuizStart)
    requires
        make.requires(()),
    ensures
        ({
            let user = session.user_id@;
            let unchanged = final(quizzes).quizzes() == old(quizzes).quizzes() && final(quizzes).started() == old(quizzes).started();
            match session.room_id {
                None => r matches QuizStart::Refused(e) && is_failure(e, MessageKind::QuizStart, ResponseError::NOT_FOUND@, user) && unchanged,
                Some(owner) => if !state.rooms().contains_key(owner@) {
                    r matches QuizStart::Refused(e) && is_failure(e, MessageKind::QuizStart, ResponseError::NOT_FOUND@, user) && unchanged
                } else {
                    &&& old(quizzes).quizzes().contains_key(owner@) ==> final(quizzes).quizzes() == old(quizzes).quizzes()
                    &&& !old(quizzes).quizzes().contains_key(owner@) ==> exists|q: Q| {
                        &&& make.ensures((), q)
                        &&& final(quizzes).quizzes() == old(quizzes).quizzes().insert(owner@, q)
                    }
                    &&& if old(quizzes).started().contains(owner@) {
                        &&& r matches QuizStart::Refused(e) && is_failure(e, MessageKind::QuizStart, ResponseError::ALREADY_EXISTS@, user)
                        &&& final(quizzes).started() == old(quizzes).started()
                    } else {
                        &&& final(quizzes).started() == old(quizzes).started().insert(owner@)
                        &&& r matches QuizStart::Started { owner_id, members_ids, announce, first } && {
                            &&& owner_id == owner
                            &&& ids_of(members_ids@) == member_ids(state.rooms()[owner@])
                            &&& announce.response.kind == MessageKind::QuizStart
                            &&& announce.response.error is None
                            &&& announce.response.data matches Some(ResponseData::QuizStart { quiz_id }) && quiz_id@ == hyphenated(owner@)
                            &&& announce.share matches EventShare::Many(m) && m@ == members_ids@
                            &&& first is QuestionRequested
                        }
                    }
                },
            }
        }),
{
    let owner = match session.room_id {
        Some(owner) => owner,
        None => {
            return QuizStart::Refused(fail(session, MessageKind::QuizStart, ResponseError::not_found()));
        },
    };
    let members_ids = match state.get_room_member_ids(&owner) {
        Ok(ids) => ids,
        Err(_) => {
            return QuizStart::Refused(fail(session, MessageKind::QuizStart, ResponseError::not_found()));
        },
    };
    quizzes.create_quiz(owner, make);
    if quizzes.is_started(&owner) {
        return QuizStart::Refused(fail(session, MessageKind::QuizStart, ResponseError::already_exists()));
    }
    quizzes.mark_started(&owner);
    let shared = members_ids.clone();
    proof {
        assert(shared@ =~= members_ids@);
    }
    let announce = quiz_started(owner, shared);
    QuizStart::Started { owner_id: owner, members_ids, announce, first: ParticipantEvent::QuestionRequested }
}

/// The failure to tell the user of `session` when its quiz cannot start:
/// a quiz already running is reported as already existing, anything else
/// as not found.
pub fn quiz_start_failed(session: &Session, error: AppStateError) -> (e: Event)
    ensures
        error == AppStateError::Quiz(QuizError::AlreadyStarted) ==> is_failure(e, MessageKind::QuizStart, ResponseError::ALREADY_EXISTS@, session.user_id@),
        error != AppStateError::Quiz(QuizError::AlreadyStarted) ==> is_failure(e, MessageKind::QuizStart, ResponseError::NOT_FOUND@, session.user_id@),
{
    match error {
        AppStateError::Quiz(QuizError::AlreadyStarted) => fail(session, MessageKind::QuizStart, ResponseError::already_exists()),
        _ => fail(session, MessageKind::QuizStart, ResponseError::not_found()),
    }
}

/// Tells the members `members_ids` that the quiz of `owner_id`'s room
/// started; the quiz is named by the owner's identifier.
pub fn quiz_started(owner_id: UserId, members_ids: Vec<UserId>) -> (e: Event)
    ensures
        e.response.kind == MessageKind::QuizStart,
        e.response.error is None,
        e.response.data matches Some(ResponseData::QuizStart { quiz_id }) && quiz_id@ == hyphenated(owner_id@),
        e.share == EventShare::Many(members_ids),
{
    Event::new(
        Response {
            kind: MessageKind::QuizStart,
            data: Some(ResponseData::QuizStart { quiz_id: owner_id.to_string() }),
            error: None,
        },
        EventShare::Many(members_ids),
    )
}

/// Tells the members `members_ids` the question whose identifier is
/// `question_id`, with the texts of its expression and variants.
pub fn question_ready(question_id: QuestionId, expression: String, variants: Vec<AnswerVariant>, members_ids: Vec<UserId>) -> (e: Event)
    ensures
        e.response.kind == MessageKind::QuizQuestion,
        e.response.error is None,
        e.response.data matches Some(ResponseData::QuizQuestion { id, expression: text, variants: v }) && {
            &&& id@ == hyphenated(question_id@)
            &&& text == expression
            &&& v == variants
        },
        e.share == EventShare::Many(members_ids),
{
    Event::new(
        Response {
            kind: MessageKind::QuizQuestion,
            data: Some(ResponseData::QuizQuestion { id: question_id.to_string(), expression, variants }),
            error: None,
        },
        EventShare::Many(members_ids),
    )
}

/// What to do with a message of a running quiz.
pub enum Forward<T> {
    /// Send this event.
    Send(Event),
    /// Tell the members this question (its texts are made by the caller).
    Ask(crate::question::Question<T>),
    /// Nothing to send.
    Skip,
    /// The quiz is over: send this event and stop.
    Finish(Event),
}

/// The remaining seconds of a time update, as the client sees them: the
/// whole seconds of the span, taken as a `u16`.
pub open spec fn remaining_secs_of(d: crate::duration::Duration) -> u16 {
    (d@ / 1_000_000_000) as u16
}

/// `f` is what a message `event` of the quiz of a room with members
/// `members` is turned into, as `forward` says.
pub open spec fn forwards<T>(event: LeadingEvent<T>, members: Seq<UserId>, f: Forward<T>) -> bool {
    match event {
        LeadingEvent::QuestionReady(q) => f matches Forward::Ask(x) && x == q,
        LeadingEvent::TimeUpdate(d) => f matches Forward::Send(e) && {
            &&& e.response.kind == MessageKind::QuizTimer
            &&& e.response.error is None
            &&& e.response.data matches Some(ResponseData::QuizTimer { remaining_secs }) && remaining_secs == remaining_secs_of(d)
            &&& e.share matches EventShare::Many(m) && m@ == members
        },
        LeadingEvent::LeaderboardUpdated(ps) => f matches Forward::Send(e) && {
            &&& e.response.kind == MessageKind::QuizLeaderboard
            &&& e.response.error is None
            &&& e.response.data matches Some(ResponseData::QuizLeaderboard { participants }) && {
                &&& participants@.len() == ps@.len()
                &&& forall|i: int| 0 <= i < ps@.len() ==> {
                    &&& (#[trigger] participants@[i]).id@ == hyphenated(ps@[i]@.id)
                    &&& participants@[i].username@ == ps@[i]@.username
                    &&& participants@[i].score == ps@[i]@.score
                }
            }
            &&& e.share matches EventShare::Many(m) && m@ == members
        },
        LeadingEvent::AnswerOutcome(AnswerOutcome::AlreadyAnswered(u)) => f matches Forward::Send(e) && is_failure(e, MessageKind::QuizCheck, ResponseError::ALREADY_EXISTS@, u@),
        LeadingEvent::AnswerOutcome(AnswerOutcome::NotRelevant(u)) => f matches Forward::Send(e) && is_failure(e, MessageKind::QuizCheck, ResponseError::NOT_RELEVANT@, u@),
        LeadingEvent::AnswerOutcome(AnswerOutcome::AnswerEvaluated(r)) => f matches Forward::Send(e) && {
            &&& e.response.kind == MessageKind::QuizCheck
            &&& e.response.error is None
            &&& e.response.data matches Some(ResponseData::QuizAnswerOutcome { user_id, is_correct, submitted_variant_id, correct_variant_id }) && {
                &&& user_id@ == hyphenated(r.user_id@)
                &&& is_correct == r.is_correct
                &&& submitted_variant_id@ == hyphenated(r.submitted_variant_id@)
                &&& correct_variant_id@ == hyphenated(r.correct_variant_id@)
            }
            &&& e.share matches EventShare::One(u) && u == r.user_id
        },
        LeadingEvent::ScoreUpdated(_) => f is Skip,
        LeadingEvent::ParticipantReturned(_) => f is Skip,
        LeadingEvent::ParticipantLeft(_) => f is Skip,
        LeadingEvent::Finished => f matches Forward::Finish(e) && {
            &&& e.response.kind == MessageKind::QuizFinished
            &&& e.response.data is None
            &&& e.response.error is None
            &&& e.share matches EventShare::Many(m) && m@ == members
        },
    }
}

/// Turns a message of the quiz of a room with members `members_ids` into
/// what the server sends:
///
/// - a question: asked of the members;
/// - the time left: its whole seconds, to the members;
/// - the leaderboard: each participant's identifier, name and points, to
///   the members;
/// - the outcome of an answer: to the user who gave it; an answer given
///   twice is reported as already existing, one to another question as not
///   relevant;
/// - awards, returns and leaves: nothing;
/// - the end of the quiz: `QuizFinished`, to the members, and stop.
pub fn forward<T>(event: LeadingEvent<T>, members_ids: Vec<UserId>) -> (f: Forward<T>)
    ensures
        forwards(event, members_ids@, f),
{
    match event {
        LeadingEvent::QuestionReady(question) => Forward::Ask(question),
        LeadingEvent::TimeUpdate(duration) => {
            let secs: u16 = #[verifier::truncate] (duration.as_secs() as u16);
            Forward::Send(Event::new(
                Response {
                    kind: MessageKind::QuizTimer,
                    data: Some(ResponseData::QuizTimer { remaining_secs: secs }),
                    error: None,
                },
                EventShare::Many(members_ids),
            ))
        },
        LeadingEvent::LeaderboardUpdated(participants) => {
            let mut dtos: Vec<ParticipantDto> = Vec::new();
            let mut i: usize = 0;
            while i < participants.len()
                invariant
                    i <= participants@.len(),
                    dtos@.len() == i,
                    forall|k: int| 0 <= k < i ==> {
                        &&& (#[trigger] dtos@[k]).id@ == hyphenated(participants@[k]@.id)
                        &&& dtos@[k].username@ == participants@[k]@.username
                        &&& dtos@[k].score == participants@[k]@.score
                    },
                decreases participants@.len() - i,
            {
                let p = &participants[i];
                dtos.push(ParticipantDto {
                    id: p.id().to_string(),
                    username: p.username().as_str().to_owned(),
                    score: p.score().value(),
                });
                i += 1;
            }
            Forward::Send(Event::new(
                Response {
                    kind: MessageKind::QuizLeaderboard,
                    data: Some(ResponseData::QuizLeaderboard { participants: dtos }),
                    error: None,
                },
                EventShare::Many(members_ids),
            ))
        },
        LeadingEvent::AnswerOutcome(outcome) => match outcome {
            AnswerOutcome::AlreadyAnswered(user_id) => Forward::Send(Event::new(
                Response { kind: MessageKind::QuizCheck, data: None, error: Some(ResponseError::already_exists()) },
                EventShare::One(user_id),
            )),
            AnswerOutcome::NotRelevant(user_id) => Forward::Send(Event::new(
                Response { kind: MessageKind::QuizCheck, data: None, error: Some(ResponseError::not_relevant()) },
                EventShare::One(user_id),
            )),
            AnswerOutcome::AnswerEvaluated(result) => Forward::Send(Event::new(
                Response {
                    kind: MessageKind::QuizCheck,
                    data: Some(ResponseData::QuizAnswerOutcome {
                        user_id: result.user_id.to_string(),
                        is_correct: result.is_correct,
                        submitted_variant_id: result.submitted_variant_id.to_string(),
                        correct_variant_id: result.correct_variant_id.to_string(),
                    }),
                    error: None,
                },
                EventShare::One(result.user_id),
            )),
        },
        LeadingEvent::ScoreUpdated(_) => Forward::Skip,
        LeadingEvent::ParticipantReturned(_) => Forward::Skip,
        LeadingEvent::ParticipantLeft(_) => Forward::Skip,
        LeadingEvent::Finished => Forward::Finish(Event::new(
            Response { kind: MessageKind::QuizFinished, data: None, error: None },
            EventShare::Many(members_ids),
        )),
    }
}

/// The user who gave the answer that `outcome` reports on.
pub open spec fn answering_user(outcome: AnswerOutcome) -> UserId {
    match outcome {
        AnswerOutcome::AlreadyAnswered(u) => u,
        AnswerOutcome::NotRelevant(u) => u,
        AnswerOutcome::AnswerEvaluated(r) => r.user_id,
    }
}

/// One step of forwarding the messages of a quiz: before the end of the
/// quiz, `event` becomes `f` as `forward` says and the end of the quiz is
/// recorded; once it has ended nothing is forwarded.
pub open spec fn forward_step<T>(members: Seq<UserId>, finished: bool, event: LeadingEvent<T>, f: Forward<T>, finished_after: bool) -> bool {
    if finished {
        f is Skip && finished_after
    } else {
        forwards(event, members, f) && finished_after == (event is Finished)
    }
}

/// The forwarding of the messages of the quiz of one room, over the whole
/// run of the quiz.
pub struct Forwarder {
    owner_id: UserId,
    members_ids: Vec<UserId>,
    finished: bool,
}

impl Forwarder {
    /// The owner of the room.
    pub closed spec fn owner(&self) -> UserId {
        self.owner_id
    }

    /// The members of the room, who are told the quiz's messages.
    pub closed spec fn members(&self) -> Seq<UserId> {
        self.members_ids@
    }

    /// Whether the quiz has ended.
    pub closed spec fn is_finished(&self) -> bool {
        self.finished
    }

    /// The forwarding for the quiz of the room of `owner_id`, whose members
    /// are `members_ids`, before its first message.
    pub fn new(owner_id: UserId, members_ids: Vec<UserId>) -> (r: Self)
        ensures
            r.owner() == owner_id,
            r.members() == members_ids@,
            !r.is_finished(),
    {
        Forwarder { owner_id, members_ids, finished: false }
    }

    /// Forwards the message `event`. Its end removes the quiz of the room
    /// from `quizzes`; after the end nothing is forwarded and nothing
    /// changes.
    pub fn step<T, Q>(&mut self, event: LeadingEvent<T>, quizzes: &mut QuizRegistry<Q>) -> (f: Forward<T>)
        ensures
            final(self).owner() == old(self).owner(),
            final(self).members() == old(self).members(),
            forward_step(old(self).members(), old(self).is_finished(), event, f, final(self).is_finished()),
            !old(self).is_finished() && event is Finished ==> {
                &&& final(quizzes).quizzes() == old(quizzes).quizzes().remove(old(self).owner()@)
                &&& final(quizzes).started() == old(quizzes).started().remove(old(self).owner()@)
            },
            !(!old(self).is_finished() && event is Finished) ==> {
                &&& final(quizzes).quizzes() == old(quizzes).quizzes()
                &&& final(quizzes).started() == old(quizzes).started()
            },
    {
        if self.finished {
            return Forward::Skip;
        }
        let shared = self.members_ids.clone();
        proof {
            assert(shared@ =~= self.members_ids@);
        }
        let is_end = match &event {
            LeadingEvent::Finished => true,
            _ => false,
        };
        let f = forward(event, shared);
        if is_end {
            quizzes.remove_quiz(&self.owner_id);
            self.finished = true;
        }
        f
    }
}

} // verus!
