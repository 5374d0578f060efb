use vstd::prelude::*;
use crate::ids::hyphenated;

verus! {

/// A request of a client.
#[derive(Debug, Clone, PartialEq, Eq, PartialOrd, Ord, Hash)]
pub enum Request {
    User,
    UsernameUpdated { username: String },
    RoomCreate,
    RoomJoin { room_id: String },
    RoomLeave,
    RoomMembersList,
    QuizStart,
    QuizJoin { room_id: String },
    QuizQuestion,
    QuizCheck { question_id: String, variant_id: String },
    QuizTimer,
    QuizLeaderboard,
    QuizLeave,
}

/// What a response is about.
#[derive(Debug, Clone, Copy, PartialEq, Eq, Structural, PartialOrd, Ord, Hash)]
pub enum MessageKind {
    User,
    UsernameUpdated,
    RoomCreate,
    RoomJoin,
    RoomLeave,
    RoomMemberJoined,
    RoomMemberLeaved,
    RoomMembersList,
    QuizStart,
    QuizJoin,
    QuizLeave,
    QuizQuestion,
    QuizCheck,
    QuizTimer,
    QuizLeaderboard,
    QuizScore,
    QuizFinished,
}

/// A user as a client sees it.
#[derive(Debug, Clone, PartialEq, Eq, PartialOrd, Ord, Hash)]
pub struct User {
    pub id: String,
    pub username: String,
}

/// A participant as a client sees it.
#[derive(Debug, Clone, PartialEq, Eq, PartialOrd, Ord, Hash)]
pub struct Participant {
    pub id: String,
    pub username: String,
    pub score: u16,
}

/// An answer variant as a client sees it.
#[derive(Debug, Clone, PartialEq, Eq, PartialOrd, Ord, Hash)]
pub struct AnswerVariant {
    pub variant_id: String,
    pub question_id: String,
    pub value: String,
}

/// The content of a response.
#[derive(Debug, Clone, PartialEq, Eq, PartialOrd, Ord, Hash)]
pub enum ResponseData {
    User { user_id: String, username: String },
    UsernameUpdated { user_id: String, username: String },
    RoomCreated { room_id: String },
    RoomMemberJoined { member: User },
    RoomMemberLeaved { member_id: String },
    RoomMembersList { members: Vec<User> },
    QuizStart { quiz_id: String },
    QuizQuestion { id: String, expression: String, variants: Vec<AnswerVariant> },
    QuizTimer { remaining_secs: u16 },
    QuizAnswerOutcome {
        user_id: String,
        is_correct: bool,
        submitted_variant_id: String,
        correct_variant_id: String,
    },
    QuizLeaderboard { participants: Vec<Participant> },
    QuizScore {},
}

/// The error code of a response.
#[derive(Debug, Clone, PartialEq, Eq, PartialOrd, Ord, Hash)]
pub struct ResponseError {
    code: String,
}

impl View for ResponseError {
    type V = Seq<char>;

    closed spec fn view(&self) -> Seq<char> {
        self.code@
    }
}

/// A response to a client.
#[derive(Debug, Clone, PartialEq, Eq, PartialOrd, Ord, Hash)]
pub struct Response {
    pub kind: MessageKind,
    pub data: Option<ResponseData>,
    pub error: Option<ResponseError>,
}

impl ResponseError {
    pub const INVALID_ID: &'static str = "INVALID_ID";
    pub const INVALID_USERNAME: &'static str = "INVALID_USERNAME";
    pub const NOT_FOUND: &'static str = "NOT_FOUND";
    pub const CROWDED: &'static str = "CROWDED";
    pub const NOT_RELEVANT: &'static str = "NOT_RELEVANT";
    pub const ALREADY_EXISTS: &'static str = "ALREADY_EXISTS";

    /// The text of the code.
    pub fn code(&self) -> (s: &str)
        ensures
            s@ == self@,
    {
        self.code.as_str()
    }

    pub fn invalid_id() -> (e: Self)
        ensures
            e@ == Self::INVALID_ID@,
    {
        ResponseError { code: Self::INVALID_ID.to_owned() }
    }

    pub fn invalid_username() -> (e: Self)
        ensures
            e@ == Self::INVALID_USERNAME@,
    {
        ResponseError { code: Self::INVALID_USERNAME.to_owned() }
    }

    pub fn not_found() -> (e: Self)
        ensures
            e@ == Self::NOT_FOUND@,
    {
        ResponseError { code: Self::NOT_FOUND.to_owned() }
    }

    pub fn crowded() -> (e: Self)
        ensures
            e@ == Self::CROWDED@,
    {
        ResponseError { code: Self::CROWDED.to_owned() }
    }

    pub fn not_relevant() -> (e: Self)
        ensures
            e@ == Self::NOT_RELEVANT@,
    {
        ResponseError { code: Self::NOT_RELEVANT.to_owned() }
    }

    pub fn already_exists() -> (e: Self)
        ensures
            e@ == Self::ALREADY_EXISTS@,
    {
        ResponseError { code: Self::ALREADY_EXISTS.to_owned() }
    }
}

/// A user as a client sees it: the text of its identifier and its name.
pub fn as_user_dto(user: crate::user::User) -> (dto: User)
    ensures
        dto.id@ == hyphenated(user@.id),
        dto.username@ == user@.username,
{
    User { id: user.id().to_string(), username: user.username().as_str().to_owned() }
}

} // verus!
