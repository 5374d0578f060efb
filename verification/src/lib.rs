//! Game logic of a multiplayer arithmetic quiz: users, rooms, scores,
//! leaderboards, questions and the per-question state of a quiz, with the
//! decisions that a running quiz takes on each request and each second.

pub mod dto;
pub mod duration;
pub mod expression;
pub mod ids;
pub mod laws;
pub mod leading;
pub mod leaderboard;
pub mod member;
pub mod operation;
pub mod order;
pub mod participant;
pub mod question;
pub mod quiz;
pub mod quiz_state;
pub mod room;
pub mod round;
pub mod score;
pub mod session;
pub mod state;
pub mod timer;
pub mod user;

pub use ids::{LobbyId, QuestionId, QuizId, RoomId, RoundId, UserId, VariantId};
pub use leaderboard::Leaderboard;
pub use participant::Participant;
pub use question::{Complexity, Question, QuestionError, Variant};
pub use quiz::{
    AnswerEvaluated, AnswerOutcome, AnswerSubmitted, LeadingEvent, ParticipantEvent, QuizConfig,
    QuizError, ScoreUpdated,
};
pub use quiz_state::QuizState;
pub use room::{Room, RoomError};
pub use score::Score;
pub use user::{User, UserError, Username, UsernameError};
