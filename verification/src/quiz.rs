use vstd::prelude::*;
use crate::duration::Duration;
use crate::ids::{UserId, VariantId, QuestionId};
use crate::operation::Operation;
use crate::participant::Participant;
use crate::question::{Complexity, Question, QuestionError};
use crate::room::ROOM_CAPACITY;
use crate::score::Score;
use crate::timer::TimeLimit;

verus! {

/// The most participants of one quiz: the capacity of a room.
pub const PARTICIPANTS_COUNT: usize = ROOM_CAPACITY;

/// The points that the correct answers of one question share.
pub const POINTS_PER_QUESTION: u16 = 10;

/// How a quiz is run.
#[derive(Debug, PartialEq, Eq, PartialOrd, Ord, Hash)]
pub struct QuizConfig {
    questions_total: u8,
    time_limit: TimeLimit,
    complexity: Complexity,
    operations: Vec<Operation>,
}

impl Clone for QuizConfig {
    fn clone(&self) -> (r: Self)
        ensures
            r.spec_questions_total() == self.spec_questions_total(),
            r.spec_time_limit() == self.spec_time_limit(),
            r.spec_complexity() == self.spec_complexity(),
            r.spec_operations() == self.spec_operations(),
    {
        let operations = self.operations.clone();
        assert(operations@ =~= self.operations@);
        QuizConfig {
            questions_total: self.questions_total,
            time_limit: self.time_limit,
            complexity: self.complexity,
            operations,
        }
    }
}

impl QuizConfig {
    pub closed spec fn spec_questions_total(&self) -> u8 {
        self.questions_total
    }

    pub closed spec fn spec_time_limit(&self) -> TimeLimit {
        self.time_limit
    }

    pub closed spec fn spec_complexity(&self) -> Complexity {
        self.complexity
    }

    pub closed spec fn spec_operations(&self) -> Seq<Operation> {
        self.operations@
    }

    pub fn questions_total(&self) -> (n: u8)
        ensures
            n == self.spec_questions_total(),
    {
        self.questions_total
    }

    pub fn time_limit(&self) -> (t: TimeLimit)
        ensures
            t == self.spec_time_limit(),
    {
        self.time_limit
    }

    pub fn complexity(&self) -> (c: Complexity)
        ensures
            c == self.spec_complexity(),
    {
        self.complexity
    }

    pub fn operations(&self) -> (ops: &[Operation])
        ensures
            ops@ == self.spec_operations(),
    {
        self.operations.as_slice()
    }
}

impl Default for QuizConfig {
    /// Four questions of medium complexity with all operations and the
    /// default time limit.
    fn default() -> (c: Self)
        ensures
            c.spec_questions_total() == 4,
            c.spec_time_limit()@ == TimeLimit::DEFAULT_TIME_LIMIT_SECS * 1_000_000_000,
            c.spec_complexity() == Complexity::Medium,
            c.spec_operations() == seq![
                Operation::Add,
                Operation::Sub,
                Operation::Mul,
                Operation::Div,
            ],
    {
        let all = Operation::all();
        let mut operations: Vec<Operation> = Vec::new();
        operations.push(all[0]);
        operations.push(all[1]);
        operations.push(all[2]);
        operations.push(all[3]);
        QuizConfig {
            questions_total: 4,
            time_limit: TimeLimit::default(),
            complexity: Complexity::Medium,
            operations,
        }
    }
}

/// Why a quiz refuses a request.
#[derive(Debug, Clone, Copy, PartialEq, Eq, Structural, PartialOrd, Ord, Hash)]
pub enum QuizError {
    AlreadyStarted,
    AlreadyAnswered,
    Question(QuestionError),
}

/// An answer that a participant gives.
#[derive(Debug, Clone, Copy)]
pub struct AnswerSubmitted {
    pub user_id: UserId,
    pub question_id: QuestionId,
    pub variant_id: VariantId,
}

/// A request of a participant to the quiz.
#[derive(Debug, Clone, Copy)]
pub enum ParticipantEvent {
    QuestionRequested,
    TimeRequested,
    LeaderboardRequested,
    AnswerSubmitted(AnswerSubmitted),
    ParticipantReturned(UserId),
    ParticipantLeft(UserId),
}

/// The verdict on an answer.
#[derive(Debug, Clone, Copy)]
pub struct AnswerEvaluated {
    pub user_id: UserId,
    pub is_correct: bool,
    pub submitted_variant_id: VariantId,
    pub correct_variant_id: VariantId,
}

/// What became of an answer.
#[derive(Debug, Clone, Copy)]
pub enum AnswerOutcome {
    AnswerEvaluated(AnswerEvaluated),
    AlreadyAnswered(UserId),
    NotRelevant(UserId),
}

/// Points awarded to one participant at the end of a question.
#[derive(Debug, Clone, Copy)]
pub struct ScoreUpdated {
    pub user_id: UserId,
    pub current_score: Score,
    pub previous_score: Score,
    pub points_earned: Score,
}

/// What an award of points is made of, as plain values.
pub struct ScoreUpdatedView {
    pub user_id: u128,
    pub current_score: u16,
    pub previous_score: u16,
    pub points_earned: u16,
}

impl View for ScoreUpdated {
    type V = ScoreUpdatedView;

    open spec fn view(&self) -> ScoreUpdatedView {
        ScoreUpdatedView {
            user_id: self.user_id@,
            current_score: self.current_score@,
            previous_score: self.previous_score@,
            points_earned: self.points_earned@,
        }
    }
}

/// A message of the quiz to its participants.
#[derive(Debug)]
pub enum LeadingEvent<T> {
    QuestionReady(Question<T>),
    TimeUpdate(Duration),
    LeaderboardUpdated(Vec<Participant>),
    AnswerOutcome(AnswerOutcome),
    ScoreUpdated(ScoreUpdated),
    ParticipantReturned(UserId),
    ParticipantLeft(UserId),
    Finished,
}

impl<T: Copy> Clone for LeadingEvent<T> {
    fn clone(&self) -> (r: Self)
        ensures
            !(self is LeaderboardUpdated) ==> r == *self,
            self matches LeadingEvent::LeaderboardUpdated(v) ==> (r matches LeadingEvent::LeaderboardUpdated(w)
                && w@.len() == v@.len() && forall|i: int| 0 <= i < v@.len() ==> (#[trigger] w@[i])@ == v@[i]@),
    {
        match self {
            LeadingEvent::QuestionReady(q) => LeadingEvent::QuestionReady(q.clone()),
            LeadingEvent::TimeUpdate(d) => LeadingEvent::TimeUpdate(*d),
            LeadingEvent::LeaderboardUpdated(v) => LeadingEvent::LeaderboardUpdated(v.clone()),
            LeadingEvent::AnswerOutcome(o) => LeadingEvent::AnswerOutcome(*o),
            LeadingEvent::ScoreUpdated(u) => LeadingEvent::ScoreUpdated(*u),
            LeadingEvent::ParticipantReturned(u) => LeadingEvent::ParticipantReturned(*u),
            LeadingEvent::ParticipantLeft(u) => LeadingEvent::ParticipantLeft(*u),
            LeadingEvent::Finished => LeadingEvent::Finished,
        }
    }
}

} // verus!
