use vstd::prelude::*;
use crate::duration::Duration;
use crate::question::Question;
use crate::quiz::{LeadingEvent, QuizConfig};
use crate::quiz_state::{question_closed, QuizState};
use crate::timer::{TimeLimit, Timer};

verus! {

/// Where the leading of a quiz stands.
#[derive(Debug, Clone, Copy, PartialEq, Eq, Structural)]
pub enum LeadPhase {
    /// Between two questions: the next one is to be made, or the quiz is
    /// over.
    Between,
    /// Waiting for the next question to be made.
    Asking,
    /// A question runs and its time counts down.
    Running,
    /// The quiz is over.
    Over,
}

/// What the leading of a quiz is told.
pub enum LeadInput<T> {
    /// Go on.
    Go,
    /// The question that was asked for.
    QuestionMade(Question<T>),
    /// One second has passed.
    SecondPassed,
}

/// What the leading of a quiz asks for.
pub enum LeadAction<T> {
    /// Make a question and tell it with `QuestionMade`.
    MakeQuestion,
    /// Send these messages, wait one second and tell it with
    /// `SecondPassed`.
    Wait(Vec<LeadingEvent<T>>),
    /// Send these messages, which end a question, and tell `Go`.
    Next(Vec<LeadingEvent<T>>),
    /// Send this last message: the quiz is over.
    Finish(LeadingEvent<T>),
    /// Nothing: the input did not fit where the leading stands.
    Ignore,
}

/// The time left after one more second, never below zero.
pub open spec fn after_second(time_left: int) -> int {
    if time_left >= 1_000_000_000 {
        time_left - 1_000_000_000
    } else {
        0
    }
}

/// A question ends early in `state` when nobody takes part any more or
/// everybody has answered.
pub open spec fn quiet<T, const N: usize>(state: QuizState<T, N>) -> bool {
    state.participants().len() == 0 || state.answers().len() == state.participants().len()
}

/// The time left that the action `a` tells, if it tells one first.
pub open spec fn time_told<T>(a: LeadAction<T>) -> Option<int> {
    match a {
        LeadAction::Wait(out) => if out@.len() >= 1 && out@[0] is TimeUpdate {
            Some(out@[0]->TimeUpdate_0@)
        } else {
            None
        },
        LeadAction::Next(out) => if out@.len() >= 1 && out@[0] is TimeUpdate {
            Some(out@[0]->TimeUpdate_0@)
        } else {
            None
        },
        _ => None,
    }
}

/// What one step of the leading does to the clock of a question, given
/// the time limit `limit`: a question starts with the whole limit; while it
/// runs the time left stays between zero and the limit and each step that
/// is not ignored lets one second pass; the time told is the time left
/// after that second.
pub open spec fn lead_clock<T>(limit: int, phase: LeadPhase, time_left: int, a: LeadAction<T>, phase_after: LeadPhase, time_after: int) -> bool {
    &&& time_told(a) is Some ==> phase is Running && time_told(a)->Some_0 == after_second(time_left)
    &&& phase_after is Running ==> 0 < time_after <= limit
    &&& !(phase is Running) && phase_after is Running ==> time_after == limit
    &&& phase is Running && phase_after is Running && !(a is Ignore) ==> time_after == after_second(time_left)
    &&& a is Ignore ==> time_after == time_left
}

/// What one step of the leading does to the count of questions done and to
/// where it stands, given the number of questions `total`.
pub open spec fn lead_step<T>(total: nat, done: nat, phase: LeadPhase, a: LeadAction<T>, done_after: nat, phase_after: LeadPhase) -> bool {
    &&& done_after <= total
    &&& phase is Over ==> a is Ignore && done_after == done && phase_after == phase
    &&& a is Finish ==> phase is Between && done == total && phase_after is Over && done_after == done
    &&& a is Next ==> done_after == done + 1 && phase_after is Between
    &&& !(a is Next) ==> done_after == done
    &&& a is Ignore ==> phase_after == phase
}

/// The number of questions that the actions `actions` end.
pub open spec fn rounds_ended<T>(actions: Seq<LeadAction<T>>) -> nat
    decreases actions.len(),
{
    if actions.len() == 0 {
        0
    } else {
        rounds_ended(actions.drop_last()) + if actions.last() is Next {
            1nat
        } else {
            0nat
        }
    }
}

/// The leading of a quiz: it asks the questions one after the other, counts
/// down the time of each, ends each and, after the last, ends the quiz.
pub struct Leader {
    questions_total: u8,
    rounds_done: u8,
    time_limit: TimeLimit,
    timer: Timer,
    phase: LeadPhase,
}

impl Leader {
    /// The number of questions of the quiz.
    pub closed spec fn questions_total(&self) -> nat {
        self.questions_total as nat
    }

    /// The number of questions that have ended.
    pub closed spec fn rounds_done(&self) -> nat {
        self.rounds_done as nat
    }

    /// The time given to each question.
    pub closed spec fn time_limit(&self) -> int {
        self.time_limit@
    }

    /// The time left of the current question.
    pub closed spec fn time_left(&self) -> int {
        self.timer@
    }

    /// Where the leading stands.
    pub closed spec fn phase(&self) -> LeadPhase {
        self.phase
    }

    /// What holds between the steps.
    pub open spec fn wf(&self) -> bool {
        &&& self.rounds_done() <= self.questions_total()
        &&& self.time_limit() > 0
        &&& self.phase() is Asking ==> self.rounds_done() < self.questions_total()
        &&& self.phase() is Running ==> self.rounds_done() < self.questions_total() && 0 < self.time_left() <= self.time_limit()
        &&& self.phase() is Over ==> self.rounds_done() == self.questions_total()
    }

    /// The leading of a quiz set up by `cfg`, before its first question.
    pub fn new(cfg: &QuizConfig) -> (r: Self)
        ensures
            r.wf(),
            r.questions_total() == cfg.spec_questions_total(),
            r.time_limit() == cfg.spec_time_limit()@,
            r.rounds_done() == 0,
            r.phase() is Between,
    {
        let time_limit = cfg.time_limit();
        let _ = time_limit.duration();
        Leader {
            questions_total: cfg.questions_total(),
            rounds_done: 0,
            time_limit,
            timer: Timer::new(time_limit),
            phase: LeadPhase::Between,
        }
    }

    /// Whether the question running in `state` ends when one more second
    /// has passed.
    pub open spec fn ends_at_second<T, const N: usize>(&self, state: QuizState<T, N>) -> bool {
        self.phase() is Running && (quiet(state) || after_second(self.time_left()) == 0)
    }

    /// Whether `ends_at_second` holds.
    pub fn question_ends_at_second<T, const N: usize>(&self, state: &QuizState<T, N>) -> (b: bool)
        requires
            state.wf(),
        ensures
            b == self.ends_at_second(*state),
    {
        match self.phase {
            LeadPhase::Running => {
                let count = state.participants_count();
                let quiet_now = count == 0 || state.answers_total() == count;
                quiet_now || !self.timer.timer().is_longer_than(&Duration::from_secs(1))
            },
            _ => false,
        }
    }

    /// Ends the question running in `state`: the awards and the
    /// leaderboard follow `events`.
    fn end_question<T: Copy, const N: usize>(&mut self, state: &mut QuizState<T, N>, events: Vec<LeadingEvent<T>>) -> (a: LeadAction<T>)
        requires
            old(state).wf(),
            old(state).rewardable(),
            old(self).rounds_done() < old(self).questions_total(),
            old(self).time_limit() > 0,
        ensures
            final(state).wf(),
            final(self).wf(),
            final(state).participants() == old(state).participants(),
            final(state).spec_question() == old(state).spec_question(),
            final(state).answers() == old(state).answers(),
            final(state).spec_remaining_time() == old(state).spec_remaining_time(),
            final(self).questions_total() == old(self).questions_total(),
            final(self).time_limit() == old(self).time_limit(),
            final(self).rounds_done() == old(self).rounds_done() + 1,
            final(self).phase() is Between,
            a matches LeadAction::Next(out) && {
                &&& out@.len() > events@.len()
                &&& forall|i: int| 0 <= i < events@.len() ==> #[trigger] out@[i] == events@[i]
                &&& question_closed(old(state).board(), old(state).answers(), final(state).board(), out@.skip(events@.len() as int))
                &&& events@.len() == 0 ==> question_closed(old(state).board(), old(state).answers(), final(state).board(), out@)
            },
    {
        let ghost before = events@;
        let mut end = state.end_round();
        let ghost ending = end@;
        let mut out = events;
        out.append(&mut end);
        proof {
            assert(out@.take(before.len() as int) =~= before);
            assert(out@.skip(before.len() as int) =~= ending);
            assert(forall|i: int| 0 <= i < before.len() ==> #[trigger] out@[i] == out@.take(before.len() as int)[i]);
            if before.len() == 0 {
                assert(out@ =~= ending);
            }
        }
        self.rounds_done = self.rounds_done + 1;
        self.phase = LeadPhase::Between;
        LeadAction::Next(out)
    }

    /// One step of the leading of the quiz whose state is `state`:
    ///
    /// - told to go on between two questions, it asks for the next question
    ///   to be made, or, when all of them are done, ends the quiz with
    ///   `Finished`;
    /// - given the question, it starts it in `state`, with the whole time
    ///   limit on the clock, and has it announced;
    /// - told that a second has passed, it lets the second pass on the clock;
    ///   the question ends when nobody takes part any more or everybody has
    ///   answered, else the time left is told, and the question also ends
    ///   when that reaches zero; a question that ends awards its points and
    ///   tells the leaderboard;
    /// - any other input is ignored.
    pub fn step<T: Copy, const N: usize>(&mut self, state: &mut QuizState<T, N>, input: LeadInput<T>) -> (a: LeadAction<T>)
        requires
            old(self).wf(),
            old(state).wf(),
            input is SecondPassed && old(self).ends_at_second(*old(state)) ==> old(state).rewardable(),
        ensures
            final(self).wf(),
            final(state).wf(),
            final(self).questions_total() == old(self).questions_total(),
            final(self).time_limit() == old(self).time_limit(),
            final(state).participants() == old(state).participants(),
            lead_step(old(self).questions_total(), old(self).rounds_done(), old(self).phase(), a, final(self).rounds_done(), final(self).phase()),
            lead_clock(old(self).time_limit(), old(self).phase(), old(self).time_left(), a, final(self).phase(), final(self).time_left()),
            a is Ignore ==> *final(self) == *old(self) && *final(state) == *old(state),
            match input {
                LeadInput::Go => if old(self).phase() is Between {
                    &&& *final(state) == *old(state)
                    &&& old(self).rounds_done() < old(self).questions_total() ==> a is MakeQuestion && final(self).phase() is Asking
                    &&& old(self).rounds_done() >= old(self).questions_total() ==> (a matches LeadAction::Finish(e) && e is Finished)
                } else {
                    a is Ignore
                },
                LeadInput::QuestionMade(q) => if old(self).phase() is Asking {
                    &&& final(state).spec_question() == q
                    &&& final(state).answers().len() == 0
                    &&& final(state).board() == old(state).board()
                    &&& final(self).phase() is Running
                    &&& final(self).time_left() == old(self).time_limit()
                    &&& a matches LeadAction::Wait(out) && out@.len() == 1 && (out@[0] matches LeadingEvent::QuestionReady(x) && x == q)
                } else {
                    a is Ignore
                },
                LeadInput::SecondPassed => if old(self).phase() is Running {
                    let t = after_second(old(self).time_left());
                    &&& final(state).spec_question() == old(state).spec_question()
                    &&& final(state).answers() == old(state).answers()
                    &&& if quiet(*old(state)) {
                        &&& final(self).phase() is Between
                        &&& a matches LeadAction::Next(out) && question_closed(old(state).board(), old(state).answers(), final(state).board(), out@)
                    } else {
                        &&& final(state).spec_remaining_time()@ == t
                        &&& if t == 0 {
                            &&& final(self).phase() is Between
                            &&& a matches LeadAction::Next(out) && out@.len() >= 1
                                && (out@[0] matches LeadingEvent::TimeUpdate(d) && d@ == t)
                                && question_closed(old(state).board(), old(state).answers(), final(state).board(), out@.skip(1))
                        } else {
                            &&& final(self).phase() is Running
                            &&& final(self).time_left() == t
                            &&& final(state).board() == old(state).board()
                            &&& a matches LeadAction::Wait(out) && out@.len() == 1
                                && (out@[0] matches LeadingEvent::TimeUpdate(d) && d@ == t)
                        }
                    }
                } else {
                    a is Ignore
                },
            },
    {
        match input {
            LeadInput::Go => {
                match self.phase {
                    LeadPhase::Between => {},
                    _ => {
                        return LeadAction::Ignore;
                    },
                }
                if self.rounds_done < self.questions_total {
                    self.phase = LeadPhase::Asking;
                    LeadAction::MakeQuestion
                } else {
                    self.phase = LeadPhase::Over;
                    LeadAction::Finish(LeadingEvent::Finished)
                }
            },
            LeadInput::QuestionMade(question) => {
                match self.phase {
                    LeadPhase::Asking => {},
                    _ => {
                        return LeadAction::Ignore;
                    },
                }
                let announcement = state.start_round(question);
                let _ = self.time_limit.duration();
                self.timer = Timer::new(self.time_limit);
                self.phase = LeadPhase::Running;
                let mut out: Vec<LeadingEvent<T>> = Vec::new();
                out.push(announcement);
                LeadAction::Wait(out)
            },
            LeadInput::SecondPassed => {
                match self.phase {
                    LeadPhase::Running => {},
                    _ => {
                        return LeadAction::Ignore;
                    },
                }
                let time_left = match self.timer.tick() {
                    Some(t) => t,
                    None => {
                        return LeadAction::Ignore;
                    },
                };
                match state.time_passed(time_left) {
                    None => self.end_question(state, Vec::new()),
                    Some(update) => {
                        let mut out: Vec<LeadingEvent<T>> = Vec::new();
                        out.push(update);
                        if time_left.is_zero() {
                            self.end_question(state, out)
                        } else {
                            LeadAction::Wait(out)
                        }
                    },
                }
            },
        }
    }
}

} // verus!
