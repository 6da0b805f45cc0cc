//! The step dispatcher's decisions. The caller launches each step as a
//! process and reports how it ended; the dispatcher says what to do next,
//! and stops the run at the first step that fails.

use vstd::prelude::*;
use crate::graph::texts;
use crate::paths::{SkillEntry, SkillEntryView, skill_binary_text};

verus! {

/// How the launch of one step ended.
#[derive(Debug, Clone, PartialEq, Eq)]
pub enum StepOutcome {
    /// The process ran and exited, with its exit code where it has one.
    Exited(Option<i32>),
    /// The process could not be started; the text says why.
    LaunchFailed(String),
}

/// What a `StepOutcome` stands for in contracts.
pub enum StepOutcomeView {
    Exited(Option<i32>),
    LaunchFailed(Seq<char>),
}

impl View for StepOutcome {
    type V = StepOutcomeView;

    open spec fn view(&self) -> StepOutcomeView {
        match self {
            StepOutcome::Exited(code) => StepOutcomeView::Exited(*code),
            StepOutcome::LaunchFailed(cause) => StepOutcomeView::LaunchFailed(cause@),
        }
    }
}

impl StepOutcomeView {
    /// The step ran and exited with code zero.
    pub open spec fn is_success(self) -> bool {
        self == StepOutcomeView::Exited(Some(0i32))
    }
}

/// Why a run was stopped.
#[derive(Debug, Clone, PartialEq, Eq)]
pub enum DispatchError {
    /// The step `id` exited, and not with code zero.
    StepFailed { id: String, exit_code: Option<i32> },
    /// The binary of the step `id` could not be started.
    ProcessLaunch { id: String, cause: String },
}

/// What a `DispatchError` stands for in contracts.
pub enum DispatchErrorView {
    StepFailed { id: Seq<char>, exit_code: Option<i32> },
    ProcessLaunch { id: Seq<char>, cause: Seq<char> },
}

impl View for DispatchError {
    type V = DispatchErrorView;

    open spec fn view(&self) -> DispatchErrorView {
        match self {
            DispatchError::StepFailed { id, exit_code } => DispatchErrorView::StepFailed {
                id: id@,
                exit_code: *exit_code,
            },
            DispatchError::ProcessLaunch { id, cause } => DispatchErrorView::ProcessLaunch {
                id: id@,
                cause: cause@,
            },
        }
    }
}

/// What a run that went through reports: how many steps it ran.
#[derive(Debug, Clone, Copy, PartialEq, Eq, Structural)]
pub struct Summary {
    pub steps_run: usize,
}

/// How a run ended, in contracts.
pub open spec fn verdict_view(verdict: Result<Summary, DispatchError>) -> Result<
    Summary,
    DispatchErrorView,
> {
    match verdict {
        Ok(summary) => Ok(summary),
        Err(e) => Err(e@),
    }
}

/// What the caller is to do next.
#[derive(Debug, PartialEq, Eq)]
pub enum DispatchAction {
    /// Launch this skill, wait for it, and report how it ended.
    Launch(SkillEntry),
    /// The run is over.
    Finished(Result<Summary, DispatchError>),
}

/// What a `DispatchAction` stands for in contracts.
pub enum DispatchActionView {
    Launch(SkillEntryView),
    Finished(Result<Summary, DispatchErrorView>),
}

impl View for DispatchAction {
    type V = DispatchActionView;

    open spec fn view(&self) -> DispatchActionView {
        match self {
            DispatchAction::Launch(entry) => DispatchActionView::Launch(entry@),
            DispatchAction::Finished(verdict) => DispatchActionView::Finished(
                verdict_view(*verdict),
            ),
        }
    }
}

/// Where a run stands.
pub enum Phase {
    /// The step at this place of the order is the next to report.
    Waiting(nat),
    /// The run is over.
    Done(Result<Summary, DispatchErrorView>),
}

/// The state of a run in contracts: the order and where the run stands.
pub struct RunState {
    pub order: Seq<Seq<char>>,
    pub phase: Phase,
}

impl RunState {
    /// The state before any step was launched.
    pub open spec fn initial(order: Seq<Seq<char>>) -> RunState {
        RunState {
            order,
            phase: if order.len() == 0 {
                Phase::Done(Ok(Summary { steps_run: 0 }))
            } else {
                Phase::Waiting(0)
            },
        }
    }

    /// A waiting run waits for a step of its order.
    pub open spec fn is_valid(self) -> bool {
        match self.phase {
            Phase::Waiting(at) => at < self.order.len(),
            Phase::Done(_) => true,
        }
    }

    /// What the caller is to do in this state.
    pub open spec fn action(self) -> DispatchActionView {
        match self.phase {
            Phase::Waiting(at) => DispatchActionView::Launch(
                SkillEntryView {
                    name: self.order[at as int],
                    path: skill_binary_text(self.order[at as int]),
                },
            ),
            Phase::Done(verdict) => DispatchActionView::Finished(verdict),
        }
    }

    /// The state after the step that the run waited for has ended with
    /// `outcome`. A run that is over stays as it is.
    pub open spec fn after(self, outcome: StepOutcomeView) -> RunState {
        match self.phase {
            Phase::Done(_) => self,
            Phase::Waiting(at) => {
                let id = self.order[at as int];
                let phase = match outcome {
                    StepOutcomeView::LaunchFailed(cause) => Phase::Done(
                        Err(DispatchErrorView::ProcessLaunch { id, cause }),
                    ),
                    StepOutcomeView::Exited(exit_code) => if outcome.is_success() {
                        if at + 1 < self.order.len() {
                            Phase::Waiting(at + 1)
                        } else {
                            Phase::Done(Ok(Summary { steps_run: self.order.len() as usize }))
                        }
                    } else {
                        Phase::Done(Err(DispatchErrorView::StepFailed { id, exit_code }))
                    },
                };
                RunState { order: self.order, phase }
            },
        }
    }

    /// The state after the outcomes of `outcomes` were reported one by one.
    pub open spec fn replay(self, outcomes: Seq<StepOutcomeView>) -> RunState
        decreases outcomes.len(),
    {
        if outcomes.len() == 0 {
            self
        } else {
            self.after(outcomes[0]).replay(outcomes.drop_first())
        }
    }
}

impl DispatchError {
    /// A copy of this error.
    pub fn duplicate(&self) -> (copy: DispatchError)
        ensures
            copy@ == self@,
    {
        match self {
            DispatchError::StepFailed { id, exit_code } => DispatchError::StepFailed {
                id: id.clone(),
                exit_code: *exit_code,
            },
            DispatchError::ProcessLaunch { id, cause } => DispatchError::ProcessLaunch {
                id: id.clone(),
                cause: cause.clone(),
            },
        }
    }
}

impl StepOutcome {
    /// Whether the step ran and exited with code zero.
    pub fn is_success(&self) -> (b: bool)
        ensures
            b == self@.is_success(),
    {
        match self {
            StepOutcome::Exited(Some(code)) => *code == 0,
            _ => false,
        }
    }
}

/// One run over an execution order.
#[derive(Debug)]
pub struct Dispatcher {
    order: Vec<String>,
    cursor: usize,
    verdict: Option<Result<Summary, DispatchError>>,
}

impl View for Dispatcher {
    type V = RunState;

    closed spec fn view(&self) -> RunState {
        RunState {
            order: texts(self.order@),
            phase: match self.verdict {
                Some(verdict) => Phase::Done(verdict_view(verdict)),
                None => Phase::Waiting(self.cursor as nat),
            },
        }
    }
}

impl Dispatcher {
    #[verifier::type_invariant]
    spec fn inv(self) -> bool {
        self.verdict is None ==> self.cursor < self.order@.len()
    }

    /// A run over `order`, before its first step.
    pub fn new(order: Vec<String>) -> (run: Dispatcher)
        ensures
            run@ == RunState::initial(texts(order@)),
            run@.is_valid(),
    {
        let verdict = if order.len() == 0 {
            Some(Ok(Summary { steps_run: 0 }))
        } else {
            None
        };
        Dispatcher { order, cursor: 0, verdict }
    }

    /// Whether the run is over.
    pub fn is_finished(&self) -> (b: bool)
        ensures
            b == (self@.phase is Done),
    {
        self.verdict.is_some()
    }

    /// What the caller is to do now.
    pub fn action(&self) -> (action: DispatchAction)
        ensures
            self@.is_valid(),
            action@ == self@.action(),
    {
        proof {
            use_type_invariant(self);
        }
        match &self.verdict {
            Some(Ok(summary)) => DispatchAction::Finished(Ok(*summary)),
            Some(Err(e)) => DispatchAction::Finished(Err(e.duplicate())),
            None => DispatchAction::Launch(SkillEntry::of_skill(self.order[self.cursor].as_str())),
        }
    }

    /// Takes the outcome of the step that was launched last, and says what
    /// the caller is to do next.
    pub fn advance(&mut self, outcome: StepOutcome) -> (action: DispatchAction)
        ensures
            final(self)@ == old(self)@.after(outcome@),
            final(self)@.is_valid(),
            action@ == final(self)@.action(),
    {
        proof {
            use_type_invariant(&*self);
        }
        if self.verdict.is_none() {
            let success = outcome.is_success();
            let count = self.order.len();
            match outcome {
                StepOutcome::LaunchFailed(cause) => {
                    let id = self.order[self.cursor].clone();
                    self.verdict = Some(Err(DispatchError::ProcessLaunch { id, cause }));
                },
                StepOutcome::Exited(exit_code) => {
                    if !success {
                        let id = self.order[self.cursor].clone();
                        self.verdict = Some(Err(DispatchError::StepFailed { id, exit_code }));
                    } else if self.cursor + 1 < count {
                        self.cursor = self.cursor + 1;
                    } else {
                        self.verdict = Some(Ok(Summary { steps_run: count }));
                    }
                },
            }
        }
        self.action()
    }
}

} // verus!
