//! What every build shares: the environment a build is made for, the kinds
//! of source change that trigger one, and the bookkeeping of a run of steps
//! that stops at the first failure.

use vstd::prelude::*;

verus! {

/// The environment a build is made for.
#[derive(Debug, Clone, Copy, PartialEq, Eq, Structural)]
pub enum Env {
    Dev,
    Release,
}

impl Env {
    /// The tag that names the environment on a command line.
    pub open spec fn tag(self) -> Seq<char> {
        match self {
            Env::Dev => "dev"@,
            Env::Release => "release"@,
        }
    }

    /// The environment's tag as a string.
    pub fn to_string(&self) -> (s: String)
        ensures
            s@ == self.tag(),
    {
        match self {
            Env::Dev => "dev".to_owned(),
            Env::Release => "release".to_owned(),
        }
    }
}

/// The kind of source file that changed.
#[derive(Debug, Clone, Copy, PartialEq, Eq, Hash, Structural)]
pub enum ChangeType {
    /// A source file of the compiled core.
    Rust,
    /// A source file of the web front end.
    TypeScript,
}

/// One thing that a builder asks its caller to do.
#[derive(Debug, Clone, PartialEq, Eq)]
pub enum Step {
    /// Create the directory, and those above it that are missing.
    CreateDir(String),
    /// Run the command.
    Run(crate::exec::Config),
    /// Copy the directory `from` into the directory `to`.
    CopyDir { from: String, to: String, overwrite: bool },
}

/// A step as plain values.
pub enum StepView {
    CreateDir(Seq<char>),
    Run(crate::exec::ConfigView),
    CopyDir { from: Seq<char>, to: Seq<char>, overwrite: bool },
}

impl View for Step {
    type V = StepView;

    open spec fn view(&self) -> StepView {
        match self {
            Step::CreateDir(path) => StepView::CreateDir(path@),
            Step::Run(config) => StepView::Run(config@),
            Step::CopyDir { from, to, overwrite } => StepView::CopyDir {
                from: from@,
                to: to@,
                overwrite: *overwrite,
            },
        }
    }
}

/// The views of a vector of steps.
pub open spec fn step_views(steps: Seq<Step>) -> Seq<StepView> {
    steps.map_values(|s: Step| s@)
}

/// Why a step failed.
#[derive(Debug, PartialEq, Eq)]
pub enum Failure {
    /// The file system refused; the text says why.
    Io(String),
    /// The command gave an error.
    Exec(crate::exec::Error),
}

impl Failure {
    /// The failure as text.
    pub open spec fn describe(self) -> Seq<char> {
        match self {
            Failure::Io(reason) => reason@,
            Failure::Exec(err) => crate::exec::describe(err),
        }
    }

    /// The failure as a line of text.
    pub fn to_string(&self) -> (s: String)
        ensures
            s@ == self.describe(),
    {
        match self {
            Failure::Io(reason) => reason.clone(),
            Failure::Exec(err) => err.to_string(),
        }
    }
}

/// How far a run of steps has come, as plain values.
pub struct Run {
    /// The number of steps in the run.
    pub total: nat,
    /// The number of steps that succeeded.
    pub done: nat,
    /// Whether the step numbered `done` failed.
    pub failed: bool,
}

impl Run {
    /// No more steps succeeded than the run has, and a failed step is one
    /// of the run.
    pub open spec fn wf(self) -> bool {
        self.done <= self.total && (self.failed ==> self.done < self.total)
    }

    /// A run of `total` steps, none taken yet.
    pub open spec fn start(total: nat) -> Run {
        Run { total, done: 0, failed: false }
    }

    /// The step to take now, if the run goes on.
    pub open spec fn current(self) -> Option<nat> {
        if !self.failed && self.done < self.total {
            Some(self.done)
        } else {
            None
        }
    }

    /// The run after the current step succeeded (`ok`) or failed. A run
    /// that has ended stays as it is.
    pub open spec fn after(self, ok: bool) -> Run {
        if self.current() is None {
            self
        } else if ok {
            Run { done: self.done + 1, ..self }
        } else {
            Run { failed: true, ..self }
        }
    }

    /// The run after the reports `reports`, taken in order.
    pub open spec fn after_all(self, reports: Seq<bool>) -> Run
        decreases reports.len(),
    {
        if reports.len() == 0 {
            self
        } else {
            self.after_all(reports.drop_last()).after(reports.last())
        }
    }
}

/// A failure ends a run: once a step has failed, no step is taken any
/// more, whatever is reported.
pub proof fn lemma_failure_ends_run(run: Run, reports: Seq<bool>)
    requires
        run.failed,
    ensures
        run.after_all(reports) == run,
        run.after_all(reports).current() is None,
    decreases reports.len(),
{
    if reports.len() > 0 {
        lemma_failure_ends_run(run, reports.drop_last());
    }
}

/// The steps of a run are taken in order: whatever is reported to a new
/// run, the steps before the current one have succeeded, and the run
/// stays well formed.
pub proof fn lemma_steps_in_order(total: nat, reports: Seq<bool>)
    ensures
        Run::start(total).after_all(reports).wf(),
        Run::start(total).after_all(reports).total == total,
        Run::start(total).after_all(reports).done <= reports.len(),
        forall|i: int|
            0 <= i < Run::start(total).after_all(reports).done ==> #[trigger] reports[i],
    decreases reports.len(),
{
    if reports.len() > 0 {
        let front = reports.drop_last();
        lemma_steps_in_order(total, front);
        let before = Run::start(total).after_all(front);
        let now = Run::start(total).after_all(reports);
        assert forall|i: int| 0 <= i < now.done implies #[trigger] reports[i] by {
            if i < before.done {
                assert(front[i] == reports[i]);
            } else {
                lemma_done_counts_reports(total, front);
            }
        }
    }
}

/// While a new run goes on, every report so far was a success.
proof fn lemma_done_counts_reports(total: nat, reports: Seq<bool>)
    ensures
        ({
            let run = Run::start(total).after_all(reports);
            run.current() is Some ==> run.done == reports.len()
        }),
    decreases reports.len(),
{
    if reports.len() > 0 {
        lemma_done_counts_reports(total, reports.drop_last());
    }
}

/// How far a run of steps has come. The steps are numbered from 0; they are
/// taken in order, one at a time, and the first failure ends the run.
#[derive(Debug, Clone, Copy, PartialEq, Eq, Structural)]
pub struct Progress {
    total: usize,
    done: usize,
    failed: bool,
}

impl View for Progress {
    type V = Run;

    closed spec fn view(&self) -> Run {
        Run { total: self.total as nat, done: self.done as nat, failed: self.failed }
    }
}

impl Progress {
    #[verifier::type_invariant]
    spec fn inv(self) -> bool {
        self@.wf()
    }

    /// A run of `total` steps, none taken yet.
    pub fn new(total: usize) -> (p: Progress)
        ensures
            p@ == Run::start(total as nat),
    {
        Progress { total, done: 0, failed: false }
    }

    /// The step to take now, or `None` once the run has ended.
    pub fn current(&self) -> (step: Option<usize>)
        ensures
            self@.wf(),
            match self@.current() {
                Some(index) => step == Some(index as usize) && index <= usize::MAX,
                None => step is None,
            },
    {
        proof {
            use_type_invariant(self);
        }
        if !self.failed && self.done < self.total {
            Some(self.done)
        } else {
            None
        }
    }

    /// Records how the current step went.
    pub fn report(&mut self, ok: bool)
        ensures
            old(self)@.wf(),
            final(self)@.wf(),
            final(self)@ == old(self)@.after(ok),
    {
        proof {
            use_type_invariant(&*self);
        }
        if !self.failed && self.done < self.total {
            if ok {
                self.done = self.done + 1;
            } else {
                self.failed = true;
            }
        }
    }

    /// Whether every step succeeded.
    pub fn succeeded(&self) -> (r: bool)
        ensures
            r == (!self@.failed && self@.done == self@.total),
    {
        !self.failed && self.done == self.total
    }

    /// The step that failed, if one did.
    pub fn failed_step(&self) -> (step: Option<usize>)
        ensures
            self@.failed ==> step == Some(self@.done as usize) && self@.done <= usize::MAX,
            !self@.failed ==> step is None,
    {
        if self.failed {
            Some(self.done)
        } else {
            None
        }
    }
}

} // verus!
