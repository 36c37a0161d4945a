//! The build scheduler of a watch session.
//!
//! Changes are collected in a backlog while a build runs. One worker at a
//! time drains the backlog and builds what it found; when it finds the
//! backlog empty it stops, and the next change starts a new worker. The
//! scheduler only keeps the books: its owner runs the worker and the builds,
//! and guards the scheduler against concurrent callers.

use crate::builds::ChangeType;
use vstd::prelude::*;

verus! {

/// A set of change kinds.
#[derive(Debug, Clone, Copy, PartialEq, Eq, Structural)]
pub struct Backlog {
    rust: bool,
    typescript: bool,
}

impl View for Backlog {
    type V = Set<ChangeType>;

    closed spec fn view(&self) -> Set<ChangeType> {
        Set::new(
            |c: ChangeType|
                match c {
                    ChangeType::Rust => self.rust,
                    ChangeType::TypeScript => self.typescript,
                },
        )
    }
}

impl Backlog {
    /// The set without members.
    pub fn empty() -> (b: Backlog)
        ensures
            b@ == Set::<ChangeType>::empty(),
    {
        let b = Backlog { rust: false, typescript: false };
        assert(b@ =~= Set::<ChangeType>::empty());
        b
    }

    /// Adds `change` to the set.
    pub fn insert(&mut self, change: ChangeType)
        ensures
            final(self)@ == old(self)@.insert(change),
    {
        match change {
            ChangeType::Rust => {
                self.rust = true;
            },
            ChangeType::TypeScript => {
                self.typescript = true;
            },
        }
        assert(self@ =~= old(self)@.insert(change));
    }

    /// Whether `change` is in the set.
    pub fn contains(&self, change: ChangeType) -> (r: bool)
        ensures
            r == self@.contains(change),
    {
        match change {
            ChangeType::Rust => self.rust,
            ChangeType::TypeScript => self.typescript,
        }
    }

    /// Whether the set has no members.
    pub fn is_empty(&self) -> (r: bool)
        ensures
            r == (self@ == Set::<ChangeType>::empty()),
    {
        let r = !self.rust && !self.typescript;
        proof {
            if r {
                assert(self@ =~= Set::<ChangeType>::empty());
            } else if self.rust {
                assert(self@.contains(ChangeType::Rust));
            } else {
                assert(self@.contains(ChangeType::TypeScript));
            }
        }
        r
    }
}

/// One external build step of a pipeline.
#[derive(Debug, Clone, Copy, PartialEq, Eq, Structural)]
pub enum Stage {
    /// Compiling the core.
    NativeCompile,
    /// Packaging the compiled core as WebAssembly.
    WasmPackaging,
    /// Building the web front end with its bundler.
    WebBundle,
    /// Running the post-build script.
    Hook,
}

/// The set that holds a web front end change and nothing else.
pub open spec fn web_only() -> Set<ChangeType> {
    set![ChangeType::TypeScript]
}

/// The stages that bring a build up to date with `changes`, in the order
/// in which they run. A change to the web front end alone needs the bundler
/// only. Any other change needs everything: the core is compiled and
/// packaged, the front end is bundled against the new package, and the
/// post-build script, if there is one, runs last.
pub open spec fn stages_for(changes: Set<ChangeType>, hook: bool) -> Seq<Stage> {
    if changes == Set::<ChangeType>::empty() {
        Seq::empty()
    } else if changes == web_only() {
        seq![Stage::WebBundle]
    } else if hook {
        seq![Stage::NativeCompile, Stage::WasmPackaging, Stage::WebBundle, Stage::Hook]
    } else {
        seq![Stage::NativeCompile, Stage::WasmPackaging, Stage::WebBundle]
    }
}

/// Whether running `stage` takes up a change of kind `change`.
pub open spec fn rebuilds(stage: Stage, change: ChangeType) -> bool {
    match change {
        ChangeType::Rust => stage == Stage::NativeCompile,
        ChangeType::TypeScript => stage == Stage::WebBundle,
    }
}

/// The stages to run for a batch of changes.
pub fn select_stages(changes: &Backlog, hook: bool) -> (stages: Vec<Stage>)
    ensures
        stages@ == stages_for(changes@, hook),
{
    let mut stages: Vec<Stage> = Vec::new();
    if changes.is_empty() {
        return stages;
    }
    if !changes.contains(ChangeType::Rust) {
        proof {
            if !changes@.contains(ChangeType::TypeScript) {
                assert(changes@ =~= Set::<ChangeType>::empty());
            }
            assert(changes@ =~= web_only());
        }
        stages.push(Stage::WebBundle);
        return stages;
    }
    assert(!web_only().contains(ChangeType::Rust));
    stages.push(Stage::NativeCompile);
    stages.push(Stage::WasmPackaging);
    stages.push(Stage::WebBundle);
    if hook {
        stages.push(Stage::Hook);
    }
    stages
}

/// The policy of the pipeline: a batch that holds a web front end change
/// and nothing else selects the bundler alone, and every other batch that
/// is not empty selects the full sequence, which ends with the post-build
/// script where there is one.
pub proof fn lemma_stage_policy(changes: Set<ChangeType>, hook: bool)
    requires
        changes != Set::<ChangeType>::empty(),
    ensures
        changes == web_only() ==> stages_for(changes, hook) == seq![Stage::WebBundle],
        changes != web_only() ==> stages_for(changes, hook) == seq![
            Stage::NativeCompile,
            Stage::WasmPackaging,
            Stage::WebBundle,
        ] + (if hook {
            seq![Stage::Hook]
        } else {
            Seq::empty()
        }),
        changes == web_only() <==> !changes.contains(ChangeType::Rust),
{
    if !changes.contains(ChangeType::Rust) {
        if !changes.contains(ChangeType::TypeScript) {
            assert(changes =~= Set::<ChangeType>::empty());
        }
        assert(changes =~= web_only());
    } else {
        assert(!web_only().contains(ChangeType::Rust));
    }
    if changes != web_only() {
        assert(stages_for(changes, hook) =~= seq![
            Stage::NativeCompile,
            Stage::WasmPackaging,
            Stage::WebBundle,
        ] + (if hook {
            seq![Stage::Hook]
        } else {
            Seq::empty()
        }));
    }
}

/// Every change of a batch is taken up by one of the stages selected for
/// the batch.
pub proof fn lemma_stages_cover_changes(changes: Set<ChangeType>, hook: bool, change: ChangeType)
    requires
        changes.contains(change),
    ensures
        exists|i: int|
            0 <= i < stages_for(changes, hook).len() && rebuilds(
                #[trigger] stages_for(changes, hook)[i],
                change,
            ),
{
    let stages = stages_for(changes, hook);
    assert(changes != Set::<ChangeType>::empty());
    if changes == web_only() {
        assert(rebuilds(stages[0], change));
    } else {
        match change {
            ChangeType::Rust => {
                assert(rebuilds(stages[0], change));
            },
            ChangeType::TypeScript => {
                assert(rebuilds(stages[2], change));
            },
        }
    }
}

/// The state of the scheduler as a plain value.
pub struct SchedulerState {
    /// Whether a worker is alive.
    pub running: bool,
    /// The changes that no build has taken up yet.
    pub backlog: Set<ChangeType>,
}

/// What can happen to a scheduler.
pub enum Op {
    /// A change is reported.
    Enqueue(ChangeType),
    /// The worker takes the backlog, at its start or after a build.
    Drain,
    /// The worker is gone without having found the backlog empty.
    WorkerLost,
}

impl SchedulerState {
    /// The state of a new scheduler.
    pub open spec fn initial() -> SchedulerState {
        SchedulerState { running: false, backlog: Set::empty() }
    }

    /// No worker is alive and nothing is pending.
    pub open spec fn quiescent(self) -> bool {
        !self.running && self.backlog == Set::<ChangeType>::empty()
    }

    /// The state after `op`.
    pub open spec fn after(self, op: Op) -> SchedulerState {
        match op {
            Op::Enqueue(change) => SchedulerState {
                running: true,
                backlog: self.backlog.insert(change),
            },
            Op::Drain => SchedulerState {
                running: self.backlog != Set::<ChangeType>::empty(),
                backlog: Set::empty(),
            },
            Op::WorkerLost => SchedulerState { running: false, backlog: self.backlog },
        }
    }

    /// Whether `op` asks the owner to start a worker.
    pub open spec fn starts_worker(self, op: Op) -> bool {
        op is Enqueue && !self.running
    }

    /// Whether `op` ends the life of a worker.
    pub open spec fn ends_worker(self, op: Op) -> bool {
        match op {
            Op::Enqueue(_) => false,
            Op::Drain => self.backlog == Set::<ChangeType>::empty(),
            Op::WorkerLost => true,
        }
    }

    /// The state after the operations `ops`, taken in order.
    pub open spec fn after_all(self, ops: Seq<Op>) -> SchedulerState
        decreases ops.len(),
    {
        if ops.len() == 0 {
            self
        } else {
            self.after_all(ops.drop_last()).after(ops.last())
        }
    }
}

/// The number of workers alive after `ops`, when `workers` were alive
/// before and the owner starts one whenever it is asked to.
pub open spec fn workers_after(state: SchedulerState, workers: int, ops: Seq<Op>) -> int
    decreases ops.len(),
{
    if ops.len() == 0 {
        workers
    } else {
        let before = state.after_all(ops.drop_last());
        let alive = workers_after(state, workers, ops.drop_last());
        if before.starts_worker(ops.last()) {
            alive + 1
        } else if before.ends_worker(ops.last()) {
            alive - 1
        } else {
            alive
        }
    }
}

/// Whether `ops` keeps to the worker's protocol: only a live worker drains
/// the backlog or is lost.
pub open spec fn worker_protocol(state: SchedulerState, ops: Seq<Op>) -> bool
    decreases ops.len(),
{
    if ops.len() == 0 {
        true
    } else {
        worker_protocol(state, ops.drop_last()) && (ops.last() is Enqueue || state.after_all(
            ops.drop_last(),
        ).running)
    }
}

/// The changes reported in `ops` after its last `Drain`.
pub open spec fn reported_since_drain(ops: Seq<Op>) -> Set<ChangeType>
    decreases ops.len(),
{
    if ops.len() == 0 {
        Set::empty()
    } else {
        match ops.last() {
            Op::Enqueue(change) => reported_since_drain(ops.drop_last()).insert(change),
            Op::Drain => Set::empty(),
            Op::WorkerLost => reported_since_drain(ops.drop_last()),
        }
    }
}

/// Single flight: whatever the order in which changes are reported and the
/// worker drains, at most one worker is alive, and one is alive exactly
/// while the scheduler says that it is running.
pub proof fn lemma_single_flight(ops: Seq<Op>)
    requires
        worker_protocol(SchedulerState::initial(), ops),
    ensures
        workers_after(SchedulerState::initial(), 0, ops) == (if SchedulerState::initial().after_all(
            ops,
        ).running {
            1int
        } else {
            0int
        }),
    decreases ops.len(),
{
    if ops.len() > 0 {
        lemma_single_flight(ops.drop_last());
    }
}

/// No change is lost: after any operations on a new scheduler the backlog
/// holds exactly the changes reported since the worker last drained it, so
/// the next drain hands all of them to a build.
pub proof fn lemma_backlog_is_reported_since_drain(ops: Seq<Op>)
    ensures
        SchedulerState::initial().after_all(ops).backlog == reported_since_drain(ops),
    decreases ops.len(),
{
    if ops.len() > 0 {
        lemma_backlog_is_reported_since_drain(ops.drop_last());
    }
}

/// A scheduler with pending changes is running, as long as no worker was
/// lost: a reported change always has a worker that will take it up.
pub proof fn lemma_pending_implies_running(ops: Seq<Op>)
    requires
        forall|i: int| 0 <= i < ops.len() ==> !(#[trigger] ops[i] is WorkerLost),
    ensures
        SchedulerState::initial().after_all(ops).backlog != Set::<ChangeType>::empty()
            ==> SchedulerState::initial().after_all(ops).running,
    decreases ops.len(),
{
    if ops.len() > 0 {
        let front = ops.drop_last();
        assert forall|i: int| 0 <= i < front.len() implies !(#[trigger] front[i] is WorkerLost) by {
            assert(front[i] == ops[i]);
        }
        lemma_pending_implies_running(front);
        assert(!(ops[ops.len() - 1] is WorkerLost));
    }
}

/// The scheduler: whether a worker is alive, and the changes that wait for
/// the next build.
#[derive(Debug, Clone, Copy, PartialEq, Eq, Structural)]
pub struct BacklogBuilder {
    running: bool,
    backlog: Backlog,
}

impl View for BacklogBuilder {
    type V = SchedulerState;

    closed spec fn view(&self) -> SchedulerState {
        SchedulerState { running: self.running, backlog: self.backlog@ }
    }
}

impl BacklogBuilder {
    /// A scheduler at rest: no worker, nothing pending.
    pub fn new() -> (s: BacklogBuilder)
        ensures
            s@ == SchedulerState::initial(),
    {
        BacklogBuilder { running: false, backlog: Backlog::empty() }
    }

    /// Whether a worker is alive.
    pub fn is_running(&self) -> (r: bool)
        ensures
            r == self@.running,
    {
        self.running
    }

    /// The changes that wait for the next build.
    pub fn pending(&self) -> (b: Backlog)
        ensures
            b@ == self@.backlog,
    {
        self.backlog
    }

    /// Reports a change. The change joins the backlog. The result says
    /// whether the caller must start a worker: it must when none was alive,
    /// and the scheduler counts that worker as alive from now on.
    pub fn enqueue(&mut self, change: ChangeType) -> (start_worker: bool)
        ensures
            final(self)@ == old(self)@.after(Op::Enqueue(change)),
            start_worker == old(self)@.starts_worker(Op::Enqueue(change)),
    {
        self.backlog.insert(change);
        let start_worker = !self.running;
        self.running = true;
        start_worker
    }

    /// The worker's step, taken when it starts and after each build: takes
    /// everything out of the backlog. With something to build the batch is
    /// returned and the worker stays alive. With nothing, `None` is
    /// returned: the worker must stop, and the scheduler is at rest.
    pub fn drain(&mut self) -> (batch: Option<Backlog>)
        ensures
            final(self)@ == old(self)@.after(Op::Drain),
            batch is None <==> old(self)@.backlog == Set::<ChangeType>::empty(),
            batch matches Some(b) ==> b@ == old(self)@.backlog,
            batch is None ==> final(self)@.quiescent(),
    {
        let batch = self.backlog;
        self.backlog = Backlog::empty();
        if batch.is_empty() {
            self.running = false;
            None
        } else {
            self.running = true;
            Some(batch)
        }
    }

    /// Records that the worker is gone although it did not find the backlog
    /// empty. What is pending stays pending, and the next change that is
    /// reported starts a new worker.
    pub fn worker_lost(&mut self)
        ensures
            final(self)@ == old(self)@.after(Op::WorkerLost),
    {
        self.running = false;
    }
}

} // verus!
