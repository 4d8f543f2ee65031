use crate::filter::{is_file_accepted, passes_filter};
use crate::limiter::PermitPool;
use crate::planner::{task_models, FileTask, TaskModel};
use crate::progress::{
    lemma_percent_monotonic, percent_of, ProgressModel, ProgressReport, ProgressState,
};
use crate::tree::IoErrorKind;
use vstd::prelude::*;

verus! {

/// What the executor asks of its driver next.
#[derive(Clone, Copy, Debug, PartialEq, Eq, Structural)]
pub enum Action {
    /// Copy the task with this index, and hand its outcome back when the
    /// copy is over. A permit is held for it from now on.
    Start(usize),
    /// Nothing can be started now: hand back the outcome of a running copy.
    Wait,
    /// Every copy is over.
    Finished,
}

/// A copy that failed: the index of its task and why.
#[derive(Clone, Copy, Debug, PartialEq, Eq, Structural)]
pub struct CopyFailure {
    pub task: usize,
    pub kind: IoErrorKind,
}

/// Where a task stands in a run.
#[derive(Clone, Copy, Debug, PartialEq, Eq, Structural)]
pub enum TaskStatus {
    /// Not started: not reached yet, or rejected by the filter.
    Waiting,
    /// Its copy runs and holds a permit.
    InFlight,
    /// Its copy is over, well or not.
    Processed,
}

/// The state of a run of the executor, as mathematical values.
pub struct ExecutorModel {
    pub tasks: Seq<TaskModel>,
    pub status: Seq<TaskStatus>,
    pub type_files: Seq<String>,
    pub verbose: bool,
    pub total_files: nat,
    pub max_concurrency: nat,
    pub in_flight: nat,
    pub next: nat,
    pub progress: ProgressModel,
    pub failures: Seq<CopyFailure>,
}

/// The first task from `from` on that the filter accepts, or the number of
/// tasks where it accepts none.
pub open spec fn next_accepted(tasks: Seq<TaskModel>, type_files: Seq<String>, from: nat) -> nat
    decreases tasks.len() - from,
{
    if from >= tasks.len() {
        tasks.len()
    } else if passes_filter(tasks[from as int].source_path, type_files) {
        from
    } else {
        next_accepted(tasks, type_files, from + 1)
    }
}

/// How many of the first `upto` tasks the filter accepts.
pub open spec fn accepted_before(tasks: Seq<TaskModel>, type_files: Seq<String>, upto: nat) -> nat
    decreases upto,
{
    if upto == 0 || upto > tasks.len() {
        0
    } else {
        accepted_before(tasks, type_files, (upto - 1) as nat) + if passes_filter(
            tasks[upto - 1].source_path,
            type_files,
        ) {
            1nat
        } else {
            0nat
        }
    }
}

/// No more tasks are accepted than there are.
pub proof fn lemma_accepted_before_bounded(
    tasks: Seq<TaskModel>,
    type_files: Seq<String>,
    upto: nat,
)
    ensures
        accepted_before(tasks, type_files, upto) <= upto,
        accepted_before(tasks, type_files, upto) <= tasks.len(),
    decreases upto,
{
    if upto > 0 && upto <= tasks.len() {
        lemma_accepted_before_bounded(tasks, type_files, (upto - 1) as nat);
    }
}

/// Passing over rejected tasks changes nothing in the number accepted.
pub proof fn lemma_next_accepted(tasks: Seq<TaskModel>, type_files: Seq<String>, from: nat)
    requires
        from <= tasks.len(),
    ensures
        from <= next_accepted(tasks, type_files, from) <= tasks.len(),
        accepted_before(tasks, type_files, next_accepted(tasks, type_files, from))
            == accepted_before(tasks, type_files, from),
        next_accepted(tasks, type_files, from) < tasks.len() ==> passes_filter(
            tasks[next_accepted(tasks, type_files, from) as int].source_path,
            type_files,
        ),
        forall|i: int|
            from <= i < next_accepted(tasks, type_files, from) ==> !passes_filter(
                (#[trigger] tasks[i]).source_path,
                type_files,
            ),
    decreases tasks.len() - from,
{
    if from < tasks.len() && !passes_filter(tasks[from as int].source_path, type_files) {
        lemma_next_accepted(tasks, type_files, from + 1);
    }
}

/// How many of the first `upto` tasks stand at `which`.
pub open spec fn count_status(status: Seq<TaskStatus>, which: TaskStatus, upto: nat) -> nat
    decreases upto,
{
    if upto == 0 || upto > status.len() {
        0
    } else {
        count_status(status, which, (upto - 1) as nat) + if status[upto - 1] == which {
            1nat
        } else {
            0nat
        }
    }
}

/// Moving one task to another status moves one unit of the counts.
pub proof fn lemma_count_after_update(
    status: Seq<TaskStatus>,
    at: int,
    to: TaskStatus,
    which: TaskStatus,
    upto: nat,
)
    requires
        0 <= at < status.len(),
        upto <= status.len(),
    ensures
        count_status(status.update(at, to), which, upto) + if at < upto && status[at] == which {
            1nat
        } else {
            0nat
        } == count_status(status, which, upto) + if at < upto && to == which {
            1nat
        } else {
            0nat
        },
    decreases upto,
{
    if upto > 0 {
        lemma_count_after_update(status, at, to, which, (upto - 1) as nat);
    }
}

/// Where no task stands at a status, its count is zero, and the other way
/// round.
pub proof fn lemma_count_is_zero(status: Seq<TaskStatus>, which: TaskStatus, upto: nat)
    requires
        upto <= status.len(),
    ensures
        count_status(status, which, upto) == 0 <==> forall|i: int|
            0 <= i < upto ==> status[i] != which,
    decreases upto,
{
    if upto > 0 {
        lemma_count_is_zero(status, which, (upto - 1) as nat);
        if count_status(status, which, upto) == 0 {
            assert forall|i: int| 0 <= i < upto implies status[i] != which by {
                if i < upto - 1 {
                }
            }
        }
    }
}

impl ExecutorModel {
    /// Number of copies that are over, failed ones included.
    pub open spec fn processed(self) -> nat {
        self.progress.copied
    }

    /// What holds of every state of a run: the copies in flight stay within
    /// the ceiling; a task waits exactly if it was not reached yet or is
    /// rejected by the filter; as many tasks are in flight as permits are
    /// held, and as many are processed as were counted; every accepted task
    /// that was passed is either in flight or over; no more failures are
    /// recorded than copies are over; the
    /// progress counters are sound; a run that reports its progress has
    /// last reported the share of the files processed, and one that does
    /// not has reported nothing.
    pub open spec fn wf(self) -> bool {
        &&& 0 < self.max_concurrency
        &&& self.in_flight <= self.max_concurrency
        &&& 0 < self.total_files
        &&& self.tasks.len() * 100 <= usize::MAX
        &&& self.next <= self.tasks.len()
        &&& self.status.len() == self.tasks.len()
        &&& forall|i: int|
            0 <= i < self.tasks.len() ==> ((#[trigger] self.status[i]) == TaskStatus::Waiting <==> i
                >= self.next || !passes_filter(self.tasks[i].source_path, self.type_files))
        &&& count_status(self.status, TaskStatus::InFlight, self.status.len()) == self.in_flight
        &&& count_status(self.status, TaskStatus::Processed, self.status.len())
            == self.processed()
        &&& self.processed() + self.in_flight == accepted_before(
            self.tasks,
            self.type_files,
            self.next,
        )
        &&& self.failures.len() <= self.processed()
        &&& self.progress.wf()
        &&& if self.verbose {
            self.progress.last_percent == percent_of(self.processed(), self.total_files)
        } else {
            self.progress.reported.len() == 0
        }
    }

    /// The task that would be started next, or the number of tasks where
    /// none is left.
    pub open spec fn candidate(self) -> nat {
        next_accepted(self.tasks, self.type_files, self.next)
    }

    /// The action that the state calls for. A task that the filter rejects
    /// is passed over silently. A task that it accepts is started if a
    /// permit is free; if none is, or if no task is left while copies still
    /// run, the driver waits; when nothing is left and nothing runs, the
    /// run is finished.
    pub open spec fn action(self) -> Action {
        if self.candidate() < self.tasks.len() {
            if self.in_flight < self.max_concurrency {
                Action::Start(self.candidate() as usize)
            } else {
                Action::Wait
            }
        } else if self.in_flight > 0 {
            Action::Wait
        } else {
            Action::Finished
        }
    }

    /// The state after the action was handed out.
    pub open spec fn after_action(self) -> ExecutorModel {
        if self.candidate() < self.tasks.len() && self.in_flight < self.max_concurrency {
            ExecutorModel {
                next: self.candidate() + 1,
                in_flight: self.in_flight + 1,
                status: self.status.update(self.candidate() as int, TaskStatus::InFlight),
                ..self
            }
        } else {
            ExecutorModel { next: self.candidate(), ..self }
        }
    }

    /// The state after a copy ended: its permit is free again, it counts as
    /// processed whether it succeeded or not, and a failure is recorded.
    pub open spec fn after_completion(self, task: usize, outcome: Result<(), IoErrorKind>)
        -> ExecutorModel {
        ExecutorModel {
            in_flight: (self.in_flight - 1) as nat,
            status: self.status.update(task as int, TaskStatus::Processed),
            progress: self.progress.recorded(self.total_files, self.verbose),
            failures: match outcome {
                Ok(_) => self.failures,
                Err(kind) => self.failures.push(CopyFailure { task, kind }),
            },
            ..self
        }
    }

    /// The run is over: nothing runs and nothing is left to start.
    pub open spec fn finished(self) -> bool {
        self.in_flight == 0 && self.candidate() >= self.tasks.len()
    }
}

/// The copy executor: it decides which copy starts when, under the ceiling
/// of its permit pool, and keeps the progress counters. Its driver performs
/// the copies and hands their outcomes back.
pub struct CopyExecutor {
    tasks: Vec<FileTask>,
    status: Vec<TaskStatus>,
    type_files: Vec<String>,
    verbose: bool,
    total_files: usize,
    pool: PermitPool,
    next: usize,
    progress: ProgressState,
    failures: Vec<CopyFailure>,
}

impl View for CopyExecutor {
    type V = ExecutorModel;

    closed spec fn view(&self) -> ExecutorModel {
        ExecutorModel {
            tasks: task_models(self.tasks@),
            status: self.status@,
            type_files: self.type_files@,
            verbose: self.verbose,
            total_files: self.total_files as nat,
            max_concurrency: self.pool.capacity(),
            in_flight: self.pool.in_use(),
            next: self.next as nat,
            progress: self.progress@,
            failures: self.failures@,
        }
    }
}

impl CopyExecutor {
    /// An executor for `tasks` at the start of its run: nothing started,
    /// nothing processed, nothing reported.
    pub fn new(
        tasks: Vec<FileTask>,
        type_files: Vec<String>,
        verbose: bool,
        total_files: usize,
        max_file_opened: usize,
    ) -> (executor: CopyExecutor)
        requires
            total_files > 0,
            max_file_opened > 0,
            tasks.len() * 100 <= usize::MAX,
        ensures
            executor@ == (ExecutorModel {
                tasks: task_models(tasks@),
                status: Seq::new(tasks@.len(), |i: int| TaskStatus::Waiting),
                type_files: type_files@,
                verbose,
                total_files: total_files as nat,
                max_concurrency: max_file_opened as nat,
                in_flight: 0,
                next: 0,
                progress: ProgressModel { copied: 0, last_percent: 0, reported: Seq::empty() },
                failures: Seq::empty(),
            }),
            executor@.wf(),
    {
        let mut status: Vec<TaskStatus> = Vec::new();
        while status.len() < tasks.len()
            invariant
                status@.len() <= tasks@.len(),
                forall|i: int| 0 <= i < status@.len() ==> status@[i] == TaskStatus::Waiting,
            decreases tasks@.len() - status@.len(),
        {
            status.push(TaskStatus::Waiting);
        }
        proof {
            assert(status@ =~= Seq::new(tasks@.len(), |i: int| TaskStatus::Waiting));
            lemma_count_is_zero(status@, TaskStatus::InFlight, status@.len());
            lemma_count_is_zero(status@, TaskStatus::Processed, status@.len());
        }
        CopyExecutor {
            tasks,
            status,
            type_files,
            verbose,
            total_files,
            pool: PermitPool::new(max_file_opened),
            next: 0,
            progress: ProgressState::new(),
            failures: Vec::new(),
        }
    }

    /// Whether the copy of the task with the given index runs.
    pub fn is_in_flight(&self, index: usize) -> (running: bool)
        requires
            self@.wf(),
        ensures
            running == (index < self@.tasks.len() && self@.status[index as int]
                == TaskStatus::InFlight),
    {
        index < self.status.len() && self.status[index] == TaskStatus::InFlight
    }

    /// The task with the given index.
    pub fn task(&self, index: usize) -> (task: &FileTask)
        requires
            index < self@.tasks.len(),
        ensures
            task@ == self@.tasks[index as int],
    {
        &self.tasks[index]
    }

    /// Number of planned tasks, rejected ones included.
    pub fn task_count(&self) -> (n: usize)
        ensures
            n == self@.tasks.len(),
    {
        self.tasks.len()
    }

    /// Number of copies that hold a permit at the moment.
    pub fn in_flight(&self) -> (n: usize)
        ensures
            n == self@.in_flight,
    {
        self.pool.held()
    }

    /// The ceiling on the copies in flight.
    pub fn max_concurrency(&self) -> (n: usize)
        ensures
            n == self@.max_concurrency,
    {
        self.pool.max_concurrency()
    }

    /// Number of copies that are over, failed ones included.
    pub fn copied_files(&self) -> (n: usize)
        ensures
            n == self@.processed(),
    {
        self.progress.copied_count()
    }

    /// The last percentage reported, 0 before the first.
    pub fn last_printed_percent(&self) -> (n: usize)
        ensures
            n == self@.progress.last_percent,
    {
        self.progress.last_reported_percent()
    }

    /// Number of copies that failed.
    pub fn failed_files(&self) -> (n: usize)
        ensures
            n == self@.failures.len(),
    {
        self.failures.len()
    }

    /// The failure recorded with the given index, in the order in which the
    /// failures were handed back.
    pub fn failure(&self, index: usize) -> (failure: CopyFailure)
        requires
            index < self@.failures.len(),
        ensures
            failure == self@.failures[index as int],
    {
        self.failures[index]
    }

    /// Decides what the driver does next, and takes the permit if that is
    /// to start a copy.
    pub fn next_action(&mut self) -> (action: Action)
        requires
            old(self)@.wf(),
        ensures
            action == old(self)@.action(),
            final(self)@ == old(self)@.after_action(),
            final(self)@.wf(),
            action == Action::Finished <==> old(self)@.finished(),
    {
        proof {
            lemma_next_accepted(self@.tasks, self@.type_files, self@.next);
        }
        while self.next < self.tasks.len() && !is_file_accepted(
            self.tasks[self.next].source_path.as_str(),
            &self.type_files,
        )
            invariant
                self.next <= self.tasks.len(),
                self.tasks == old(self).tasks,
                self.status == old(self).status,
                self.type_files == old(self).type_files,
                self.verbose == old(self).verbose,
                self.total_files == old(self).total_files,
                self.pool == old(self).pool,
                self.progress == old(self).progress,
                self.failures == old(self).failures,
                old(self)@.next <= self.next,
                forall|i: int|
                    old(self)@.next <= i < self.next ==> !passes_filter(
                        (#[trigger] self@.tasks[i]).source_path,
                        self@.type_files,
                    ),
                next_accepted(self@.tasks, self@.type_files, self.next as nat) == old(
                    self,
                )@.candidate(),
            decreases self.tasks.len() - self.next,
        {
            self.next = self.next + 1;
        }
        if self.next < self.tasks.len() {
            if self.pool.try_acquire() {
                let index = self.next;
                let ghost waiting = self.status@;
                self.status.set(index, TaskStatus::InFlight);
                self.next = self.next + 1;
                proof {
                    lemma_accepted_before_bounded(self@.tasks, self@.type_files, self@.next);
                    lemma_count_after_update(
                        waiting,
                        index as int,
                        TaskStatus::InFlight,
                        TaskStatus::InFlight,
                        waiting.len(),
                    );
                    lemma_count_after_update(
                        waiting,
                        index as int,
                        TaskStatus::InFlight,
                        TaskStatus::Processed,
                        waiting.len(),
                    );
                }
                Action::Start(index)
            } else {
                Action::Wait
            }
        } else if self.pool.held() > 0 {
            Action::Wait
        } else {
            Action::Finished
        }
    }

    /// Takes the outcome of the copy of `task`, which is in flight: its
    /// permit is released, it counts as processed, a failure is recorded
    /// and does not end the run, and the progress is reported if the
    /// percentage rose.
    pub fn on_completion(&mut self, task: usize, outcome: Result<(), IoErrorKind>) -> (report:
        Option<ProgressReport>)
        requires
            old(self)@.wf(),
            task < old(self)@.tasks.len(),
            old(self)@.status[task as int] == TaskStatus::InFlight,
        ensures
            final(self)@ == old(self)@.after_completion(task, outcome),
            report == old(self)@.progress.report(old(self)@.total_files, old(self)@.verbose),
            final(self)@.wf(),
    {
        proof {
            lemma_accepted_before_bounded(self@.tasks, self@.type_files, self@.next);
            lemma_percent_monotonic(
                self@.processed(),
                self@.processed() + 1,
                self@.total_files,
            );
            lemma_count_is_zero(self@.status, TaskStatus::InFlight, self@.status.len());
            lemma_count_after_update(
                self@.status,
                task as int,
                TaskStatus::Processed,
                TaskStatus::InFlight,
                self@.status.len(),
            );
            lemma_count_after_update(
                self@.status,
                task as int,
                TaskStatus::Processed,
                TaskStatus::Processed,
                self@.status.len(),
            );
        }
        self.status.set(task, TaskStatus::Processed);
        self.pool.release();
        match outcome {
            Ok(_) => {},
            Err(kind) => {
                self.failures.push(CopyFailure { task, kind });
            },
        }
        self.progress.record(self.total_files, self.verbose)
    }
}

/// At no point of a run do more copies hold open files than the ceiling
/// allows.
pub proof fn lemma_concurrency_bounded(state: ExecutorModel)
    requires
        state.wf(),
    ensures
        state.in_flight <= state.max_concurrency,
{
}

/// When a run is finished, every task that the filter accepts has been
/// processed exactly once: the number of copies that are over is the number
/// of accepted tasks.
pub proof fn lemma_finished_run_processed_all(state: ExecutorModel)
    requires
        state.wf(),
        state.finished(),
    ensures
        state.processed() == accepted_before(state.tasks, state.type_files, state.tasks.len()),
{
    lemma_next_accepted(state.tasks, state.type_files, state.next);
}

/// When a run is finished, the tasks that the filter accepts are exactly
/// the tasks that are processed, and no other task was ever started.
pub proof fn lemma_finished_run_processed_each(state: ExecutorModel, i: int)
    requires
        state.wf(),
        state.finished(),
        0 <= i < state.tasks.len(),
    ensures
        state.status[i] == if passes_filter(state.tasks[i].source_path, state.type_files) {
            TaskStatus::Processed
        } else {
            TaskStatus::Waiting
        },
{
    lemma_next_accepted(state.tasks, state.type_files, state.next);
    lemma_count_is_zero(state.status, TaskStatus::InFlight, state.status.len());
}

/// A run that reports its progress and has processed as many files as
/// were expected has reported one hundred percent, and that last.
pub proof fn lemma_complete_run_reported_all(state: ExecutorModel)
    requires
        state.wf(),
        state.verbose,
        state.processed() == state.total_files,
    ensures
        state.progress.reported.len() > 0,
        state.progress.reported.last() == 100,
        state.progress.last_percent == 100,
{
    assert(state.total_files * 100 / state.total_files == 100) by (nonlinear_arith)
        requires
            state.total_files > 0,
    ;
}

} // verus!
