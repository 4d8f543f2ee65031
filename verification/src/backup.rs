use crate::config::Config;
use crate::enumerator::{calculate_total_files, source_tally, within_limits, Totals};
use crate::executor::{CopyExecutor, ExecutorModel, TaskStatus};
use crate::planner::{schedule_backup_tasks, source_plan, task_models, Plan};
use crate::progress::ProgressModel;
use crate::tree::{Entry, IoErrorKind};
use vstd::prelude::*;

verus! {

/// Which of the two roots of a backup is missing.
#[derive(Clone, Copy, Debug, PartialEq, Eq, Structural)]
pub enum MissingRoot {
    Source,
    Destination,
}

/// Why a backup ended before any file was copied. A copy that fails does
/// not belong here: it is recorded by the executor and the run goes on.
#[derive(Clone, Copy, Debug, PartialEq, Eq, Structural)]
pub enum BackupError {
    /// A root does not exist. Nothing was attempted.
    Precondition(MissingRoot),
    /// A directory could not be listed, or the size of a file could not be
    /// read, while the files were counted.
    Enumeration(IoErrorKind),
    /// A destination directory could not be created, or a source directory
    /// could not be listed, while the copies were planned.
    Planning(IoErrorKind),
}

/// The verdict on the two roots: the source is looked at first.
pub open spec fn roots_verdict(source_exists: bool, destination_exists: bool) -> Result<
    (),
    BackupError,
> {
    if !source_exists {
        Err(BackupError::Precondition(MissingRoot::Source))
    } else if !destination_exists {
        Err(BackupError::Precondition(MissingRoot::Destination))
    } else {
        Ok(())
    }
}

/// Checks, before any work, that both roots exist.
pub fn check_roots(source_exists: bool, destination_exists: bool) -> (verdict: Result<
    (),
    BackupError,
>)
    ensures
        verdict == roots_verdict(source_exists, destination_exists),
{
    if !source_exists {
        Err(BackupError::Precondition(MissingRoot::Source))
    } else if !destination_exists {
        Err(BackupError::Precondition(MissingRoot::Destination))
    } else {
        Ok(())
    }
}

/// What a backup starts from: the totals, and the plan if there is
/// anything to copy.
#[derive(Debug)]
pub struct Prepared {
    pub totals: Totals,
    pub plan: Option<Plan>,
}

/// What preparing the backup of a snapshot comes to. The files are
/// counted, and a failure there ends the backup. If the filter accepts no
/// file there is nothing to copy: the totals are zero and there is no plan.
/// Otherwise the mirroring is planned from the source root to the
/// destination root.
pub open spec fn prepared_from(
    prepared: Result<Prepared, BackupError>,
    source: Entry,
    type_files: Seq<String>,
    source_root: Seq<char>,
    destination_root: Seq<char>,
) -> bool {
    match source_tally(source, type_files) {
        Err(kind) => prepared == Err::<Prepared, BackupError>(BackupError::Enumeration(kind)),
        Ok(sums) => prepared is Ok && prepared->Ok_0.totals.file_count == sums.0
            && prepared->Ok_0.totals.byte_size == sums.1 && if sums.0 == 0 {
            prepared->Ok_0.plan is None
        } else {
            prepared->Ok_0.plan is Some && prepared->Ok_0.plan->Some_0@ == source_plan(
                source,
                source_root,
                destination_root,
            )
        },
    }
}

/// Prepares the backup that `config` describes. The caller says whether
/// the two roots exist and, where both do, hands over the snapshot of the
/// tree at the configured origin. The roots are checked before any work: a
/// missing root is the error, whatever else was handed over. Then the
/// files are counted and, if there are any to copy, the mirroring is
/// planned under the configured destination.
pub fn wrapper_backup(
    config: &Config,
    source_exists: bool,
    destination_exists: bool,
    source: Option<&Entry>,
) -> (prepared: Result<Prepared, BackupError>)
    requires
        source_exists && destination_exists ==> source is Some && within_limits(
            *source->Some_0,
            config.type_files@,
        ),
    ensures
        match roots_verdict(source_exists, destination_exists) {
            Err(error) => prepared == Err::<Prepared, BackupError>(error),
            Ok(_) => prepared_from(
                prepared,
                *source->Some_0,
                config.type_files@,
                config.path_orig_backup@,
                config.path_dest_backup@,
            ),
        },
{
    match check_roots(source_exists, destination_exists) {
        Err(error) => {
            return Err(error);
        },
        Ok(_) => {},
    }
    let source = source.unwrap();
    match calculate_total_files(source, &config.type_files) {
        Err(kind) => Err(BackupError::Enumeration(kind)),
        Ok(totals) => {
            if totals.file_count > 0 {
                let plan = schedule_backup_tasks(
                    source,
                    config.path_orig_backup.as_str(),
                    config.path_dest_backup.as_str(),
                );
                Ok(Prepared { totals, plan: Some(plan) })
            } else {
                Ok(Prepared { totals, plan: None })
            }
        },
    }
}

/// The failure that keeps a plan from being executed, if any: a
/// destination directory that could not be created comes before a source
/// directory that could not be listed, since the directories of the plan
/// are those met before that listing.
pub open spec fn planning_failure(created: Result<(), IoErrorKind>, failure: Option<IoErrorKind>)
    -> Option<IoErrorKind> {
    match created {
        Err(kind) => Some(kind),
        Ok(_) => failure,
    }
}

/// Sets up the copies of a plan whose directories the caller has tried to
/// create, in the order of the plan; `created` is the outcome. A plan that
/// failed, or whose directories could not all be created, is not executed:
/// a partial list of tasks is not safe to run. Otherwise the executor
/// stands at the start of its run, with every planned task.
pub fn backup(
    plan: Plan,
    created: Result<(), IoErrorKind>,
    type_files: Vec<String>,
    verbose: bool,
    total_files: usize,
    max_file_opened: usize,
) -> (run: Result<CopyExecutor, BackupError>)
    requires
        total_files > 0,
        max_file_opened > 0,
        plan.tasks@.len() * 100 <= usize::MAX,
    ensures
        match planning_failure(created, plan.failure) {
            Some(kind) => run == Err::<CopyExecutor, BackupError>(BackupError::Planning(kind)),
            None => run is Ok && run->Ok_0@.wf() && run->Ok_0@ == (ExecutorModel {
                tasks: task_models(plan.tasks@),
                status: Seq::new(plan.tasks@.len(), |i: int| TaskStatus::Waiting),
                type_files: type_files@,
                verbose,
                total_files: total_files as nat,
                max_concurrency: max_file_opened as nat,
                in_flight: 0,
                next: 0,
                progress: ProgressModel { copied: 0, last_percent: 0, reported: Seq::empty() },
                failures: Seq::empty(),
            }),
        },
{
    match created {
        Err(kind) => Err(BackupError::Planning(kind)),
        Ok(_) => match plan.failure {
            Some(kind) => Err(BackupError::Planning(kind)),
            None => Ok(
                CopyExecutor::new(plan.tasks, type_files, verbose, total_files, max_file_opened),
            ),
        },
    }
}

} // verus!
