use emergency_backup::executor::{Action, CopyExecutor, CopyFailure};
use emergency_backup::limiter::PermitPool;
use emergency_backup::planner::FileTask;
use emergency_backup::progress::{print_progress, ProgressReport, ProgressState};
use emergency_backup::tree::IoErrorKind;

fn task(name: &str) -> FileTask {
    FileTask { source_path: format!("/src/{}", name), destination_path: format!("/dst/{}", name) }
}

fn tasks(names: &[&str]) -> Vec<FileTask> {
    names.iter().map(|n| task(n)).collect()
}

fn types(list: &[&str]) -> Vec<String> {
    list.iter().map(|s| s.to_string()).collect()
}

/// Drives a run to its end: every copy that is started ends at once when
/// `eager`, else only when nothing more can be started. Returns the tasks in
/// the order they were started, the reports, and the highest number of
/// copies that were in flight.
fn drive(
    executor: &mut CopyExecutor,
    eager: bool,
    fails: &[usize],
) -> (Vec<usize>, Vec<ProgressReport>, usize) {
    let mut started = Vec::new();
    let mut running: Vec<usize> = Vec::new();
    let mut reports = Vec::new();
    let mut peak = 0;
    loop {
        let action = executor.next_action();
        assert!(executor.in_flight() <= executor.max_concurrency());
        assert_eq!(executor.in_flight(), running.len() + if let Action::Start(_) = action { 1 } else { 0 });
        match action {
            Action::Start(index) => {
                started.push(index);
                running.push(index);
                peak = peak.max(running.len());
                if !eager {
                    continue;
                }
            }
            Action::Wait => assert!(!running.is_empty()),
            Action::Finished => {
                assert!(running.is_empty());
                return (started, reports, peak);
            }
        }
        let index = running.remove(0);
        assert!(executor.is_in_flight(index));
        let outcome = if fails.contains(&index) { Err(IoErrorKind::NotFound) } else { Ok(()) };
        if let Some(report) = executor.on_completion(index, outcome) {
            reports.push(report);
        }
    }
}

#[test]
fn pool_hands_out_no_more_than_its_permits() {
    let mut pool = PermitPool::new(2);
    assert_eq!(pool.max_concurrency(), 2);
    assert_eq!(pool.available(), 2);
    assert!(pool.try_acquire());
    assert!(pool.try_acquire());
    assert!(!pool.try_acquire());
    assert_eq!(pool.held(), 2);
    assert_eq!(pool.available(), 0);
    pool.release();
    assert_eq!(pool.held(), 1);
    assert!(pool.try_acquire());
    assert!(!pool.try_acquire());
    assert_eq!(pool.held(), 2);
}

#[test]
fn pool_of_one_permit() {
    let mut pool = PermitPool::new(1);
    assert!(pool.try_acquire());
    assert!(!pool.try_acquire());
    pool.release();
    assert_eq!(pool.held(), 0);
    assert!(pool.try_acquire());
}

#[test]
fn progress_is_reported_when_the_percentage_rises() {
    let mut last = 0;
    assert_eq!(
        print_progress(1, 2, &mut last),
        Some(ProgressReport { percent: 50, copied: 1, total: 2 })
    );
    assert_eq!(last, 50);
    assert_eq!(print_progress(1, 2, &mut last), None);
    assert_eq!(last, 50);
    assert_eq!(
        print_progress(2, 2, &mut last),
        Some(ProgressReport { percent: 100, copied: 2, total: 2 })
    );
    assert_eq!(last, 100);
}

#[test]
fn progress_rounds_down() {
    let mut last = 0;
    assert_eq!(
        print_progress(1, 3, &mut last),
        Some(ProgressReport { percent: 33, copied: 1, total: 3 })
    );
    assert_eq!(
        print_progress(2, 3, &mut last),
        Some(ProgressReport { percent: 66, copied: 2, total: 3 })
    );
    assert_eq!(
        print_progress(3, 3, &mut last),
        Some(ProgressReport { percent: 100, copied: 3, total: 3 })
    );
}

#[test]
fn progress_below_one_percent_is_not_reported() {
    let mut last = 0;
    assert_eq!(print_progress(1, 200, &mut last), None);
    assert_eq!(last, 0);
    assert_eq!(
        print_progress(2, 200, &mut last),
        Some(ProgressReport { percent: 1, copied: 2, total: 200 })
    );
    assert_eq!(print_progress(3, 200, &mut last), None);
}

#[test]
fn progress_state_counts_and_reports() {
    let mut state = ProgressState::new();
    assert_eq!(state.copied_count(), 0);
    assert_eq!(state.last_reported_percent(), 0);
    assert_eq!(state.record(4, true), Some(ProgressReport { percent: 25, copied: 1, total: 4 }));
    assert_eq!(state.record(4, false), None);
    assert_eq!(state.copied_count(), 2);
    assert_eq!(state.last_reported_percent(), 25);
    assert_eq!(state.record(4, true), Some(ProgressReport { percent: 75, copied: 3, total: 4 }));
    assert_eq!(state.record(4, true), Some(ProgressReport { percent: 100, copied: 4, total: 4 }));
    assert_eq!(state.last_reported_percent(), 100);
}

#[test]
fn two_text_files_report_fifty_and_hundred() {
    let planned = tasks(&["a.txt", "b.txt", "pictures/c.jpg"]);
    for max in [1, 2, 8] {
        let mut executor = CopyExecutor::new(tasks(&["a.txt", "b.txt", "pictures/c.jpg"]), types(&[".txt"]), true, 2, max);
        assert_eq!(executor.task_count(), planned.len());
        let (started, reports, _) = drive(&mut executor, max == 1, &[]);
        assert_eq!(started, vec![0, 1]);
        assert_eq!(
            reports,
            vec![
                ProgressReport { percent: 50, copied: 1, total: 2 },
                ProgressReport { percent: 100, copied: 2, total: 2 },
            ]
        );
        assert_eq!(executor.copied_files(), 2);
        assert_eq!(executor.failed_files(), 0);
        assert_eq!(executor.last_printed_percent(), 100);
    }
}

#[test]
fn one_failed_copy_does_not_end_the_run() {
    let mut executor =
        CopyExecutor::new(tasks(&["a", "b", "c", "d", "e"]), types(&[]), true, 5, 2);
    let (started, reports, peak) = drive(&mut executor, false, &[2]);
    assert_eq!(started, vec![0, 1, 2, 3, 4]);
    assert_eq!(peak, 2);
    assert_eq!(executor.copied_files(), 5);
    assert_eq!(executor.failed_files(), 1);
    assert_eq!(executor.copied_files() - executor.failed_files(), 4);
    assert_eq!(executor.failure(0), CopyFailure { task: 2, kind: IoErrorKind::NotFound });
    assert_eq!(reports.iter().map(|r| r.percent).collect::<Vec<_>>(), vec![20, 40, 60, 80, 100]);
    assert_eq!(executor.next_action(), Action::Finished);
}

#[test]
fn copies_in_flight_stay_under_the_ceiling() {
    for max in [1usize, 2, 3, 7, 50] {
        let names: Vec<String> = (0..20).map(|i| format!("f{}", i)).collect();
        let planned: Vec<FileTask> = names.iter().map(|n| task(n)).collect();
        let mut executor = CopyExecutor::new(planned, types(&[]), false, 20, max);
        let (started, reports, peak) = drive(&mut executor, false, &[]);
        assert_eq!(started, (0..20).collect::<Vec<_>>());
        assert_eq!(peak, max.min(20));
        assert!(reports.is_empty());
        assert_eq!(executor.copied_files(), 20);
    }
}

#[test]
fn executor_waits_when_no_permit_is_free() {
    let mut executor = CopyExecutor::new(tasks(&["a", "b", "c"]), types(&[]), true, 3, 2);
    assert!(!executor.is_in_flight(0));
    assert_eq!(executor.next_action(), Action::Start(0));
    assert_eq!(executor.next_action(), Action::Start(1));
    assert_eq!(executor.next_action(), Action::Wait);
    assert_eq!(executor.next_action(), Action::Wait);
    assert_eq!(executor.in_flight(), 2);
    assert!(executor.is_in_flight(0));
    assert!(executor.is_in_flight(1));
    assert!(!executor.is_in_flight(2));
    assert!(!executor.is_in_flight(3));
    assert_eq!(
        executor.on_completion(1, Ok(())),
        Some(ProgressReport { percent: 33, copied: 1, total: 3 })
    );
    assert_eq!(executor.in_flight(), 1);
    assert!(!executor.is_in_flight(1));
    assert_eq!(executor.next_action(), Action::Start(2));
    assert_eq!(executor.next_action(), Action::Wait);
    assert_eq!(
        executor.on_completion(0, Err(IoErrorKind::PermissionDenied)),
        Some(ProgressReport { percent: 66, copied: 2, total: 3 })
    );
    assert_eq!(executor.next_action(), Action::Wait);
    assert_eq!(
        executor.on_completion(2, Ok(())),
        Some(ProgressReport { percent: 100, copied: 3, total: 3 })
    );
    assert_eq!(executor.next_action(), Action::Finished);
    assert_eq!(executor.next_action(), Action::Finished);
    assert_eq!(executor.failure(0), CopyFailure { task: 0, kind: IoErrorKind::PermissionDenied });
}

#[test]
fn rejected_tasks_are_passed_over_silently() {
    let mut executor = CopyExecutor::new(
        tasks(&["a.jpg", "b.txt", "c", "d.txt", "e.jpg"]),
        types(&[".txt"]),
        true,
        2,
        4,
    );
    assert_eq!(executor.next_action(), Action::Start(1));
    assert_eq!(executor.task(1).source_path, "/src/b.txt");
    assert_eq!(executor.task(1).destination_path, "/dst/b.txt");
    assert_eq!(executor.next_action(), Action::Start(3));
    assert_eq!(executor.next_action(), Action::Wait);
    assert!(!executor.is_in_flight(0));
    assert!(!executor.is_in_flight(2));
    assert!(executor.is_in_flight(3));
    executor.on_completion(3, Ok(()));
    executor.on_completion(1, Ok(()));
    assert_eq!(executor.next_action(), Action::Finished);
    assert_eq!(executor.copied_files(), 2);
}

#[test]
fn run_without_accepted_tasks_is_finished_at_once() {
    let mut executor = CopyExecutor::new(tasks(&["a.jpg"]), types(&[".txt"]), true, 1, 4);
    assert_eq!(executor.next_action(), Action::Finished);
    let mut executor = CopyExecutor::new(Vec::new(), types(&[]), true, 1, 4);
    assert_eq!(executor.next_action(), Action::Finished);
    assert_eq!(executor.copied_files(), 0);
}

#[test]
fn percentages_rise_strictly_whatever_the_ceiling() {
    for max in [1usize, 2, 5, 300] {
        for total in [1usize, 3, 7, 100, 250] {
            let planned: Vec<FileTask> = (0..total).map(|i| task(&format!("f{}", i))).collect();
            let mut executor = CopyExecutor::new(planned, types(&[]), true, total, max);
            let (_, reports, _) = drive(&mut executor, false, &[]);
            assert!(reports.windows(2).all(|w| w[0].percent < w[1].percent));
            assert_eq!(reports.last().unwrap().percent, 100);
            assert_eq!(reports.len(), total.min(100));
        }
    }
}
