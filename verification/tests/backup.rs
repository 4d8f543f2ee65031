use emergency_backup::backup::{backup, check_roots, wrapper_backup, BackupError, MissingRoot};
use emergency_backup::config::Config;
use emergency_backup::enumerator::Totals;
use emergency_backup::executor::Action;
use emergency_backup::limits::{get_max_open_files, Platform};
use emergency_backup::planner::{FileTask, Plan};
use emergency_backup::progress::ProgressReport;
use emergency_backup::tree::{Entry, IoErrorKind};

fn file(name: &str, size: u64) -> Entry {
    Entry::File { name: name.to_string(), size: Ok(size) }
}

fn dir(name: &str, children: Vec<Entry>) -> Entry {
    Entry::Directory { name: name.to_string(), listing: Ok(children) }
}

fn config(types: &[&str]) -> Config {
    Config {
        path_dest_backup: "/mnt/usb".to_string(),
        path_orig_backup: "/home/user/data".to_string(),
        type_files: types.iter().map(|s| s.to_string()).collect(),
        btn_rec: false,
    }
}

#[test]
fn ceiling_is_fixed_per_platform() {
    assert_eq!(get_max_open_files(Platform::Windows), 8192);
    assert_eq!(get_max_open_files(Platform::Unix), 550);
}

#[test]
fn missing_destination_is_a_precondition_error() {
    assert_eq!(check_roots(true, false), Err(BackupError::Precondition(MissingRoot::Destination)));
}

#[test]
fn missing_source_is_a_precondition_error() {
    assert_eq!(check_roots(false, true), Err(BackupError::Precondition(MissingRoot::Source)));
}

#[test]
fn missing_source_is_told_first() {
    assert_eq!(check_roots(false, false), Err(BackupError::Precondition(MissingRoot::Source)));
}

#[test]
fn roots_that_exist_pass() {
    assert_eq!(check_roots(true, true), Ok(()));
}

#[test]
fn nothing_to_copy_gives_zero_totals_and_no_plan() {
    let tree = dir("data", vec![file("a.jpg", 5), dir("sub", vec![])]);
    let prepared = wrapper_backup(&config(&[".txt"]), true, true, Some(&tree)).unwrap();
    assert_eq!(prepared.totals, Totals { file_count: 0, byte_size: 0 });
    assert!(prepared.plan.is_none());
    let prepared = wrapper_backup(&config(&[]), true, true, Some(&dir("data", vec![]))).unwrap();
    assert_eq!(prepared.totals, Totals { file_count: 0, byte_size: 0 });
    assert!(prepared.plan.is_none());
}

#[test]
fn failed_count_is_an_enumeration_error() {
    let tree = dir(
        "data",
        vec![Entry::File { name: "a.txt".to_string(), size: Err(IoErrorKind::PermissionDenied) }],
    );
    let error = wrapper_backup(&config(&[]), true, true, Some(&tree)).unwrap_err();
    assert_eq!(error, BackupError::Enumeration(IoErrorKind::PermissionDenied));
}

#[test]
fn text_files_of_a_mixed_tree() {
    let tree = dir(
        "data",
        vec![file("a.txt", 100), file("b.txt", 23), dir("pictures", vec![file("c.jpg", 4000)])],
    );
    let settings = config(&[".txt"]);
    let prepared = wrapper_backup(&settings, true, true, Some(&tree)).unwrap();
    assert_eq!(prepared.totals, Totals { file_count: 2, byte_size: 123 });
    let plan = prepared.plan.unwrap();
    assert_eq!(plan.directories, vec!["/mnt/usb", "/mnt/usb/pictures"]);
    assert_eq!(plan.tasks.len(), 3);
    let mut run = backup(plan, Ok(()), settings.type_files, true, prepared.totals.file_count, 550)
        .unwrap();
    let mut copied = Vec::new();
    let mut reports = Vec::new();
    loop {
        match run.next_action() {
            Action::Start(index) => {
                copied.push(run.task(index).destination_path.clone());
                reports.extend(run.on_completion(index, Ok(())));
            }
            Action::Wait => panic!("nothing is in flight"),
            Action::Finished => break,
        }
    }
    assert_eq!(copied, vec!["/mnt/usb/a.txt", "/mnt/usb/b.txt"]);
    assert_eq!(
        reports,
        vec![
            ProgressReport { percent: 50, copied: 1, total: 2 },
            ProgressReport { percent: 100, copied: 2, total: 2 },
        ]
    );
    assert_eq!(run.copied_files(), prepared.totals.file_count);
}

#[test]
fn directory_that_cannot_be_created_is_a_planning_error() {
    let plan = Plan {
        directories: vec!["/dst".to_string()],
        tasks: vec![FileTask { source_path: "/src/a".to_string(), destination_path: "/dst/a".to_string() }],
        failure: None,
    };
    let run = backup(plan, Err(IoErrorKind::PermissionDenied), Vec::new(), true, 1, 2);
    assert_eq!(run.err(), Some(BackupError::Planning(IoErrorKind::PermissionDenied)));
}

#[test]
fn plan_that_failed_is_a_planning_error() {
    let plan = Plan {
        directories: vec!["/dst".to_string()],
        tasks: Vec::new(),
        failure: Some(IoErrorKind::NotFound),
    };
    let run = backup(plan, Ok(()), Vec::new(), true, 1, 2);
    assert_eq!(run.err(), Some(BackupError::Planning(IoErrorKind::NotFound)));
    let plan = Plan {
        directories: vec!["/dst".to_string()],
        tasks: Vec::new(),
        failure: Some(IoErrorKind::NotFound),
    };
    let run = backup(plan, Err(IoErrorKind::AlreadyExists), Vec::new(), true, 1, 2);
    assert_eq!(run.err(), Some(BackupError::Planning(IoErrorKind::AlreadyExists)));
}

#[test]
fn totals_and_accepted_tasks_agree() {
    let tree = dir(
        "data",
        vec![
            file("a.txt", 1),
            file(".hidden", 2),
            dir("x.txt", vec![file("b.txt", 3), file("c", 4), dir("y", vec![file("d.txt", 5)])]),
            file("e.TXT", 6),
        ],
    );
    for types in [vec![], vec![".txt"], vec![".TXT", ".txt"], vec![".none"]] {
        let settings = config(&types);
        let prepared = wrapper_backup(&settings, true, true, Some(&tree)).unwrap();
        let accepted = match prepared.plan {
            None => 0,
            Some(plan) => {
                let mut run = backup(plan, Ok(()), settings.type_files, false, 1, 1).unwrap();
                while let Action::Start(index) = run.next_action() {
                    run.on_completion(index, Ok(()));
                }
                run.copied_files()
            }
        };
        assert_eq!(accepted, prepared.totals.file_count);
    }
}

#[test]
fn missing_root_ends_the_preparation_before_any_work() {
    let tree = dir("data", vec![file("a.txt", 1)]);
    let error = wrapper_backup(&config(&[]), true, false, None).unwrap_err();
    assert_eq!(error, BackupError::Precondition(MissingRoot::Destination));
    let error = wrapper_backup(&config(&[]), false, true, None).unwrap_err();
    assert_eq!(error, BackupError::Precondition(MissingRoot::Source));
    let error = wrapper_backup(&config(&[]), false, false, Some(&tree)).unwrap_err();
    assert_eq!(error, BackupError::Precondition(MissingRoot::Source));
    let error = wrapper_backup(&config(&[]), true, false, Some(&tree)).unwrap_err();
    assert_eq!(error, BackupError::Precondition(MissingRoot::Destination));
}
