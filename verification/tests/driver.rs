use buildtrace::driver::{
    collect_processes, exit_verdict, output_dir_variable, preload_variable, shim_library_name,
    Driver, EntryOutcome,
};
use buildtrace::error::BuildError;
use buildtrace::process::Process;

fn process(pid: usize, ppid: usize) -> Process {
    Process::new(pid, ppid, vec![], vec![], String::new())
}

fn failed(path: &str, cause: &str) -> EntryOutcome {
    EntryOutcome::Failed { path: String::from(path), cause: String::from(cause) }
}

#[test]
fn names_of_the_environment_contract() {
    assert_eq!(output_dir_variable(), "TRACKER_OUTPUT_PATH");
    assert_eq!(preload_variable(), "LD_PRELOAD");
    assert_eq!(shim_library_name(), "libpreload.so");
}

#[test]
fn launch_goes_through_the_interpreter_with_the_shim_injected() {
    let (_, launch) = Driver::start("make -j2", "/scratch", "/opt/trace/libpreload.so");
    assert_eq!(launch.program, "/bin/bash");
    assert_eq!(launch.args, vec![String::from("-c"), String::from("make -j2")]);
    assert_eq!(
        launch.env,
        vec![
            (String::from("LD_PRELOAD"), String::from("/opt/trace/libpreload.so")),
            (String::from("TRACKER_OUTPUT_PATH"), String::from("/scratch")),
        ]
    );
}

#[test]
fn exit_code_zero_is_success() {
    assert_eq!(exit_verdict(Some(0)), Ok(()));
}

#[test]
fn nonzero_exit_code_is_reported_with_the_code() {
    assert_eq!(exit_verdict(Some(2)), Err(BuildError::BuildTerminatedWithCode(2)));
    assert_eq!(exit_verdict(Some(-1)), Err(BuildError::BuildTerminatedWithCode(-1)));
    assert_eq!(exit_verdict(Some(255)), Err(BuildError::BuildTerminatedWithCode(255)));
}

#[test]
fn missing_exit_code_is_a_signal() {
    assert_eq!(exit_verdict(None), Err(BuildError::BuildTerminatedBySignal));
}

#[test]
fn nonzero_exit_ends_the_build_before_collection() {
    let (driver, _) = Driver::start("false", "/scratch", "libpreload.so");
    assert_eq!(driver.exited(Some(2)), Err(BuildError::BuildTerminatedWithCode(2)));
}

#[test]
fn signal_ends_the_build_before_collection() {
    let (driver, _) = Driver::start("kill -9 $$", "/scratch", "libpreload.so");
    assert_eq!(driver.exited(None), Err(BuildError::BuildTerminatedBySignal));
}

#[test]
fn clean_exit_leads_to_collection_of_the_scratch_directory() {
    let (driver, _) = Driver::start("true", "/scratch", "libpreload.so");
    let collection = driver.exited(Some(0)).unwrap();
    assert_eq!(collection.scratch_dir(), "/scratch");
}

#[test]
fn unlistable_scratch_directory_fails_the_build() {
    let (driver, _) = Driver::start("true", "/scratch", "libpreload.so");
    let collection = driver.exited(Some(0)).unwrap();
    assert_eq!(collection.listing_failed(), BuildError::ScratchDirectoryAccessFailure);
}

#[test]
fn collection_keeps_every_record_in_order() {
    let outcomes = vec![
        EntryOutcome::Parsed(process(3, 1)),
        EntryOutcome::Parsed(process(1, 0)),
        EntryOutcome::Parsed(process(2, 1)),
    ];
    assert_eq!(collect_processes(outcomes), Ok(vec![process(3, 1), process(1, 0), process(2, 1)]));
}

#[test]
fn collection_of_nothing_is_empty() {
    assert_eq!(collect_processes(vec![]), Ok(vec![]));
}

#[test]
fn first_failed_entry_fails_the_collection() {
    let outcomes = vec![
        EntryOutcome::Parsed(process(1, 0)),
        failed("/scratch/2", "unexpected end of input"),
        EntryOutcome::Parsed(process(3, 1)),
        failed("/scratch/4", "permission denied"),
    ];
    assert_eq!(
        collect_processes(outcomes),
        Err(BuildError::RecordReadOrParseFailure {
            path: String::from("/scratch/2"),
            cause: String::from("unexpected end of input"),
        })
    );
}

#[test]
fn complete_collection_of_a_tree_gives_the_build() {
    let (driver, _) = Driver::start("make", "/scratch", "libpreload.so");
    let mut collection = driver.exited(Some(0)).unwrap();
    assert!(collection.entry(EntryOutcome::Parsed(process(2, 1))));
    assert!(collection.entry(EntryOutcome::Parsed(process(1, 0))));
    let build = collection.complete().unwrap();
    assert_eq!(build.command(), "make");
    assert_eq!(build.processes(), &vec![process(2, 1), process(1, 0)]);
}

#[test]
fn complete_collection_of_an_incomplete_tree_gives_no_build() {
    let (driver, _) = Driver::start("make", "/scratch", "libpreload.so");
    let mut collection = driver.exited(Some(0)).unwrap();
    assert!(collection.entry(EntryOutcome::Parsed(process(2, 1))));
    assert!(collection.entry(EntryOutcome::Parsed(process(5, 4))));
    assert_eq!(collection.complete(), Err(BuildError::ProcessTreeIncomplete));
}

#[test]
fn complete_collection_with_duplicates_gives_no_build() {
    let (driver, _) = Driver::start("make", "/scratch", "libpreload.so");
    let mut collection = driver.exited(Some(0)).unwrap();
    assert!(collection.entry(EntryOutcome::Parsed(process(2, 1))));
    assert!(collection.entry(EntryOutcome::Parsed(process(2, 1))));
    assert_eq!(collection.complete(), Err(BuildError::DuplicateProcessIdentity));
}

#[test]
fn failed_entry_is_reported_before_integrity() {
    let (driver, _) = Driver::start("make", "/scratch", "libpreload.so");
    let mut collection = driver.exited(Some(0)).unwrap();
    assert!(collection.entry(EntryOutcome::Parsed(process(2, 1))));
    assert!(collection.entry(EntryOutcome::Parsed(process(2, 1))));
    assert!(!collection.entry(failed("/scratch/9", "not a record")));
    assert_eq!(
        collection.complete(),
        Err(BuildError::RecordReadOrParseFailure {
            path: String::from("/scratch/9"),
            cause: String::from("not a record"),
        })
    );
}

#[test]
fn empty_scratch_directory_gives_an_empty_build() {
    let (driver, _) = Driver::start("true", "/scratch", "libpreload.so");
    let build = driver.exited(Some(0)).unwrap().complete().unwrap();
    assert_eq!(build.command(), "true");
    assert!(build.processes().is_empty());
}

#[test]
fn entries_after_a_failed_one_do_not_change_the_error() {
    let (driver, _) = Driver::start("make", "/scratch", "libpreload.so");
    let mut stopped = driver.exited(Some(0)).unwrap();
    assert!(stopped.entry(EntryOutcome::Parsed(process(1, 0))));
    assert!(!stopped.entry(failed("/scratch/2", "truncated")));
    let (driver, _) = Driver::start("make", "/scratch", "libpreload.so");
    let mut read_on = driver.exited(Some(0)).unwrap();
    assert!(read_on.entry(EntryOutcome::Parsed(process(1, 0))));
    assert!(!read_on.entry(failed("/scratch/2", "truncated")));
    assert!(read_on.entry(EntryOutcome::Parsed(process(3, 1))));
    assert!(!read_on.entry(failed("/scratch/4", "unreadable")));
    let expected = Err(BuildError::RecordReadOrParseFailure {
        path: String::from("/scratch/2"),
        cause: String::from("truncated"),
    });
    assert_eq!(stopped.complete(), expected);
    assert_eq!(read_on.complete(), expected);
}
