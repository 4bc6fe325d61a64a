use buildtrace::event::{Event, EventData};
use buildtrace::shim::{Logfile, Shim};

fn strings(items: &[&str]) -> Vec<String> {
    items.iter().map(|s| String::from(*s)).collect()
}

fn attach(output_dir: Option<&str>) -> Shim {
    Shim::on_attach(
        output_dir.map(String::from),
        100,
        99,
        strings(&["make", "-j4"]),
        strings(&["HOME=/root", "TRACKER_OUTPUT_PATH=/scratch"]),
        String::from("/work"),
        7,
        1_000,
    )
}

#[test]
fn new_logfile_is_empty() {
    let log = Logfile::new(3, 2, strings(&["a"]), strings(&["K=V"]), String::from("/w"), "/out");
    assert_eq!(log.process().pid, 3);
    assert_eq!(log.process().ppid, 2);
    assert_eq!(log.process().argv, strings(&["a"]));
    assert_eq!(log.process().envp, strings(&["K=V"]));
    assert_eq!(log.process().working_dir, "/w");
    assert!(log.process().events.is_empty());
    assert_eq!(log.filepath(), "/out/3");
}

#[test]
fn add_appends_in_order() {
    let mut log = Logfile::new(3, 2, vec![], vec![], String::new(), "/out");
    let first = Event::new(1, 10, EventData::ShimLoaded);
    let second = Event::new(2, 20, EventData::Exit { function_name: String::from("exit"), status: 1 });
    log.add(first.clone());
    log.add(second.clone());
    assert_eq!(log.process().events, vec![first.clone(), second.clone()]);
    let (path, record) = log.finish();
    assert_eq!(path, "/out/3");
    assert_eq!(record.pid, 3);
    assert_eq!(record.events, vec![first, second]);
}

#[test]
fn attached_shim_starts_with_the_loaded_mark() {
    let shim = attach(Some("/scratch"));
    assert!(shim.is_active());
    let record = shim.record_in_progress().unwrap();
    assert_eq!(record.pid, 100);
    assert_eq!(record.ppid, 99);
    assert_eq!(record.argv, strings(&["make", "-j4"]));
    assert_eq!(record.envp, strings(&["HOME=/root", "TRACKER_OUTPUT_PATH=/scratch"]));
    assert_eq!(record.working_dir, "/work");
    assert_eq!(record.events, vec![Event::new(7, 1_000, EventData::ShimLoaded)]);
}

#[test]
fn shim_without_output_directory_is_inert() {
    let mut shim = attach(None);
    assert!(!shim.is_active());
    assert!(shim.record_in_progress().is_none());
    shim.record_exit(String::from("exit"), 0, 7, 2_000);
    shim.record_exec(String::from("execve"), String::from("/bin/ls"), vec![], vec![], 7, 2_001);
    assert!(!shim.is_active());
    assert!(shim.record_in_progress().is_none());
    assert_eq!(shim.on_detach(7, 3_000), None);
}

#[test]
fn intercepted_calls_are_recorded_in_order() {
    let mut shim = attach(Some("/scratch"));
    shim.record_exec(
        String::from("execve"),
        String::from("/usr/bin/cc"),
        strings(&["cc", "-c", "a.c"]),
        strings(&["PATH=/usr/bin"]),
        8,
        1_100,
    );
    shim.record_exit(String::from("_exit"), 2, 9, 1_200);
    let record = shim.record_in_progress().unwrap();
    assert_eq!(
        record.events,
        vec![
            Event::new(7, 1_000, EventData::ShimLoaded),
            Event::new(
                8,
                1_100,
                EventData::Exec {
                    function_name: String::from("execve"),
                    filename: String::from("/usr/bin/cc"),
                    argv: strings(&["cc", "-c", "a.c"]),
                    envp: strings(&["PATH=/usr/bin"]),
                }
            ),
            Event::new(9, 1_200, EventData::Exit { function_name: String::from("_exit"), status: 2 }),
        ]
    );
}

#[test]
fn detached_shim_hands_over_the_closed_record() {
    let mut shim = attach(Some("/scratch"));
    shim.record_exit(String::from("exit"), 0, 7, 1_500);
    let (path, record) = shim.on_detach(7, 2_000).unwrap();
    assert_eq!(path, "/scratch/100");
    assert_eq!(record.pid, 100);
    assert_eq!(record.ppid, 99);
    assert_eq!(record.argv, strings(&["make", "-j4"]));
    assert_eq!(record.working_dir, "/work");
    assert_eq!(
        record.events,
        vec![
            Event::new(7, 1_000, EventData::ShimLoaded),
            Event::new(7, 1_500, EventData::Exit { function_name: String::from("exit"), status: 0 }),
            Event::new(7, 2_000, EventData::ShimUnloaded),
        ]
    );
}

#[test]
fn detached_shim_is_inert_afterwards() {
    let mut shim = attach(Some("/scratch"));
    assert!(shim.on_detach(7, 2_000).is_some());
    assert!(!shim.is_active());
    shim.record_exit(String::from("exit"), 0, 7, 2_100);
    assert!(shim.record_in_progress().is_none());
    assert_eq!(shim.on_detach(7, 2_200), None);
}

#[test]
fn every_call_adds_exactly_one_event() {
    let calls: usize = 64;
    let mut shim = attach(Some("/scratch"));
    for i in 0..calls {
        shim.record_exit(String::from("exit"), i, 1_000 + i, 5_000 + i);
        assert_eq!(shim.record_in_progress().unwrap().events.len(), i + 2);
    }
    assert_eq!(shim.record_in_progress().unwrap().events.len(), calls + 1);
    let (_, record) = shim.on_detach(7, 9_000).unwrap();
    assert_eq!(record.events.len(), calls + 2);
    assert!(record.events[0].is_loaded_mark());
    assert!(record.events[calls + 1].is_unloaded_mark());
    for i in 0..calls {
        assert_eq!(
            record.events[i + 1],
            Event::new(
                1_000 + i,
                5_000 + i,
                EventData::Exit { function_name: String::from("exit"), status: i }
            )
        );
    }
}
