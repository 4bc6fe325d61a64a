use buildtrace::event::{timestamp_micros, Event, EventData};
use buildtrace::process::{env_block, env_entry, Process};

#[test]
fn timestamp_is_whole_seconds_plus_truncated_microseconds() {
    assert_eq!(timestamp_micros(1, 500_000), Some(1_000_500));
    assert_eq!(timestamp_micros(0, 999), Some(0));
    assert_eq!(timestamp_micros(0, 1_000), Some(1));
    assert_eq!(timestamp_micros(1_700_000_000, 999_999_999), Some(1_700_000_000_999_999));
}

#[test]
fn timestamp_that_does_not_fit_is_none() {
    assert_eq!(timestamp_micros(u64::MAX, 0), None);
    assert_eq!(timestamp_micros(u64::MAX / 1_000_000 + 1, 0), None);
}

#[test]
fn largest_timestamp_that_fits() {
    let secs = u64::MAX / 1_000_000;
    let expected = (secs as u128) * 1_000_000 + 999_999;
    if expected <= usize::MAX as u128 && expected <= u64::MAX as u128 {
        assert_eq!(timestamp_micros(secs, 999_999_999), Some(expected as usize));
    } else {
        assert_eq!(timestamp_micros(secs, 999_999_999), None);
    }
}

#[test]
fn event_holds_what_it_was_made_of() {
    let data = EventData::Exit { function_name: String::from("_exit"), status: 3 };
    let event = Event::new(11, 22, data.clone());
    assert_eq!(event.tid, 11);
    assert_eq!(event.timestamp, 22);
    assert_eq!(event.data, data);
    assert!(!event.is_loaded_mark());
    assert!(!event.is_unloaded_mark());
}

#[test]
fn lifecycle_marks_are_told_apart() {
    assert!(Event::new(1, 2, EventData::ShimLoaded).is_loaded_mark());
    assert!(!Event::new(1, 2, EventData::ShimLoaded).is_unloaded_mark());
    assert!(Event::new(1, 2, EventData::ShimUnloaded).is_unloaded_mark());
    assert!(!Event::new(1, 2, EventData::ShimUnloaded).is_loaded_mark());
}

#[test]
fn new_process_has_no_events() {
    let p = Process::new(
        5,
        4,
        vec![String::from("cc"), String::from("-c")],
        vec![String::from("A=b")],
        String::from("/src"),
    );
    assert_eq!(p.pid, 5);
    assert_eq!(p.ppid, 4);
    assert_eq!(p.argv, vec![String::from("cc"), String::from("-c")]);
    assert_eq!(p.envp, vec![String::from("A=b")]);
    assert_eq!(p.working_dir, "/src");
    assert!(p.events.is_empty());
}

#[test]
fn push_event_appends_and_keeps_the_rest() {
    let mut p = Process::new(5, 4, vec![String::from("cc")], vec![], String::from("/"));
    p.push_event(Event::new(1, 10, EventData::ShimLoaded));
    p.push_event(Event::new(2, 20, EventData::ShimUnloaded));
    assert_eq!(
        p.events,
        vec![Event::new(1, 10, EventData::ShimLoaded), Event::new(2, 20, EventData::ShimUnloaded)]
    );
    assert_eq!(p.pid, 5);
    assert_eq!(p.ppid, 4);
    assert_eq!(p.argv, vec![String::from("cc")]);
    assert_eq!(p.working_dir, "/");
}

#[test]
fn environment_entry_is_name_equals_value() {
    assert_eq!(env_entry("HOME", "/root"), "HOME=/root");
    assert_eq!(env_entry("EMPTY", ""), "EMPTY=");
    assert_eq!(env_entry("", "v"), "=v");
    assert_eq!(env_entry("A", "b=c"), "A=b=c");
}

#[test]
fn environment_block_keeps_the_order() {
    let vars = vec![
        (String::from("PATH"), String::from("/usr/bin:/bin")),
        (String::from("HOME"), String::from("/root")),
        (String::from("TRACKER_OUTPUT_PATH"), String::from("/scratch")),
    ];
    assert_eq!(
        env_block(&vars),
        vec![
            String::from("PATH=/usr/bin:/bin"),
            String::from("HOME=/root"),
            String::from("TRACKER_OUTPUT_PATH=/scratch"),
        ]
    );
    assert_eq!(env_block(&vec![]), Vec::<String>::new());
}
