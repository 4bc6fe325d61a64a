use buildtrace::scratch::{decimal, record_file_path, TemporaryDirectory};

#[test]
fn decimal_of_small_numbers() {
    assert_eq!(decimal(0), "0");
    assert_eq!(decimal(7), "7");
    assert_eq!(decimal(9), "9");
    assert_eq!(decimal(10), "10");
    assert_eq!(decimal(101), "101");
    assert_eq!(decimal(12345), "12345");
    assert_eq!(decimal(9_876_543_210), "9876543210");
}

#[test]
fn decimal_of_the_largest_number() {
    assert_eq!(decimal(usize::MAX), format!("{}", usize::MAX));
}

#[test]
fn record_path_is_directory_and_decimal_pid() {
    assert_eq!(record_file_path("/tmp/x", 42), "/tmp/x/42");
    assert_eq!(record_file_path("", 0), "/0");
    assert_eq!(record_file_path(".build_info", 31337), ".build_info/31337");
}

#[test]
fn different_pids_have_different_record_paths() {
    assert_ne!(record_file_path("d", 1), record_file_path("d", 10));
    assert_ne!(record_file_path("d", 12), record_file_path("d", 21));
}

#[test]
fn fresh_directory_is_claimed_and_released() {
    let dir = TemporaryDirectory::create(String::from(".build_info"), false);
    assert_eq!(dir.path(), ".build_info");
    assert_eq!(dir.record_file(7), ".build_info/7");
    assert_eq!(dir.release(), ".build_info");
}
