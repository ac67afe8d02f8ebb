use cat::{source_diagnostic, usage_diagnostic, Failure, Outcome};

#[test]
fn run_without_failure_exits_with_zero() {
    let outcome = Outcome::new();
    assert_eq!(outcome.exit_code(), 0);
}

#[test]
fn usage_failure_alone_keeps_the_exit_status() {
    let mut outcome = Outcome::new();
    assert!(outcome.record(Failure::Usage));
    assert!(outcome.record(Failure::Usage));
    assert_eq!(outcome.exit_code(), 0);
}

#[test]
fn open_failure_goes_on_and_fails_the_run() {
    let mut outcome = Outcome::new();
    assert!(outcome.record(Failure::Open));
    assert_ne!(outcome.exit_code(), 0);
    assert_eq!(outcome.exit_code(), 1);
}

#[test]
fn read_failure_goes_on_and_fails_the_run() {
    let mut outcome = Outcome::new();
    assert!(outcome.record(Failure::Read));
    assert_eq!(outcome.exit_code(), 1);
}

#[test]
fn write_failure_ends_the_run() {
    let mut outcome = Outcome::new();
    assert!(!outcome.record(Failure::Write));
    assert_eq!(outcome.exit_code(), 1);
}

#[test]
fn failed_run_stays_failed() {
    let mut outcome = Outcome::new();
    assert!(outcome.record(Failure::Read));
    assert!(outcome.record(Failure::Usage));
    assert_eq!(outcome.exit_code(), 1);
}

#[test]
fn usage_diagnostic_names_program_and_argument() {
    assert_eq!(usage_diagnostic("cat", "-x"), "cat: invalid option in '-x'");
}

#[test]
fn source_diagnostic_names_program_source_and_cause() {
    assert_eq!(
        source_diagnostic("cat", "missing.txt", "No such file"),
        "cat: missing.txt: No such file"
    );
}
