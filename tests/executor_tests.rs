use lazymake::executor::{decimal_string, Executor};
use std::path::PathBuf;

fn strings(v: &[&str]) -> Vec<String> {
    v.iter().map(|s| s.to_string()).collect()
}

const RULE: &str = "────────────────────────────────────────────────────────────\n";

#[test]
fn failing_command_stops_the_run() {
    let ex = Executor::new(PathBuf::from("/tmp"));
    let mut run = ex.start("t", "/tmp", strings(&["true", "exit 3", "true"]));
    assert_eq!(run.next_command().unwrap(), "true");
    run.record_exit(Some(0), b"", b"");
    assert_eq!(run.next_command().unwrap(), "exit 3");
    run.record_exit(Some(3), b"", b"");
    assert!(run.next_command().is_none());
    let (code, out) = run.finish(0);
    assert_eq!(code, 3);
    assert!(out.contains("$ true\n"));
    assert!(out.contains("$ exit 3\n"));
    assert_eq!(out.matches("$ ").count(), 2);
    assert!(out.contains("\nerror: command failed with exit code 3\n"));
    assert!(out.ends_with("exit code: 3\nexecution time: 0.00s\n"));
}

#[test]
fn empty_run_is_framing_only() {
    let ex = Executor::new(PathBuf::from("/w"));
    let run = ex.start("build", "/w", Vec::new());
    assert!(run.next_command().is_none());
    let (code, out) = run.finish(1_234_567);
    assert_eq!(code, 0);
    let expected = format!(
        "executing task: build\nworking directory: /w\n{}{}exit code: 0\nexecution time: 1.23s\n",
        RULE, RULE
    );
    assert_eq!(out, expected);
}

#[test]
fn output_records_stdout_and_stderr() {
    let ex = Executor::new(PathBuf::from("."));
    let mut run = ex.start("t", ".", strings(&["echo hi", "echo two"]));
    run.record_exit(Some(0), b"hi\n", b"warn\n");
    run.record_exit(Some(0), b"two\n", b"");
    assert!(run.next_command().is_none());
    let (code, out) = run.finish(5000);
    assert_eq!(code, 0);
    assert!(out.contains("$ echo hi\nhi\nwarn\n$ echo two\ntwo\n"));
    assert!(out.ends_with("execution time: 0.01s\n"));
}

#[test]
fn signal_without_code_counts_as_one() {
    let ex = Executor::new(PathBuf::from("."));
    let mut run = ex.start("t", ".", strings(&["sleep 9"]));
    run.record_exit(None, b"", b"\xff");
    let (code, out) = run.finish(0);
    assert_eq!(code, 1);
    assert!(out.contains("$ sleep 9\n\u{fffd}\nerror: command failed with exit code 1\n"));
}

#[test]
fn spawn_failure_stops_with_code_one() {
    let ex = Executor::new(PathBuf::from("."));
    let mut run = ex.start("t", ".", strings(&["a", "b"]));
    run.record_spawn_failure("not found");
    assert!(run.next_command().is_none());
    let (code, out) = run.finish(0);
    assert_eq!(code, 1);
    assert!(out.contains("error executing command: not found\n"));
    assert!(!out.contains("$ "));
}

#[test]
fn working_dir_is_kept() {
    let ex = Executor::new(PathBuf::from("/some/dir"));
    assert_eq!(ex.working_dir(), &PathBuf::from("/some/dir"));
}

#[test]
fn decimal_text() {
    assert_eq!(decimal_string(0), "0");
    assert_eq!(decimal_string(42), "42");
    assert_eq!(decimal_string(-7), "-7");
    assert_eq!(decimal_string(i32::MIN), "-2147483648");
    assert_eq!(decimal_string(i32::MAX), "2147483647");
}
