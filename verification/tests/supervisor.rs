use repro_harness::outcome::{artifacts_for, classify_wait, exit_code_text, RunOutcome, WaitResult};

#[test]
fn classify_exit_is_completed() {
    let o = classify_wait(WaitResult::Exited { code: Some(7) });
    assert_eq!(o, RunOutcome::Completed { code: Some(7) });
}

#[test]
fn classify_deadline_is_timed_out() {
    let o = classify_wait(WaitResult::DeadlineExpired);
    assert_eq!(o, RunOutcome::TimedOut);
}

#[test]
fn classify_wait_error_keeps_message() {
    let o = classify_wait(WaitResult::Error { message: b"lost".to_vec() });
    assert_eq!(o, RunOutcome::WaitFailed { message: b"lost".to_vec() });
}

#[test]
fn exit_code_seven() {
    let t = exit_code_text(&RunOutcome::Completed { code: Some(7) });
    assert_eq!(t, b"7".to_vec());
}

#[test]
fn exit_code_zero() {
    let t = exit_code_text(&RunOutcome::Completed { code: Some(0) });
    assert_eq!(t, b"0".to_vec());
}

#[test]
fn exit_code_negative() {
    let t = exit_code_text(&RunOutcome::Completed { code: Some(-3) });
    assert_eq!(t, b"-3".to_vec());
}

#[test]
fn exit_code_most_negative() {
    let t = exit_code_text(&RunOutcome::Completed { code: Some(i64::MIN) });
    assert_eq!(t, b"-9223372036854775808".to_vec());
}

#[test]
fn exit_code_unknown_is_sentinel() {
    let t = exit_code_text(&RunOutcome::Completed { code: None });
    assert_eq!(t, b"-2".to_vec());
}

#[test]
fn exit_code_timeout_token() {
    let t = exit_code_text(&RunOutcome::TimedOut);
    assert_eq!(t, b"-1 timed out".to_vec());
}

#[test]
fn exit_code_spawn_failure_sentinel() {
    let t = exit_code_text(&RunOutcome::SpawnFailed { message: b"no shell".to_vec() });
    assert_eq!(t, b"-2".to_vec());
}

#[test]
fn completed_run_keeps_both_streams() {
    let o = RunOutcome::Completed { code: Some(7) };
    let a = artifacts_for(&o, b"out bytes".to_vec(), b"err bytes".to_vec());
    assert_eq!(a.stdout, b"out bytes".to_vec());
    assert_eq!(a.stderr, b"err bytes".to_vec());
    assert_eq!(a.exit_code, b"7".to_vec());
}

#[test]
fn timed_out_run_keeps_partial_streams() {
    let a = artifacts_for(&RunOutcome::TimedOut, b"partial out".to_vec(), b"partial err".to_vec());
    assert_eq!(a.stdout, b"partial out".to_vec());
    assert_eq!(a.stderr, b"partial err".to_vec());
    assert_eq!(a.exit_code, b"-1 timed out".to_vec());
}

#[test]
fn spawn_failure_yields_all_three_artifacts() {
    let o = RunOutcome::SpawnFailed { message: b"boom".to_vec() };
    let a = artifacts_for(&o, Vec::new(), Vec::new());
    assert_eq!(a.stdout, Vec::<u8>::new());
    assert_eq!(a.stderr, b"error: boom".to_vec());
    assert_eq!(a.exit_code, b"-2".to_vec());
}

#[test]
fn wait_failure_notes_error_and_keeps_stdout() {
    let o = RunOutcome::WaitFailed { message: b"interrupted".to_vec() };
    let a = artifacts_for(&o, b"seen so far".to_vec(), b"old err".to_vec());
    assert_eq!(a.stdout, b"seen so far".to_vec());
    assert_eq!(a.stderr, b"error: interrupted".to_vec());
    assert_eq!(a.exit_code, b"-2".to_vec());
}
