use rat::process::{effective_timeout, poll_step, run_report, PollStep, RunOutcome};

#[test]
fn sustain_suppresses_any_timeout() {
    assert_eq!(effective_timeout(true, Some(300u64)), None);
    assert_eq!(effective_timeout(false, Some(300u64)), Some(300));
    assert_eq!(effective_timeout::<u64>(false, None), None);
}

#[test]
fn polling_stops_on_exit_or_timeout() {
    assert_eq!(poll_step(true, 10, 5), PollStep::Exited);
    assert_eq!(poll_step(false, 5, 5), PollStep::TimedOut);
    assert_eq!(poll_step(false, 4, 5), PollStep::KeepWaiting);
}

#[test]
fn successful_run_reports_stdout() {
    let outcome = RunOutcome::Finished { success: true, stdout: "hello\n".to_string(), stderr: "warn".to_string() };
    let (text, ok) = run_report("echo hello", "/tmp/x", &outcome);
    assert!(ok);
    assert_eq!(text, "Running 'echo hello' in /tmp/x\nCommand executed successfully in /tmp/x.\nhello\n");
}

#[test]
fn failing_run_reports_stderr() {
    let outcome = RunOutcome::Finished { success: false, stdout: "out".to_string(), stderr: "boom\n".to_string() };
    let (text, ok) = run_report("false", "/d", &outcome);
    assert!(!ok);
    assert_eq!(text, "Running 'false' in /d\nCommand failed gracefully in /d.\nboom\n");
}

#[test]
fn timed_out_run_reports_seconds() {
    let (text, ok) = run_report("sleep 5", "/d", &RunOutcome::TimedOut { secs: 30 });
    assert!(!ok);
    assert_eq!(text, "Running 'sleep 5' in /d\nCommand timed out in /d after 30 seconds.");
    let (text, _) = run_report("sleep 5", "/d", &RunOutcome::TimedOut { secs: 0 });
    assert_eq!(text, "Running 'sleep 5' in /d\nCommand timed out in /d after 0 seconds.");
}

#[test]
fn failed_spawn_is_reported_not_a_crash() {
    let (text, ok) = run_report("x", "/d", &RunOutcome::Failed { error: "No such file".to_string() });
    assert!(!ok);
    assert_eq!(text, "Running 'x' in /d\nCaught exception in /d with error:\nNo such file");
}
