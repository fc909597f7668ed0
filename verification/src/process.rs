use vstd::prelude::*;
use crate::text::{decimal, decimal_string, lemma_parse_u64_of_decimal, parse_u64_spec};

verus! {

/// The timeout that a run waits for: `sustain` (wait forever) always overrides `timeout`.
pub fn effective_timeout<T>(sustain: bool, timeout: Option<T>) -> (r: Option<T>)
    ensures
        r == (if sustain { None } else { timeout }),
{
    if sustain {
        None
    } else {
        timeout
    }
}

/// What to do after one look at a running child process.
#[derive(Clone, Copy, Debug, PartialEq, Eq)]
pub enum PollStep {
    /// The process has exited.
    Exited,
    /// The timeout has elapsed while the process still runs: it is to be killed.
    TimedOut,
    /// Sleep a little and look again.
    KeepWaiting,
}

/// One round of waiting with a timeout: an exited process is done, whatever the time; else
/// the run times out once the elapsed time reaches the timeout.
pub fn poll_step(exited: bool, elapsed_nanos: u128, timeout_nanos: u128) -> (r: PollStep)
    ensures
        exited ==> r == PollStep::Exited,
        !exited && elapsed_nanos >= timeout_nanos ==> r == PollStep::TimedOut,
        !exited && elapsed_nanos < timeout_nanos ==> r == PollStep::KeepWaiting,
{
    if exited {
        PollStep::Exited
    } else if elapsed_nanos >= timeout_nanos {
        PollStep::TimedOut
    } else {
        PollStep::KeepWaiting
    }
}

/// How running a command in one directory ended.
#[derive(Clone, Debug)]
pub enum RunOutcome {
    /// The process ran to completion, with the status's success and what it wrote.
    Finished { success: bool, stdout: String, stderr: String },
    /// The process was killed after running for `secs` seconds (the timeout).
    TimedOut { secs: u64 },
    /// Spawning or waiting failed with the given error message.
    Failed { error: String },
}

/// The first line of a directory's report.
pub open spec fn header_text(command: Seq<char>, dir: Seq<char>) -> Seq<char> {
    "Running '"@ + command + "' in "@ + dir
}

/// The rest of a directory's report.
pub open spec fn body_text(dir: Seq<char>, outcome: RunOutcome) -> Seq<char> {
    match outcome {
        RunOutcome::Finished { success, stdout, stderr } => if success {
            "Command executed successfully in "@ + dir + ".\n"@ + stdout@
        } else {
            "Command failed gracefully in "@ + dir + ".\n"@ + stderr@
        },
        RunOutcome::TimedOut { secs } => "Command timed out in "@ + dir + " after "@ + decimal(secs as nat)
            + " seconds."@,
        RunOutcome::Failed { error } => "Caught exception in "@ + dir + " with error:\n"@ + error@,
    }
}

/// A run counts as successful when the process ran to completion within any timeout and
/// exited with a success status.
pub open spec fn outcome_success(outcome: RunOutcome) -> bool {
    outcome matches RunOutcome::Finished { success, .. } && success
}

/// The report printed for one directory, as a single block (so that reports of directories
/// that run at the same time do not interleave), and whether the run succeeded.
pub fn run_report(command: &str, dir: &str, outcome: &RunOutcome) -> (r: (String, bool))
    ensures
        r.0@ == header_text(command@, dir@) + "\n"@ + body_text(dir@, *outcome),
        r.1 == outcome_success(*outcome),
{
    let mut s = String::new();
    s.append("Running '");
    s.append(command);
    s.append("' in ");
    s.append(dir);
    s.append("\n");
    match outcome {
        RunOutcome::Finished { success, stdout, stderr } => {
            if *success {
                s.append("Command executed successfully in ");
                s.append(dir);
                s.append(".\n");
                s.append(stdout.as_str());
            } else {
                s.append("Command failed gracefully in ");
                s.append(dir);
                s.append(".\n");
                s.append(stderr.as_str());
            }
            (s, *success)
        },
        RunOutcome::TimedOut { secs } => {
            s.append("Command timed out in ");
            s.append(dir);
            s.append(" after ");
            let n = decimal_string(*secs);
            s.append(n.as_str());
            s.append(" seconds.");
            (s, false)
        },
        RunOutcome::Failed { error } => {
            s.append("Caught exception in ");
            s.append(dir);
            s.append(" with error:\n");
            s.append(error.as_str());
            (s, false)
        },
    }
}

/// The success flag of a finished run is its exit status's success, whatever it wrote; a
/// timed-out or failed run never succeeds.
pub proof fn lemma_success_follows_exit_status(success: bool, stdout: String, stderr: String, secs: u64, error: String)
    ensures
        outcome_success(RunOutcome::Finished { success, stdout, stderr }) == success,
        !outcome_success(RunOutcome::TimedOut { secs }),
        !outcome_success(RunOutcome::Failed { error }),
{
}

/// A failed exit status is reported with the error stream and never with the output stream,
/// and a successful one with the output stream and never with the error stream: the body of a
/// finished run ends with exactly the stream its status picks, after a line that names the
/// directory.
pub proof fn lemma_report_shows_the_stream_of_the_status(dir: Seq<char>, stdout: String, stderr: String, other: String)
    ensures
        body_text(dir, RunOutcome::Finished { success: false, stdout, stderr })
            == "Command failed gracefully in "@ + dir + ".\n"@ + stderr@,
        body_text(dir, RunOutcome::Finished { success: true, stdout, stderr })
            == "Command executed successfully in "@ + dir + ".\n"@ + stdout@,
        body_text(dir, RunOutcome::Finished { success: false, stdout, stderr })
            == body_text(dir, RunOutcome::Finished { success: false, stdout: other, stderr }),
        body_text(dir, RunOutcome::Finished { success: true, stdout, stderr })
            == body_text(dir, RunOutcome::Finished { success: true, stdout, stderr: other }),
{
}

/// A timed-out run is reported with the number of seconds it was given, written so that it
/// reads back as that number.
pub proof fn lemma_timeout_report_gives_the_seconds(dir: Seq<char>, secs: u64)
    ensures
        exists|digits: Seq<char>| {
            &&& body_text(dir, RunOutcome::TimedOut { secs }) == "Command timed out in "@ + dir + " after "@ + digits + " seconds."@
            &&& parse_u64_spec(digits) == Some(secs)
        },
{
    lemma_parse_u64_of_decimal(secs);
    let digits = decimal(secs as nat);
    assert(parse_u64_spec(digits) == Some(secs));
}

} // verus!
