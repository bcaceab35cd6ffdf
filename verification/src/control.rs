//! The decisions of the capture loops, as step functions: the outer loop
//! that keeps a capture running and restarts it after a failure, the inner
//! loop that reads the capture's lines, and the wait for a notification
//! command with a time limit. The program performs the actions and reports
//! the events.
use vstd::prelude::*;

use crate::text::{concat2, trim_end, trim_end_str};

verus! {

/// What the outer loop does next.
pub enum RunAction {
    /// Start a capture round.
    StartStream,
    /// The last round failed with `error`: wait for the back-off, then ask
    /// again.
    BackoffThenStart { error: String },
    /// Stop the monitor.
    Stop,
}

/// The back-off, in seconds, before a failed capture round is retried.
pub fn restart_backoff_seconds() -> (s: u64)
    ensures
        s == 5,
{
    5
}

/// Decides the outer loop's next step from whether a stop was asked for and
/// how the last capture round ended (`None` before the first round and after
/// a back-off): a stop wins; a failed round is retried after the back-off;
/// otherwise a round starts.
pub fn run_step(stop_requested: bool, last: Option<Result<(), String>>) -> (a: RunAction)
    ensures
        stop_requested ==> a is Stop,
        !stop_requested ==> match last {
            Some(Err(e)) => a matches RunAction::BackoffThenStart { error } && error@ == e@,
            _ => a is StartStream,
        },
{
    if stop_requested {
        return RunAction::Stop;
    }
    match last {
        Some(Err(e)) => RunAction::BackoffThenStart { error: e },
        _ => RunAction::StartStream,
    }
}

/// What happens to a capture round.
pub enum StreamEvent {
    /// The capture command could not be started.
    StartFailed(String),
    /// The capture's output could not be opened.
    NoStdout,
    /// The capture printed a line.
    Line(String),
    /// Reading the capture's output failed.
    ReadError(String),
    /// The capture ended; `status` is how its exit status reads.
    Exited { success: bool, status: String },
    /// Waiting for the capture to end failed.
    WaitFailed(String),
}

/// What the inner loop does about an event.
pub enum StreamAction {
    /// Hand the line to the monitor and read on.
    Process(String),
    /// Kill the capture, stop reading and wait for it to end.
    KillAndWait,
    /// Kill the capture and end the round with this error.
    KillAndFail(String),
    /// End the round with this result.
    Finish(Result<(), String>),
}

/// The inner loop's decision about one event. A stop asked for while lines
/// are being read kills the capture; a line is handed on with its trailing
/// whitespace removed; a read error kills the capture and fails the round;
/// an exit fails the round exactly when no stop was asked for and the
/// capture did not succeed; failures to start, to open the output or to
/// wait fail the round.
pub fn stream_step(stop_requested: bool, ev: StreamEvent) -> (a: StreamAction)
    ensures
        match ev {
            StreamEvent::StartFailed(e) => a matches StreamAction::Finish(Err(m)) && m@
                == "failed to start tcpdump: "@ + e@,
            StreamEvent::NoStdout => a matches StreamAction::Finish(Err(m)) && m@
                == "failed to open tcpdump stdout"@,
            StreamEvent::Line(l) => if stop_requested {
                a is KillAndWait
            } else {
                a matches StreamAction::Process(p) && p@ == trim_end(l@)
            },
            StreamEvent::ReadError(e) => if stop_requested {
                a is KillAndWait
            } else {
                a matches StreamAction::KillAndFail(m) && m@ == "failed reading tcpdump output: "@
                    + e@
            },
            StreamEvent::Exited { success, status } => if !stop_requested && !success {
                a matches StreamAction::Finish(Err(m)) && m@ == "tcpdump exited with status "@
                    + status@
            } else {
                a matches StreamAction::Finish(Ok(()))
            },
            StreamEvent::WaitFailed(e) => a matches StreamAction::Finish(Err(m)) && m@
                == "failed waiting for tcpdump: "@ + e@,
        },
{
    match ev {
        StreamEvent::StartFailed(e) => StreamAction::Finish(
            Err(concat2("failed to start tcpdump: ", e.as_str())),
        ),
        StreamEvent::NoStdout => StreamAction::Finish(
            Err(String::from_str("failed to open tcpdump stdout")),
        ),
        StreamEvent::Line(l) => {
            if stop_requested {
                StreamAction::KillAndWait
            } else {
                StreamAction::Process(trim_end_str(l.as_str()))
            }
        },
        StreamEvent::ReadError(e) => {
            if stop_requested {
                StreamAction::KillAndWait
            } else {
                StreamAction::KillAndFail(concat2("failed reading tcpdump output: ", e.as_str()))
            }
        },
        StreamEvent::Exited { success, status } => {
            if !stop_requested && !success {
                StreamAction::Finish(Err(concat2("tcpdump exited with status ", status.as_str())))
            } else {
                StreamAction::Finish(Ok(()))
            }
        },
        StreamEvent::WaitFailed(e) => StreamAction::Finish(
            Err(concat2("failed waiting for tcpdump: ", e.as_str())),
        ),
    }
}

/// What the wait for a notification command does next.
pub enum PollAction {
    /// The command has ended: collect its output.
    Collect,
    /// The time limit is up: kill the command, then collect its output.
    KillThenCollect,
    /// Sleep for the poll interval and look again.
    WaitAndPoll,
}

/// The time limit for a notification command, in nanoseconds (5 s).
pub fn notification_timeout_nanos() -> (t: u128)
    ensures
        t == 5_000_000_000,
{
    5_000_000_000
}

/// The interval between two looks at a running notification command, in
/// milliseconds.
pub fn poll_interval_millis() -> (m: u64)
    ensures
        m == 50,
{
    50
}

/// Decides the next step of waiting for a command: collect it once it has
/// ended; kill it once `elapsed_nanos` reaches `timeout_nanos`; otherwise
/// poll again.
pub fn poll_step(exited: bool, elapsed_nanos: u128, timeout_nanos: u128) -> (a: PollAction)
    ensures
        exited ==> a is Collect,
        !exited && elapsed_nanos >= timeout_nanos ==> a is KillThenCollect,
        !exited && elapsed_nanos < timeout_nanos ==> a is WaitAndPoll,
{
    if exited {
        PollAction::Collect
    } else if elapsed_nanos >= timeout_nanos {
        PollAction::KillThenCollect
    } else {
        PollAction::WaitAndPoll
    }
}

} // verus!
