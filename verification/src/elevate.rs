//! Decision logic of the privileged-execution bridge.
//!
//! The helper binary is either spawned directly or under `sudo` with an
//! ephemeral credential-prompt script.  Spawning, the non-blocking wait,
//! killing and the script file itself are the application's job; this module
//! holds everything that can be decided from plain values: the argument
//! vector of the elevated invocation, the poll/timeout state machine, and
//! the exact classification of every exit.

use vstd::prelude::*;

use crate::text::contains_seq;
use crate::text::str_contains;

verus! {

/// Wall-clock bound for single-shot helper operations, in seconds.
pub const COMMAND_TIMEOUT_SECS: u64 = 30;

/// Wall-clock bound for mount operations, which include verification
/// polling, in seconds.
pub const MOUNT_TIMEOUT_SECS: u64 = 60;

/// Interval between two non-blocking polls of the elevated child, in
/// milliseconds.
pub const POLL_INTERVAL_MS: u64 = 100;

/// Failure taxonomy of the engine.  Every failure is returned to the caller
/// as a value of this type; nothing in the engine is fatal to the process.
#[derive(Debug, Clone, PartialEq, Eq)]
pub enum ExecError {
    /// The helper binary was not found in the search path.
    HelperNotFound,
    /// The helper exited non-zero; carries its combined raw output.
    HelperExecutionFailed(String),
    /// The privilege-elevation prompt got a wrong password.
    IncorrectPassword,
    /// No credential was supplied, or the prompt was dismissed.
    AuthenticationCancelled,
    /// The child did not exit within the bound; carries the bound in seconds.
    TimedOut(u64),
    /// A mutating operation was issued but the expected state never became
    /// observable; carries the reason.
    MountVerificationFailed(String),
    /// The blocking-task runner itself faulted; carries its report.
    TaskFailed(String),
}

impl ExecError {
    /// The user-visible description of the failure.
    pub fn message(&self) -> (r: String)
        ensures
            self is HelperNotFound ==> r@ == "anylinuxfs CLI not found in PATH or standard locations"@,
            self matches ExecError::HelperExecutionFailed(m) ==> r@ == m@,
            self is IncorrectPassword ==> r@ == "Incorrect password"@,
            self is AuthenticationCancelled ==> r@ == "Authentication cancelled"@,
            self is TimedOut ==> r@ == "Command timed out"@,
            self matches ExecError::MountVerificationFailed(m) ==> r@ == m@,
            self matches ExecError::TaskFailed(m) ==> r@ == m@,
    {
        match self {
            ExecError::HelperNotFound => String::from_str(
                "anylinuxfs CLI not found in PATH or standard locations",
            ),
            ExecError::HelperExecutionFailed(m) => m.clone(),
            ExecError::IncorrectPassword => String::from_str("Incorrect password"),
            ExecError::AuthenticationCancelled => String::from_str("Authentication cancelled"),
            ExecError::TimedOut(_) => String::from_str("Command timed out"),
            ExecError::MountVerificationFailed(m) => m.clone(),
            ExecError::TaskFailed(m) => m.clone(),
        }
    }
}

/// Stderr shows the elevation mechanism rejecting the entered password.
pub open spec fn wrong_password_marker(err: Seq<char>) -> bool {
    contains_seq(err, "Sorry, try again"@) || contains_seq(err, "incorrect password"@)
}

/// Stderr shows that no credential reached the elevation mechanism.
pub open spec fn cancelled_marker(err: Seq<char>) -> bool {
    contains_seq(err, "no askpass program"@) || contains_seq(err, "no password was provided"@)
}

/// How an elevated exit is classified, clause by clause: success passes the
/// raw standard output through; a wrong-password marker wins over the
/// cancellation marker; anything else is a helper failure carrying the
/// combined output.
pub open spec fn elevated_classification(
    success: bool,
    out: Seq<char>,
    err: Seq<char>,
    r: Result<String, ExecError>,
) -> bool {
    &&& success ==> (r matches Ok(o) && o@ == out)
    &&& !success && wrong_password_marker(err) ==> (r matches Err(e) && e is IncorrectPassword)
    &&& !success && !wrong_password_marker(err) && cancelled_marker(err) ==> (r matches Err(e)
        && e is AuthenticationCancelled)
    &&& !success && !wrong_password_marker(err) && !cancelled_marker(err) ==> (r matches Err(e)
        && e matches ExecError::HelperExecutionFailed(m) && m@ == out + err)
}

/// Classifies the exit of an elevated child from its status and captured
/// streams.
pub fn classify_elevated_exit(success: bool, stdout: String, stderr: &str) -> (r: Result<
    String,
    ExecError,
>)
    ensures
        elevated_classification(success, stdout@, stderr@, r),
{
    if success {
        Ok(stdout)
    } else if str_contains(stderr, "Sorry, try again") || str_contains(
        stderr,
        "incorrect password",
    ) {
        Err(ExecError::IncorrectPassword)
    } else if str_contains(stderr, "no askpass program") || str_contains(
        stderr,
        "no password was provided",
    ) {
        Err(ExecError::AuthenticationCancelled)
    } else {
        Err(ExecError::HelperExecutionFailed(stdout.concat(stderr)))
    }
}

/// Classifies the exit of a directly spawned helper: success passes stdout
/// through, a non-zero exit carries the combined output.
pub fn classify_direct_exit(success: bool, stdout: String, stderr: &str) -> (r: Result<
    String,
    ExecError,
>)
    ensures
        success ==> (r matches Ok(o) && o@ == stdout@),
        !success ==> (r matches Err(e) && e matches ExecError::HelperExecutionFailed(m) && m@
            == stdout@ + stderr@),
{
    if success {
        Ok(stdout)
    } else {
        Err(ExecError::HelperExecutionFailed(stdout.concat(stderr)))
    }
}

/// Argument vector of the elevated invocation:
/// `sudo -A -- <helper path> <helper args…>`.
pub fn build_sudo_args(cli_path: &str, args: &Vec<String>) -> (r: Vec<String>)
    ensures
        r@.len() == args@.len() + 3,
        r@[0]@ == "-A"@,
        r@[1]@ == "--"@,
        r@[2]@ == cli_path@,
        forall|i: int| 0 <= i < args@.len() ==> #[trigger] r@[3 + i]@ == args@[i]@,
{
    let mut r: Vec<String> = Vec::new();
    r.push(String::from_str("-A"));
    r.push(String::from_str("--"));
    r.push(String::from_str(cli_path));
    let mut i: usize = 0;
    while i < args.len()
        invariant
            0 <= i <= args@.len(),
            r@.len() == i + 3,
            r@[0]@ == "-A"@,
            r@[1]@ == "--"@,
            r@[2]@ == cli_path@,
            forall|j: int| 0 <= j < i ==> #[trigger] r@[3 + j]@ == args@[j]@,
        decreases args@.len() - i,
    {
        r.push(args[i].clone());
        i = i + 1;
    }
    r
}

/// One spawned privileged child process: when it was started and how long
/// it may run, both in milliseconds of the caller's monotonic clock.
pub struct ElevatedOperation {
    pub started_ms: u64,
    pub timeout_ms: u64,
}

impl ElevatedOperation {
    /// The hard wall-clock bound has passed.
    pub open spec fn expired(self, now_ms: u64) -> bool {
        now_ms - self.started_ms > self.timeout_ms
    }
}

/// What one non-blocking wait on the child reported.
pub enum ChildPoll {
    /// The child exited with this status and these captured streams.
    Exited { success: bool, stdout: String, stderr: String },
    /// The child is still running.
    Running,
    /// The wait itself failed with this report.
    WaitFailed { message: String },
}

/// The next action of the polling loop.  On every step but `Sleep` the
/// operation ends and the caller must delete the ephemeral credential-prompt
/// script before returning.
pub enum ElevatedStep {
    /// Delete the prompt script, then return this classified result.
    Done { result: Result<String, ExecError> },
    /// Keep the child running; sleep this long, then poll again.
    Sleep { millis: u64 },
    /// Kill and reap the child, delete the prompt script, then return this
    /// error.
    KillAndReap { error: ExecError },
}

/// One step of the elevated polling loop: an exit is classified, a child
/// running past the bound is killed and reported as timed out, a child
/// within the bound is polled again after the fixed interval, and a failed
/// wait ends the operation.  The operation continues exactly when the child
/// is still running within its bound.
pub fn poll_elevated(op: &ElevatedOperation, now_ms: u64, poll: ChildPoll) -> (r: ElevatedStep)
    ensures
        r is Sleep <==> poll is Running && !op.expired(now_ms),
        poll matches ChildPoll::Exited { success, stdout, stderr } ==> (r matches
            ElevatedStep::Done { result } && elevated_classification(
            success,
            stdout@,
            stderr@,
            result,
        )),
        poll is Running && op.expired(now_ms) ==> (r matches ElevatedStep::KillAndReap { error }
            && error matches ExecError::TimedOut(t) && t == op.timeout_ms / 1000),
        poll is Running && !op.expired(now_ms) ==> (r matches ElevatedStep::Sleep { millis }
            && millis == POLL_INTERVAL_MS),
        poll matches ChildPoll::WaitFailed { message } ==> (r matches ElevatedStep::Done { result }
            && result matches Err(e) && e matches ExecError::TaskFailed(m) && m@ == message@),
{
    match poll {
        ChildPoll::Exited { success, stdout, stderr } => ElevatedStep::Done {
            result: classify_elevated_exit(success, stdout, stderr.as_str()),
        },
        ChildPoll::Running => {
            if now_ms > op.started_ms && now_ms - op.started_ms > op.timeout_ms {
                ElevatedStep::KillAndReap { error: ExecError::TimedOut(op.timeout_ms / 1000) }
            } else {
                ElevatedStep::Sleep { millis: POLL_INTERVAL_MS }
            }
        },
        ChildPoll::WaitFailed { message } => ElevatedStep::Done {
            result: Err(ExecError::TaskFailed(message)),
        },
    }
}

} // verus!
