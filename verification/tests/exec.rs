use anylinuxfs_core::build_mount_args;
use anylinuxfs_core::build_sudo_args;
use anylinuxfs_core::classify_direct_exit;
use anylinuxfs_core::classify_elevated_exit;
use anylinuxfs_core::eject_settle_step;
use anylinuxfs_core::mount_failure_result;
use anylinuxfs_core::mount_settle_step;
use anylinuxfs_core::poll_elevated;
use anylinuxfs_core::settle_step;
use anylinuxfs_core::unmount_settle_step;
use anylinuxfs_core::ChildPoll;
use anylinuxfs_core::ElevatedOperation;
use anylinuxfs_core::ElevatedStep;
use anylinuxfs_core::ExecError;
use anylinuxfs_core::SettleStep;
use anylinuxfs_core::MOUNT_SETTLE_ATTEMPTS;
use anylinuxfs_core::POLL_INTERVAL_MS;

#[test]
fn wrong_password_marker_is_classified() {
    let r = classify_elevated_exit(false, String::new(), "sudo: 1 incorrect password attempt\nSorry, try again.\n");
    assert_eq!(r, Err(ExecError::IncorrectPassword));
    // the wrong-password marker wins even when the cancel marker also shows
    let both = classify_elevated_exit(false, String::new(), "Sorry, try again. no askpass program");
    assert_eq!(both, Err(ExecError::IncorrectPassword));
}

#[test]
fn cancelled_prompt_is_classified() {
    let r = classify_elevated_exit(false, String::new(), "sudo: no askpass program specified\n");
    assert_eq!(r, Err(ExecError::AuthenticationCancelled));
    let dismissed = classify_elevated_exit(false, String::new(), "sudo: no password was provided\n");
    assert_eq!(dismissed, Err(ExecError::AuthenticationCancelled));
}

#[test]
fn other_failures_carry_combined_output() {
    let r = classify_elevated_exit(false, "partial out\n".to_string(), "boom\n");
    assert_eq!(
        r,
        Err(ExecError::HelperExecutionFailed("partial out\nboom\n".to_string()))
    );
    let ok = classify_elevated_exit(true, "mounted\n".to_string(), "ignored");
    assert_eq!(ok, Ok("mounted\n".to_string()));
}

#[test]
fn direct_exit_classification() {
    assert_eq!(
        classify_direct_exit(true, "out".to_string(), "err"),
        Ok("out".to_string())
    );
    assert_eq!(
        classify_direct_exit(false, "out".to_string(), "err"),
        Err(ExecError::HelperExecutionFailed("outerr".to_string()))
    );
}

#[test]
fn sudo_invocation_shape() {
    let args = vec!["mount".to_string(), "/dev/disk5s1".to_string()];
    let v = build_sudo_args("/opt/homebrew/bin/anylinuxfs", &args);
    assert_eq!(
        v,
        vec![
            "-A".to_string(),
            "--".to_string(),
            "/opt/homebrew/bin/anylinuxfs".to_string(),
            "mount".to_string(),
            "/dev/disk5s1".to_string(),
        ]
    );
}

#[test]
fn poll_within_bound_sleeps_then_polls_again() {
    let op = ElevatedOperation { started_ms: 1000, timeout_ms: 30_000 };
    match poll_elevated(&op, 31_000, ChildPoll::Running) {
        ElevatedStep::Sleep { millis } => assert_eq!(millis, POLL_INTERVAL_MS),
        _ => panic!("expected a sleep within the bound"),
    }
}

#[test]
fn poll_past_bound_kills_and_reports_timeout() {
    let op = ElevatedOperation { started_ms: 1000, timeout_ms: 30_000 };
    match poll_elevated(&op, 31_001, ChildPoll::Running) {
        ElevatedStep::KillAndReap { error } => assert_eq!(error, ExecError::TimedOut(30)),
        _ => panic!("expected the child to be killed and reaped"),
    }
}

#[test]
fn poll_on_exit_classifies() {
    let op = ElevatedOperation { started_ms: 0, timeout_ms: 30_000 };
    let poll = ChildPoll::Exited {
        success: false,
        stdout: String::new(),
        stderr: "Sorry, try again".to_string(),
    };
    match poll_elevated(&op, 50, poll) {
        ElevatedStep::Done { result } => assert_eq!(result, Err(ExecError::IncorrectPassword)),
        _ => panic!("an exit always ends the operation"),
    }
}

#[test]
fn poll_on_wait_failure_ends_operation() {
    let op = ElevatedOperation { started_ms: 0, timeout_ms: 30_000 };
    let poll = ChildPoll::WaitFailed { message: "waitpid failed".to_string() };
    match poll_elevated(&op, 50, poll) {
        ElevatedStep::Done { result } => {
            assert_eq!(result, Err(ExecError::TaskFailed("waitpid failed".to_string())));
        },
        _ => panic!("a failed wait always ends the operation"),
    }
}

#[test]
fn error_messages_match_the_user_visible_text() {
    assert_eq!(ExecError::IncorrectPassword.message(), "Incorrect password");
    assert_eq!(ExecError::AuthenticationCancelled.message(), "Authentication cancelled");
    assert_eq!(ExecError::TimedOut(30).message(), "Command timed out");
    assert_eq!(
        ExecError::HelperNotFound.message(),
        "anylinuxfs CLI not found in PATH or standard locations"
    );
    assert_eq!(ExecError::HelperExecutionFailed("raw".to_string()).message(), "raw");
}

#[test]
fn settle_observation_stops_polling() {
    match mount_settle_step(0, true) {
        SettleStep::Settled => {},
        _ => panic!("an observed signature settles at once"),
    }
    match mount_settle_step(39, true) {
        SettleStep::Settled => {},
        _ => panic!("even the last attempt can settle"),
    }
}

#[test]
fn settle_budget_runs_out_without_observation() {
    for attempt in 0..MOUNT_SETTLE_ATTEMPTS - 1 {
        match mount_settle_step(attempt, false) {
            SettleStep::Retry { sleep_ms } => assert_eq!(sleep_ms, 250),
            _ => panic!("attempts before the last retry"),
        }
    }
    match mount_settle_step(MOUNT_SETTLE_ATTEMPTS - 1, false) {
        SettleStep::GiveUp => {},
        _ => panic!("the budget is spent after the last attempt"),
    }
}

#[test]
fn unmount_and_eject_budgets() {
    match unmount_settle_step(39, false) {
        SettleStep::GiveUp => {},
        _ => panic!("forty attempts of 250ms for the unmount wait"),
    }
    match eject_settle_step(8, false) {
        SettleStep::Retry { sleep_ms } => assert_eq!(sleep_ms, 500),
        _ => panic!("the eject wait retries at 500ms"),
    }
    match eject_settle_step(9, false) {
        SettleStep::GiveUp => {},
        _ => panic!("ten attempts of 500ms for the eject wait"),
    }
    match settle_step(3, 10, 500, false) {
        SettleStep::Retry { sleep_ms } => assert_eq!(sleep_ms, 500),
        _ => panic!("a mid-budget miss retries"),
    }
}

#[test]
fn exhausted_mount_verification_is_never_success() {
    let concrete = mount_failure_result(Ok("mount: wrong fs type, bad option\n".to_string()));
    assert_eq!(
        concrete,
        ExecError::MountVerificationFailed(
            "Mount failed: mount: wrong fs type, bad option\n".to_string()
        )
    );
    let ambiguous = mount_failure_result(Ok("Mounted successfully".to_string()));
    assert_eq!(
        ambiguous,
        ExecError::MountVerificationFailed(
            "Mount failed: filesystem not mounted after timeout".to_string()
        )
    );
    let passed_through = mount_failure_result(Err(ExecError::IncorrectPassword));
    assert_eq!(passed_through, ExecError::IncorrectPassword);
}

#[test]
fn mount_arguments_by_device_kind() {
    assert_eq!(
        build_mount_args("/dev/disk5s1"),
        vec!["mount".to_string(), "/dev/disk5s1".to_string()]
    );
    assert_eq!(
        build_mount_args("raid:disk10s1:disk11s1"),
        vec!["raid:disk10s1:disk11s1".to_string()]
    );
    assert_eq!(build_mount_args("lvm:vg0-lv0"), vec!["lvm:vg0-lv0".to_string()]);
}
