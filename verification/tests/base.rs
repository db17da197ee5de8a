use reflectron::base::{
    first_step, next_step, PlanStep,
    candidates, captured_detail, captured_text, chroot, cmdline, error_line, exit_detail, failure_message, get,
    log_entry, log_file, not_found_message, perform, pkexec, skipped_message, success_stauts,
    succeeded_message, wait, which, zfs, Action, Command, Failure, Operation, Phase, Status,
    WaitAction,
};

fn strings(parts: &[&str]) -> Vec<String> {
    parts.iter().map(|s| s.to_string()).collect()
}

fn command(program: &str, args: &[&str]) -> Command {
    Command { program: program.to_string(), args: strings(args) }
}

fn operation(check: bool) -> Operation {
    Operation {
        description: "Make it".to_string(),
        check: if check { Some(command("test", &["-e", "it"])) } else { None },
        operation: command("touch", &["it"]),
        stream_output: true,
    }
}

#[test]
fn an_operation_with_a_check_begins_with_the_check() {
    assert_eq!(perform(&operation(true), Phase::Start, None), (Phase::Checking, Action::RunCheck));
    assert_eq!(
        perform(&operation(true), Phase::Start, Some(Status::Success)),
        (Phase::Checking, Action::RunCheck)
    );
}

#[test]
fn an_operation_without_a_check_begins_with_the_operation() {
    assert_eq!(perform(&operation(false), Phase::Start, None), (Phase::Running, Action::RunOperation));
}

#[test]
fn a_check_that_succeeds_skips_the_operation() {
    assert_eq!(
        perform(&operation(true), Phase::Checking, Some(Status::Success)),
        (Phase::Finished, Action::Skip)
    );
}

#[test]
fn a_check_that_fails_leads_to_the_operation() {
    assert_eq!(
        perform(&operation(true), Phase::Checking, Some(Status::Failure)),
        (Phase::Running, Action::RunOperation)
    );
}

#[test]
fn a_check_that_cannot_run_is_a_failure() {
    for status in [Status::SpawnFailed, Status::WaitFailed] {
        assert_eq!(
            perform(&operation(true), Phase::Checking, Some(status)),
            (Phase::Finished, Action::Fail(Failure::CheckNotRun))
        );
    }
}

#[test]
fn the_operation_ends_as_its_command_ends() {
    let op = operation(true);
    assert_eq!(perform(&op, Phase::Running, Some(Status::Success)), (Phase::Finished, Action::Succeed));
    assert_eq!(
        perform(&op, Phase::Running, Some(Status::Failure)),
        (Phase::Finished, Action::Fail(Failure::NonZeroExit))
    );
    assert_eq!(
        perform(&op, Phase::Running, Some(Status::SpawnFailed)),
        (Phase::Finished, Action::Fail(Failure::SpawnFailed))
    );
    assert_eq!(
        perform(&op, Phase::Running, Some(Status::WaitFailed)),
        (Phase::Finished, Action::Fail(Failure::WaitFailed))
    );
}

#[test]
fn a_pending_request_stands_without_a_report() {
    let op = operation(true);
    assert_eq!(perform(&op, Phase::Checking, None), (Phase::Checking, Action::RunCheck));
    assert_eq!(perform(&op, Phase::Running, None), (Phase::Running, Action::RunOperation));
}

#[test]
fn a_finished_operation_asks_for_nothing() {
    let op = operation(true);
    assert_eq!(perform(&op, Phase::Finished, None), (Phase::Finished, Action::Nothing));
    assert_eq!(perform(&op, Phase::Finished, Some(Status::Failure)), (Phase::Finished, Action::Nothing));
}

#[test]
fn waiting_ends_on_success() {
    assert_eq!(wait(Status::Success, 1, 1, None), WaitAction::Done);
    assert_eq!(wait(Status::Success, 1, 9, Some(3)), WaitAction::Done);
}

#[test]
fn waiting_without_a_limit_never_gives_up() {
    assert_eq!(wait(Status::Failure, 5, 1, None), WaitAction::Retry(5));
    assert_eq!(wait(Status::Failure, 5, u64::MAX, None), WaitAction::Retry(5));
}

#[test]
fn waiting_gives_up_at_the_limit() {
    assert_eq!(wait(Status::Failure, 2, 2, Some(3)), WaitAction::Retry(2));
    assert_eq!(wait(Status::Failure, 2, 3, Some(3)), WaitAction::Fail(Failure::NonZeroExit));
    assert_eq!(wait(Status::Failure, 2, 4, Some(3)), WaitAction::Fail(Failure::NonZeroExit));
    assert_eq!(wait(Status::Failure, 2, 0, Some(0)), WaitAction::Fail(Failure::NonZeroExit));
}

#[test]
fn waiting_fails_if_the_command_cannot_run() {
    assert_eq!(wait(Status::SpawnFailed, 1, 1, None), WaitAction::Fail(Failure::SpawnFailed));
    assert_eq!(wait(Status::WaitFailed, 1, 1, None), WaitAction::Fail(Failure::WaitFailed));
}

#[test]
fn get_hands_out_the_output_of_a_successful_command() {
    assert_eq!(get(Status::Success, b"8\n"), Ok("8\n".to_string()));
    assert_eq!(get(Status::Success, b""), Ok(String::new()));
    assert_eq!(get(Status::Success, &[b'a', 0xFF, b'b']), Ok("a\u{FFFD}b".to_string()));
    assert_eq!(get(Status::Success, "gr\u{fc}n".as_bytes()), Ok("gr\u{fc}n".to_string()));
}

#[test]
fn get_fails_as_the_command_fails() {
    assert_eq!(get(Status::Failure, b"out"), Err(Failure::NonZeroExit));
    assert_eq!(get(Status::SpawnFailed, b""), Err(Failure::SpawnFailed));
    assert_eq!(get(Status::WaitFailed, b""), Err(Failure::WaitFailed));
}

#[test]
fn the_status_of_a_check_is_its_success() {
    assert_eq!(success_stauts(Status::Success), Ok(true));
    assert_eq!(success_stauts(Status::Failure), Ok(false));
    assert_eq!(success_stauts(Status::SpawnFailed), Err(Failure::CheckNotRun));
    assert_eq!(success_stauts(Status::WaitFailed), Err(Failure::CheckNotRun));
}

#[test]
fn programs_are_looked_for_in_four_directories() {
    assert_eq!(
        candidates("zfs"),
        strings(&["/usr/sbin/zfs", "/usr/bin/zfs", "/sbin/zfs", "/bin/zfs"])
    );
}

#[test]
fn which_takes_the_first_directory_that_holds_the_program() {
    assert_eq!(which("zfs", &[true, true, true, true]), Some("/usr/sbin/zfs".to_string()));
    assert_eq!(which("zfs", &[false, true, false, true]), Some("/usr/bin/zfs".to_string()));
    assert_eq!(which("zfs", &[false, false, true, false]), Some("/sbin/zfs".to_string()));
    assert_eq!(which("zfs", &[false, false, false, true]), Some("/bin/zfs".to_string()));
    assert_eq!(which("zfs", &[false, false, false, false]), None);
}

#[test]
fn which_looks_at_no_more_than_it_is_told() {
    assert_eq!(which("zfs", &[]), None);
    assert_eq!(which("zfs", &[false, false]), None);
    assert_eq!(which("zfs", &[false, true]), Some("/usr/bin/zfs".to_string()));
    assert_eq!(which("zfs", &[false, false, false, false, true]), None);
}

#[test]
fn pkexec_runs_the_arguments() {
    assert_eq!(
        pkexec("/usr/bin/pkexec", &["mount", "-t", "proc"]),
        command("/usr/bin/pkexec", &["mount", "-t", "proc"])
    );
    assert_eq!(pkexec("p", &[]), command("p", &[]));
}

#[test]
fn zfs_runs_under_pkexec() {
    assert_eq!(
        zfs("/usr/bin/pkexec", "/usr/sbin/zfs", &["list", "tank"]),
        command("/usr/bin/pkexec", &["/usr/sbin/zfs", "list", "tank"])
    );
}

#[test]
fn chroot_runs_in_an_empty_environment_under_pkexec() {
    assert_eq!(
        chroot("/usr/bin/pkexec", "/usr/bin/env", "/usr/sbin/chroot", "/img", &["apt", "update"]),
        command(
            "/usr/bin/pkexec",
            &["/usr/bin/env", "-i", "/usr/sbin/chroot", "/img", "apt", "update"]
        )
    );
}

#[test]
fn the_command_line_joins_program_and_arguments() {
    assert_eq!(cmdline(&command("zfs", &["list", "tank"])), "zfs list tank");
    assert_eq!(cmdline(&command("zfs", &["list"])), "zfs list");
    assert_eq!(cmdline(&command("zfs", &[])), "zfs ");
    assert_eq!(cmdline(&command("", &["", ""])), "  ");
}

#[test]
fn outcomes_are_logged_with_the_description() {
    assert_eq!(skipped_message("Create ZVOL"), "Create ZVOL was already done, skipping.");
    assert_eq!(succeeded_message("Create ZVOL"), "Create ZVOL succeeded.");
}

#[test]
fn failures_are_told_with_the_command_line() {
    let c = command("zfs", &["list", "tank"]);
    assert_eq!(
        failure_message(Failure::CheckNotRun, &c, "No such file"),
        "Error running check command 'zfs list tank': No such file"
    );
    assert_eq!(
        failure_message(Failure::SpawnFailed, &c, "No such file"),
        "Failed to spawn command 'zfs list tank': No such file"
    );
    assert_eq!(
        failure_message(Failure::WaitFailed, &c, "interrupted"),
        "Failed to wait for command 'zfs list tank': interrupted"
    );
    assert_eq!(
        failure_message(Failure::NonZeroExit, &c, exit_detail(Some(1)).as_str()),
        "Command 'zfs list tank' failed with exit code: Some(1)"
    );
    assert_eq!(
        failure_message(Failure::NonZeroExit, &c, captured_detail(b"out", b"err").as_str()),
        "Command 'zfs list tank' failed:\nSTDOUT: out\nSTDERR: err"
    );
}

#[test]
fn captured_output_is_told_in_full() {
    assert_eq!(captured_text("out", "err"), ":\nSTDOUT: out\nSTDERR: err");
    assert_eq!(captured_text("", ""), ":\nSTDOUT: \nSTDERR: ");
    assert_eq!(captured_detail(&[0xFF], b"e"), ":\nSTDOUT: \u{FFFD}\nSTDERR: e");
}

#[test]
fn exit_codes_are_told_as_they_are() {
    for code in [None, Some(0), Some(1), Some(-1), Some(255), Some(i32::MAX), Some(i32::MIN)] {
        assert_eq!(exit_detail(code), format!(" with exit code: {:?}", code));
    }
}

#[test]
fn errors_and_log_entries_have_their_form() {
    assert_eq!(error_line("it broke"), "ERROR: it broke");
    assert_eq!(log_entry("2024-05-01 12:00:00", "it worked"), "[2024-05-01 12:00:00] it worked\n");
    assert_eq!(log_file("2024-05-01"), "/var/log/reflectron/2024-05-01.log");
    assert_eq!(
        not_found_message("zfs"),
        "Could not find program zfs in system paths /usr/sbin/ /usr/bin/ /sbin/ /bin/. Please install it and try again."
    );
}

#[test]
fn a_plan_begins_with_its_first_operation() {
    assert_eq!(first_step(3), PlanStep::Perform(0));
    assert_eq!(first_step(1), PlanStep::Perform(0));
    assert_eq!(first_step(0), PlanStep::Finished);
}

#[test]
fn a_failure_stops_the_plan() {
    for failure in
        [Failure::CheckNotRun, Failure::SpawnFailed, Failure::WaitFailed, Failure::NonZeroExit]
    {
        assert_eq!(next_step(3, 0, Action::Fail(failure)), PlanStep::Stopped(failure));
        assert_eq!(next_step(3, 1, Action::Fail(failure)), PlanStep::Stopped(failure));
        assert_eq!(next_step(3, 2, Action::Fail(failure)), PlanStep::Stopped(failure));
    }
}

#[test]
fn the_next_operation_follows_one_that_was_skipped_or_has_succeeded() {
    for last in [Action::Skip, Action::Succeed, Action::Nothing] {
        assert_eq!(next_step(3, 0, last), PlanStep::Perform(1));
        assert_eq!(next_step(3, 1, last), PlanStep::Perform(2));
        assert_eq!(next_step(3, 2, last), PlanStep::Finished);
        assert_eq!(next_step(3, 7, last), PlanStep::Finished);
        assert_eq!(next_step(0, 0, last), PlanStep::Finished);
        assert_eq!(next_step(usize::MAX, usize::MAX, last), PlanStep::Finished);
    }
}

#[test]
fn an_operation_that_is_not_finished_is_gone_on_with() {
    for last in [Action::RunCheck, Action::RunOperation] {
        assert_eq!(next_step(3, 1, last), PlanStep::Perform(1));
        assert_eq!(next_step(3, 3, last), PlanStep::Finished);
    }
}
