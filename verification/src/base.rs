//! Running external commands under a check-then-act policy.
//!
//! The library never starts a process itself. It decides: given how far an
//! operation has come and what the last command reported, it says what to run
//! next, what to log, or why to stop. The caller runs the commands and hands
//! back what they reported.

use vstd::prelude::*;
use vstd::string::StringExecFns;
use crate::text::{concat, decimal, decimal_text, join, joined, lossy_text, texts, utf8_lossy};

verus! {

/// An external command: the program and its arguments.
#[derive(Debug, PartialEq, Eq)]
pub struct Command {
    pub program: String,
    pub args: Vec<String>,
}

/// One unit of work: an operation, and optionally a check that tells whether
/// the operation was already done.
#[derive(Debug, PartialEq, Eq)]
pub struct Operation {
    pub description: String,
    pub check: Option<Command>,
    pub operation: Command,
    pub stream_output: bool,
}

/// How a run of a command ended.
#[derive(Clone, Copy, Debug, PartialEq, Eq, Structural)]
pub enum Status {
    /// The program could not be started.
    SpawnFailed,
    /// The program was started, but waiting for it failed.
    WaitFailed,
    /// The program exited with code zero.
    Success,
    /// The program exited otherwise.
    Failure,
}

/// How far an operation has come.
#[derive(Clone, Copy, Debug, PartialEq, Eq, Structural)]
pub enum Phase {
    /// Nothing was run yet.
    Start,
    /// The check is running.
    Checking,
    /// The operation is running.
    Running,
    /// The operation was skipped, has succeeded or has failed.
    Finished,
}

/// Why an operation cannot go on.
#[derive(Clone, Copy, Debug, PartialEq, Eq, Structural)]
pub enum Failure {
    /// The check could not be run.
    CheckNotRun,
    /// The command could not be started.
    SpawnFailed,
    /// Waiting for the command failed.
    WaitFailed,
    /// The command exited with a code other than zero.
    NonZeroExit,
}

/// What the caller does next for an operation.
#[derive(Clone, Copy, Debug, PartialEq, Eq, Structural)]
pub enum Action {
    /// Run the check, capturing its output, and report how it ended.
    RunCheck,
    /// Run the operation and report how it ended.
    RunOperation,
    /// Log that the operation was already done.
    Skip,
    /// Log that the operation succeeded.
    Succeed,
    /// Report the failure and stop.
    Fail(Failure),
    /// Nothing is left to do.
    Nothing,
}

/// The policy of `perform`: what follows from `phase` once a command has
/// reported `event`, for an operation that has a check or has none.
pub open spec fn perform_spec(has_check: bool, phase: Phase, event: Option<Status>) -> (
    Phase,
    Action,
) {
    match phase {
        Phase::Start => if has_check {
            (Phase::Checking, Action::RunCheck)
        } else {
            (Phase::Running, Action::RunOperation)
        },
        Phase::Checking => match event {
            None => (Phase::Checking, Action::RunCheck),
            Some(Status::Success) => (Phase::Finished, Action::Skip),
            Some(Status::Failure) => (Phase::Running, Action::RunOperation),
            Some(_) => (Phase::Finished, Action::Fail(Failure::CheckNotRun)),
        },
        Phase::Running => match event {
            None => (Phase::Running, Action::RunOperation),
            Some(Status::Success) => (Phase::Finished, Action::Succeed),
            Some(Status::Failure) => (Phase::Finished, Action::Fail(Failure::NonZeroExit)),
            Some(Status::SpawnFailed) => (Phase::Finished, Action::Fail(Failure::SpawnFailed)),
            Some(Status::WaitFailed) => (Phase::Finished, Action::Fail(Failure::WaitFailed)),
        },
        Phase::Finished => (Phase::Finished, Action::Nothing),
    }
}

/// One step of an operation. From `Phase::Start` the check is run if there is
/// one, else the operation. A check that exits with zero ends the operation as
/// skipped; one that exits otherwise leads to the operation; one that could
/// not be run is a failure. The operation succeeds if it exits with zero, and
/// fails in every other case. While a command's report is missing (`event` is
/// `None`) the request for it is repeated.
pub fn perform(op: &Operation, phase: Phase, event: Option<Status>) -> (step: (Phase, Action))
    ensures
        step == perform_spec(op.check is Some, phase, event),
{
    match phase {
        Phase::Start => {
            if op.check.is_some() {
                (Phase::Checking, Action::RunCheck)
            } else {
                (Phase::Running, Action::RunOperation)
            }
        },
        Phase::Checking => match event {
            None => (Phase::Checking, Action::RunCheck),
            Some(Status::Success) => (Phase::Finished, Action::Skip),
            Some(Status::Failure) => (Phase::Running, Action::RunOperation),
            Some(_) => (Phase::Finished, Action::Fail(Failure::CheckNotRun)),
        },
        Phase::Running => match event {
            None => (Phase::Running, Action::RunOperation),
            Some(Status::Success) => (Phase::Finished, Action::Succeed),
            Some(Status::Failure) => (Phase::Finished, Action::Fail(Failure::NonZeroExit)),
            Some(Status::SpawnFailed) => (Phase::Finished, Action::Fail(Failure::SpawnFailed)),
            Some(Status::WaitFailed) => (Phase::Finished, Action::Fail(Failure::WaitFailed)),
        },
        Phase::Finished => (Phase::Finished, Action::Nothing),
    }
}

/// What the caller does next in a plan, a list of operations that are
/// performed in their order.
#[derive(Clone, Copy, Debug, PartialEq, Eq, Structural)]
pub enum PlanStep {
    /// Perform the operation at this place of the plan.
    Perform(usize),
    /// Every operation of the plan was skipped or has succeeded.
    Finished,
    /// An operation has failed. Nothing more of the plan is performed, and
    /// what the earlier operations did is left as it is.
    Stopped(Failure),
}

/// The first step of a plan of `len` operations.
pub open spec fn first_step_spec(len: usize) -> PlanStep {
    if len > 0 {
        PlanStep::Perform(0)
    } else {
        PlanStep::Finished
    }
}

/// The step that follows in a plan of `len` operations once `perform` has
/// given `last` for the operation at `index`.
pub open spec fn next_step_spec(len: usize, index: usize, last: Action) -> PlanStep {
    match last {
        Action::Fail(failure) => PlanStep::Stopped(failure),
        Action::RunCheck | Action::RunOperation => if index < len {
            PlanStep::Perform(index)
        } else {
            PlanStep::Finished
        },
        _ => if index + 1 < len {
            PlanStep::Perform((index + 1) as usize)
        } else {
            PlanStep::Finished
        },
    }
}

/// The first step of a plan of `len` operations: its first operation, if it
/// has one.
pub fn first_step(len: usize) -> (step: PlanStep)
    ensures
        step == first_step_spec(len),
{
    if len > 0 {
        PlanStep::Perform(0)
    } else {
        PlanStep::Finished
    }
}

/// The step that follows in a plan of `len` operations once `perform` has
/// given `last` for the operation at `index`. A failure stops the plan: no
/// later operation is performed, none is tried again and none is undone. An
/// operation that is still asked to run a command is gone on with. After one
/// that was skipped or has succeeded the next operation follows, and the plan
/// is finished after the last.
pub fn next_step(len: usize, index: usize, last: Action) -> (step: PlanStep)
    ensures
        step == next_step_spec(len, index, last),
{
    match last {
        Action::Fail(failure) => PlanStep::Stopped(failure),
        Action::RunCheck | Action::RunOperation => {
            if index < len {
                PlanStep::Perform(index)
            } else {
                PlanStep::Finished
            }
        },
        _ => {
            if index < len && index + 1 < len {
                PlanStep::Perform(index + 1)
            } else {
                PlanStep::Finished
            }
        },
    }
}

/// The step that follows `step` on the action `last`: steps that perform
/// nothing are final.
pub open spec fn step_after(len: usize, step: PlanStep, last: Action) -> PlanStep {
    match step {
        PlanStep::Perform(index) => next_step_spec(len, index, last),
        _ => step,
    }
}

/// Whether `steps` is a run of a plan of `len` operations: it begins with the
/// first step, and each step follows the one before it on the action that
/// `perform` gave.
pub open spec fn is_plan_run(len: usize, steps: Seq<PlanStep>, lasts: Seq<Action>) -> bool {
    &&& steps.len() == lasts.len() + 1
    &&& steps[0] == first_step_spec(len)
    &&& forall|i: int|
        0 <= i < lasts.len() ==> #[trigger] steps[i + 1] == step_after(len, steps[i], lasts[i])
}

/// A failure ends the plan: once an operation has failed, every later step
/// of the run is that failure. No later operation is performed, the failed one
/// is not tried again, and nothing is asked that would undo an earlier one.
pub proof fn lemma_failure_ends_plan(
    len: usize,
    steps: Seq<PlanStep>,
    lasts: Seq<Action>,
    i: int,
    j: int,
)
    requires
        is_plan_run(len, steps, lasts),
        0 <= i < j < steps.len(),
        steps[i] is Perform,
        lasts[i] is Fail,
    ensures
        steps[j] == PlanStep::Stopped(lasts[i]->Fail_0),
    decreases j - i,
{
    assert(steps[i + 1] == step_after(len, steps[i], lasts[i]));
    if i + 1 < j {
        lemma_final_step_stays(len, steps, lasts, i + 1, j);
    }
}

/// A step that performs nothing stays: it is every later step of the run.
pub proof fn lemma_final_step_stays(
    len: usize,
    steps: Seq<PlanStep>,
    lasts: Seq<Action>,
    i: int,
    j: int,
)
    requires
        is_plan_run(len, steps, lasts),
        0 <= i <= j < steps.len(),
        !(steps[i] is Perform),
    ensures
        steps[j] == steps[i],
    decreases j - i,
{
    if i < j {
        lemma_final_step_stays(len, steps, lasts, i, j - 1);
        assert(steps[j - 1 + 1] == step_after(len, steps[j - 1], lasts[j - 1]));
    }
}

/// A plan runs in its order: each step performs an operation of the plan,
/// and the next step performs the same operation or the one behind it.
pub proof fn lemma_plan_runs_in_order(len: usize, steps: Seq<PlanStep>, lasts: Seq<Action>, i: int)
    requires
        is_plan_run(len, steps, lasts),
        0 <= i < steps.len(),
    ensures
        steps[i] matches PlanStep::Perform(index) ==> index < len && index <= i,
        i > 0 && steps[i] is Perform ==> {
            &&& steps[i - 1] is Perform
            &&& (steps[i]->Perform_0 == steps[i - 1]->Perform_0 || steps[i]->Perform_0
                == steps[i - 1]->Perform_0 + 1)
        },
    decreases i,
{
    if i > 0 {
        lemma_plan_runs_in_order(len, steps, lasts, i - 1);
        assert(steps[i - 1 + 1] == step_after(len, steps[i - 1], lasts[i - 1]));
    }
}

/// What a `Command` holds, as mathematical values.
pub struct CommandView {
    pub program: Seq<char>,
    pub args: Seq<Seq<char>>,
}

impl View for Command {
    type V = CommandView;

    open spec fn view(&self) -> CommandView {
        CommandView { program: self.program@, args: texts(self.args@) }
    }
}

/// What an `Operation` holds, as mathematical values.
pub struct OperationView {
    pub description: Seq<char>,
    pub check: Option<CommandView>,
    pub operation: CommandView,
    pub stream_output: bool,
}

impl View for Operation {
    type V = OperationView;

    open spec fn view(&self) -> OperationView {
        OperationView {
            description: self.description@,
            check: match self.check {
                Some(c) => Some(c@),
                None => None,
            },
            operation: self.operation@,
            stream_output: self.stream_output,
        }
    }
}

/// The texts of a list of string slices.
pub open spec fn slice_texts(args: Seq<&str>) -> Seq<Seq<char>> {
    args.map_values(|s: &str| s@)
}

/// The strings of `args`, each as a string of its own.
pub fn owned(args: &[&str]) -> (r: Vec<String>)
    ensures
        texts(r@) == slice_texts(args@),
{
    let mut r: Vec<String> = Vec::new();
    let mut i: usize = 0;
    while i < args.len()
        invariant
            i <= args.len(),
            texts(r@) == slice_texts(args@.take(i as int)),
        decreases args.len() - i,
    {
        let s = String::from_str(args[i]);
        proof {
            assert(texts(r@.push(s)) == texts(r@).push(s@));
            assert(slice_texts(args@.take(i + 1)) == slice_texts(args@.take(i as int)).push(
                args@[i as int]@,
            ));
        }
        r.push(s);
        i += 1;
    }
    assert(args@.take(args.len() as int) == args@);
    r
}

/// The command that runs `args` with the rights that `pkexec` grants, where
/// `pkexec_path` is the path of that program.
pub fn pkexec(pkexec_path: &str, args: &[&str]) -> (command: Command)
    ensures
        command@ == (CommandView { program: pkexec_path@, args: slice_texts(args@) }),
{
    Command { program: String::from_str(pkexec_path), args: owned(args) }
}

/// `first` followed by `rest`.
fn prepend<'a>(first: &'a str, rest: &[&'a str]) -> (r: Vec<&'a str>)
    ensures
        slice_texts(r@) == seq![first@] + slice_texts(rest@),
{
    let mut r: Vec<&'a str> = Vec::new();
    r.push(first);
    let mut i: usize = 0;
    assert(slice_texts(r@) == seq![first@] + slice_texts(rest@.take(0)));
    while i < rest.len()
        invariant
            i <= rest.len(),
            slice_texts(r@) == seq![first@] + slice_texts(rest@.take(i as int)),
        decreases rest.len() - i,
    {
        proof {
            assert(slice_texts(r@.push(rest@[i as int])) == slice_texts(r@).push(
                rest@[i as int]@,
            ));
            assert(slice_texts(rest@.take(i + 1)) == slice_texts(rest@.take(i as int)).push(
                rest@[i as int]@,
            ));
        }
        r.push(rest[i]);
        i += 1;
    }
    assert(rest@.take(rest.len() as int) == rest@);
    r
}

/// The command that runs `zfs` with `args` with the rights that `pkexec`
/// grants, where `pkexec_path` and `zfs_path` are the paths of the two programs.
pub fn zfs(pkexec_path: &str, zfs_path: &str, args: &[&str]) -> (command: Command)
    ensures
        command@ == (CommandView {
            program: pkexec_path@,
            args: seq![zfs_path@] + slice_texts(args@),
        }),
{
    let all = prepend(zfs_path, args);
    pkexec(pkexec_path, all.as_slice())
}

/// The command that runs `args` under `new_root` as its root directory, in an
/// empty environment, with the rights that `pkexec` grants. The three paths are
/// those of the programs `pkexec`, `env` and `chroot`.
pub fn chroot(
    pkexec_path: &str,
    env_path: &str,
    chroot_path: &str,
    new_root: &str,
    args: &[&str],
) -> (command: Command)
    ensures
        command@ == (CommandView {
            program: pkexec_path@,
            args: seq![env_path@, "-i"@, chroot_path@, new_root@] + slice_texts(args@),
        }),
{
    let a = prepend(new_root, args);
    let b = prepend(chroot_path, a.as_slice());
    let c = prepend("-i", b.as_slice());
    let d = prepend(env_path, c.as_slice());
    assert(seq![env_path@] + (seq!["-i"@] + (seq![chroot_path@] + (seq![new_root@] + slice_texts(
        args@,
    )))) == seq![env_path@, "-i"@, chroot_path@, new_root@] + slice_texts(args@));
    pkexec(pkexec_path, d.as_slice())
}

/// The command line of `command` as one text: the program, a space, and the
/// arguments with a space between neighbours.
pub open spec fn cmdline_text(command: CommandView) -> Seq<char> {
    command.program + " "@ + joined(command.args, " "@)
}

/// The command line of `command` as one text.
pub fn cmdline(command: &Command) -> (line: String)
    ensures
        line@ == cmdline_text(command@),
{
    let mut line = concat(command.program.as_str(), " ");
    let args = join(&command.args, " ");
    line.append(args.as_str());
    line
}

/// The directories in which programs are looked for, in this order.
pub open spec fn search_dirs() -> Seq<Seq<char>> {
    seq!["/usr/sbin/"@, "/usr/bin/"@, "/sbin/"@, "/bin/"@]
}

/// The paths at which `program` is looked for, in this order.
pub fn candidates(program: &str) -> (paths: Vec<String>)
    ensures
        paths.len() == 4,
        forall|i: int| 0 <= i < 4 ==> (#[trigger] paths[i])@ == search_dirs()[i] + program@,
{
    let mut paths: Vec<String> = Vec::new();
    paths.push(concat("/usr/sbin/", program));
    paths.push(concat("/usr/bin/", program));
    paths.push(concat("/sbin/", program));
    paths.push(concat("/bin/", program));
    paths
}

/// Whether `i` is the first of the search directories in which the program
/// is present.
pub open spec fn is_first_present(present: Seq<bool>, i: int) -> bool {
    &&& 0 <= i < 4
    &&& i < present.len()
    &&& present[i]
    &&& forall|j: int| 0 <= j < i ==> !present[j]
}

/// The path of `program`: its path in the first search directory that holds
/// it. `present[i]` tells whether the `i`-th of `candidates(program)` exists;
/// what `present` says beyond the search directories is not looked at.
pub fn which(program: &str, present: &[bool]) -> (path: Option<String>)
    ensures
        match path {
            Some(p) => exists|i: int|
                is_first_present(present@, i) && p@ == search_dirs()[i] + program@,
            None => forall|i: int| 0 <= i < 4 && i < present.len() ==> !present@[i],
        },
{
    let mut paths = candidates(program);
    let mut i: usize = 0;
    while i < 4 && i < present.len()
        invariant
            i <= 4,
            paths.len() == 4,
            forall|k: int| 0 <= k < 4 ==> (#[trigger] paths[k])@ == search_dirs()[k] + program@,
            forall|j: int| 0 <= j < i && j < present.len() ==> !present@[j],
        decreases 4 - i,
    {
        if present[i] {
            assert(is_first_present(present@, i as int));
            return Some(paths.swap_remove(i));
        }
        i += 1;
    }
    None
}

/// The result of a check: whether the command exited with zero, or that it
/// could not be run.
pub fn success_stauts(status: Status) -> (r: Result<bool, Failure>)
    ensures
        r == match status {
            Status::Success => Ok::<bool, Failure>(true),
            Status::Failure => Ok(false),
            _ => Err(Failure::CheckNotRun),
        },
{
    match status {
        Status::Success => Ok(true),
        Status::Failure => Ok(false),
        _ => Err(Failure::CheckNotRun),
    }
}

/// The failure that a run which ended as `status` stands for, if it is one.
pub open spec fn failure_of(status: Status) -> Option<Failure> {
    match status {
        Status::Success => None,
        Status::Failure => Some(Failure::NonZeroExit),
        Status::SpawnFailed => Some(Failure::SpawnFailed),
        Status::WaitFailed => Some(Failure::WaitFailed),
    }
}

/// The standard output of a command as text: the text that `stdout` holds if
/// the command exited with zero, and the failure otherwise.
pub fn get(status: Status, stdout: &[u8]) -> (r: Result<String, Failure>)
    ensures
        match r {
            Ok(text) => status == Status::Success && text@ == utf8_lossy(stdout@),
            Err(failure) => failure_of(status) == Some(failure),
        },
{
    match status {
        Status::Success => Ok(lossy_text(stdout)),
        Status::Failure => Err(Failure::NonZeroExit),
        Status::SpawnFailed => Err(Failure::SpawnFailed),
        Status::WaitFailed => Err(Failure::WaitFailed),
    }
}

/// What the caller does next while it waits for a command to succeed.
#[derive(Clone, Copy, Debug, PartialEq, Eq, Structural)]
pub enum WaitAction {
    /// The command has succeeded.
    Done,
    /// Sleep for this many seconds, then run the command again.
    Retry(u64),
    /// Report the failure and stop.
    Fail(Failure),
}

/// The policy of `wait`.
pub open spec fn wait_spec(status: Status, sleep: u64, attempts: u64, limit: Option<u64>) -> WaitAction {
    match status {
        Status::Success => WaitAction::Done,
        Status::Failure => match limit {
            Some(most) if attempts >= most => WaitAction::Fail(Failure::NonZeroExit),
            _ => WaitAction::Retry(sleep),
        },
        Status::SpawnFailed => WaitAction::Fail(Failure::SpawnFailed),
        Status::WaitFailed => WaitAction::Fail(Failure::WaitFailed),
    }
}

/// One step of waiting for a command to succeed. `status` is how its last run
/// ended and `attempts` how often it has run. A run that exits with zero ends
/// the waiting. One that exits otherwise is followed by a sleep of `sleep`
/// seconds and another run, unless `limit` holds a number of runs that
/// `attempts` has reached; with no limit the waiting never gives up. A command
/// that could not be run is a failure.
pub fn wait(status: Status, sleep: u64, attempts: u64, limit: Option<u64>) -> (action: WaitAction)
    ensures
        action == wait_spec(status, sleep, attempts, limit),
{
    match status {
        Status::Success => WaitAction::Done,
        Status::Failure => match limit {
            Some(most) => if attempts >= most {
                WaitAction::Fail(Failure::NonZeroExit)
            } else {
                WaitAction::Retry(sleep)
            },
            None => WaitAction::Retry(sleep),
        },
        Status::SpawnFailed => WaitAction::Fail(Failure::SpawnFailed),
        Status::WaitFailed => WaitAction::Fail(Failure::WaitFailed),
    }
}

/// The line that is logged when an operation is skipped.
pub fn skipped_message(description: &str) -> (line: String)
    ensures
        line@ == description@ + " was already done, skipping."@,
{
    concat(description, " was already done, skipping.")
}

/// The line that is logged when an operation has succeeded.
pub fn succeeded_message(description: &str) -> (line: String)
    ensures
        line@ == description@ + " succeeded."@,
{
    concat(description, " succeeded.")
}

/// How the exit code `code` is put in a message.
pub open spec fn exit_text(code: Option<i32>) -> Seq<char> {
    match code {
        None => " with exit code: None"@,
        Some(n) => " with exit code: Some("@ + (if n < 0 {
            "-"@ + decimal_text((-n) as nat)
        } else {
            decimal_text(n as nat)
        }) + ")"@,
    }
}

/// What is said of a command that exited with `code`, or that a signal ended
/// where there is no code.
pub fn exit_detail(code: Option<i32>) -> (detail: String)
    ensures
        detail@ == exit_text(code),
{
    match code {
        None => String::from_str(" with exit code: None"),
        Some(n) => {
            let mut detail = String::from_str(" with exit code: Some(");
            if n < 0 {
                detail.append("-");
                detail.append(decimal((-(n as i64)) as u64).as_str());
            } else {
                detail.append(decimal(n as u64).as_str());
            }
            detail.append(")");
            detail
        },
    }
}

/// What is said of a command that printed `stdout` and `stderr`.
pub fn captured_text(stdout: &str, stderr: &str) -> (detail: String)
    ensures
        detail@ == ":\nSTDOUT: "@ + stdout@ + "\nSTDERR: "@ + stderr@,
{
    let mut detail = concat(":\nSTDOUT: ", stdout);
    detail.append("\nSTDERR: ");
    detail.append(stderr);
    detail
}

/// What is said of a command whose output was captured as bytes.
pub fn captured_detail(stdout: &[u8], stderr: &[u8]) -> (detail: String)
    ensures
        detail@ == ":\nSTDOUT: "@ + utf8_lossy(stdout@) + "\nSTDERR: "@ + utf8_lossy(stderr@),
{
    captured_text(lossy_text(stdout).as_str(), lossy_text(stderr).as_str())
}

/// The message of the failure `failure` of a command whose command line is
/// `line`, with `detail` on what happened.
pub open spec fn failure_text(failure: Failure, line: Seq<char>, detail: Seq<char>) -> Seq<char> {
    match failure {
        Failure::CheckNotRun => "Error running check command '"@ + line + "': "@ + detail,
        Failure::SpawnFailed => "Failed to spawn command '"@ + line + "': "@ + detail,
        Failure::WaitFailed => "Failed to wait for command '"@ + line + "': "@ + detail,
        Failure::NonZeroExit => "Command '"@ + line + "' failed"@ + detail,
    }
}

/// The message of the failure `failure` of `command`. For a command that
/// could not be run, `detail` is what the system said; for one that exited
/// with another code than zero it is `exit_detail` or `captured_detail`.
pub fn failure_message(failure: Failure, command: &Command, detail: &str) -> (message: String)
    ensures
        message@ == failure_text(failure, cmdline_text(command@), detail@),
{
    let line = cmdline(command);
    let (before, after) = match failure {
        Failure::CheckNotRun => ("Error running check command '", "': "),
        Failure::SpawnFailed => ("Failed to spawn command '", "': "),
        Failure::WaitFailed => ("Failed to wait for command '", "': "),
        Failure::NonZeroExit => ("Command '", "' failed"),
    };
    let mut message = concat(before, line.as_str());
    message.append(after);
    message.append(detail);
    message
}

/// The line that reports the error `message`.
pub fn error_line(message: &str) -> (line: String)
    ensures
        line@ == "ERROR: "@ + message@,
{
    concat("ERROR: ", message)
}

/// The entry that the log file gets for `message` at the time `timestamp`.
pub fn log_entry(timestamp: &str, message: &str) -> (entry: String)
    ensures
        entry@ == "["@ + timestamp@ + "] "@ + message@ + "\n"@,
{
    let mut entry = concat("[", timestamp);
    entry.append("] ");
    entry.append(message);
    entry.append("\n");
    entry
}

/// The path of the log file of the day `date`.
pub fn log_file(date: &str) -> (path: String)
    ensures
        path@ == "/var/log/reflectron/"@ + date@ + ".log"@,
{
    let mut path = concat("/var/log/reflectron/", date);
    path.append(".log");
    path
}

/// The line that is logged when `program` is in none of the search
/// directories.
pub fn not_found_message(program: &str) -> (line: String)
    ensures
        line@ == "Could not find program "@ + program@
            + " in system paths /usr/sbin/ /usr/bin/ /sbin/ /bin/. Please install it and try again."@,
{
    let mut line = concat("Could not find program ", program);
    line.append(" in system paths /usr/sbin/ /usr/bin/ /sbin/ /bin/. Please install it and try again.");
    line
}

} // verus!
