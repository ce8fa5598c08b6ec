//! Tracked execution: runs a resolved command line in a shell, records how
//! long it took and how it ended, and hands the record to the store.
//!
//! The library starts no process and sends nothing. It decides what is to be
//! done next, and the caller does it: [`ExecutionTracker::advance`] takes what
//! came of the last action and returns the next one. That the record cannot
//! be delivered is a warning and never changes how the execution ends.
use crate::api::ExecutionHistoryCreate;
use crate::text::{decimal, join, joined, push_decimal, string_of, texts};
use vstd::prelude::*;
use vstd::string::StringExecFns;

verus! {

/// Where a tracked execution stands.
#[derive(Clone, Copy, Debug, PartialEq, Eq)]
pub enum Stage {
    /// Nothing was started yet.
    Ready,
    /// The command line runs.
    Running,
    /// The record is on its way to the store.
    Delivering,
    /// The execution is over.
    Finished,
}

/// What the caller reports to the tracker.
#[derive(Debug)]
pub enum TrackerEvent {
    /// The execution starts.
    Begin,
    /// The child ended: its exit code, or nothing where a signal ended it,
    /// and the time it ran in whole milliseconds.
    Exited { code: Option<i32>, elapsed_ms: u128 },
    /// The child could not be started, or could not be waited for after it
    /// was started.
    RunFailed { started: bool, cause: String },
    /// The store took the record.
    Delivered,
    /// The record could not be delivered, with the reason.
    DeliveryFailed(String),
}

/// What the tracker asks of the caller.
#[derive(Debug)]
pub enum TrackerAction {
    /// Print the announcement, then run `program` with the two arguments
    /// `flag` and `line`, on the caller's own terminal streams, and wait for
    /// it.
    Run { announcement: String, program: String, flag: String, line: String },
    /// Hand this record to the store.
    Deliver(ExecutionHistoryCreate),
    /// The execution is over. Print the warning if there is one; then end
    /// the process with the exit code if there is one.
    Finish { warning: Option<String>, exit: Option<i32> },
    /// The command line could not be run.
    Failed { message: String, cause: String },
    /// The event does not report on what was asked; nothing changed.
    OutOfTurn,
}

/// The exit code that stands for a child that a signal ended.
pub const SIGNALLED: i32 = -1;

/// An [`ExecutionHistoryCreate`] over character sequences.
pub struct RecordView {
    pub command_id: i32,
    pub user: Option<Seq<char>>,
    pub hostname: Option<Seq<char>>,
    pub cwd: Option<Seq<char>>,
    pub arguments: Option<Seq<char>>,
    pub execution_method: Seq<char>,
    pub duration_ms: Option<i32>,
    pub exit_code: Option<i32>,
}

impl View for ExecutionHistoryCreate {
    type V = RecordView;

    open spec fn view(&self) -> RecordView {
        RecordView {
            command_id: self.command_id,
            user: string_of(self.user),
            hostname: string_of(self.hostname),
            cwd: string_of(self.cwd),
            arguments: string_of(self.arguments),
            execution_method: self.execution_method@,
            duration_ms: self.duration_ms,
            exit_code: self.exit_code,
        }
    }
}

/// A [`TrackerEvent`] over character sequences.
pub enum TrackerEventView {
    Begin,
    Exited { code: Option<i32>, elapsed_ms: u128 },
    RunFailed { started: bool, cause: Seq<char> },
    Delivered,
    DeliveryFailed(Seq<char>),
}

/// A [`TrackerAction`] over character sequences.
pub enum TrackerActionView {
    Run { announcement: Seq<char>, program: Seq<char>, flag: Seq<char>, line: Seq<char> },
    Deliver(RecordView),
    Finish { warning: Option<Seq<char>>, exit: Option<i32> },
    Failed { message: Seq<char>, cause: Seq<char> },
    OutOfTurn,
}

impl View for TrackerEvent {
    type V = TrackerEventView;

    open spec fn view(&self) -> TrackerEventView {
        match self {
            TrackerEvent::Begin => TrackerEventView::Begin,
            TrackerEvent::Exited { code, elapsed_ms } => TrackerEventView::Exited {
                code: *code,
                elapsed_ms: *elapsed_ms,
            },
            TrackerEvent::RunFailed { started, cause } => TrackerEventView::RunFailed {
                started: *started,
                cause: cause@,
            },
            TrackerEvent::Delivered => TrackerEventView::Delivered,
            TrackerEvent::DeliveryFailed(cause) => TrackerEventView::DeliveryFailed(cause@),
        }
    }
}

impl View for TrackerAction {
    type V = TrackerActionView;

    open spec fn view(&self) -> TrackerActionView {
        match self {
            TrackerAction::Run { announcement, program, flag, line } => TrackerActionView::Run {
                announcement: announcement@,
                program: program@,
                flag: flag@,
                line: line@,
            },
            TrackerAction::Deliver(record) => TrackerActionView::Deliver(record@),
            TrackerAction::Finish { warning, exit } => TrackerActionView::Finish {
                warning: string_of(*warning),
                exit: *exit,
            },
            TrackerAction::Failed { message, cause } => TrackerActionView::Failed {
                message: message@,
                cause: cause@,
            },
            TrackerAction::OutOfTurn => TrackerActionView::OutOfTurn,
        }
    }
}

/// The state of a tracked execution.
pub struct TrackerState {
    /// The identifier of the command that is run.
    pub command_id: i32,
    /// Who runs it, on which host, in which directory.
    pub user: Seq<char>,
    pub hostname: Seq<char>,
    pub cwd: Seq<char>,
    /// The resolved command line.
    pub line: Seq<char>,
    /// The tag of the way in which the execution was asked for.
    pub method: Seq<char>,
    /// The extra arguments, joined by single spaces; nothing where there are
    /// none.
    pub arguments: Option<Seq<char>>,
    pub stage: Stage,
    /// The exit code with which the process is to end, once the child has
    /// ended without success.
    pub exit: Option<i32>,
}

/// The extra arguments as the record holds them.
pub open spec fn arguments_of(args: Seq<Seq<char>>) -> Option<Seq<char>> {
    if args.len() == 0 {
        None
    } else {
        Some(joined(args, " "@))
    }
}

/// The exit code of a child: its own, or `SIGNALLED` where it has none.
pub open spec fn exit_code_of(code: Option<i32>) -> i32 {
    match code {
        Some(c) => c,
        None => SIGNALLED,
    }
}

/// The exit code with which the process is to end after the child ended:
/// none where the child ended with code 0, else the exit code of the child.
pub open spec fn termination_of(code: Option<i32>) -> Option<i32> {
    if code == Some(0i32) {
        None
    } else {
        Some(exit_code_of(code))
    }
}

/// The duration as the record holds it: the low 32 bits of the milliseconds,
/// read as a signed number. Up to `i32::MAX` that is the number itself.
pub open spec fn duration_of(elapsed_ms: u128) -> i32 {
    elapsed_ms as i32
}

/// What is printed before the command line runs.
pub open spec fn announcement_of(command_id: i32, line: Seq<char>) -> Seq<char> {
    "Executing command "@ + decimal(command_id as int) + ": "@ + line
}

/// The warning for a record that could not be delivered.
pub open spec fn warning_of(cause: Seq<char>) -> Seq<char> {
    "Warning: Failed to track execution: "@ + cause
}

/// The record of the execution of `s` that ended with `code` after
/// `elapsed_ms`.
pub open spec fn record_of(s: TrackerState, code: Option<i32>, elapsed_ms: u128) -> RecordView {
    RecordView {
        command_id: s.command_id,
        user: Some(s.user),
        hostname: Some(s.hostname),
        cwd: Some(s.cwd),
        arguments: s.arguments,
        execution_method: s.method,
        duration_ms: Some(duration_of(elapsed_ms)),
        exit_code: Some(exit_code_of(code)),
    }
}

/// The state in which a tracked execution starts.
pub open spec fn initial(
    command_id: i32,
    user: Seq<char>,
    hostname: Seq<char>,
    cwd: Seq<char>,
    line: Seq<char>,
    method: Seq<char>,
    args: Seq<Seq<char>>,
) -> TrackerState {
    TrackerState {
        command_id,
        user,
        hostname,
        cwd,
        line,
        method,
        arguments: arguments_of(args),
        stage: Stage::Ready,
        exit: None,
    }
}

/// The state that follows `s` on `event`, and what is asked of the caller.
pub open spec fn step(s: TrackerState, event: TrackerEventView) -> (
    TrackerState,
    TrackerActionView,
) {
    match (s.stage, event) {
        (Stage::Ready, TrackerEventView::Begin) => (
            TrackerState { stage: Stage::Running, ..s },
            TrackerActionView::Run {
                announcement: announcement_of(s.command_id, s.line),
                program: "sh"@,
                flag: "-c"@,
                line: s.line,
            },
        ),
        (Stage::Running, TrackerEventView::Exited { code, elapsed_ms }) => (
            TrackerState { stage: Stage::Delivering, exit: termination_of(code), ..s },
            TrackerActionView::Deliver(record_of(s, code, elapsed_ms)),
        ),
        (Stage::Running, TrackerEventView::RunFailed { started, cause }) => (
            TrackerState { stage: Stage::Finished, ..s },
            TrackerActionView::Failed {
                message: if started {
                    "Failed to wait for command"@
                } else {
                    "Failed to spawn command"@
                },
                cause,
            },
        ),
        (Stage::Delivering, TrackerEventView::Delivered) => (
            TrackerState { stage: Stage::Finished, ..s },
            TrackerActionView::Finish { warning: None, exit: s.exit },
        ),
        (Stage::Delivering, TrackerEventView::DeliveryFailed(cause)) => (
            TrackerState { stage: Stage::Finished, ..s },
            TrackerActionView::Finish { warning: Some(warning_of(cause)), exit: s.exit },
        ),
        _ => (s, TrackerActionView::OutOfTurn),
    }
}

/// Each action belongs to one stage: the command line is run once, from the
/// start; its record is handed over once, when it has ended; and the
/// execution finishes once, when the record was dealt with.
pub proof fn each_action_has_its_stage(s: TrackerState, event: TrackerEventView)
    ensures
        step(s, event).1 is Run ==> s.stage is Ready && step(s, event).0.stage is Running,
        step(s, event).1 is Deliver ==> s.stage is Running && step(s, event).0.stage
            is Delivering,
        step(s, event).1 is Finish ==> s.stage is Delivering && step(s, event).0.stage
            is Finished,
        step(s, event).1 is Failed ==> s.stage is Running && step(s, event).0.stage is Finished,
        step(s, event).1 is OutOfTurn ==> step(s, event).0 == s,
        s.stage is Finished ==> step(s, event).1 is OutOfTurn,
{
}

/// Whether the record is delivered or not, the execution ends in the same
/// way: with the same exit code, or with none.
pub proof fn delivery_never_changes_the_end(s: TrackerState, cause: Seq<char>)
    requires
        s.stage is Delivering,
    ensures
        step(s, TrackerEventView::Delivered).1 == (TrackerActionView::Finish {
            warning: None,
            exit: s.exit,
        }),
        step(s, TrackerEventView::DeliveryFailed(cause)).1 == (TrackerActionView::Finish {
            warning: Some(warning_of(cause)),
            exit: s.exit,
        }),
        step(s, TrackerEventView::Delivered).0 == step(
            s,
            TrackerEventView::DeliveryFailed(cause),
        ).0,
{
}

/// The process ends with an exit code exactly where the child did not end
/// with code 0, and then with the child's own code, or with `SIGNALLED`
/// where a signal ended the child. The record holds the same code.
pub proof fn child_exit_is_passed_on(s: TrackerState, code: Option<i32>, elapsed_ms: u128)
    requires
        s.stage is Running,
    ensures
        ({
            let (t, action) = step(s, TrackerEventView::Exited { code, elapsed_ms });
            &&& t.stage is Delivering
            &&& t.exit is None <==> code == Some(0i32)
            &&& t.exit matches Some(c) ==> (match code {
                Some(own) => c == own,
                None => c == SIGNALLED,
            })
            &&& action matches TrackerActionView::Deliver(record) && record.exit_code == Some(
                exit_code_of(code),
            )
        }),
{
}

/// A duration that fits is recorded as it is.
pub proof fn duration_that_fits_is_kept(elapsed_ms: u128)
    requires
        elapsed_ms <= i32::MAX,
    ensures
        duration_of(elapsed_ms) == elapsed_ms,
{
    assert(elapsed_ms <= 0x7fff_ffff ==> (elapsed_ms as i32) as u128 == elapsed_ms) by (bit_vector);
}

/// A tracked execution in progress. Its view is the state that the steps
/// are stated over.
pub struct ExecutionTracker {
    command_id: i32,
    user: String,
    hostname: String,
    cwd: String,
    line: String,
    method: String,
    arguments: Option<String>,
    stage: Stage,
    exit: Option<i32>,
}

impl View for ExecutionTracker {
    type V = TrackerState;

    closed spec fn view(&self) -> TrackerState {
        TrackerState {
            command_id: self.command_id,
            user: self.user@,
            hostname: self.hostname@,
            cwd: self.cwd@,
            line: self.line@,
            method: self.method@,
            arguments: string_of(self.arguments),
            stage: self.stage,
            exit: self.exit,
        }
    }
}

impl ExecutionTracker {
    /// Prepares the tracked execution of the resolved command line
    /// `resolved_command`, which belongs to the command `command_id`. The
    /// extra arguments `args` are recorded, not run: the command line holds
    /// them already.
    pub fn new(
        command_id: i32,
        user: &str,
        hostname: &str,
        cwd: &str,
        resolved_command: &str,
        execution_method: &str,
        args: &[String],
    ) -> (r: ExecutionTracker)
        ensures
            r@ == initial(
                command_id,
                user@,
                hostname@,
                cwd@,
                resolved_command@,
                execution_method@,
                texts(args@),
            ),
    {
        let arguments = if args.len() == 0 {
            None
        } else {
            Some(join(args, " "))
        };
        ExecutionTracker {
            command_id,
            user: user.to_owned(),
            hostname: hostname.to_owned(),
            cwd: cwd.to_owned(),
            line: resolved_command.to_owned(),
            method: execution_method.to_owned(),
            arguments,
            stage: Stage::Ready,
            exit: None,
        }
    }

    /// Where the execution stands.
    pub fn stage(&self) -> (r: Stage)
        ensures
            r == self@.stage,
    {
        self.stage
    }

    /// Takes what came of the last action and returns the next one. The
    /// first event is `Begin`.
    pub fn advance(self, event: TrackerEvent) -> (r: (ExecutionTracker, TrackerAction))
        ensures
            (r.0@, r.1@) == step(self@, event@),
    {
        match (self.stage, event) {
            (Stage::Ready, TrackerEvent::Begin) => {
                let mut announcement = String::from_str("Executing command ");
                push_decimal(&mut announcement, self.command_id);
                announcement.append(": ");
                announcement.append(self.line.as_str());
                let line = self.line.clone();
                let mut next = self;
                next.stage = Stage::Running;
                (
                    next,
                    TrackerAction::Run {
                        announcement,
                        program: "sh".to_owned(),
                        flag: "-c".to_owned(),
                        line,
                    },
                )
            },
            (Stage::Running, TrackerEvent::Exited { code, elapsed_ms }) => {
                let exit_code = match code {
                    Some(c) => c,
                    None => SIGNALLED,
                };
                let succeeded = match code {
                    Some(c) => c == 0,
                    None => false,
                };
                let record = ExecutionHistoryCreate {
                    command_id: self.command_id,
                    user: Some(self.user.clone()),
                    hostname: Some(self.hostname.clone()),
                    cwd: Some(self.cwd.clone()),
                    arguments: self.arguments.clone(),
                    execution_method: self.method.clone(),
                    duration_ms: Some(whole_millis(elapsed_ms)),
                    exit_code: Some(exit_code),
                };
                let mut next = self;
                next.stage = Stage::Delivering;
                next.exit = if succeeded {
                    None
                } else {
                    Some(exit_code)
                };
                (next, TrackerAction::Deliver(record))
            },
            (Stage::Running, TrackerEvent::RunFailed { started, cause }) => {
                let message = if started {
                    "Failed to wait for command".to_owned()
                } else {
                    "Failed to spawn command".to_owned()
                };
                let mut next = self;
                next.stage = Stage::Finished;
                (next, TrackerAction::Failed { message, cause })
            },
            (Stage::Delivering, TrackerEvent::Delivered) => {
                let exit = self.exit;
                let mut next = self;
                next.stage = Stage::Finished;
                (next, TrackerAction::Finish { warning: None, exit })
            },
            (Stage::Delivering, TrackerEvent::DeliveryFailed(cause)) => {
                let mut warning = String::from_str("Warning: Failed to track execution: ");
                warning.append(cause.as_str());
                let exit = self.exit;
                let mut next = self;
                next.stage = Stage::Finished;
                (next, TrackerAction::Finish { warning: Some(warning), exit })
            },
            (_, _) => (self, TrackerAction::OutOfTurn),
        }
    }
}

/// The ways in which an execution is asked for.
#[derive(Clone, Copy, Debug, PartialEq, Eq, Structural)]
pub enum ExecutionMethod {
    /// Picked from the list of commands.
    Find,
    /// By the identifier of the command.
    Id,
    /// By the name of the command, matched against the context.
    Name,
    /// Saved and run in one step.
    Do,
    /// Saved and run in one step, in the older way.
    Shell,
    /// By namespace and name.
    NamespaceName,
}

impl ExecutionMethod {
    /// The tag under which the record names the method.
    pub open spec fn tag_of(self) -> Seq<char> {
        match self {
            ExecutionMethod::Find => "find"@,
            ExecutionMethod::Id => "id"@,
            ExecutionMethod::Name => "name"@,
            ExecutionMethod::Do => "do"@,
            ExecutionMethod::Shell => "shell"@,
            ExecutionMethod::NamespaceName => "namespace_name"@,
        }
    }

    /// The tag under which the record names the method.
    pub fn tag(&self) -> (r: &'static str)
        ensures
            r@ == self.tag_of(),
    {
        match self {
            ExecutionMethod::Find => "find",
            ExecutionMethod::Id => "id",
            ExecutionMethod::Name => "name",
            ExecutionMethod::Do => "do",
            ExecutionMethod::Shell => "shell",
            ExecutionMethod::NamespaceName => "namespace_name",
        }
    }
}

/// The low 32 bits of `elapsed_ms`, read as a signed number.
fn whole_millis(elapsed_ms: u128) -> (r: i32)
    ensures
        r == duration_of(elapsed_ms),
{
    #[verifier::truncate]
    (elapsed_ms as i32)
}

} // verus!
