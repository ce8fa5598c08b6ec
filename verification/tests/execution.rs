use hp::execution::{
    ExecutionMethod, ExecutionTracker, SIGNALLED, Stage, TrackerAction, TrackerEvent,
};

fn tracker(args: &[String]) -> ExecutionTracker {
    ExecutionTracker::new(123, "testuser", "testhost", "/test/dir", "echo hi", "id", args)
}

fn run_to_delivery(
    args: &[String],
    code: Option<i32>,
    elapsed_ms: u128,
) -> (ExecutionTracker, TrackerAction) {
    let (t, action) = tracker(args).advance(TrackerEvent::Begin);
    assert!(matches!(action, TrackerAction::Run { .. }));
    t.advance(TrackerEvent::Exited { code, elapsed_ms })
}

#[test]
fn begin_asks_for_a_shell() {
    let t = tracker(&[]);
    assert_eq!(t.stage(), Stage::Ready);
    let (t, action) = t.advance(TrackerEvent::Begin);
    assert_eq!(t.stage(), Stage::Running);
    match action {
        TrackerAction::Run { announcement, program, flag, line } => {
            assert_eq!(announcement, "Executing command 123: echo hi");
            assert_eq!(program, "sh");
            assert_eq!(flag, "-c");
            assert_eq!(line, "echo hi");
        }
        other => panic!("unexpected action {:?}", other),
    }
}

#[test]
fn record_of_a_successful_run() {
    let args = vec!["--verbose".to_string()];
    let (t, action) = run_to_delivery(&args, Some(0), 1500);
    assert_eq!(t.stage(), Stage::Delivering);
    match action {
        TrackerAction::Deliver(record) => {
            assert_eq!(record.command_id, 123);
            assert_eq!(record.user, Some("testuser".to_string()));
            assert_eq!(record.hostname, Some("testhost".to_string()));
            assert_eq!(record.cwd, Some("/test/dir".to_string()));
            assert_eq!(record.arguments, Some("--verbose".to_string()));
            assert_eq!(record.execution_method, "id");
            assert_eq!(record.duration_ms, Some(1500));
            assert_eq!(record.exit_code, Some(0));
        }
        other => panic!("unexpected action {:?}", other),
    }
    let (t, action) = t.advance(TrackerEvent::Delivered);
    assert_eq!(t.stage(), Stage::Finished);
    assert!(matches!(action, TrackerAction::Finish { warning: None, exit: None }));
}

#[test]
fn arguments_are_joined_or_absent() {
    let (_, action) = run_to_delivery(&[], Some(0), 1);
    assert!(matches!(action, TrackerAction::Deliver(ref r) if r.arguments.is_none()));
    let args = vec!["a".to_string(), "b c".to_string(), "".to_string()];
    let (_, action) = run_to_delivery(&args, Some(0), 1);
    assert!(matches!(action, TrackerAction::Deliver(ref r)
        if r.arguments == Some("a b c ".to_string())));
}

#[test]
fn failing_child_ends_the_process_with_its_code() {
    let (t, action) = run_to_delivery(&[], Some(3), 20);
    assert!(matches!(action, TrackerAction::Deliver(ref r) if r.exit_code == Some(3)));
    let (_, action) = t.advance(TrackerEvent::Delivered);
    assert!(matches!(action, TrackerAction::Finish { warning: None, exit: Some(3) }));
}

#[test]
fn signalled_child_gets_the_sentinel() {
    assert_eq!(SIGNALLED, -1);
    let (t, action) = run_to_delivery(&[], None, 20);
    assert!(matches!(action, TrackerAction::Deliver(ref r) if r.exit_code == Some(-1)));
    let (_, action) = t.advance(TrackerEvent::Delivered);
    assert!(matches!(action, TrackerAction::Finish { warning: None, exit: Some(-1) }));
}

#[test]
fn delivery_failure_is_a_warning_only() {
    let (t, _) = run_to_delivery(&[], Some(0), 20);
    let (t, action) = t.advance(TrackerEvent::DeliveryFailed("connection refused".to_string()));
    assert_eq!(t.stage(), Stage::Finished);
    match action {
        TrackerAction::Finish { warning, exit } => {
            assert_eq!(
                warning,
                Some("Warning: Failed to track execution: connection refused".to_string())
            );
            assert_eq!(exit, None);
        }
        other => panic!("unexpected action {:?}", other),
    }
    let (t, _) = run_to_delivery(&[], Some(7), 20);
    let (_, action) = t.advance(TrackerEvent::DeliveryFailed("down".to_string()));
    assert!(matches!(action, TrackerAction::Finish { warning: Some(_), exit: Some(7) }));
}

#[test]
fn duration_in_whole_milliseconds() {
    let (_, action) = run_to_delivery(&[], Some(0), 0);
    assert!(matches!(action, TrackerAction::Deliver(ref r) if r.duration_ms == Some(0)));
    let (_, action) = run_to_delivery(&[], Some(0), 2147483647);
    assert!(matches!(action, TrackerAction::Deliver(ref r) if r.duration_ms == Some(i32::MAX)));
    let (_, action) = run_to_delivery(&[], Some(0), 2147483648);
    assert!(matches!(action, TrackerAction::Deliver(ref r) if r.duration_ms == Some(i32::MIN)));
    let (_, action) = run_to_delivery(&[], Some(0), 4294967296 + 5);
    assert!(matches!(action, TrackerAction::Deliver(ref r) if r.duration_ms == Some(5)));
}

#[test]
fn run_failures() {
    let (t, _) = tracker(&[]).advance(TrackerEvent::Begin);
    let failure = TrackerEvent::RunFailed { started: false, cause: "no sh".to_string() };
    let (t, action) = t.advance(failure);
    assert_eq!(t.stage(), Stage::Finished);
    match action {
        TrackerAction::Failed { message, cause } => {
            assert_eq!(message, "Failed to spawn command");
            assert_eq!(cause, "no sh");
        }
        other => panic!("unexpected action {:?}", other),
    }
    let (t, _) = tracker(&[]).advance(TrackerEvent::Begin);
    let failure = TrackerEvent::RunFailed { started: true, cause: "gone".to_string() };
    let (_, action) = t.advance(failure);
    assert!(matches!(action, TrackerAction::Failed { ref message, .. }
        if message == "Failed to wait for command"));
}

#[test]
fn tracker_events_out_of_turn() {
    let (t, action) = tracker(&[]).advance(TrackerEvent::Delivered);
    assert!(matches!(action, TrackerAction::OutOfTurn));
    assert_eq!(t.stage(), Stage::Ready);
    let (t, _) = t.advance(TrackerEvent::Begin);
    let (t, action) = t.advance(TrackerEvent::Begin);
    assert!(matches!(action, TrackerAction::OutOfTurn));
    assert_eq!(t.stage(), Stage::Running);
    let (t, _) = t.advance(TrackerEvent::Exited { code: Some(0), elapsed_ms: 1 });
    let (t, action) = t.advance(TrackerEvent::Exited { code: Some(1), elapsed_ms: 1 });
    assert!(matches!(action, TrackerAction::OutOfTurn));
    let (t, action) = t.advance(TrackerEvent::Delivered);
    assert!(matches!(action, TrackerAction::Finish { warning: None, exit: None }));
    let (t, action) = t.advance(TrackerEvent::Delivered);
    assert!(matches!(action, TrackerAction::OutOfTurn));
    assert_eq!(t.stage(), Stage::Finished);
}

#[test]
fn method_tags() {
    assert_eq!(ExecutionMethod::Find.tag(), "find");
    assert_eq!(ExecutionMethod::Id.tag(), "id");
    assert_eq!(ExecutionMethod::Name.tag(), "name");
    assert_eq!(ExecutionMethod::Do.tag(), "do");
    assert_eq!(ExecutionMethod::Shell.tag(), "shell");
    assert_eq!(ExecutionMethod::NamespaceName.tag(), "namespace_name");
}
