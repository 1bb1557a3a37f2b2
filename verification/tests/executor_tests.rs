use mouse_term::executor::ExecError;
use mouse_term::executor::ExecutionOutput;
use mouse_term::executor::ExecutionResult;
use mouse_term::executor::Executor;
use mouse_term::executor::StartOutcome;

#[test]
fn test_execute_empty_command() {
    let mut exec = Executor::new();
    match exec.execute("   ") {
        Err(ExecError::EmptyCommand) => {}
        other => panic!("expected EmptyCommand, got {:?}", other.is_ok()),
    }
    assert!(!exec.is_running());
}

#[test]
fn test_execute_spawn_directive() {
    let mut exec = Executor::new();
    match exec.execute("echo hi there").unwrap() {
        StartOutcome::Spawn { program, args, .. } => {
            assert_eq!(program, "echo");
            assert_eq!(args, vec!["hi".to_string(), "there".to_string()]);
        }
        _ => panic!("expected a spawn directive"),
    }
    assert!(exec.is_running());
    assert_eq!(exec.result().exit_code, None);
    assert!(exec.result().stdout.is_empty());
    assert!(exec.result().stderr.is_empty());
}

#[test]
fn test_start_cancels_previous() {
    let mut exec = Executor::new();

    // First command: hold on to its cancellation endpoint.
    let first_cancel = match exec.execute("sleep 5").unwrap() {
        StartOutcome::Spawn { cancel, .. } => cancel,
        _ => panic!("expected a spawn directive"),
    };
    assert!(exec.is_running());

    // Second start: the first command's worker finds a cancellation signal
    // waiting before (or while) the second one spawns.
    let second_events = match exec.execute("echo hi").unwrap() {
        StartOutcome::Spawn { events, .. } => events,
        _ => panic!("expected a spawn directive"),
    };
    assert!(first_cancel.try_recv().is_ok());

    // The second command's output reaches the result through poll.
    second_events
        .send(ExecutionOutput::Stdout("hi".to_string()))
        .unwrap();
    second_events
        .send(ExecutionOutput::Finished(Some(0)))
        .unwrap();
    assert!(exec.check_output());
    assert!(exec.all_output().contains(&"hi".to_string()));
    assert_eq!(exec.result().exit_code, Some(0));
    assert!(!exec.is_running());
}

#[test]
fn test_check_output_with_nothing_pending() {
    let mut exec = Executor::new();
    assert!(!exec.check_output());

    match exec.execute("cat").unwrap() {
        StartOutcome::Spawn { .. } => {}
        _ => panic!("expected a spawn directive"),
    }
    // Nothing sent yet: no update, and the command still counts as running.
    assert!(!exec.check_output());
    assert!(exec.is_running());
}

#[test]
fn test_check_output_appends_in_stream_order() {
    let mut exec = Executor::new();
    let events = match exec.execute("prog a").unwrap() {
        StartOutcome::Spawn { events, .. } => events,
        _ => panic!("expected a spawn directive"),
    };
    events.send(ExecutionOutput::Stdout("one".to_string())).unwrap();
    events.send(ExecutionOutput::Stderr("oops".to_string())).unwrap();
    events.send(ExecutionOutput::Stdout("two".to_string())).unwrap();
    assert!(exec.check_output());
    assert_eq!(exec.result().stdout, vec!["one".to_string(), "two".to_string()]);
    assert_eq!(exec.result().stderr, vec!["oops".to_string()]);
    // No Finished event yet: still running, no exit code.
    assert!(exec.is_running());
    assert_eq!(exec.result().exit_code, None);
}

#[test]
fn test_finished_event_detaches() {
    let mut exec = Executor::new();
    let events = match exec.execute("prog").unwrap() {
        StartOutcome::Spawn { events, .. } => events,
        _ => panic!("expected a spawn directive"),
    };
    events.send(ExecutionOutput::Finished(Some(3))).unwrap();
    assert!(exec.check_output());
    assert_eq!(exec.result().exit_code, Some(3));
    assert!(!exec.is_running());
    // Polling again reports no update.
    assert!(!exec.check_output());
}

#[test]
fn test_terminate_is_idempotent() {
    let mut exec = Executor::new();
    let cancel = match exec.execute("sleep 9").unwrap() {
        StartOutcome::Spawn { cancel, .. } => cancel,
        _ => panic!("expected a spawn directive"),
    };
    exec.terminate();
    assert!(!exec.is_running());
    assert!(cancel.try_recv().is_ok());
    // A second terminate with nothing running is a no-op.
    exec.terminate();
    assert!(!exec.is_running());
}

#[test]
fn test_cd_directive() {
    let mut exec = Executor::new();
    match exec.execute("cd /tmp").unwrap() {
        StartOutcome::ChangeDir { target } => {
            assert_eq!(target.as_deref(), Some("/tmp"));
        }
        _ => panic!("expected a cd directive"),
    }
    // cd never spawns.
    assert!(!exec.is_running());

    match exec.execute("cd").unwrap() {
        StartOutcome::ChangeDir { target } => assert_eq!(target, None),
        _ => panic!("expected a cd directive"),
    }
}

#[test]
fn test_cd_failure_reports_error() {
    let mut exec = Executor::new();
    match exec.execute("cd /nonexistent-path-xyz").unwrap() {
        StartOutcome::ChangeDir { target } => {
            assert_eq!(target.as_deref(), Some("/nonexistent-path-xyz"));
            // The engine itself never changes the directory; on a failed
            // attempt the caller only reports back, leaving it as it was.
            exec.record_cd_failure("No such file or directory (os error 2)");
        }
        _ => panic!("expected a cd directive"),
    }
    assert_eq!(exec.result().exit_code, Some(1));
    assert_eq!(exec.result().stderr.len(), 1);
    assert!(!exec.result().stderr[0].is_empty());
    assert!(exec.result().stderr[0].starts_with("Failed to change directory: "));
}

#[test]
fn test_cd_success_chains_listing() {
    let mut exec = Executor::new();
    match exec.execute("cd /tmp").unwrap() {
        StartOutcome::ChangeDir { .. } => {}
        _ => panic!("expected a cd directive"),
    }
    let listing = ExecutionResult {
        exit_code: Some(0),
        stdout: vec!["a.txt".to_string(), "b.txt".to_string()],
        stderr: vec![],
    };
    exec.record_cd_success("/tmp", Some(listing));
    assert_eq!(exec.result().exit_code, Some(0));
    assert_eq!(
        exec.result().stdout,
        vec![
            "Changed directory to: /tmp".to_string(),
            "a.txt".to_string(),
            "b.txt".to_string()
        ]
    );
    assert!(exec.result().stderr.is_empty());
}

#[test]
fn test_sudo_session() {
    let mut exec = Executor::new();
    // No credential was ever given: the session is not valid.
    assert!(!exec.is_sudo_session_valid());

    let start = exec.execute_sudo("sudo apt update", "pw");
    assert_eq!(
        start.rest_args,
        vec!["apt".to_string(), "update".to_string()]
    );
    assert_eq!(start.password_line, "pw\n");
    assert!(exec.is_running());
    // The stamp is set before the child confirms anything: optimistic.
    assert!(exec.is_sudo_session_valid());
}

#[test]
fn test_session_window_decision() {
    assert!(Executor::session_valid_for(0));
    assert!(Executor::session_valid_for(899999));
    assert!(!Executor::session_valid_for(900000));
    assert!(!Executor::session_valid_for(u64::MAX));
}

#[test]
fn test_all_output_order() {
    let mut exec = Executor::new();
    let events = match exec.execute("prog").unwrap() {
        StartOutcome::Spawn { events, .. } => events,
        _ => panic!("expected a spawn directive"),
    };
    events.send(ExecutionOutput::Stderr("e1".to_string())).unwrap();
    events.send(ExecutionOutput::Stdout("o1".to_string())).unwrap();
    events.send(ExecutionOutput::Finished(None)).unwrap();
    assert!(exec.check_output());
    // all_output lists stdout first, then stderr.
    assert_eq!(exec.all_output(), vec!["o1".to_string(), "e1".to_string()]);
    assert_eq!(exec.result().exit_code, None);
    assert!(!exec.is_running());
}
