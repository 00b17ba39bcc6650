use douglas::listener::{
    check_heartbeat_with, check_liveness, liveness_warning, running_status_for_error_kind,
    status_warning, ErrorKind, Evidence, HeartbeatReading, ListenerDefinition, Liveness,
    LivenessCheck, PidSight, RunningStatus, SocketAction, SocketListenerFactory,
};
use douglas::modes::Modes;
use douglas::script::{after_action, demand, start, Demand, Instruction, Outcome};

const SECOND: u128 = 1_000_000_000;

fn nothing_seen() -> Evidence {
    Evidence {
        connection: None,
        heartbeat: None,
        pid: None,
    }
}

fn check_heartbeat(reading: HeartbeatReading, pid: Option<PidSight>) -> Liveness<'static> {
    check_heartbeat_with(15 * SECOND, reading, pid)
}

fn read(age_nanos: Option<u128>) -> HeartbeatReading {
    HeartbeatReading::Read {
        pid: 4242,
        age_nanos,
    }
}

#[test]
fn test_should_delete_bind_then_enforce_ownership_and_mode() {
    let factory = SocketListenerFactory::new(ListenerDefinition::new(
        "/run/douglas/test.sock",
        "root",
        "douglas-admin",
        Modes::OwnerReadWriteGroupReadWrite,
    ));
    let path = "/run/douglas/test.sock".to_string();

    let script = factory.create();

    assert_eq!(
        script,
        vec![
            Instruction::Do(SocketAction::Delete { path: &path }),
            Instruction::Do(SocketAction::Bind { path: &path }),
            Instruction::Do(SocketAction::ChangeOwnership {
                path: &path,
                user: &"root".to_string(),
                group: &"douglas-admin".to_string(),
            }),
            Instruction::Do(SocketAction::ChangeMode {
                path: &path,
                mode: Modes::OwnerReadWriteGroupReadWrite,
            }),
        ]
    );
    let mut at = start();
    while matches!(demand(&script, at), Demand::Act(_)) {
        at = after_action(&script, at, Outcome::<String>::Done).expect("nothing fails");
    }
    assert_eq!(demand(&script, at), Demand::Finished);
}

#[test]
fn test_should_report_not_running_when_socket_file_missing() {
    let path = "/run/douglas/definitely-missing.sock".to_string();
    let check = LivenessCheck::UnixSocket(path.clone());

    assert_eq!(
        check_liveness(&check, nothing_seen()),
        Liveness::ConnectSocket(&path)
    );
    let status = check_liveness(
        &check,
        Evidence {
            connection: Some(Err(ErrorKind::NotFound)),
            ..nothing_seen()
        },
    );

    assert!(status == Liveness::Known(RunningStatus::NotRunning));
}

#[test]
fn test_should_report_running_when_heartbeat_is_recent_and_its_pid_is_active() {
    assert_eq!(
        check_heartbeat(read(Some(SECOND)), None),
        Liveness::LookForPid(4242)
    );

    let status = check_heartbeat(read(Some(SECOND)), Some(PidSight::Active));

    assert!(status == Liveness::Known(RunningStatus::Running));
}

#[test]
fn test_should_report_not_running_when_heartbeat_is_recent_but_its_pid_is_gone() {
    let status = check_heartbeat(read(Some(SECOND)), Some(PidSight::Gone));

    assert!(status == Liveness::Known(RunningStatus::NotRunning));
}

#[test]
fn test_should_report_not_running_without_checking_the_pid_when_stale() {
    let status = check_heartbeat(read(Some(60 * SECOND)), None);

    assert!(status == Liveness::Known(RunningStatus::NotRunning));
}

#[test]
fn test_should_report_unknown_when_written_at_is_in_the_future() {
    let status = check_heartbeat(read(None), None);

    assert!(status == Liveness::Known(RunningStatus::Unknown));
}

#[test]
fn test_should_report_unknown_when_the_pid_cannot_be_checked() {
    let status = check_heartbeat(read(Some(SECOND)), Some(PidSight::Unknown));

    assert!(status == Liveness::Known(RunningStatus::Unknown));
}

#[test]
fn test_should_report_not_running_when_the_heartbeat_file_is_missing() {
    let status = check_heartbeat(HeartbeatReading::Missing, None);

    assert!(status == Liveness::Known(RunningStatus::NotRunning));
}

#[test]
fn test_should_report_unknown_when_the_heartbeat_cannot_be_read() {
    let status = check_heartbeat(HeartbeatReading::Unopened(ErrorKind::TimedOut), None);

    assert!(status == Liveness::Known(RunningStatus::Unknown));
}

#[test]
fn test_should_report_unknown_when_the_heartbeat_cannot_be_parsed() {
    let status = check_heartbeat(HeartbeatReading::Unreadable, None);

    assert!(status == Liveness::Known(RunningStatus::Unknown));
}

#[test]
fn test_should_classify_connection_refused_and_missing_as_not_running() {
    for kind in [
        ErrorKind::NotFound,
        ErrorKind::ConnectionRefused,
        ErrorKind::PermissionDenied,
    ] {
        assert!(running_status_for_error_kind(kind) == RunningStatus::NotRunning);
    }
}

#[test]
fn test_should_classify_other_errors_as_unknown() {
    assert!(running_status_for_error_kind(ErrorKind::TimedOut) == RunningStatus::Unknown);
}

#[test]
fn test_a_heartbeat_of_exactly_the_greatest_age_is_still_fresh() {
    assert_eq!(
        check_heartbeat(read(Some(15 * SECOND)), None),
        Liveness::LookForPid(4242)
    );
    assert_eq!(
        check_heartbeat(read(Some(15 * SECOND + 1)), None),
        Liveness::Known(RunningStatus::NotRunning)
    );
}

#[test]
fn test_a_port_that_answers_means_running() {
    let host = "localhost".to_string();
    let check = LivenessCheck::TcpPort {
        host: host.clone(),
        port: 8201,
    };

    assert_eq!(
        check_liveness(&check, nothing_seen()),
        Liveness::ConnectPort {
            host: &host,
            port: 8201
        }
    );
    assert_eq!(
        check_liveness(
            &check,
            Evidence {
                connection: Some(Ok(())),
                ..nothing_seen()
            }
        ),
        Liveness::Known(RunningStatus::Running)
    );
}

#[test]
fn test_running_status_defaults_to_not_running() {
    assert_eq!(RunningStatus::default(), RunningStatus::NotRunning);
}

#[test]
fn test_a_status_that_cannot_be_determined_is_warned_of() {
    assert_eq!(
        status_warning("/run/x.sock", RunningStatus::Unknown, "timed out"),
        Some("Could not determine status of '/run/x.sock': 'timed out'".to_string())
    );
    assert_eq!(status_warning("x", RunningStatus::Running, "timed out"), None);
    assert_eq!(status_warning("x", RunningStatus::NotRunning, "timed out"), None);

    let port = LivenessCheck::TcpPort {
        host: "localhost".to_string(),
        port: 8200,
    };
    let ended = |kind: ErrorKind| Evidence {
        connection: Some(Err(kind)),
        ..nothing_seen()
    };
    assert_eq!(
        liveness_warning(&port, ended(ErrorKind::TimedOut), "timed out"),
        Some("Could not determine status of 'localhost:8200': 'timed out'".to_string())
    );
    assert_eq!(
        liveness_warning(&port, ended(ErrorKind::ConnectionRefused), "refused"),
        None
    );
    assert_eq!(liveness_warning(&port, nothing_seen(), ""), None);
}

#[test]
fn test_a_heartbeat_is_warned_of_only_where_there_was_an_error() {
    let check = LivenessCheck::Heartbeat {
        path: "/run/heart".to_string(),
        max_age_nanos: 5 * SECOND,
    };
    let warning = |heartbeat: HeartbeatReading, pid: Option<PidSight>| {
        let seen = Evidence {
            heartbeat: Some(heartbeat),
            pid,
            ..nothing_seen()
        };
        liveness_warning(&check, seen, "oh no")
    };
    let words = "Could not determine status of '/run/heart': 'oh no'".to_string();

    assert_eq!(warning(HeartbeatReading::Unreadable, None), Some(words.clone()));
    assert_eq!(
        warning(HeartbeatReading::Unopened(ErrorKind::Interrupted), None),
        Some(words.clone())
    );
    assert_eq!(
        warning(read(Some(SECOND)), Some(PidSight::Unknown)),
        Some(words)
    );
    assert_eq!(warning(HeartbeatReading::Missing, None), None);
    assert_eq!(warning(read(None), None), None);
    assert_eq!(warning(read(Some(60 * SECOND)), None), None);
    assert_eq!(warning(read(Some(SECOND)), Some(PidSight::Active)), None);
}
