use douglas::docker::{ContainerPresence, Ipv4, Status};
use douglas::labels::create_origin_label;
use douglas::modes::{Modes, EXPECTED_MOUNT_MODE};
use douglas::names::{agent_container_name, container_name, Name};
use douglas::reconcile_discovery::ContentObservation;
use douglas::rolodex::{Credential, ServiceAccount};
use douglas::script::Instruction;
use douglas::seedling::{
    AccessMode, HealthCheck, Mount, MountContents, MountFile, MountType, NamedMount, Origin,
    RequestedBy, Version,
};
use douglas::start_seedling::{
    agent_health_check_command, create_plan, discover_seedling, mounts_are_initialized,
    record_health_check_failure, rollback, run_shell_health_check, shell_exec_instance_options,
    start_agent_container, start_seedling, Condition, ContainerAction, Discovery, FailureAction,
    Found, HealthCheckEvent, HealthCheckState, Knowledge, MountSight, Question, Readiness,
    StartCall, StartProgress, StartSeedlingError, State, Step,
};

fn name() -> Name {
    Name::parse("traefik").expect("valid name")
}

fn found() -> Found {
    Found {
        version: Version(1),
        origin: Some(Origin::User),
        has_health_check_failure: false,
        readiness: Readiness::Stopped,
    }
}

fn state_with(seedling: Condition) -> State {
    State {
        agent_container: ContainerPresence::Absent,
        agent_container_name: agent_container_name(&name()),
        container_name: container_name(&name()),
        seedling,
    }
}

fn startable_state() -> State {
    state_with(Condition::Container(found()))
}

fn health_check() -> HealthCheck {
    HealthCheck {
        command: "true".to_string(),
        wait_time_in_seconds: 1,
    }
}

fn agent_ip() -> Ipv4 {
    Ipv4 {
        a: 10,
        b: 0,
        c: 0,
        d: 2,
    }
}

/// The words for the plan of a state, or why there is none.
fn plan(state: State, requested_by: RequestedBy) -> Result<Vec<String>, StartSeedlingError> {
    let name = name();
    let health_check = health_check();
    let steps = create_plan(&name, &health_check, agent_ip(), state, requested_by)?;
    Ok(steps.iter().map(Step::describe).collect())
}

fn plain_start() -> Vec<String> {
    vec![
        "Setting seedling 'traefik' desired running status to running".to_string(),
        "Starting seedling 'traefik' (v1)".to_string(),
        "Clearing seedling 'traefik' health check logs".to_string(),
    ]
}

#[test]
fn test_create_plan_should_start_a_startable_container() {
    assert_eq!(
        plan(startable_state(), RequestedBy::Operator).expect("should produce a plan"),
        vec![
            "Setting seedling 'traefik' desired running status to running",
            "Starting seedling 'traefik' (v1)",
            "Clearing seedling 'traefik' health check logs",
        ]
    );
}

#[test]
fn test_create_plan_should_refuse_when_the_seedling_is_not_defined() {
    let result = plan(state_with(Condition::Undefined), RequestedBy::Operator);

    assert!(matches!(
        result,
        Err(StartSeedlingError::CannotStartSeedling(_))
    ));
}

#[test]
fn test_create_plan_should_refuse_when_credentials_are_missing() {
    let result = plan(
        state_with(Condition::MissingCredentials),
        RequestedBy::Operator,
    );

    assert!(matches!(
        result,
        Err(StartSeedlingError::CannotStartSeedling(_))
    ));
}

#[test]
fn test_create_plan_should_refuse_when_mounts_are_not_initialized() {
    let result = plan(
        state_with(Condition::Container(Found {
            readiness: Readiness::MountsNotInitialized,
            ..found()
        })),
        RequestedBy::Operator,
    );

    assert!(matches!(
        result,
        Err(StartSeedlingError::CannotStartSeedling(_))
    ));
}

#[test]
fn test_create_plan_should_refuse_when_already_running() {
    let result = plan(
        state_with(Condition::Container(Found {
            readiness: Readiness::Running,
            ..found()
        })),
        RequestedBy::Operator,
    );

    assert!(matches!(
        result,
        Err(StartSeedlingError::CannotStartSeedling(_))
    ));
}

#[test]
fn test_create_plan_should_recheck_health_when_already_running_with_an_outstanding_failure() {
    let steps = plan(
        state_with(Condition::Container(Found {
            readiness: Readiness::Running,
            has_health_check_failure: true,
            ..found()
        })),
        RequestedBy::Operator,
    )
    .expect("should produce a plan");

    assert_eq!(
        steps,
        vec![
            "Setting seedling 'traefik' desired running status to running",
            "Starting seedling 'traefik' (v1)",
            "Clearing seedling 'traefik' health check logs",
        ]
    );
}

#[test]
fn test_create_plan_should_refuse_to_start_a_core_seedling_for_an_operator() {
    let result = plan(
        state_with(Condition::Container(Found {
            origin: Some(Origin::Core),
            ..found()
        })),
        RequestedBy::Operator,
    );

    assert!(matches!(result, Err(StartSeedlingError::CoreSeedling(_))));
}

#[test]
fn test_create_plan_should_allow_the_watchdog_to_start_a_core_seedling() {
    let steps = plan(
        state_with(Condition::Container(Found {
            origin: Some(Origin::Core),
            ..found()
        })),
        RequestedBy::Watchdog,
    )
    .expect("should produce a plan");

    assert_eq!(
        steps,
        vec![
            "Setting seedling 'traefik' desired running status to running",
            "Starting seedling 'traefik' (v1)",
            "Clearing seedling 'traefik' health check logs",
        ]
    );
}

#[test]
fn test_create_plan_should_start_a_stopped_agent_container_before_the_app() {
    let steps = plan(
        State {
            agent_container: ContainerPresence::Present(Status::Exited),
            ..startable_state()
        },
        RequestedBy::Operator,
    )
    .expect("should produce a plan");

    assert_eq!(
        steps,
        vec![
            "Setting seedling 'traefik' desired running status to running",
            "Starting agent container 'doug-agent.traefik'",
            "Starting seedling 'traefik' (v1)",
            "Clearing seedling 'traefik' health check logs",
        ]
    );
}

#[test]
fn test_create_plan_should_skip_the_agent_when_it_does_not_exist() {
    let steps = plan(
        State {
            agent_container: ContainerPresence::Absent,
            ..startable_state()
        },
        RequestedBy::Operator,
    )
    .expect("should produce a plan");

    assert_eq!(steps, plain_start());
}

#[test]
fn test_create_plan_should_skip_the_agent_when_already_running() {
    let steps = plan(
        State {
            agent_container: ContainerPresence::Present(Status::Running),
            ..startable_state()
        },
        RequestedBy::Operator,
    )
    .expect("should produce a plan");

    assert_eq!(steps, plain_start());
}

fn plan_error(state: State) -> String {
    plan(state, RequestedBy::Operator)
        .expect_err("should refuse")
        .describe()
}

#[test]
fn test_create_plan_should_say_why_it_refuses_at_each_stage() {
    assert!(plan_error(state_with(Condition::Undefined)).contains("not defined"));
    assert!(plan_error(state_with(Condition::MissingCredentials)).contains("credentials"));
    assert!(plan_error(state_with(Condition::GaveUp)).contains("failed its health checks"));
    assert!(plan_error(state_with(Condition::MissingImage)).contains("not initialized"));
    assert!(plan_error(state_with(Condition::MissingContainer)).contains("not initialized"));
}

#[test]
fn test_create_plan_should_refuse_a_core_seedling_before_looking_at_its_mounts() {
    let result = plan(
        state_with(Condition::Container(Found {
            origin: Some(Origin::Core),
            readiness: Readiness::MountsNotInitialized,
            ..found()
        })),
        RequestedBy::Operator,
    );

    assert!(matches!(result, Err(StartSeedlingError::CoreSeedling(_))));
}

fn service_account() -> ServiceAccount {
    let credential = |id: u32| Credential {
        id,
        full_name: "doug.traefik".to_string(),
        system_name: "douglas-traefik".to_string(),
    };
    ServiceAccount {
        user: credential(1),
        group: credential(2),
    }
}

/// The answers to everything that may be asked about a seedling.
struct Answers {
    defined: bool,
    has_account: bool,
    health_log: Option<bool>,
    image_exists: bool,
    container_exists: bool,
    mounts_are_initialized: bool,
    status: Status,
    origin: Option<Origin>,
}

fn answers() -> Answers {
    Answers {
        defined: true,
        has_account: true,
        health_log: None,
        image_exists: true,
        container_exists: true,
        mounts_are_initialized: true,
        status: Status::Exited,
        origin: Some(Origin::Core),
    }
}

/// Answers what is asked until the seedling is known, and says what was asked.
fn discover(answers: &Answers, requested_by: RequestedBy) -> (Condition, Vec<Question>) {
    let mut knowledge = Knowledge {
        defined: None,
        has_account: None,
        health_log: None,
        version: None,
        image_exists: None,
        container_exists: None,
        labels: None,
        mounts_are_initialized: None,
        status: None,
    };
    let mut asked = Vec::new();
    loop {
        let question = match discover_seedling(&knowledge, requested_by) {
            Discovery::Known(condition) => return (condition, asked),
            Discovery::Ask(question) => question,
        };
        match question {
            Question::IsDefined => knowledge.defined = Some(answers.defined),
            Question::HasAccount => knowledge.has_account = Some(answers.has_account),
            Question::HealthLog => knowledge.health_log = Some(answers.health_log),
            Question::Load => knowledge.version = Some(Version(1)),
            Question::ImageExists => knowledge.image_exists = Some(answers.image_exists),
            Question::ContainerExists => {
                knowledge.container_exists = Some(answers.container_exists)
            }
            Question::Labels => {
                knowledge.labels =
                    Some(answers.origin.into_iter().map(create_origin_label).collect())
            }
            Question::MountsAreInitialized => {
                knowledge.mounts_are_initialized = Some(answers.mounts_are_initialized)
            }
            Question::Status => knowledge.status = Some(answers.status),
        }
        asked.push(question);
    }
}

#[test]
fn test_discover_should_report_a_seedling_that_is_not_defined() {
    let (seedling, asked) = discover(
        &Answers {
            defined: false,
            ..answers()
        },
        RequestedBy::Operator,
    );

    assert!(matches!(seedling, Condition::Undefined));
    assert_eq!(asked, vec![Question::IsDefined]);
}

#[test]
fn test_discover_should_report_missing_credentials() {
    let (seedling, _) = discover(
        &Answers {
            has_account: false,
            ..answers()
        },
        RequestedBy::Operator,
    );

    assert!(matches!(seedling, Condition::MissingCredentials));
}

#[test]
fn test_discover_should_report_that_the_watchdog_gave_up_after_too_many_failures() {
    let (seedling, _) = discover(
        &Answers {
            health_log: Some(true),
            ..answers()
        },
        RequestedBy::Watchdog,
    );

    assert!(matches!(seedling, Condition::GaveUp));
}

#[test]
fn test_discover_should_not_give_up_for_an_operator_however_many_times_it_failed() {
    let (seedling, _) = discover(
        &Answers {
            health_log: Some(true),
            image_exists: false,
            ..answers()
        },
        RequestedBy::Operator,
    );

    assert!(matches!(seedling, Condition::MissingImage));
}

#[test]
fn test_discover_should_report_a_missing_container_when_the_image_exists() {
    let (seedling, _) = discover(
        &Answers {
            container_exists: false,
            ..answers()
        },
        RequestedBy::Operator,
    );

    assert!(matches!(seedling, Condition::MissingContainer));
}

fn a_mount(contents: Vec<MountContents>) -> Vec<NamedMount> {
    vec![NamedMount {
        name: Name::parse("data").expect("valid name"),
        mount: Mount {
            kind: MountType::Persisted,
            remote_path: "/data".to_string(),
            access_mode: AccessMode::Writable,
            contents,
            rotate_logs: false,
        },
    }]
}

fn in_place(contents: Vec<ContentObservation>) -> MountSight {
    MountSight {
        exists_here: true,
        owning_user: "douglas-traefik".to_string(),
        owning_group: "douglas-traefik".to_string(),
        mode: EXPECTED_MOUNT_MODE,
        contents,
    }
}

fn readiness_with_mounts(mounts: Vec<NamedMount>, seen: MountSight) -> Readiness {
    let initialized = mounts_are_initialized(&mounts, &vec![seen], &service_account());
    let (seedling, _) = discover(
        &Answers {
            mounts_are_initialized: initialized,
            origin: None,
            ..answers()
        },
        RequestedBy::Operator,
    );
    match seedling {
        Condition::Container(found) => found.readiness,
        other => panic!("should find the container, got {other:?}"),
    }
}

#[test]
fn test_discover_should_report_ready_when_every_mount_is_in_place() {
    assert_eq!(
        readiness_with_mounts(a_mount(Vec::new()), in_place(Vec::new())),
        Readiness::Stopped
    );
}

#[test]
fn test_discover_should_report_mounts_not_initialized_when_the_mount_folder_is_missing() {
    let seen = MountSight {
        exists_here: false,
        ..in_place(Vec::new())
    };

    assert_eq!(
        readiness_with_mounts(a_mount(Vec::new()), seen),
        Readiness::MountsNotInitialized
    );
}

#[test]
fn test_discover_should_report_mounts_not_initialized_when_the_owner_is_wrong() {
    let seen = MountSight {
        owning_user: "root".to_string(),
        owning_group: "root".to_string(),
        ..in_place(Vec::new())
    };

    assert_eq!(
        readiness_with_mounts(a_mount(Vec::new()), seen),
        Readiness::MountsNotInitialized
    );
}

#[test]
fn test_discover_should_report_mounts_not_initialized_when_the_mode_is_wrong() {
    let seen = MountSight {
        mode: Modes::OwnerReadWrite,
        ..in_place(Vec::new())
    };

    assert_eq!(
        readiness_with_mounts(a_mount(Vec::new()), seen),
        Readiness::MountsNotInitialized
    );
}

#[test]
fn test_discover_should_report_mounts_not_initialized_when_a_folder_inside_is_missing() {
    let mounts = a_mount(vec![MountContents::FolderOnly("logs".to_string())]);

    assert_eq!(
        readiness_with_mounts(mounts, in_place(vec![ContentObservation::Absent])),
        Readiness::MountsNotInitialized
    );
}

fn mount_with_file(contents: &[u8]) -> Vec<NamedMount> {
    a_mount(vec![MountContents::File(MountFile {
        file_relative_path: "config.yml".to_string(),
        contents: contents.to_vec(),
    })])
}

#[test]
fn test_discover_should_report_ready_when_a_mounted_file_has_the_expected_contents() {
    let seen = in_place(vec![ContentObservation::There(b"expected".to_vec())]);

    assert_eq!(
        readiness_with_mounts(mount_with_file(b"expected"), seen),
        Readiness::Stopped
    );
}

#[test]
fn test_discover_should_report_mounts_not_initialized_when_a_mounted_file_has_other_contents() {
    let seen = in_place(vec![ContentObservation::There(b"something else".to_vec())]);

    assert_eq!(
        readiness_with_mounts(mount_with_file(b"expected"), seen),
        Readiness::MountsNotInitialized
    );
}

fn discover_container(status: Status, failing: bool) -> Found {
    let (seedling, _) = discover(
        &Answers {
            status,
            health_log: if failing { Some(false) } else { None },
            ..answers()
        },
        RequestedBy::Operator,
    );
    match seedling {
        Condition::Container(found) => found,
        other => panic!("should find the container, got {other:?}"),
    }
}

#[test]
fn test_discover_should_report_a_stopped_container_with_its_version_and_origin() {
    let found = discover_container(Status::Exited, false);

    assert_eq!(found.readiness, Readiness::Stopped);
    assert_eq!(found.version, Version(1));
    assert_eq!(found.origin, Some(Origin::Core));
    assert!(!found.has_health_check_failure);
}

#[test]
fn test_discover_should_report_a_running_container() {
    let found = discover_container(Status::Running, false);

    assert_eq!(found.readiness, Readiness::Running);
}

#[test]
fn test_discover_should_carry_an_outstanding_health_check_failure() {
    let found = discover_container(Status::Running, true);

    assert!(found.has_health_check_failure);
}

#[test]
fn test_record_health_check_failure_should_leave_desired_status_alone_below_the_threshold() {
    assert!(record_health_check_failure(false).is_empty());
}

#[test]
fn test_record_health_check_failure_should_stop_the_container_and_mark_desired_status_stopped_at_the_threshold(
) {
    assert_eq!(
        record_health_check_failure(true),
        vec![
            FailureAction::SetDesiredRunStatusToStopped,
            FailureAction::StopContainer
        ]
    );
}

#[test]
fn test_start_agent_container_rollback_should_stop_the_agent_container() {
    let agent = agent_container_name(&name());
    let step = Step::StartAgentContainer {
        container_name: agent_container_name(&name()),
        agent_ip: agent_ip(),
    };

    assert_eq!(
        rollback(&step),
        vec![Instruction::Settle(ContainerAction::Stop(&agent))]
    );
}

#[test]
fn test_start_seedling_rollback_should_stop_the_container_when_it_was_not_already_running() {
    let name = name();
    let health_check = health_check();
    let container = container_name(&name);
    let step = Step::StartSeedling {
        seedling_name: &name,
        container_name: container_name(&name),
        version: Version(1),
        health_check: &health_check,
        already_running: false,
    };

    assert_eq!(
        rollback(&step),
        vec![Instruction::Settle(ContainerAction::Stop(&container))]
    );
}

#[test]
fn test_start_seedling_rollback_should_leave_an_already_running_container_alone() {
    let name = name();
    let health_check = health_check();
    let step = Step::StartSeedling {
        seedling_name: &name,
        container_name: container_name(&name),
        version: Version(1),
        health_check: &health_check,
        already_running: true,
    };

    assert!(rollback(&step).is_empty());
}

/// Goes through a start, where the container runs and is well as told, and lists the calls.
fn calls_of(already_running: bool, running: bool, healthy: bool) -> Vec<StartCall> {
    let mut progress = StartProgress {
        started: false,
        waited: false,
        running: None,
        healthy: None,
        failure_recorded: false,
    };
    let mut calls = Vec::new();
    loop {
        let call = start_seedling(progress, already_running, 7);
        calls.push(call);
        match call {
            StartCall::StartContainer => progress.started = true,
            StartCall::Wait { .. } => progress.waited = true,
            StartCall::AskRunning => progress.running = Some(running),
            StartCall::CheckHealth => progress.healthy = Some(healthy),
            StartCall::RecordFailure => progress.failure_recorded = true,
            StartCall::Succeeded | StartCall::FailedToStart => return calls,
        }
    }
}

#[test]
fn test_a_start_waits_before_it_checks() {
    assert_eq!(
        calls_of(false, true, true),
        vec![
            StartCall::StartContainer,
            StartCall::Wait { seconds: 7 },
            StartCall::AskRunning,
            StartCall::CheckHealth,
            StartCall::Succeeded,
        ]
    );
    assert_eq!(
        calls_of(true, true, false),
        vec![
            StartCall::AskRunning,
            StartCall::CheckHealth,
            StartCall::RecordFailure,
            StartCall::FailedToStart,
        ]
    );
    assert_eq!(
        calls_of(true, false, true),
        vec![
            StartCall::AskRunning,
            StartCall::RecordFailure,
            StartCall::FailedToStart,
        ]
    );
    assert_eq!(
        StartSeedlingError::FailedToStart.describe(),
        "Seedling start failed"
    );
}

#[test]
fn test_an_agent_that_is_not_well_fails_its_start() {
    let progress = StartProgress {
        started: true,
        waited: false,
        running: Some(true),
        healthy: Some(false),
        failure_recorded: false,
    };

    assert_eq!(start_agent_container(progress), StartCall::FailedToStart);
    assert_eq!(
        start_agent_container(StartProgress {
            healthy: Some(true),
            ..progress
        }),
        StartCall::Succeeded
    );
}

#[test]
fn test_a_health_check_passes_only_with_exit_code_zero() {
    let after = |events: &[HealthCheckEvent]| {
        events
            .iter()
            .fold(HealthCheckState::Create, |state, event| {
                run_shell_health_check(state, *event)
            })
    };
    let ended = |exit_code| HealthCheckEvent::Inspected {
        running: false,
        exit_code,
    };
    let busy = HealthCheckEvent::Inspected {
        running: true,
        exit_code: None,
    };
    let started = [HealthCheckEvent::Created, HealthCheckEvent::Started];

    assert_eq!(after(&started), HealthCheckState::Inspect);
    for (events, healthy) in [
        (vec![ended(Some(0))], true),
        (vec![ended(Some(1))], false),
        (vec![ended(None)], false),
        (vec![busy, HealthCheckEvent::Slept, ended(Some(0))], true),
        (vec![busy, HealthCheckEvent::TimedOut, ended(Some(0))], false),
    ] {
        assert_eq!(
            after(&[started.to_vec(), events].concat()),
            HealthCheckState::Finished { healthy }
        );
    }
}

#[test]
fn test_health_checks_are_run_by_the_shell() {
    let options = shell_exec_instance_options("curl -f localhost");

    assert_eq!(options.cmd, vec!["/bin/sh", "-c", "curl -f localhost"]);
    assert!(!options.attach_stdin && options.attach_stdout && options.attach_stderr);
    assert_eq!(
        agent_health_check_command(agent_ip()),
        "BAO_ADDR=http://10.0.0.2:8100 bao token lookup"
    );
}
