use douglas::bootstrap::BootstrapError;
use douglas::docker::{observe_container, ContainerPresence, Observation, Status};
use douglas::labels::{create_version_label, LabelError};
use douglas::names::Name;
use douglas::script::Instruction;
use douglas::seedling::{DesiredRunStatus, RequestedBy, Version};
use douglas::server::{
    check_container_status, drop_seedling, reconcile_seedling, registry, revoke_warning,
    seedling_status, start, start_seedling, stop, stop_user_seedling, trigger_reconcile,
    DefinitionStatus, DropCall, DropProgress, Inspection, ReconcileCall, SeedlingStatus,
    ServerError, StartCall, StartRoute, StatusInquiry, StatusKnowledge, StopCall, TriggerCall,
    UserSight, UserStop, HEARTBEAT_INTERVAL_SECONDS, LOG_ROTATION_INTERVAL_SECONDS,
    WATCHDOG_INTERVAL_SECONDS,
};

fn name(value: &str) -> Name {
    Name::parse(value).expect("valid name")
}

#[test]
fn test_a_container_tells_how_its_seedling_does() {
    let labels = vec![create_version_label(Version(2))];
    for (status, declared, expected) in [
        (
            Status::Running,
            2,
            SeedlingStatus::Running(DefinitionStatus::Current),
        ),
        (
            Status::Running,
            3,
            SeedlingStatus::Running(DefinitionStatus::Stale),
        ),
        (
            Status::Exited,
            1,
            SeedlingStatus::Defined(DefinitionStatus::Newer),
        ),
        (
            Status::Created,
            2,
            SeedlingStatus::Defined(DefinitionStatus::Current),
        ),
        (Status::Dead, 2, SeedlingStatus::Missing),
    ] {
        assert_eq!(
            check_container_status(&labels, status, Version(declared)),
            Ok(expected)
        );
    }
    assert_eq!(
        check_container_status(&Vec::new(), Status::Running, Version(1)),
        Err(LabelError::MissingVersion)
    );
}

#[test]
fn test_the_status_of_a_seedling_is_found_out_step_by_step() {
    let mut knowledge = StatusKnowledge {
        declared: None,
        version: None,
        inspection: None,
    };
    assert_eq!(seedling_status(&knowledge), StatusInquiry::AskDeclared);
    knowledge.declared = Some(false);
    assert_eq!(
        seedling_status(&knowledge),
        StatusInquiry::Known(Ok(SeedlingStatus::Unknown))
    );
    knowledge.declared = Some(true);
    assert_eq!(seedling_status(&knowledge), StatusInquiry::Load);
    knowledge.version = Some(Version(2));
    assert_eq!(seedling_status(&knowledge), StatusInquiry::Inspect);
    for (inspection, result) in [
        (Inspection::NotFound, Ok(SeedlingStatus::Missing)),
        (
            Inspection::Failed("down".to_string()),
            Err(ServerError::DockerError("down".to_string())),
        ),
        (
            Inspection::Found {
                labels: vec![create_version_label(Version(2))],
                status: Status::Running,
            },
            Ok(SeedlingStatus::Running(DefinitionStatus::Current)),
        ),
        (
            Inspection::Found {
                labels: Vec::new(),
                status: Status::Running,
            },
            Err(ServerError::LabelError(LabelError::MissingVersion)),
        ),
    ] {
        assert_eq!(
            seedling_status(&StatusKnowledge {
                declared: Some(true),
                version: Some(Version(2)),
                inspection: Some(&inspection)
            }),
            StatusInquiry::Known(result)
        );
    }
}

#[test]
fn test_a_seedling_that_was_never_set_up_is_reconciled_instead_of_started() {
    assert_eq!(start_seedling(Some(true), None), StartRoute::AskAccount);
    assert_eq!(
        start_seedling(Some(true), Some(false)),
        StartRoute::Reconcile
    );
    assert_eq!(start_seedling(Some(true), Some(true)), StartRoute::Start);
    assert_eq!(start_seedling(Some(false), None), StartRoute::Start);
    assert_eq!(start_seedling(None, Some(false)), StartRoute::Start);
}

#[test]
fn test_secrets_are_revoked_before_a_seedling_is_dropped() {
    let mut progress = DropProgress {
        declared: None,
        loaded: false,
        revoked: None,
        dropped: false,
    };
    assert_eq!(drop_seedling(progress), DropCall::AskDeclared);
    progress.declared = Some(true);
    assert_eq!(drop_seedling(progress), DropCall::Load);
    progress.loaded = true;
    assert_eq!(drop_seedling(progress), DropCall::Revoke);
    progress.revoked = Some(false);
    assert_eq!(drop_seedling(progress), DropCall::Drop);
    progress.dropped = true;
    assert_eq!(drop_seedling(progress), DropCall::Finished);
    assert_eq!(
        drop_seedling(DropProgress {
            declared: Some(false),
            loaded: false,
            revoked: None,
            dropped: false
        }),
        DropCall::Drop
    );
    assert_eq!(
        revoke_warning(&name("hello"), "sealed"),
        "Could not revoke OpenBao secrets for 'hello': sealed. Dropping the rest of the seedling \
         anyway; run 'seedling prune' to clean this up later."
    );
}

#[test]
fn test_only_seedlings_that_should_run_and_do_are_stopped_with_the_service() {
    let sight = |desired, status| UserSight { desired, status };
    let running = SeedlingStatus::Running(DefinitionStatus::Stale);

    for (seen, expected) in [
        (sight(None, None), UserStop::AskDesired),
        (sight(Some(None), None), UserStop::Skip),
        (
            sight(Some(Some(DesiredRunStatus::Stopped)), None),
            UserStop::Skip,
        ),
        (
            sight(Some(Some(DesiredRunStatus::Running)), None),
            UserStop::AskStatus,
        ),
        (
            sight(Some(Some(DesiredRunStatus::Running)), Some(None)),
            UserStop::Skip,
        ),
        (
            sight(
                Some(Some(DesiredRunStatus::Running)),
                Some(Some(SeedlingStatus::Missing)),
            ),
            UserStop::Skip,
        ),
        (
            sight(
                Some(Some(DesiredRunStatus::Running)),
                Some(Some(running)),
            ),
            UserStop::Stop,
        ),
    ] {
        assert_eq!(stop_user_seedling(seen), expected);
    }
}

#[test]
fn test_the_watchdog_ends_before_anything_is_stopped() {
    assert_eq!(stop(false), vec![StopCall::EndWatchdog]);
    assert_eq!(
        stop(true),
        vec![
            StopCall::EndWatchdog,
            StopCall::StopSeedling {
                name: name("traefik"),
                requested_by: RequestedBy::Watchdog
            },
            StopCall::StopSeedling {
                name: name("openbao"),
                requested_by: RequestedBy::Watchdog
            },
            StopCall::StopUserSeedlings,
        ]
    );
}

#[test]
fn test_routes_follow_reconciliation() {
    assert_eq!(
        reconcile_seedling(),
        vec![
            Instruction::Do(ReconcileCall::ProvisionAgent),
            Instruction::Do(ReconcileCall::Reconcile),
            Instruction::Do(ReconcileCall::WriteRoutes),
        ]
    );
    assert_eq!(
        start()[0],
        Instruction::Attempt(StartCall::WriteRoutes)
    );
    assert_eq!(start().len(), 4);
}

#[test]
fn test_a_triggered_seedling_is_loaded_and_reconciled() {
    assert_eq!(trigger_reconcile(None, None), TriggerCall::Load);
    assert_eq!(trigger_reconcile(Some(false), None), TriggerCall::Failed);
    assert_eq!(trigger_reconcile(Some(true), None), TriggerCall::Reconcile);
    assert_eq!(
        trigger_reconcile(Some(true), Some(true)),
        TriggerCall::Succeeded
    );
    assert_eq!(
        trigger_reconcile(Some(true), Some(false)),
        TriggerCall::Failed
    );
}

#[test]
fn test_the_registry_is_on_this_machine() {
    assert_eq!(registry(7376), "localhost:7376");
    assert_eq!(
        (
            WATCHDOG_INTERVAL_SECONDS,
            LOG_ROTATION_INTERVAL_SECONDS,
            HEARTBEAT_INTERVAL_SECONDS
        ),
        (30, 60, 5)
    );
}

#[test]
fn test_errors_of_the_service_are_put_into_words() {
    let text = || "x".to_string();
    for (error, words) in [
        (
            ServerError::BootstrapError(BootstrapError::MustBeRoot),
            "BootstrapError: Must be root to proceed",
        ),
        (ServerError::IoError(text()), "IO error: x"),
        (ServerError::FileSystemError(text()), "FileSystem error: x"),
        (ServerError::BuildError(text()), "Build error: x"),
        (ServerError::NameError(text()), "Name error: x"),
        (ServerError::DockerError(text()), "Docker error: x"),
        (ServerError::UnknownSeedling, "Unknown seedling"),
        (ServerError::TooManySeedlings, "Too many seedlings"),
        (ServerError::SeedbankError(text()), "Seedbank error: x"),
        (ServerError::MissingVersion, "Missing version"),
        (ServerError::UncreatedSeedling, "Seedling not yet created"),
        (
            ServerError::LabelError(LabelError::MissingVersion),
            "Label error: Could not determine resource version",
        ),
        (
            ServerError::ReconcileSeedlingError(text()),
            "Failed to reconcile seedling: x",
        ),
        (
            ServerError::StartSeedlingError(text()),
            "Failed to start seedling: x",
        ),
        (
            ServerError::StopSeedlingError(text()),
            "Failed to stop seedling: x",
        ),
        (
            ServerError::DropSeedlingError(text()),
            "Failed to drop seedling: x",
        ),
        (
            ServerError::NewSeedlingError(text()),
            "Failed to create new seedling: x",
        ),
        (
            ServerError::WriteTraefikRoutesError(text()),
            "Failed to write traefik routes: x",
        ),
        (
            ServerError::FindDeadwoodError(text()),
            "Failed to find deadwood: x",
        ),
        (
            ServerError::PruneDeadwoodError(text()),
            "Failed to prune deadwood: x",
        ),
        (
            ServerError::OpenBaoStatusError(text()),
            "Failed to determine OpenBao status: x",
        ),
        (
            ServerError::ProvisionSeedlingSecretsError(text()),
            "Failed to provision seedling secrets: x",
        ),
    ] {
        assert_eq!(error.describe(), words);
    }
}

#[test]
fn test_the_status_of_a_container_is_asked_only_where_there_is_one() {
    assert_eq!(observe_container(None, None), Observation::AskExists);
    assert_eq!(
        observe_container(Some(false), None),
        Observation::Known(ContainerPresence::Absent)
    );
    assert_eq!(observe_container(Some(true), None), Observation::AskStatus);
    assert_eq!(
        observe_container(Some(true), Some(Status::Paused)),
        Observation::Known(ContainerPresence::Present(Status::Paused))
    );
    assert!(ContainerPresence::Present(Status::Exited).is_stopped());
    assert!(!ContainerPresence::Absent.is_stopped());
}
