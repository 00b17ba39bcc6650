use douglas::bootstrap::{bootstrap, BootstrapEvent, Call, Failure, Progress, Standing};
use douglas::drop_seedling::DropSeedlingError;
use douglas::executor::{warnings, CommandError, ExecutionResult};
use douglas::listener::RunningStatus;
use douglas::new_seedling::NewSeedlingError;
use douglas::provision_seedling_secrets::{
    revoke, ProvisionCall, ProvisionEvent, ProvisionProgress, RevokeCall, RevokeEvent,
    RevokeProgress,
};
use douglas::reconcile_seedling::ReconcileSeedlingError;
use douglas::server::{drop_seedling, DropCall, DropEvent, DropProgress};
use douglas::start_seedling::{
    start_agent_container, start_seedling, StartCall, StartEvent, StartProgress,
    StartSeedlingError,
};
use douglas::stop_seedling::StopSeedlingError;
use douglas::system_bootstrap::{self, SetupEvent};
use douglas::watchdog::WatchdogError;

#[test]
fn test_old_secrets_are_destroyed_before_a_new_one_is_made() {
    let mut progress = ProvisionProgress::start();
    for event in [
        ProvisionEvent::PolicyCreated,
        ProvisionEvent::RoleExists(false),
        ProvisionEvent::RoleCreated,
        ProvisionEvent::Accessors(vec!["one".to_string(), "two".to_string()]),
        ProvisionEvent::AccessorDestroyed,
    ] {
        progress = progress.after(event);
    }

    assert_eq!(
        progress.next(),
        ProvisionCall::DestroyAccessor(&"two".to_string())
    );
    progress = progress.after(ProvisionEvent::SecretId("too early".to_string()));
    assert_eq!(progress.secret_id, None);
    progress = progress.after(ProvisionEvent::AccessorDestroyed);
    assert_eq!(progress.destroyed, 2);
    assert_eq!(progress.next(), ProvisionCall::GetRoleId);
    progress = progress.after(ProvisionEvent::AccessorDestroyed);
    assert_eq!(progress.destroyed, 2);
    progress = progress.after(ProvisionEvent::RoleId("role".to_string()));
    assert_eq!(progress.next(), ProvisionCall::CreateSecretId);
    progress = progress.after(ProvisionEvent::SecretId("secret".to_string()));
    assert_eq!(
        progress.next(),
        ProvisionCall::Finished {
            role_id: &"role".to_string(),
            secret_id: &"secret".to_string(),
        }
    );
}

#[test]
fn test_a_role_that_is_there_is_not_made_again() {
    let progress = ProvisionProgress::start()
        .after(ProvisionEvent::PolicyCreated)
        .after(ProvisionEvent::RoleExists(true));

    assert_eq!(progress.next(), ProvisionCall::ListAccessors);
    let progress = progress.after(ProvisionEvent::RoleCreated);
    assert!(!progress.role_created);
}

#[test]
fn test_role_and_policy_are_taken_away() {
    let progress = RevokeProgress::start().after(RevokeEvent::RoleExists(true));
    assert_eq!(revoke(progress), RevokeCall::DeleteRole);
    assert_eq!(progress.after(RevokeEvent::PolicyDeleted), progress);
    let progress = progress
        .after(RevokeEvent::RoleDeleted)
        .after(RevokeEvent::PolicyDeleted);
    assert_eq!(revoke(progress), RevokeCall::Finished);

    let without = RevokeProgress::start()
        .after(RevokeEvent::RoleExists(false))
        .after(RevokeEvent::PolicyDeleted);
    assert_eq!(revoke(without), RevokeCall::Finished);
    assert!(!without.role_deleted);
}

#[test]
fn test_a_start_goes_from_step_to_step() {
    let mut progress = StartProgress::start();
    for (call, event) in [
        (StartCall::StartContainer, StartEvent::Started),
        (StartCall::Wait { seconds: 3 }, StartEvent::Waited),
        (StartCall::AskRunning, StartEvent::RunningSeen(true)),
        (StartCall::CheckHealth, StartEvent::HealthChecked(false)),
        (StartCall::RecordFailure, StartEvent::FailureRecorded),
    ] {
        assert_eq!(start_seedling(progress, false, 3), call);
        progress = progress.after(call, event);
    }
    assert_eq!(start_seedling(progress, false, 3), StartCall::FailedToStart);

    let mut progress = StartProgress::start();
    for (call, event) in [
        (StartCall::StartContainer, StartEvent::Started),
        (StartCall::AskRunning, StartEvent::RunningSeen(true)),
        (StartCall::CheckHealth, StartEvent::HealthChecked(true)),
    ] {
        assert_eq!(start_agent_container(progress), call);
        progress = progress.after(call, event);
    }
    assert_eq!(start_agent_container(progress), StartCall::Succeeded);
}

#[test]
fn test_what_does_not_come_of_a_call_changes_no_start() {
    let progress = StartProgress::start();

    assert_eq!(
        progress.after(StartCall::StartContainer, StartEvent::HealthChecked(true)),
        progress
    );
}

#[test]
fn test_a_drop_goes_on_where_revoking_fails() {
    let mut progress = DropProgress::start();
    for (call, event) in [
        (DropCall::AskDeclared, DropEvent::Declared(true)),
        (DropCall::Load, DropEvent::Loaded),
        (DropCall::Revoke, DropEvent::Revoked(false)),
        (DropCall::Drop, DropEvent::Dropped),
    ] {
        assert_eq!(drop_seedling(progress), call);
        progress = progress.after(event);
    }
    assert_eq!(drop_seedling(progress), DropCall::Finished);

    let undeclared = DropProgress::start().after(DropEvent::Declared(false));
    assert_eq!(drop_seedling(undeclared), DropCall::Drop);
    assert_eq!(undeclared.after(DropEvent::Loaded), undeclared);
}

#[test]
fn test_a_machine_is_set_up_step_by_step() {
    let standing = Standing {
        is_root: true,
        docker_running_status: RunningStatus::Running,
    };
    let mut progress = Progress::start();
    for (call, event) in [
        (Call::ConnectDocker, BootstrapEvent::Connected(Ok(()))),
        (Call::Discover, BootstrapEvent::Discovered(standing)),
        (Call::EnsureSystemNetwork, BootstrapEvent::Network(Ok(()))),
        (Call::FindExecutable, BootstrapEvent::Executable(Ok(()))),
        (Call::Plan, BootstrapEvent::Planned(Ok(()))),
        (Call::Execute, BootstrapEvent::Executed(Ok(()))),
        (Call::EnsureBinaryLink, BootstrapEvent::Linked(Ok(()))),
        (
            Call::EnsureTriggerSocketAccessible,
            BootstrapEvent::Opened(Ok(())),
        ),
    ] {
        assert_eq!(bootstrap(&progress), call);
        progress = progress.after(event);
    }
    assert_eq!(bootstrap(&progress), Call::Succeed);

    let failed = Progress::start().after(BootstrapEvent::Connected(Err("gone".to_string())));
    assert_eq!(
        bootstrap(&failed),
        Call::Fail(Failure::Failed(&"gone".to_string()))
    );
    let early = Progress::start().after(BootstrapEvent::Opened(Ok(())));
    assert_eq!(early, Progress::start());
}

#[test]
fn test_a_system_is_set_up_step_by_step() {
    let state = system_bootstrap::State {
        is_root: true,
        docker_running_status: RunningStatus::Running,
        ..system_bootstrap::State::default()
    };
    let progress = system_bootstrap::Progress::start()
        .after(SetupEvent::Executed(true))
        .after(SetupEvent::Connected(true));
    assert_eq!(
        system_bootstrap::bootstrap(&progress),
        system_bootstrap::Call::Discover
    );
    let progress = progress
        .after(SetupEvent::Discovered(&state))
        .after(SetupEvent::Executed(true));
    assert_eq!(
        system_bootstrap::bootstrap(&progress),
        system_bootstrap::Call::Succeed
    );
}

#[test]
fn test_a_failed_plan_is_put_into_the_same_words_everywhere() {
    let reason = || "step 1 (Stop \"it\"): boom".to_string();
    let words = "Failed to bootstrap: [\"step 1 (Stop \\\"it\\\"): boom\"]";

    assert_eq!(ReconcileSeedlingError::failed(reason()).describe(), words);
    assert_eq!(StartSeedlingError::failed(reason()).describe(), words);
    assert_eq!(StopSeedlingError::failed(reason()).describe(), words);
    assert_eq!(NewSeedlingError::failed(reason()).describe(), words);
    assert_eq!(DropSeedlingError::failed(reason()).describe(), words);
    assert_eq!(WatchdogError::failed(reason()).describe(), words);
    assert_eq!(
        StopSeedlingError::failed(reason()),
        StopSeedlingError::FailedBoostrap(vec![reason()])
    );
}

#[test]
fn test_it_is_warned_of_a_failed_plan() {
    let error = |message: &str| CommandError {
        message: message.to_string(),
    };
    let failed = |rollback_errors| ExecutionResult::Failed {
        failed_at_step: 2,
        failed_at_step_name: "Stop".to_string(),
        perform_error: error("boom"),
        rollback_errors,
    };

    assert!(warnings(&ExecutionResult::Success).is_empty());
    assert_eq!(
        warnings(&failed(Vec::new())),
        vec!["Failed at step 2. Stop: 'boom'"]
    );
    assert_eq!(
        warnings(&failed(vec![error("a"), error("b")])),
        vec![
            "Failed at step 2. Stop: 'boom'",
            "Additionally, ran into these errors while rolling back",
            "a",
            "b",
        ]
    );
}
