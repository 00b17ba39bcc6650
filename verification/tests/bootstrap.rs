use douglas::bootstrap::{
    bootstrap, bract_socket_check, create_plan, deletes_rule, discover, ensure_binary_link,
    ensure_system_network, ensure_trigger_socket_accessible, failure_error, service_definition,
    sudoers_rule, validate, visudo_arguments, visudo_candidate, BootstrapError, BractPlaces, Call,
    Discovery, Execution, Failure, Knowledge, LinkAction, Progress, Question, Refusal, Standing,
    State, Step, SudoersSight, ValidateSudoersFileError, Validation, DOUGLAS_ADMIN_GROUP,
    ROOT_USER_NAME, SUDOERS_FILE, VISUDO_CANDIDATES,
};
use douglas::listener::{LivenessCheck, RunningStatus};
use douglas::modes::Modes;
use douglas::names::system_network;
use douglas::paths::{same_path, DouglasFolders};
use douglas::service::{
    BootstrapReporting, FolderSight, GroupSight, ServiceDefinition, ServiceSight, ServiceState,
    UserSight,
};

fn folders() -> DouglasFolders {
    DouglasFolders {
        logs: "/var/log/douglas".to_string(),
        transients: "/run/douglas".to_string(),
        configs: "/etc/douglas".to_string(),
        seedlings_root: "/var/lib/douglas".to_string(),
        identity: "/var/lib/douglas-identity".to_string(),
    }
}

fn places() -> BractPlaces {
    BractPlaces {
        services: "/var/lib/douglas/services".to_string(),
        binary_dir: "/opt/douglas/bin".to_string(),
        binary_link: "/opt/douglas/bin/douglas".to_string(),
        rolodex: "/var/lib/douglas/rolodex".to_string(),
        credentials: "/var/lib/douglas/credentials".to_string(),
        socket_dir: "/run/douglas/bract".to_string(),
        socket_file: "/run/douglas/bract/bract.sock".to_string(),
        trigger_socket_dir: "/run/douglas/bract-trigger".to_string(),
        trigger_socket_file: "/run/douglas/bract-trigger/bract-trigger.sock".to_string(),
        trigger_group: "douglas-resin-bract".to_string(),
        log_dir: "/var/log/douglas/bract".to_string(),
        heartbeat_dir: "/run/douglas/bract-heartbeat".to_string(),
    }
}

fn definition() -> ServiceDefinition {
    service_definition(&folders(), &places())
}

fn bootstrappable_state() -> State {
    State {
        is_root: true,
        bract_running_status: RunningStatus::NotRunning,
        docker_running_status: RunningStatus::Running,
        service: ServiceState::default(),
        sudoers_entry_exists: false,
        sudoers_entry_has_correct_mode: false,
        sudoers_entry_has_correct_ownership: false,
    }
}

fn plan(state: State) -> Result<Vec<Step>, BootstrapError> {
    create_plan(&definition(), state, &places().binary_link)
}

fn descriptions(steps: &[Step]) -> Vec<String> {
    steps.iter().map(Step::describe).collect()
}

#[test]
fn test_service_definition_should_declare_both_the_main_and_trigger_sockets() {
    assert_eq!(
        definition()
            .owned_sockets
            .iter()
            .map(|listener| listener.socket_path.clone())
            .collect::<Vec<_>>(),
        vec![places().socket_file, places().trigger_socket_file]
    );
}

#[test]
fn test_service_definition_should_own_the_main_socket_with_the_admin_group() {
    let definition = definition();
    let main_socket = definition
        .owned_sockets
        .iter()
        .find(|listener| listener.socket_path == places().socket_file)
        .expect("main socket should be declared");

    assert_eq!(main_socket.owning_group, DOUGLAS_ADMIN_GROUP);
}

#[test]
fn test_service_definition_should_own_the_trigger_socket_with_the_resin_bract_group() {
    let definition = definition();
    let trigger_socket = definition
        .owned_sockets
        .iter()
        .find(|listener| listener.socket_path == places().trigger_socket_file)
        .expect("trigger socket should be declared");

    assert_eq!(trigger_socket.owning_group, places().trigger_group);
}

#[test]
fn test_service_definition_should_own_the_trigger_socket_directory() {
    assert!(definition()
        .owned_folders
        .iter()
        .any(|(path, _mode)| path == &places().trigger_socket_dir));
}

#[test]
fn test_service_definition_should_own_the_credentials_directory_as_owner_only() {
    assert!(definition().owned_folders.iter().any(|(path, mode)| path
        == &places().credentials
        && mode == &Modes::OwnerReadWriteExecute));
}

#[test]
fn test_service_definition_should_own_the_identity_directory_as_owner_only() {
    assert!(definition().owned_folders.iter().any(|(path, mode)| path
        == &folders().identity
        && mode == &Modes::OwnerReadWriteExecute));
}

fn nothing_done() -> Progress {
    Progress {
        connected: None,
        state: None,
        network: None,
        executable: None,
        planned: None,
        executed: None,
        linked: None,
        opened: None,
    }
}

fn nothing_known<'a>() -> Knowledge<'a> {
    Knowledge {
        bract: None,
        is_root: None,
        docker_answers: None,
        service: None,
        sudoers: None,
    }
}

fn standing(state: &State) -> Standing {
    Standing {
        is_root: state.is_root,
        docker_running_status: state.docker_running_status,
    }
}

#[test]
fn test_bootstrap_should_fail_when_not_root() {
    let knowledge = Knowledge {
        bract: Some(RunningStatus::NotRunning),
        is_root: Some(false),
        ..nothing_known()
    };
    let Discovery::Known(state) = discover(&definition(), &knowledge) else {
        panic!("everything is known");
    };
    let progress = Progress {
        connected: Some(Ok(())),
        state: Some(standing(&state)),
        ..nothing_done()
    };

    let call = bootstrap(&progress);

    assert_eq!(call, Call::Fail(Failure::MustBeRoot));
    assert_eq!(
        failure_error(&Failure::MustBeRoot),
        BootstrapError::MustBeRoot
    );
}

#[test]
fn test_bootstrap_should_fail_when_docker_is_not_running() {
    let knowledge = Knowledge {
        bract: Some(RunningStatus::NotRunning),
        is_root: Some(true),
        docker_answers: Some(false),
        ..nothing_known()
    };
    let Discovery::Known(state) = discover(&definition(), &knowledge) else {
        panic!("everything is known");
    };
    assert_eq!(state.docker_running_status, RunningStatus::Unknown);
    let mut progress = Progress {
        connected: Some(Ok(())),
        state: Some(standing(&state)),
        executable: Some(Ok(())),
        ..nothing_done()
    };
    assert_eq!(bootstrap(&progress), Call::Plan);
    assert_eq!(plan(state), Err(BootstrapError::MustHaveRunningDocker));
    progress.planned = Some(Err(Refusal::MustHaveRunningDocker));

    assert_eq!(
        bootstrap(&progress),
        Call::Fail(Failure::MustHaveRunningDocker)
    );
}

#[test]
fn test_ensure_system_network_should_create_it_when_missing() {
    assert!(ensure_system_network(false));
    assert_eq!(system_network().as_str(), "douglas-system");
}

#[test]
fn test_ensure_system_network_should_do_nothing_when_it_already_exists() {
    assert!(!ensure_system_network(true));
}

#[test]
fn test_ensure_system_network_should_propagate_errors() {
    let reason = "connection refused".to_string();
    let progress = Progress {
        connected: Some(Ok(())),
        state: Some(Standing {
            is_root: true,
            docker_running_status: RunningStatus::Running,
        }),
        network: Some(Err(reason.clone())),
        ..nothing_done()
    };

    assert_eq!(bootstrap(&progress), Call::Fail(Failure::Failed(&reason)));
    assert_eq!(
        failure_error(&Failure::Failed(&reason)),
        BootstrapError::FailedBoostrap(vec![reason.clone()])
    );
}

#[test]
fn test_ensure_binary_link_should_do_nothing_when_it_already_points_at_the_binary() {
    let binary = "/opt/douglas/bin/douglas".to_string();
    let link = places().binary_link;

    assert!(ensure_binary_link(&Some(binary.clone()), &binary, &link).is_empty());
}

#[test]
fn test_ensure_binary_link_should_not_mind_how_the_path_is_written() {
    let link = "/usr/bin/bract".to_string();
    let leaves_alone = |target: &str, binary: &str| {
        ensure_binary_link(&Some(target.to_string()), &binary.to_string(), &link).is_empty()
    };

    for a in PATHS {
        for b in PATHS {
            let same = std::path::Path::new(a) == std::path::Path::new(b);
            assert_eq!(leaves_alone(a, b), same, "{a} and {b}");
            assert_eq!(same_path(a, b), same, "{a} and {b}");
        }
    }
    assert!(leaves_alone("/opt/./bract", "/opt/bract"));
    assert!(leaves_alone("//opt/bract/", "/opt/bract"));
    assert!(!leaves_alone("opt/bract", "/opt/bract"));
    assert!(!leaves_alone("./bract", "bract"));
}

const PATHS: [&str; 20] = [
    "", "/", "//", ".", "./", "/.", "..", "/..", "a", "./a", "a/.", "a/", "/a", "//a/", "/./a",
    "a/../a", "a/b", "a//b/.", "a/./b", "b/a",
];

#[test]
fn test_ensure_binary_link_should_recreate_the_link_when_it_is_stale() {
    let binary = "/opt/douglas/bin/douglas".to_string();
    let link = "/usr/local/bin/douglas".to_string();

    assert_eq!(
        ensure_binary_link(&Some("/old/store/path/douglas".to_string()), &binary, &link),
        vec![
            LinkAction::Remove { link: &link },
            LinkAction::Create {
                target: &binary,
                link: &link
            },
        ]
    );
}

#[test]
fn test_ensure_binary_link_should_create_the_link_when_it_is_missing() {
    let binary = "/opt/douglas/bin/douglas".to_string();
    let link = "/usr/local/bin/douglas".to_string();

    assert_eq!(
        ensure_binary_link(&None, &binary, &link),
        vec![
            LinkAction::Remove { link: &link },
            LinkAction::Create {
                target: &binary,
                link: &link
            },
        ]
    );
}

#[test]
fn test_ensure_trigger_socket_dir_group_should_chown_it_to_the_resin_bract_group() {
    let ownership = ensure_trigger_socket_accessible(&places());

    assert_eq!(ownership.path, places().trigger_socket_dir);
    assert_eq!(ownership.user_name, ROOT_USER_NAME);
    assert_eq!(ownership.group_name, places().trigger_group);
}

#[test]
fn test_ensure_trigger_socket_dir_group_should_propagate_errors() {
    let reason = "not found".to_string();
    let progress = Progress {
        connected: Some(Ok(())),
        state: Some(Standing {
            is_root: true,
            docker_running_status: RunningStatus::Running,
        }),
        network: Some(Ok(())),
        executable: Some(Ok(())),
        planned: Some(Ok(())),
        executed: Some(Ok(())),
        linked: Some(Ok(())),
        opened: Some(Err(reason.clone())),
    };

    assert_eq!(bootstrap(&progress), Call::Fail(Failure::Failed(&reason)));
}

#[test]
fn test_sudoers_rule_should_grant_woodward_passwordless_kick_for_each_core_service() {
    let rule = sudoers_rule("/opt/douglas/bin/douglas");

    assert!(rule.starts_with("woodward ALL=(root) NOPASSWD: "));
    assert!(rule.contains("/opt/douglas/bin/douglas kick bract"));
    assert!(rule.contains("/opt/douglas/bin/douglas kick resin"));
    assert!(rule.contains("/opt/douglas/bin/douglas kick seedbank"));
    assert!(rule.ends_with('\n'));
}

#[test]
fn test_create_plan_should_create_validate_and_fix_the_sudoers_file_when_it_is_absent() {
    let plan = plan(bootstrappable_state()).expect("plan should resolve");

    let descriptions = descriptions(&plan);
    assert_eq!(descriptions[0], "Create folder '/etc/sudoers.d'");
    assert_eq!(
        descriptions[1],
        "Set ownership on '/etc/sudoers.d' to user 'root' group 'root'"
    );
    assert_eq!(descriptions[2], "Set mode on '/etc/sudoers.d' to '0o755'");
    assert_eq!(descriptions[3], "Create sudoers file");
    assert_eq!(descriptions[4], "Validate sudoers file");
    assert!(descriptions[5].starts_with("Set ownership on '/etc/sudoers.d/douglas-kick'"));
    assert!(descriptions[6].starts_with("Set mode on '/etc/sudoers.d/douglas-kick'"));
    assert_eq!(descriptions.len(), 7);
}

#[test]
fn test_create_plan_should_ensure_the_directory_and_validate_when_the_file_is_present_and_correct() {
    let plan = plan(State {
        sudoers_entry_exists: true,
        sudoers_entry_has_correct_mode: true,
        sudoers_entry_has_correct_ownership: true,
        ..bootstrappable_state()
    })
    .expect("plan should resolve");

    assert_eq!(
        descriptions(&plan),
        vec![
            "Create folder '/etc/sudoers.d'",
            "Set ownership on '/etc/sudoers.d' to user 'root' group 'root'",
            "Set mode on '/etc/sudoers.d' to '0o755'",
            "Validate sudoers file",
        ]
    );
}

#[test]
fn test_create_plan_should_be_empty_when_bract_is_already_running() {
    let plan = plan(State {
        bract_running_status: RunningStatus::Running,
        ..bootstrappable_state()
    })
    .expect("plan should resolve");

    assert!(plan.is_empty());
}

#[test]
fn test_create_plan_should_error_when_not_root() {
    let result = plan(State {
        is_root: false,
        ..bootstrappable_state()
    });

    assert!(matches!(result, Err(BootstrapError::MustBeRoot)));
}

#[test]
fn test_create_plan_should_error_when_docker_is_not_running() {
    let result = plan(State {
        docker_running_status: RunningStatus::NotRunning,
        ..bootstrappable_state()
    });

    assert!(matches!(result, Err(BootstrapError::MustHaveRunningDocker)));
}

/// Runs the checker under its names until there is a result, and counts the runs.
fn check(
    mut execute: impl FnMut(&str) -> Execution,
) -> (Result<(), ValidateSudoersFileError>, usize) {
    let mut at = 0;
    let mut runs = 0;
    loop {
        runs += 1;
        match validate(at, execute(&visudo_candidate(at))) {
            Validation::Try(next) => at = next,
            Validation::Done(result) => return (result, runs),
        }
    }
}

fn rejected() -> Execution {
    Execution::Rejected { code: Some(1) }
}

#[test]
fn test_validate_should_succeed_when_visudo_accepts_the_file() {
    assert_eq!(
        visudo_arguments(),
        vec!["-c", "-f", "/etc/sudoers.d/douglas-kick"]
    );
    let (result, runs) = check(|command| {
        assert_eq!(command, "visudo");
        Execution::Accepted
    });

    assert!(result.is_ok());
    assert_eq!(runs, 1);
}

#[test]
fn test_validate_should_fall_through_to_a_later_candidate_when_earlier_ones_are_missing() {
    let (result, runs) = check(|command| {
        if command == "/sbin/visudo" {
            Execution::Accepted
        } else {
            Execution::NotFound
        }
    });

    assert!(result.is_ok());
    assert_eq!(runs, 3);
}

#[test]
fn test_validate_should_report_command_not_found_when_no_candidate_exists() {
    let (result, runs) = check(|_| Execution::NotFound);

    assert!(matches!(
        result,
        Err(ValidateSudoersFileError::CommandNotFound)
    ));
    assert_eq!(runs, VISUDO_CANDIDATES);
}

#[test]
fn test_validate_should_report_validation_failed_when_visudo_rejects_the_file() {
    let (result, runs) = check(|_| rejected());

    assert!(matches!(
        result,
        Err(ValidateSudoersFileError::ValidationFailed { code: Some(1) })
    ));
    assert_eq!(runs, 1);
}

#[test]
fn test_validate_should_propagate_other_os_errors() {
    let (result, runs) = check(|_| Execution::Failed("pid too large".to_string()));

    assert!(matches!(result, Err(ValidateSudoersFileError::OsError(_))));
    assert_eq!(runs, 1);
}

#[test]
fn test_validate_run_should_delete_the_file_and_fail_when_validation_fails() {
    let (result, _) = check(|_| rejected());

    assert!(deletes_rule(&result));
    assert_eq!(SUDOERS_FILE, "/etc/sudoers.d/douglas-kick");
    assert!(result.is_err());
}

#[test]
fn test_validate_run_should_leave_the_file_alone_when_validation_passes() {
    let (result, _) = check(|_| Execution::Accepted);

    assert!(!deletes_rule(&result));
    assert!(result.is_ok());
}

#[test]
fn test_validate_run_should_fail_without_deleting_when_visudo_is_missing() {
    let (result, _) = check(|_| Execution::NotFound);

    assert!(!deletes_rule(&result));
    assert!(result.is_err());
}

#[test]
fn test_create_sudoers_file_run_should_write_the_kick_rule() {
    let steps = create_plan(
        &definition(),
        bootstrappable_state(),
        &"/usr/local/bin/douglas".to_string(),
    )
    .expect("plan should resolve");
    let Some(Step::CreateSudoersFile { binary_link }) = steps
        .iter()
        .find(|step| matches!(step, Step::CreateSudoersFile { .. }))
    else {
        panic!("the rule is written");
    };

    let contents = sudoers_rule(binary_link);

    assert_eq!(
        contents,
        "woodward ALL=(root) NOPASSWD: /usr/local/bin/douglas kick bract, \
         /usr/local/bin/douglas kick resin, /usr/local/bin/douglas kick seedbank\n"
    );
}

#[test]
fn test_discovery_asks_only_what_it_needs() {
    let definition = definition();
    assert_eq!(
        discover(&definition, &nothing_known()),
        Discovery::Ask(Question::BractSocket)
    );
    let running = Knowledge {
        bract: Some(RunningStatus::Running),
        ..nothing_known()
    };
    assert!(matches!(
        discover(&definition, &running),
        Discovery::Known(State { is_root: false, .. })
    ));
    let stopped = Knowledge {
        bract: Some(RunningStatus::NotRunning),
        ..nothing_known()
    };
    assert_eq!(
        discover(&definition, &stopped),
        Discovery::Ask(Question::IsRoot)
    );
}

#[test]
fn test_discovery_looks_at_the_service_and_the_rule() {
    let definition = definition();
    let sight = ServiceSight {
        group: GroupSight {
            present: true,
            id: None,
            members: Vec::new(),
        },
        user: UserSight {
            present: true,
            primary_group: None,
        },
        additional_groups: Vec::new(),
        folders: definition
            .owned_folders
            .iter()
            .map(|(_, mode)| FolderSight::Present {
                user: "root".to_string(),
                group: "douglas-admin".to_string(),
                mode: *mode,
            })
            .collect(),
    };
    let sudoers = SudoersSight {
        present: true,
        ownership: Some(("root".to_string(), "wheel".to_string())),
        mode: Some(Modes::OwnerReadGroupRead),
    };
    let knowledge = Knowledge {
        bract: Some(RunningStatus::Unknown),
        is_root: Some(true),
        docker_answers: Some(true),
        service: Some(&sight),
        sudoers: Some(&sudoers),
    };

    let Discovery::Known(state) = discover(&definition, &knowledge) else {
        panic!("everything is known");
    };

    assert_eq!(state.service, ServiceState::default());
    assert!(state.sudoers_entry_exists);
    assert!(!state.sudoers_entry_has_correct_ownership);
    assert!(state.sudoers_entry_has_correct_mode);
}

#[test]
fn test_the_setting_up_goes_through_its_steps_in_order() {
    let mut progress = nothing_done();
    assert_eq!(bootstrap(&progress), Call::ConnectDocker);
    progress.connected = Some(Ok(()));
    assert_eq!(bootstrap(&progress), Call::Discover);
    progress.state = Some(Standing {
        is_root: true,
        docker_running_status: RunningStatus::Running,
    });
    assert_eq!(bootstrap(&progress), Call::EnsureSystemNetwork);
    progress.network = Some(Ok(()));
    assert_eq!(bootstrap(&progress), Call::FindExecutable);
    progress.executable = Some(Ok(()));
    assert_eq!(bootstrap(&progress), Call::Plan);
    progress.planned = Some(Ok(()));
    assert_eq!(bootstrap(&progress), Call::Execute);
    progress.executed = Some(Ok(()));
    assert_eq!(bootstrap(&progress), Call::EnsureBinaryLink);
    progress.linked = Some(Ok(()));
    assert_eq!(bootstrap(&progress), Call::EnsureTriggerSocketAccessible);
    progress.opened = Some(Ok(()));
    assert_eq!(bootstrap(&progress), Call::Succeed);
}

#[test]
fn test_errors_are_put_into_words() {
    assert_eq!(
        BootstrapError::FailedBoostrap(vec!["no \"luck\"".to_string()]).describe(),
        "Failed to bootstrap: [\"no \\\"luck\\\"\"]"
    );
    assert_eq!(
        BootstrapError::MustBeRoot.describe(),
        "Must be root to proceed"
    );
    assert_eq!(
        BootstrapError::MustHaveRunningDocker.describe(),
        "Docker must be running"
    );
    assert_eq!(
        BootstrapError::OsError("gone".to_string()).describe(),
        "OS error: gone"
    );
    assert_eq!(
        BootstrapError::FileSystemError("full".to_string()).describe(),
        "FileSystemError: full"
    );
    assert_eq!(
        BootstrapError::CredentialsError("none".to_string()).describe(),
        "Credentials error: none"
    );
    assert_eq!(
        ValidateSudoersFileError::ValidationFailed { code: Some(-2) }.describe(),
        "visudo rejected the sudoers file (exit status Some(-2))"
    );
    assert_eq!(
        ValidateSudoersFileError::ValidationFailed { code: None }.describe(),
        "visudo rejected the sudoers file (exit status None)"
    );
    assert_eq!(
        ValidateSudoersFileError::CommandNotFound.describe(),
        "visudo could not be found"
    );
}

#[test]
fn test_the_service_is_known_by_its_first_socket() {
    let definition = definition();

    assert_eq!(
        bract_socket_check(&definition),
        Some(LivenessCheck::UnixSocket(places().socket_file))
    );
    assert_eq!(definition.bootstrap_reporting, BootstrapReporting::Pipe);
    assert_eq!(definition.owned_folders.len(), 14);
    assert_eq!(definition.owned_folders[5].0, "/var/lib/douglas/mounts");
}
