use douglas::bootstrap::BootstrapError;
use douglas::commands::ServiceCommand;
use douglas::listener::{ErrorKind, RunningStatus};
use douglas::modes::Modes;
use douglas::service::FolderSight;
use douglas::system_bootstrap::{
    announce, bootstrap, check_admin_group_membership, check_socket, check_system_folders,
    create_plan, discover, get_non_sudoer, socket_warning, AdminSight, Call, Discovery, Knowledge,
    Progress, Question, State, SudoUser, SystemFolders,
};

fn folders() -> SystemFolders {
    SystemFolders {
        logs: "/var/log/douglas".to_string(),
        transients: "/run/douglas".to_string(),
        applications: "/var/lib/douglas".to_string(),
        application_services: "/var/lib/douglas/services".to_string(),
        application_mounts: "/var/lib/douglas/mounts".to_string(),
        configs: "/etc/douglas".to_string(),
    }
}

fn right(mode: Modes) -> FolderSight {
    FolderSight::Present {
        user: "root".to_string(),
        group: "douglas-admin".to_string(),
        mode,
    }
}

fn bootstrappable() -> State {
    State {
        is_root: true,
        docker_running_status: RunningStatus::Running,
        ..State::default()
    }
}

#[test]
fn test_the_user_behind_sudo_is_put_into_the_admin_group() {
    let mut state = State::default();

    check_admin_group_membership(
        &mut state,
        &SudoUser::Named("sam".to_string()),
        false,
        &Vec::new(),
    );

    assert_eq!(state.groups_missing, vec!["douglas-admin".to_string()]);
    assert_eq!(state.group_members_missing.len(), 1);
    assert_eq!(state.group_members_missing[0].group_name, "douglas-admin");
    assert_eq!(state.group_members_missing[0].user_name, "sam");
}

#[test]
fn test_a_member_of_the_admin_group_is_left_alone() {
    let mut state = State::default();

    check_admin_group_membership(
        &mut state,
        &SudoUser::Named("sam".to_string()),
        true,
        &vec!["sam".to_string()],
    );

    assert_eq!(state, State::default());
}

#[test]
fn test_root_is_never_put_into_the_admin_group() {
    for environment in [
        SudoUser::Named("root".to_string()),
        SudoUser::NotPresent,
        SudoUser::NotUnicode,
    ] {
        assert_eq!(
            get_non_sudoer(&environment),
            ("root".to_string(), false)
        );
        let mut state = State::default();
        check_admin_group_membership(&mut state, &environment, true, &Vec::new());
        assert!(state.group_members_missing.is_empty());
    }
}

#[test]
fn test_system_folders_are_checked_in_order() {
    let plain = Modes::OwnerReadWriteExecuteGroupReadWriteExecute;
    let inherited = Modes::InheritedOwnerReadWriteExecuteGroupReadWriteExecute;
    let mut state = State::default();
    let seen = vec![
        right(inherited),
        right(plain),
        FolderSight::Absent,
        right(inherited),
        FolderSight::Present {
            user: "sam".to_string(),
            group: "douglas-admin".to_string(),
            mode: plain,
        },
        right(inherited),
    ];

    check_system_folders(&mut state, &folders(), &seen);

    assert_eq!(state.folders_missing, vec!["/var/lib/douglas".to_string()]);
    assert_eq!(
        state
            .folders_missing_ownership
            .iter()
            .map(|requirement| requirement.path.as_str())
            .collect::<Vec<_>>(),
        vec!["/var/lib/douglas", "/var/lib/douglas/mounts"]
    );
    assert_eq!(
        state
            .folders_missing_mode
            .iter()
            .map(|requirement| requirement.path.as_str())
            .collect::<Vec<_>>(),
        vec!["/var/lib/douglas", "/var/lib/douglas/services"]
    );
}

#[test]
fn test_a_plan_creates_before_it_gives_away() {
    let mut state = bootstrappable();
    check_admin_group_membership(
        &mut state,
        &SudoUser::Named("sam".to_string()),
        false,
        &Vec::new(),
    );
    let absent = (0..6).map(|_| FolderSight::Absent).collect();
    check_system_folders(&mut state, &folders(), &absent);

    let plan = create_plan(&state).expect("plan should resolve");

    assert_eq!(plan.len(), 2 + 18);
    let words: Vec<String> = plan.iter().map(announce).collect();
    assert_eq!(words[0], "Create group 'douglas-admin'");
    assert_eq!(words[1], "Add user 'sam' to group 'douglas-admin'");
    assert_eq!(words[2], "Create folder '/var/log/douglas'");
    assert_eq!(
        words[8],
        "Set ownership on '/var/log/douglas', to group 'douglas-admin' and user 'root'"
    );
    assert_eq!(words[14], "Set mode on '/var/log/douglas' to '0o2770'");
    assert!(matches!(plan[14], ServiceCommand::SetMode(_)));
}

#[test]
fn test_a_plan_needs_root_and_the_engine() {
    assert_eq!(
        create_plan(&State {
            is_root: false,
            ..bootstrappable()
        }),
        Err(BootstrapError::MustBeRoot)
    );
    assert_eq!(
        create_plan(&State {
            docker_running_status: RunningStatus::Unknown,
            ..bootstrappable()
        }),
        Err(BootstrapError::MustHaveRunningDocker)
    );
    assert_eq!(
        create_plan(&State {
            bract_running_status: RunningStatus::Running,
            ..State::default()
        }),
        Ok(vec![])
    );
}

#[test]
fn test_a_socket_tells_whether_the_service_runs() {
    assert_eq!(
        check_socket(false, Ok(())),
        RunningStatus::NotRunning
    );
    assert_eq!(check_socket(true, Ok(())), RunningStatus::Running);
    assert_eq!(
        check_socket(true, Err(ErrorKind::ConnectionRefused)),
        RunningStatus::NotRunning
    );
    assert_eq!(
        check_socket(true, Err(ErrorKind::Other)),
        RunningStatus::Unknown
    );
    assert_eq!(
        socket_warning("/run/bract.sock", RunningStatus::Unknown, "oh no"),
        Some("Could not determine status of socket '/run/bract.sock': 'oh no'".to_string())
    );
    assert_eq!(
        socket_warning("/run/bract.sock", RunningStatus::NotRunning, "oh no"),
        None
    );
}

fn nothing_known() -> Knowledge<'static> {
    Knowledge {
        bract: None,
        is_root: None,
        admins: None,
        folders: None,
        docker_answers: None,
    }
}

fn known(discovery: Discovery) -> State {
    match discovery {
        Discovery::Known(state) => state,
        Discovery::Ask(question) => panic!("{question:?} is still open"),
    }
}

#[test]
fn test_the_system_is_looked_at_one_question_at_a_time() {
    let admins = AdminSight {
        environment: SudoUser::Named("sam".to_string()),
        group_present: false,
        members: Vec::new(),
    };
    let seen: Vec<FolderSight> = (0..6).map(|_| FolderSight::Absent).collect();
    let mut knowledge = nothing_known();

    assert_eq!(
        discover(&folders(), &knowledge),
        Discovery::Ask(Question::BractSocket)
    );
    knowledge.bract = Some(RunningStatus::Unknown);
    assert_eq!(
        discover(&folders(), &knowledge),
        Discovery::Ask(Question::IsRoot)
    );
    knowledge.is_root = Some(true);
    assert_eq!(
        discover(&folders(), &knowledge),
        Discovery::Ask(Question::Admins)
    );
    knowledge.admins = Some(&admins);
    assert_eq!(
        discover(&folders(), &knowledge),
        Discovery::Ask(Question::Folders)
    );
    knowledge.folders = Some(&seen);
    assert_eq!(
        discover(&folders(), &knowledge),
        Discovery::Ask(Question::PingDocker)
    );
    knowledge.docker_answers = Some(true);
    let state = known(discover(&folders(), &knowledge));

    assert!(state.is_root);
    assert_eq!(state.bract_running_status, RunningStatus::Unknown);
    assert_eq!(state.docker_running_status, RunningStatus::Running);
    assert_eq!(state.groups_missing, vec!["douglas-admin".to_string()]);
    assert_eq!(state.group_members_missing[0].user_name, "sam");
    assert_eq!(state.folders_missing.len(), 6);
    assert_eq!(state.folders_missing_ownership.len(), 6);
    assert_eq!(state.folders_missing_mode.len(), 6);
}

#[test]
fn test_a_running_service_ends_the_look_at_the_system() {
    let state = known(discover(
        &folders(),
        &Knowledge {
            bract: Some(RunningStatus::Running),
            ..nothing_known()
        },
    ));

    assert_eq!(
        state,
        State {
            bract_running_status: RunningStatus::Running,
            ..State::default()
        }
    );
}

#[test]
fn test_the_setting_up_stops_where_it_must() {
    let start = Progress {
        connected: None,
        state: None,
        executed: None,
    };
    assert_eq!(bootstrap(&start), Call::ConnectDocker);
    assert_eq!(
        bootstrap(&Progress {
            connected: Some(false),
            ..start
        }),
        Call::MustHaveRunningDocker
    );
    let nobody = known(discover(
        &folders(),
        &Knowledge {
            bract: Some(RunningStatus::NotRunning),
            is_root: Some(false),
            ..nothing_known()
        },
    ));
    assert_eq!(
        bootstrap(&Progress {
            connected: Some(true),
            state: Some(&nobody),
            executed: None,
        }),
        Call::MustBeRoot
    );
    let admins = AdminSight {
        environment: SudoUser::NotPresent,
        group_present: true,
        members: Vec::new(),
    };
    let seen: Vec<FolderSight> = (0..6).map(|_| FolderSight::Absent).collect();
    let looked = |docker_answers| {
        known(discover(
            &folders(),
            &Knowledge {
                bract: Some(RunningStatus::NotRunning),
                is_root: Some(true),
                admins: Some(&admins),
                folders: Some(&seen),
                docker_answers: Some(docker_answers),
            },
        ))
    };
    let deaf = looked(false);
    assert_eq!(
        bootstrap(&Progress {
            connected: Some(true),
            state: Some(&deaf),
            executed: None,
        }),
        Call::MustHaveRunningDocker
    );
    let ready = looked(true);
    for (executed, call) in [
        (None, Call::Execute),
        (Some(true), Call::Succeed),
        (Some(false), Call::Fail),
    ] {
        assert_eq!(
            bootstrap(&Progress {
                connected: Some(true),
                state: Some(&ready),
                executed,
            }),
            call
        );
    }
}
