use douglas::build_container::{
    agent_mount_ram_disk_size_mb, build_agent_container, build_container, container_environment,
    container_mounts, container_user, fill_agent_mount, mount_owner, prepare_agent_mount,
    DockerAction, DockerQuestion, FileAction, Platform,
};
use douglas::commands::{
    AddUserToGroup, CreateFolder, CreateGroup, CreateUser, ServiceCommand, SetMode, SetOwnership,
};
use douglas::docker::{EnvironmentVariable, Ipv4, VersionedImageName};
use douglas::document::{flag, list1, record1, record2, text, to_json, to_yaml};
use douglas::encoding::safe_prefixed_credential_name;
use douglas::history::{History, HistoryError};
use douglas::modes::{Modes, EXPECTED_MOUNT_MODE};
use douglas::names::Name;
use douglas::paths::{
    file_name, is_already_rotated, join, parent, route_file, traefik_dynamic_dir, DouglasFolders,
};
use douglas::provision_seedling_secrets::{
    place_agent_if_requested, provision_agent, AgentProvisioning, SeedlingCredentials,
};
use douglas::reconcile_seedling::{MountOwnership, ReconcileSeedlingError};
use douglas::rolodex::{Credential, ServiceAccount};
use douglas::script::{
    after_action, after_answer, demand, start, Demand, Instruction, Outcome, Position,
};
use douglas::seedling::{
    AccessMode, HealthCheck, Id, Mount, MountType, NamedMount, Origin, Routing, SecretsAccess,
    SeedlingDefinition, Version,
};
use douglas::text::{
    bracketed, debug_texts, decimal_text, parse_decimal, split_once, strip_prefix, strip_suffix, trim,
};

fn name(value: &str) -> Name {
    Name::parse(value).expect("valid name")
}

#[test]
fn test_a_history_can_be_wound_back_to_its_first_push() {
    let mut history = History::new(1);
    assert!(history.is_initial_state());
    assert_eq!(history.rollback(), Err(HistoryError::CannotRollback));
    history.push(2);
    assert_eq!(history.rollback(), Err(HistoryError::CannotRollback));
    history.push(3);
    assert_eq!(*history.current(), 3);
    assert_eq!(history.rollback(), Ok(()));
    assert_eq!(*history.current(), 2);
    assert!(!history.is_initial_state());
    assert_eq!(
        HistoryError::CannotRollback.describe(),
        "Cannot rollback initial state"
    );
    assert_eq!(HistoryError::NoCurrentState.describe(), "No current state");
}

#[test]
fn test_modes_are_written_in_octal() {
    for (mode, bits, words) in [
        (Modes::OwnerReadWrite, 0o600, "0o600"),
        (Modes::OwnerReadWriteExecute, 0o700, "0o700"),
        (Modes::OwnerReadGroupRead, 0o440, "0o440"),
        (Modes::OwnerReadWriteGroupRead, 0o640, "0o640"),
        (Modes::OwnerReadWriteGroupReadWrite, 0o660, "0o660"),
        (
            Modes::OwnerReadWriteExecuteGroupReadWriteExecute,
            0o770,
            "0o770",
        ),
        (EXPECTED_MOUNT_MODE, 0o2770, "0o2770"),
        (Modes::Other(0o755), 0o755, "0o755"),
        (Modes::Other(0), 0, "0o0"),
    ] {
        assert_eq!(mode.bits(), bits);
        assert_eq!(mode.to_text(), words);
    }
}

#[test]
fn test_paths_are_joined_and_come_apart() {
    assert_eq!(join("/var", "lib"), "/var/lib");
    assert_eq!(join("/var/", "lib"), "/var/lib");
    assert_eq!(join("", "lib"), "lib");
    assert_eq!(join("/var", "/etc"), "/etc");
    for (path, folder, name) in [
        ("/var/lib/x", Some("/var/lib"), Some("x")),
        ("/x", Some("/"), Some("x")),
        ("/var/", Some("/"), Some("var")),
        ("/var/./x/.", Some("/var"), Some("x")),
        ("/var/..", Some("/var"), None),
        ("//x", Some("/"), Some("x")),
        ("x", Some(""), Some("x")),
        ("./x", Some("."), Some("x")),
        (".", Some(""), None),
        ("/", None, None),
        ("", None, None),
    ] {
        assert_eq!(parent(path).as_deref(), folder);
        assert_eq!(file_name(path).as_deref(), name);
        let standard = std::path::Path::new(path);
        assert_eq!(parent(path).as_deref(), standard.parent().and_then(|p| p.to_str()));
        assert_eq!(
            file_name(path).as_deref(),
            standard.file_name().and_then(|n| n.to_str())
        );
    }
    assert_eq!(file_name("/var/log/a.log"), Some("a.log".to_string()));
    assert!(is_already_rotated("/var/log/a.log.1"));
    assert!(!is_already_rotated("/var/log/a.log"));
    assert!(!is_already_rotated("/var/log/.1"));
}

#[test]
fn test_texts_are_taken_apart() {
    assert_eq!(
        split_once("a=b=c", '='),
        Some(("a".to_string(), "b=c".to_string()))
    );
    assert_eq!(split_once("abc", '='), None);
    assert_eq!(strip_prefix("doug.x", "doug."), Some("x".to_string()));
    assert_eq!(strip_prefix("x", "doug."), None);
    assert_eq!(strip_suffix("x.toml", ".toml"), Some("x".to_string()));
    assert_eq!(strip_suffix("x.yml", ".toml"), None);
    assert_eq!(trim(" \t\u{00a0}x y\u{3000}\n"), "x y");
    assert_eq!(trim(" \u{2028} "), "");
    assert_eq!(trim("\u{200b}x"), "\u{200b}x");
}

#[test]
fn test_every_kind_of_white_space_is_trimmed() {
    for code in 0..=0x10ffff {
        if let Some(c) = char::from_u32(code) {
            let around: String = [c, 'x', c].iter().collect();
            assert_eq!(trim(&around), around.trim());
        }
    }
}

#[test]
fn test_lists_of_texts_are_shown_in_quotes() {
    let texts = |list: &[&str]| -> Vec<String> { list.iter().map(|s| s.to_string()).collect() };
    assert_eq!(bracketed(&texts(&[])), "[]");
    assert_eq!(bracketed(&texts(&["a"])), "[a]");
    assert_eq!(bracketed(&texts(&["a", "b", "c"])), "[a, b, c]");
    for list in [
        texts(&[]),
        texts(&["a"]),
        texts(&["a\n", "say \"b\"", "\u{301}c\\", "d'e"]),
    ] {
        assert_eq!(debug_texts(&list), format!("{list:?}"));
    }
    assert_eq!(debug_texts(&texts(&["a", "b\t"])), "[\"a\", \"b\\t\"]");
}

#[test]
fn test_numbers_round_trip_through_text() {
    for number in [0, 7, 10, 4294967295] {
        assert_eq!(parse_decimal(&decimal_text(u64::from(number))), Some(number));
    }
    assert_eq!(decimal_text(18446744073709551615), "18446744073709551615");
    assert_eq!(parse_decimal("4294967296"), None);
    assert_eq!(parse_decimal(""), None);
    assert_eq!(parse_decimal("1a"), None);
    assert_eq!(parse_decimal("007"), Some(7));
}

#[test]
fn test_names_are_made_safe_for_credentials() {
    assert_eq!(
        safe_prefixed_credential_name("Hello World 9"),
        "doug-hello-world-9"
    );
    assert_eq!(safe_prefixed_credential_name("9lives"), "doug--lives");
    assert_eq!(safe_prefixed_credential_name("_x-\u{e9}"), "doug-_x--");
    assert_eq!(
        safe_prefixed_credential_name(&"a".repeat(40)),
        format!("doug-{}", "a".repeat(27))
    );
    assert_eq!(safe_prefixed_credential_name(""), "doug-");
}

#[test]
fn test_documents_are_written_in_json_and_yaml() {
    let document = record2(
        "list",
        list1(record1("key", text("a \"b\""))),
        "flag",
        flag(true),
    );

    assert_eq!(
        String::from_utf8(to_json(&document).expect("can be written")).expect("is text"),
        "{\n  \"flag\": true,\n  \"list\": [\n    {\n      \"key\": \"a \\\"b\\\"\"\n    }\n  ]\n}"
    );
    assert_eq!(
        to_yaml(&document).expect("can be written"),
        "list:\n- key: a \"b\"\nflag: true\n"
    );
}

#[test]
fn test_a_script_goes_on_or_ends_by_what_came_of_its_lines() {
    let script: Vec<Instruction<&str, &str>> = vec![
        Instruction::Unless {
            question: "is there a network",
            action: "make one",
        },
        Instruction::Attempt("try"),
        Instruction::Settle("remove"),
        Instruction::Do("do"),
    ];
    let at = start();

    assert_eq!(demand(&script, at), Demand::Ask(&"is there a network"));
    assert_eq!(
        after_answer(&script, at, true),
        Position {
            line: 1,
            answered: false
        }
    );
    let at = after_answer(&script, at, false);
    assert_eq!(demand(&script, at), Demand::Act(&"make one"));
    assert_eq!(
        after_action(&script, at, Outcome::Failed("no")),
        Err("no")
    );
    let at = after_action::<_, _, &str>(&script, at, Outcome::Done).expect("goes on");
    assert_eq!(demand(&script, at), Demand::Act(&"try"));
    let at = after_action(&script, at, Outcome::Failed("no")).expect("goes on");
    assert_eq!(
        after_action(&script, at, Outcome::Failed("no")),
        Err("no")
    );
    let at = after_action(&script, at, Outcome::Missing("gone")).expect("goes on");
    assert_eq!(demand(&script, at), Demand::Act(&"do"));
    assert_eq!(
        after_action(&script, at, Outcome::Missing("gone")),
        Err("gone")
    );
    let at = after_action::<_, _, &str>(&script, at, Outcome::Done).expect("goes on");
    assert_eq!(demand(&script, at), Demand::Finished);
}

#[test]
fn test_images_are_written_with_their_versions() {
    assert_eq!(VersionedImageName::latest("redis").to_text(), "redis:latest");
    assert_eq!(
        VersionedImageName::namespaced_specific("openbao", "openbao", "2.4").to_text(),
        "openbao/openbao:2.4"
    );
    assert_eq!(VersionedImageName::latest("redis").formatted_name(), "redis");
    assert_eq!(
        VersionedImageName::namespaced_specific("openbao", "bao", "2.4").formatted_name(),
        "openbao/bao"
    );
}

#[test]
fn test_commands_are_put_into_words() {
    let commands = [
        ServiceCommand::CreateUser(CreateUser::new("woodward", "woodward-g")),
        ServiceCommand::CreateGroup(CreateGroup::new("admins")),
        ServiceCommand::AddUserToGroup(AddUserToGroup::new("woodward", "admins")),
        ServiceCommand::CreateFolder(CreateFolder::new("/x".to_string())),
        ServiceCommand::SetOwnership(SetOwnership::new("/x".to_string(), "root", "admins")),
        ServiceCommand::SetMode(SetMode::new("/x".to_string(), Modes::OwnerReadWrite)),
    ];

    assert_eq!(
        commands
            .iter()
            .map(ServiceCommand::describe)
            .collect::<Vec<_>>(),
        vec![
            "Create user 'woodward' with primary group 'woodward-g'",
            "Create group 'admins'",
            "Add user 'woodward' to group 'admins'",
            "Create folder '/x'",
            "Set ownership on '/x' to user 'root' group 'admins'",
            "Set mode on '/x' to '0o600'",
        ]
    );
}

fn folders() -> DouglasFolders {
    DouglasFolders {
        logs: "/var/log/douglas".to_string(),
        transients: "/run/douglas".to_string(),
        configs: "/etc/douglas".to_string(),
        seedlings_root: "/var/lib/douglas".to_string(),
        identity: "/var/lib/douglas-identity".to_string(),
    }
}

fn definition(origin: Origin) -> SeedlingDefinition {
    SeedlingDefinition {
        image: VersionedImageName::specific("hello", "1"),
        mounts: vec![NamedMount {
            name: name("data"),
            mount: Mount {
                kind: MountType::Persisted,
                remote_path: "/data".to_string(),
                access_mode: AccessMode::ReadOnly,
                contents: Vec::new(),
                rotate_logs: false,
            },
        }],
        routing: Routing::Unrouted,
        health_check: HealthCheck {
            command: "true".to_string(),
            wait_time_in_seconds: 1,
        },
        secrets: Some(SecretsAccess {
            read: true,
            write: false,
        }),
        origin,
        published_ports: Vec::new(),
        command: None,
        added_capabilities: Vec::new(),
    }
}

fn account() -> Option<ServiceAccount> {
    let credential = |id: u32, system_name: &str| Credential {
        id,
        full_name: "hello".to_string(),
        system_name: system_name.to_string(),
    };
    Some(ServiceAccount {
        user: credential(11, "doug-u"),
        group: credential(12, "doug-g"),
    })
}

fn agent() -> AgentProvisioning {
    let placement = place_agent_if_requested(
        &folders(),
        &name("hello"),
        Some(Id { value: 7 }),
        &definition(Origin::User),
    )
    .expect("has an id")
    .expect("asks for secrets");
    provision_agent(
        placement,
        SeedlingCredentials {
            role_id: "role".to_string(),
            secret_id: "secret".to_string(),
        },
    )
    .expect("can be written")
}

#[test]
fn test_a_container_joins_its_own_network_and_core_ones_the_system_network_too() {
    let agent = agent();
    let script = |origin: Origin| {
        build_container(
            &folders(),
            &name("hello"),
            Version(2),
            &definition(origin),
            Some(&agent),
            &account(),
            Some(11),
            Some(12),
        )
        .expect("has an account")
    };

    let user = script(Origin::User);
    assert_eq!(user.len(), 3);
    let Instruction::Do(DockerAction::CreateContainer(container)) = &user[0] else {
        panic!("the container comes first");
    };
    assert_eq!(container.name.as_str(), "doug.hello");
    assert_eq!(
        container.environment_variables,
        vec![EnvironmentVariable::new(
            "OPENBAO_AGENT_ADDR",
            "http://doug-agent.hello:8100"
        )]
    );
    assert_eq!(
        container.mounts[0].host_path,
        "/var/lib/douglas/mounts/hello/data"
    );
    assert!(!container.mounts[0].writable);
    let Instruction::Unless {
        question: DockerQuestion::NetworkExists(network),
        action: DockerAction::CreateNetwork { subnet, .. },
    } = &user[1]
    else {
        panic!("the network comes next");
    };
    assert_eq!(network.as_str(), "doug.hello");
    assert_eq!(
        subnet.as_ref().map(|subnet| subnet.cidr.as_str()),
        Some("10.0.7.0/24")
    );
    let core = script(Origin::Core);
    assert_eq!(core.len(), 4);
    let Instruction::Do(DockerAction::ConnectNetwork { network, .. }) = &core[3] else {
        panic!("the system network comes last");
    };
    assert_eq!(network.as_str(), "douglas-system");
}

#[test]
fn test_a_container_needs_an_account() {
    assert_eq!(
        build_container(
            &folders(),
            &name("hello"),
            Version(2),
            &definition(Origin::User),
            None,
            &None,
            Some(11),
            Some(12),
        ),
        Err(ReconcileSeedlingError::MissingServiceAccount)
    );
    assert_eq!(container_user(&account(), Some(1), Some(2)), Ok((1, 2)));
    assert_eq!(
        container_user(&account(), None, Some(2)),
        Err(ReconcileSeedlingError::MissingServiceAccount)
    );
}

#[test]
fn test_an_agent_has_its_place_in_the_private_network() {
    let agent = agent();
    let script = build_agent_container(
        &name("hello"),
        Version(2),
        Origin::User,
        "2.4.0",
        Some(&agent),
        &account(),
        Some(11),
        Some(12),
    )
    .expect("is provisioned");

    assert_eq!(script.len(), 4);
    let Instruction::Do(DockerAction::CreateContainer(container)) = &script[0] else {
        panic!("the container comes first");
    };
    assert_eq!(container.image.to_text(), "openbao/openbao:2.4.0");
    assert_eq!(
        container.command.as_deref(),
        Some("agent -config=/etc/openbao-agent/agent.json")
    );
    let Instruction::Do(DockerAction::ConnectNetwork { address, .. }) = &script[2] else {
        panic!("the connection comes third");
    };
    assert_eq!(
        *address,
        Some(Ipv4 {
            a: 10,
            b: 0,
            c: 7,
            d: 2
        })
    );
    assert_eq!(
        build_agent_container(
            &name("hello"),
            Version(2),
            Origin::User,
            "2.4.0",
            None,
            &account(),
            Some(11),
            Some(12)
        ),
        Err(ReconcileSeedlingError::MissingAgentProvisioning)
    );
}

#[test]
fn test_the_files_of_an_agent_stay_in_memory() {
    let agent = agent();
    let account = account();

    for (platform, size_mb) in [(Platform::Linux, 1), (Platform::MacOs, 8)] {
        let size = agent_mount_ram_disk_size_mb(platform);
        let actions = prepare_agent_mount(Some(&agent), size).expect("is provisioned");
        assert_eq!(
            actions[1],
            FileAction::MountRamDisk {
                path: &agent.mount_dir,
                size_mb,
            }
        );
    }
    assert_eq!(
        prepare_agent_mount(None, 1),
        Err(ReconcileSeedlingError::MissingAgentProvisioning)
    );
    let files = fill_agent_mount(&agent, &account).expect("has an account");
    assert_eq!(files.len(), 5);
    assert_eq!(
        files[3],
        FileAction::WriteText {
            path: &agent.secret_id_path,
            text: &agent.secret_id
        }
    );
    assert_eq!(
        fill_agent_mount(&agent, &None),
        Err(ReconcileSeedlingError::MissingServiceAccount)
    );
}

#[test]
fn test_shared_mounts_belong_to_the_group_of_the_share() {
    let mount_name = name("data");
    let shared = MountType::PersistedShared(Vec::new());
    let own = MountType::Persisted;
    let step = |kind| MountOwnership {
        path: "/x".to_string(),
        mount_name: &mount_name,
        kind,
    };
    let account = account();
    let group = Some(Credential {
        id: 9,
        full_name: "hello:data".to_string(),
        system_name: "doug-share".to_string(),
    });
    let (user, own_group, share) = (
        "doug-u".to_string(),
        "doug-g".to_string(),
        "doug-share".to_string(),
    );

    assert_eq!(
        mount_owner(&step(&shared), &account, &group),
        Ok((&user, &share))
    );
    assert_eq!(
        mount_owner(&step(&own), &account, &group),
        Ok((&user, &own_group))
    );
    assert_eq!(
        mount_owner(&step(&shared), &account, &None),
        Err(ReconcileSeedlingError::MissingShareGroup)
    );
    assert_eq!(
        mount_owner(&step(&own), &None, &None),
        Err(ReconcileSeedlingError::MissingServiceAccount)
    );
}

#[test]
fn test_folders_of_seedlings_have_their_places() {
    assert_eq!(
        container_mounts(&folders(), &name("hello"), &definition(Origin::User)).len(),
        1
    );
    assert!(container_environment(
        &name("hello"),
        &SeedlingDefinition {
            secrets: None,
            ..definition(Origin::User)
        }
    )
    .is_empty());
    assert_eq!(
        traefik_dynamic_dir(&folders()),
        "/var/lib/douglas/mounts/traefik/config/dynamic"
    );
    assert_eq!(
        route_file(&folders(), &name("hello")),
        "/var/lib/douglas/mounts/traefik/config/dynamic/hello.yml"
    );
}
