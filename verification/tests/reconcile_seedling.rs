use douglas::build_container::{build_new_container, published_ports_for};
use douglas::docker::{
    Capability, ContainerUser, DockerError, EnvironmentVariable, NewContainer, PortMapping, Status,
    VersionedImageName,
};
use douglas::labels::{create_version_label, get_origin, LabelError};
use douglas::modes::{Modes, EXPECTED_MOUNT_MODE};
use douglas::names::{agent_container_name, container_name, Name};
use douglas::paths::DouglasFolders;
use douglas::reconcile_discovery::{
    discover, discover_container_is_running, discover_container_status,
    discover_current_seedbank_version, discover_image_status, ContentObservation,
    ImageObservation, MountObservation, Observations,
};
use douglas::reconcile_seedling::{
    create_plan, ImageStatus, MissingShareGroup, MountOwnership, ReconcileSeedlingError,
    SeedlingStatus, State, Step, VersionComparison,
};
use douglas::rolodex::{Credential, ServiceAccount};
use douglas::seedling::{
    AccessMode, HealthCheck, Mount, MountContents, MountFile, MountType, NamedMount, Origin,
    PortMapping as SeedlingPort, PortSpec, RouteSpec, Routing, SecretsAccess, SeedlingDefinition,
    Version,
};

const REGISTRY: &str = "localhost:7376";

fn parsed(name: &str) -> Name {
    Name::parse(name).expect("valid name")
}

fn name() -> Name {
    parsed("traefik")
}

fn seedling_definition() -> SeedlingDefinition {
    SeedlingDefinition {
        image: VersionedImageName::specific("traefik", "v3.7.7"),
        mounts: Vec::new(),
        routing: Routing::Unrouted,
        health_check: HealthCheck {
            command: "true".to_string(),
            wait_time_in_seconds: 1,
        },
        secrets: None,
        origin: Origin::User,
        published_ports: Vec::new(),
        command: None,
        added_capabilities: Vec::new(),
    }
}

fn state<'a>() -> State<'a> {
    State {
        seedling_version: VersionComparison::Current,
        container_name: container_name(&name()),
        image_status: ImageStatus::Local,
        container_status: VersionComparison::Current,
        container_version: Some(Version(1)),
        container_is_running: true,
        missing_service_credentials: false,
        missing_share_groups: Vec::new(),
        missing_mount_folders: Vec::new(),
        needs_mount_ownership: Vec::new(),
        missing_mount_mode: Vec::new(),
        missing_mount_files: Vec::new(),
        agent_missing_service_credentials: false,
        agent_container_exists: true,
        agent_container_is_running: true,
    }
}

fn step_descriptions(steps: Vec<Step<'_>>) -> Vec<String> {
    steps.iter().map(Step::describe).collect()
}

/// The words for the plan of a state.
fn planned(version: u32, definition: &SeedlingDefinition, state: State<'_>) -> Vec<String> {
    step_descriptions(
        create_plan(&name(), Version(version), definition, state, REGISTRY)
            .expect("should produce a plan"),
    )
}

#[test]
fn test_create_plan_should_refuse_to_downgrade() {
    let name = name();
    let definition = seedling_definition();
    let result = create_plan(
        &name,
        Version(1),
        &definition,
        State {
            container_status: VersionComparison::Newer,
            container_version: Some(Version(2)),
            ..state()
        },
        REGISTRY,
    );

    assert!(matches!(
        result,
        Err(ReconcileSeedlingError::WouldDowngrade)
    ));
}

#[test]
fn test_create_plan_should_error_when_the_image_is_unavailable() {
    let name = name();
    let definition = seedling_definition();
    let result = create_plan(
        &name,
        Version(1),
        &definition,
        State {
            image_status: ImageStatus::Unknown,
            ..state()
        },
        REGISTRY,
    );

    assert!(matches!(result, Err(ReconcileSeedlingError::MissingImage)));
}

#[test]
fn test_create_plan_should_do_nothing_when_everything_is_current() {
    assert!(planned(1, &seedling_definition(), state()).is_empty());
}

#[test]
fn test_create_plan_should_create_a_missing_share_group() {
    let mount_name = parsed("config");
    let siblings = vec![parsed("openbao")];

    let steps = planned(
        1,
        &seedling_definition(),
        State {
            missing_share_groups: vec![MissingShareGroup {
                mount_name: &mount_name,
                siblings: &siblings,
            }],
            ..state()
        },
    );

    assert_eq!(steps, vec!["Creating share group 'config' for 'traefik'"]);
}

#[test]
fn test_create_plan_should_set_ownership_for_a_persisted_shared_mount() {
    let mount_name = parsed("config");
    let path = "/var/lib/douglas/mounts/traefik/config".to_string();
    let kind = MountType::PersistedShared(vec![]);

    let steps = planned(
        1,
        &seedling_definition(),
        State {
            needs_mount_ownership: vec![MountOwnership {
                path: path.clone(),
                mount_name: &mount_name,
                kind: &kind,
            }],
            ..state()
        },
    );

    assert_eq!(steps, vec![format!("Setting mount ownership '{path}'")]);
}

#[test]
fn test_create_plan_should_build_and_start_a_missing_container() {
    let steps = planned(
        2,
        &seedling_definition(),
        State {
            container_status: VersionComparison::Missing,
            container_version: None,
            container_is_running: false,
            ..state()
        },
    );

    assert_eq!(
        steps,
        vec![
            "Building container 'traefik' (v2)",
            "Starting container 'doug.traefik' (v2)",
        ]
    );
}

fn secrets_seedling_definition() -> SeedlingDefinition {
    SeedlingDefinition {
        secrets: Some(SecretsAccess {
            read: true,
            write: true,
        }),
        ..seedling_definition()
    }
}

#[test]
fn test_create_plan_should_build_and_start_a_missing_agent_container() {
    let steps = planned(
        1,
        &secrets_seedling_definition(),
        State {
            agent_container_exists: false,
            agent_container_is_running: false,
            ..state()
        },
    );

    assert_eq!(
        steps,
        vec![
            "Ensuring OpenBao agent mount for 'traefik'",
            "Building OpenBao agent container for 'traefik' (v1)",
            "Starting container 'doug-agent.traefik' (v1)",
        ]
    );
}

#[test]
fn test_create_plan_should_only_start_an_existing_stopped_agent_container() {
    let steps = planned(
        1,
        &secrets_seedling_definition(),
        State {
            agent_container_exists: true,
            agent_container_is_running: false,
            ..state()
        },
    );

    assert_eq!(
        steps,
        vec![
            "Ensuring OpenBao agent mount for 'traefik'",
            "Starting container 'doug-agent.traefik' (v1)",
        ]
    );
}

#[test]
fn test_create_plan_should_create_the_agent_service_account_when_missing() {
    let steps = planned(
        1,
        &secrets_seedling_definition(),
        State {
            agent_missing_service_credentials: true,
            ..state()
        },
    );

    assert!(steps.contains(&"Creating OpenBao agent service account for 'traefik'".to_string()));
}

#[test]
fn test_create_plan_should_ignore_the_agent_entirely_when_secrets_are_not_requested() {
    let steps = planned(
        1,
        &seedling_definition(),
        State {
            agent_container_exists: false,
            agent_container_is_running: false,
            agent_missing_service_credentials: true,
            ..state()
        },
    );

    assert!(steps.is_empty());
}

#[test]
fn test_create_plan_should_do_nothing_for_a_running_agent_container() {
    assert_eq!(
        planned(1, &secrets_seedling_definition(), state()),
        vec!["Ensuring OpenBao agent mount for 'traefik'"]
    );
}

#[test]
fn test_create_plan_should_stop_drop_rebuild_and_restart_a_stale_running_container() {
    let steps = planned(
        2,
        &seedling_definition(),
        State {
            container_status: VersionComparison::Stale,
            container_version: Some(Version(1)),
            container_is_running: true,
            ..state()
        },
    );

    assert_eq!(
        steps,
        vec![
            "Stopping container 'doug.traefik' (v1)",
            "Dropping container 'doug.traefik' (v1)",
            "Building container 'traefik' (v2)",
            "Starting container 'doug.traefik' (v2)",
        ]
    );
}

#[test]
fn test_create_plan_should_skip_stopping_a_stale_container_that_is_not_running() {
    let steps = planned(
        2,
        &seedling_definition(),
        State {
            container_status: VersionComparison::Stale,
            container_version: Some(Version(1)),
            container_is_running: false,
            ..state()
        },
    );

    assert_eq!(
        steps,
        vec![
            "Dropping container 'doug.traefik' (v1)",
            "Building container 'traefik' (v2)",
            "Starting container 'doug.traefik' (v2)",
        ]
    );
}

#[test]
fn test_published_ports_for_should_be_empty_when_no_ports_are_declared() {
    let definition = seedling_definition();

    let result = published_ports_for(&definition);

    assert_eq!(result, Vec::new());
}

fn port_80() -> Vec<SeedlingPort> {
    vec![SeedlingPort {
        external: 80,
        internal: 80,
    }]
}

fn routed(additional: Vec<SeedlingPort>) -> Routing {
    Routing::Routed {
        route: RouteSpec::Root,
        ports: PortSpec {
            public: 8080,
            additional,
        },
    }
}

fn port_1234() -> Vec<SeedlingPort> {
    vec![SeedlingPort {
        external: 1234,
        internal: 4321,
    }]
}

#[test]
fn test_published_ports_for_should_include_explicitly_published_ports() {
    let definition = SeedlingDefinition {
        published_ports: port_80(),
        ..seedling_definition()
    };

    let result = published_ports_for(&definition);

    assert_eq!(
        result,
        vec![PortMapping {
            host_port: 80,
            container_port: 80,
        }]
    );
}

#[test]
fn test_published_ports_for_should_include_a_routed_seedlings_additional_ports() {
    let definition = SeedlingDefinition {
        routing: routed(port_1234()),
        ..seedling_definition()
    };

    let result = published_ports_for(&definition);

    assert_eq!(
        result,
        vec![PortMapping {
            host_port: 1234,
            container_port: 4321,
        }]
    );
}

#[test]
fn test_published_ports_for_should_merge_explicit_and_routed_additional_ports() {
    let definition = SeedlingDefinition {
        published_ports: port_80(),
        routing: routed(port_1234()),
        ..seedling_definition()
    };

    let result = published_ports_for(&definition);

    assert_eq!(
        result,
        vec![
            PortMapping {
                host_port: 80,
                container_port: 80,
            },
            PortMapping {
                host_port: 1234,
                container_port: 4321,
            },
        ]
    );
}

#[test]
fn test_published_ports_for_should_not_publish_the_routed_public_port_by_itself() {
    let definition = SeedlingDefinition {
        routing: routed(Vec::new()),
        ..seedling_definition()
    };

    let result = published_ports_for(&definition);

    assert_eq!(result, Vec::new());
}

fn built(
    definition: &SeedlingDefinition,
    environment_variables: Vec<EnvironmentVariable>,
) -> NewContainer {
    build_new_container(
        container_name(&name()),
        definition,
        1000,
        1000,
        Vec::new(),
        Version(1),
        environment_variables,
    )
}

#[test]
fn test_build_new_container_should_carry_the_seedling_definitions_command_and_capabilities() {
    let definition = SeedlingDefinition {
        command: Some("server -config=/openbao/config/config.json".to_string()),
        added_capabilities: vec![Capability::Chown],
        ..seedling_definition()
    };

    let new_container = built(&definition, Vec::new());

    assert_eq!(
        new_container.command,
        Some("server -config=/openbao/config/config.json".to_string())
    );
    assert_eq!(new_container.added_capabilities, vec![Capability::Chown]);
    assert_eq!(
        new_container.run_as,
        Some(ContainerUser {
            user_id: 1000,
            group_id: 1000
        })
    );
}

#[test]
fn test_build_new_container_should_leave_command_unset_when_the_definition_has_none() {
    let new_container = built(&seedling_definition(), Vec::new());

    assert_eq!(new_container.command, None);
    assert!(new_container.added_capabilities.is_empty());
}

#[test]
fn test_build_new_container_should_carry_the_provided_environment_variables() {
    let environment_variables = || {
        vec![EnvironmentVariable::new(
            "OPENBAO_AGENT_ADDR",
            "http://doug-agent.secrets:8100",
        )]
    };

    let new_container = built(&seedling_definition(), environment_variables());

    assert_eq!(new_container.environment_variables, environment_variables());
}

#[test]
fn test_build_new_container_should_label_the_container_with_the_definitions_origin() {
    let definition = SeedlingDefinition {
        origin: Origin::Core,
        ..seedling_definition()
    };

    let new_container = built(&definition, Vec::new());

    assert_eq!(get_origin(&new_container.labels), Some(Origin::Core));
}

#[test]
fn test_build_new_container_should_label_a_user_origin_seedling_accordingly() {
    let new_container = built(&seedling_definition(), Vec::new());

    assert_eq!(get_origin(&new_container.labels), Some(Origin::User));
}

#[test]
fn test_everything_that_is_missing_is_made_in_order() {
    let steps = planned(
        3,
        &secrets_seedling_definition(),
        State {
            seedling_version: VersionComparison::Missing,
            image_status: ImageStatus::AvailableFromResin,
            container_status: VersionComparison::Missing,
            container_version: None,
            missing_service_credentials: true,
            agent_missing_service_credentials: true,
            missing_mount_folders: vec!["/mounts/a".to_string()],
            ..state()
        },
    );

    assert_eq!(
        steps,
        vec![
            "Creating seedling for 'traefik' version '3'",
            "Creating service account 'traefik'",
            "Creating OpenBao agent service account for 'traefik'",
            "Creating seedling mount '/mounts/a'",
            "Pull image 'traefik:v3.7.7' from Resin",
            "Ensuring OpenBao agent mount for 'traefik'",
            "Building container 'traefik' (v3)",
            "Starting container 'doug.traefik' (v3)",
        ]
    );
    assert_eq!(
        planned(
            3,
            &seedling_definition(),
            State {
                seedling_version: VersionComparison::Stale,
                container_is_running: false,
                ..state()
            }
        ),
        vec![
            "Updating seedling for 'traefik' version '3'",
            "Starting container 'doug.traefik' (v3)",
        ]
    );
}

fn folders() -> DouglasFolders {
    DouglasFolders {
        logs: "/var/log/douglas".to_string(),
        transients: "/run/douglas".to_string(),
        configs: "/etc/douglas".to_string(),
        seedlings_root: "/var/lib/douglas".to_string(),
        identity: "/var/lib/douglas-identity".to_string(),
    }
}

fn credential(id: u32, system_name: &str) -> Credential {
    Credential {
        id,
        full_name: "traefik".to_string(),
        system_name: system_name.to_string(),
    }
}

fn account() -> ServiceAccount {
    ServiceAccount {
        user: credential(1, "doug-u"),
        group: credential(2, "doug-g"),
    }
}

fn observations(mounts: Vec<MountObservation>) -> Observations {
    Observations {
        agent_account_found: false,
        agent_container_exists: false,
        agent_status: Err(DockerError::ResourceNotFound),
        seedbank: SeedlingStatus::Defined(Version(1)),
        image: ImageStatus::Local,
        labels: Ok(vec![create_version_label(Version(1))]),
        status: Ok(Status::Running),
        account: Some(account()),
        mounts,
    }
}

fn file(path: &str, contents: &[u8]) -> MountContents {
    MountContents::File(MountFile {
        file_relative_path: path.to_string(),
        contents: contents.to_vec(),
    })
}

fn with_mount(kind: MountType, contents: Vec<MountContents>) -> SeedlingDefinition {
    SeedlingDefinition {
        mounts: vec![NamedMount {
            name: parsed("config"),
            mount: Mount {
                kind,
                remote_path: "/etc/traefik".to_string(),
                access_mode: AccessMode::ReadOnly,
                contents,
                rotate_logs: false,
            },
        }],
        ..seedling_definition()
    }
}

#[test]
fn test_a_mount_that_is_not_there_is_made_with_its_contents() {
    let definition = with_mount(
        MountType::PersistedShared(vec![parsed("openbao")]),
        vec![
            MountContents::FolderOnly("dynamic".to_string()),
            file("static/traefik.yml", b"log: {}"),
        ],
    );
    let seen = observations(vec![MountObservation {
        share_group: None,
        folder_exists: false,
        owning_group: String::new(),
        mode: EXPECTED_MOUNT_MODE,
        contents: Vec::new(),
    }]);
    let name = name();

    let state = discover(&folders(), &name, Version(1), &definition, false, seen)
        .expect("everything has a path");

    let root = "/var/lib/douglas/mounts/traefik/config";
    assert_eq!(
        step_descriptions(
            create_plan(&name, Version(1), &definition, state, REGISTRY).expect("a plan")
        ),
        vec![
            "Creating share group 'config' for 'traefik'".to_string(),
            format!("Creating seedling mount '{root}'"),
            format!("Creating seedling mount '{root}/dynamic'"),
            format!("Creating seedling mount '{root}/static'"),
            format!("Setting mount ownership '{root}'"),
            format!("Setting mode on '{root}' to '0o2770'"),
            "Writing mount file 'traefik.yml'".to_string(),
        ]
    );
}

#[test]
fn test_a_mount_that_is_in_place_is_left_alone() {
    let definition = with_mount(
        MountType::Persisted,
        vec![file("traefik.yml", b"log: {}"), file("other.yml", b"new")],
    );
    let seen = |owning_group: &str, mode: Modes| {
        observations(vec![MountObservation {
            share_group: None,
            folder_exists: true,
            owning_group: owning_group.to_string(),
            mode,
            contents: vec![
                ContentObservation::There(b"log: {}".to_vec()),
                ContentObservation::There(b"old".to_vec()),
            ],
        }])
    };

    let good = discover(
        &folders(),
        &name(),
        Version(1),
        &definition,
        false,
        seen("doug-g", EXPECTED_MOUNT_MODE),
    )
    .expect("everything has a path");
    let strange = discover(
        &folders(),
        &name(),
        Version(1),
        &definition,
        false,
        seen("wheel", Modes::OwnerReadGroupRead),
    )
    .expect("everything has a path");

    assert!(good.missing_mount_folders.is_empty());
    assert!(good.needs_mount_ownership.is_empty());
    assert!(good.missing_mount_mode.is_empty());
    assert_eq!(good.missing_mount_files.len(), 1);
    assert_eq!(
        good.missing_mount_files[0].file_path(),
        "/var/lib/douglas/mounts/traefik/config/other.yml"
    );
    assert_eq!(strange.needs_mount_ownership.len(), 1);
    assert_eq!(strange.missing_mount_mode.len(), 1);
}

#[test]
fn test_the_search_ends_where_the_engine_fails() {
    let definition = seedling_definition();
    let attempt = |seen: Observations, agent: bool| {
        discover(&folders(), &name(), Version(1), &definition, agent, seen).err()
    };
    let down = || DockerError::Other("down".to_string());

    assert_eq!(
        attempt(
            Observations {
                labels: Ok(Vec::new()),
                ..observations(Vec::new())
            },
            false
        ),
        Some(ReconcileSeedlingError::LabelError(
            LabelError::MissingVersion
        ))
    );
    assert_eq!(
        attempt(
            Observations {
                status: Err(down()),
                ..observations(Vec::new())
            },
            false
        ),
        Some(ReconcileSeedlingError::DockerError(down()))
    );
    assert_eq!(
        attempt(
            Observations {
                agent_container_exists: true,
                agent_status: Err(down()),
                ..observations(Vec::new())
            },
            true
        ),
        Some(ReconcileSeedlingError::DockerError(down()))
    );
    assert_eq!(attempt(observations(Vec::new()), true), None);
}

#[test]
fn test_versions_are_compared_with_the_declared_one() {
    assert_eq!(
        discover_current_seedbank_version(SeedlingStatus::Unknown, Version(2)),
        VersionComparison::Missing
    );
    assert_eq!(
        discover_current_seedbank_version(SeedlingStatus::Defined(Version(1)), Version(2)),
        VersionComparison::Stale
    );
    assert_eq!(
        discover_current_seedbank_version(SeedlingStatus::Defined(Version(2)), Version(2)),
        VersionComparison::Current
    );
    assert_eq!(
        discover_container_status(Ok(vec![create_version_label(Version(3))]), Version(2)),
        Ok((VersionComparison::Newer, Some(Version(3))))
    );
    assert_eq!(
        discover_container_status(Err(DockerError::ResourceNotFound), Version(2)),
        Ok((VersionComparison::Missing, None))
    );
    assert_eq!(
        discover_container_is_running(Err(DockerError::ResourceNotFound)),
        Ok(false)
    );
}

#[test]
fn test_the_registry_is_asked_only_for_images_that_are_not_here() {
    assert_eq!(discover_image_status(None, None), ImageObservation::AskLocal);
    assert_eq!(
        discover_image_status(Some(true), None),
        ImageObservation::Known(ImageStatus::Local)
    );
    assert_eq!(
        discover_image_status(Some(false), None),
        ImageObservation::AskResin
    );
    assert_eq!(
        discover_image_status(Some(false), Some(true)),
        ImageObservation::Known(ImageStatus::AvailableFromResin)
    );
    assert_eq!(
        discover_image_status(Some(false), Some(false)),
        ImageObservation::Known(ImageStatus::Unknown)
    );
}

#[test]
fn test_contents_without_a_path_end_the_search() {
    let definition_with = |root: &str, relative: &str| SeedlingDefinition {
        mounts: vec![NamedMount {
            name: Name::parse(root).expect("valid name"),
            mount: Mount {
                kind: MountType::Persisted,
                remote_path: "/config".to_string(),
                access_mode: AccessMode::Writable,
                contents: vec![MountContents::File(MountFile {
                    file_relative_path: relative.to_string(),
                    contents: b"new".to_vec(),
                })],
                rotate_logs: false,
            },
        }],
        ..seedling_definition()
    };
    let seen = |contents: Option<&[u8]>| {
        observations(vec![MountObservation {
            share_group: None,
            folder_exists: true,
            owning_group: "doug-traefik".to_string(),
            mode: EXPECTED_MOUNT_MODE,
            contents: vec![match contents {
                Some(bytes) => ContentObservation::There(bytes.to_vec()),
                None => ContentObservation::Absent,
            }],
        }])
    };
    let find = |relative: &str, contents: Option<&[u8]>| {
        discover(
            &folders(),
            &name(),
            Version(1),
            &definition_with("config", relative),
            false,
            seen(contents),
        )
        .err()
    };
    assert_eq!(
        find("..", None),
        Some(ReconcileSeedlingError::InvalidMountPath("..".to_string()))
    );
    assert_eq!(
        find("/", None),
        Some(ReconcileSeedlingError::InvalidPath("/".to_string()))
    );
    assert_eq!(
        find("/", Some(b"old".as_slice())),
        Some(ReconcileSeedlingError::InvalidMountPath("/".to_string()))
    );
    assert_eq!(find("/", Some(b"new".as_slice())), None);
    assert_eq!(find("dynamic/", None), None);
}

#[test]
fn test_errors_of_a_reconciliation_are_put_into_words() {
    for (error, words) in [
        (
            ReconcileSeedlingError::DockerError(DockerError::Other("no reply".to_string())),
            "Docker error: no reply",
        ),
        (
            ReconcileSeedlingError::DockerError(DockerError::ResourceNotFound),
            "Docker error: Resource not found",
        ),
        (
            ReconcileSeedlingError::LabelError(LabelError::MissingVersion),
            "Label error: Could not determine resource version",
        ),
        (
            ReconcileSeedlingError::MissingImage,
            "Could not locate the image to build the seedling",
        ),
        (
            ReconcileSeedlingError::MissingServiceAccount,
            "Service account missing",
        ),
        (
            ReconcileSeedlingError::MissingShareGroup,
            "Share group missing",
        ),
        (
            ReconcileSeedlingError::InvalidPath("/".to_string()),
            "File system error: invalid path /",
        ),
        (
            ReconcileSeedlingError::InvalidMountPath("..".to_string()),
            "Invalid mount path ..",
        ),
        (
            ReconcileSeedlingError::WouldDowngrade,
            "Refusing to downgrade: the running container is newer than the declared version",
        ),
        (
            ReconcileSeedlingError::MissingAgentProvisioning,
            "Agent provisioning was requested but not available",
        ),
    ] {
        assert_eq!(error.describe(), words);
    }
}

#[test]
fn test_the_agents_container_is_named_after_the_seedling() {
    let name = name();
    let definition = secrets_seedling_definition();
    let steps = create_plan(
        &name,
        Version(1),
        &definition,
        State {
            agent_container_is_running: false,
            ..state()
        },
        REGISTRY,
    )
    .expect("should produce a plan");

    assert!(steps.contains(&Step::StartContainer {
        container: agent_container_name(&name),
        version: Version(1),
    }));
}
