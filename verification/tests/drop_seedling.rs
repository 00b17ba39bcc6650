use douglas::docker::{ContainerPresence, Label, Status};
use douglas::drop_seedling::{
    create_plan, determine_origin, discover, run, DropAction, DropSeedlingError, Observations,
    State, Step,
};
use douglas::labels::create_version_label;
use douglas::names::{agent_container_name, container_name, Name};
use douglas::paths::DouglasFolders;
use douglas::seedling::{Origin, Version};

fn name() -> Name {
    Name::parse("hello-world").expect("valid name")
}

fn folders() -> DouglasFolders {
    DouglasFolders {
        logs: "/var/log/douglas".to_string(),
        transients: "/run/douglas".to_string(),
        configs: "/etc/douglas".to_string(),
        seedlings_root: "/var/lib/douglas".to_string(),
        identity: "/var/lib/douglas-identity".to_string(),
    }
}

fn droppable_state() -> State {
    State {
        container_exists: true,
        container_is_stopped: true,
        container_name: container_name(&name()),
        version: Some(Version(1)),
        origin: Some(Origin::User),
        network_exists: true,
        seedbank_entry_exists: true,
        route_exists: true,
        mounts_dir_exists: true,
        agent_container_exists: false,
        agent_container_is_stopped: false,
        agent_container_name: agent_container_name(&name()),
        agent_mount_is_ram_disk: false,
    }
}

fn descriptions(state: State) -> Vec<String> {
    create_plan(&name(), state)
        .expect("should produce a plan")
        .iter()
        .map(Step::describe)
        .collect()
}

#[test]
fn test_create_plan_should_fully_tear_down_a_stopped_seedling() {
    assert_eq!(
        descriptions(droppable_state()),
        vec![
            "Removing traefik route for 'hello-world'".to_string(),
            "Dropping seedling 'hello-world' (v1)".to_string(),
            "Deleting network for 'hello-world'".to_string(),
            "Deleting seedbank entry for 'hello-world'".to_string(),
            "Deleting mounts for 'hello-world'".to_string(),
            "Releasing default for 'hello-world'".to_string(),
            "Deleting resin repository for 'hello-world'".to_string(),
        ]
    );
}

#[test]
fn drop_seedling_test_create_plan_should_omit_the_version_when_it_could_not_be_determined() {
    let descriptions = descriptions(State {
        version: None,
        ..droppable_state()
    });

    assert!(descriptions.contains(&"Dropping seedling 'hello-world'".to_string()));
}

#[test]
fn test_create_plan_should_skip_container_and_network_steps_when_absent_but_still_clean_up_the_rest()
{
    let descriptions = descriptions(State {
        container_exists: false,
        container_is_stopped: false,
        network_exists: false,
        ..droppable_state()
    });

    assert_eq!(
        descriptions,
        vec![
            "Removing traefik route for 'hello-world'".to_string(),
            "Deleting seedbank entry for 'hello-world'".to_string(),
            "Deleting mounts for 'hello-world'".to_string(),
            "Releasing default for 'hello-world'".to_string(),
            "Deleting resin repository for 'hello-world'".to_string(),
        ]
    );
}

#[test]
fn test_create_plan_should_skip_the_traefik_route_step_when_no_route_was_ever_written() {
    let descriptions = descriptions(State {
        route_exists: false,
        ..droppable_state()
    });

    assert!(!descriptions
        .iter()
        .any(|description| description.contains("traefik route")));
}

#[test]
fn test_create_plan_should_skip_the_seedbank_step_when_no_entry_exists() {
    let descriptions = descriptions(State {
        seedbank_entry_exists: false,
        ..droppable_state()
    });

    assert!(!descriptions
        .iter()
        .any(|description| description.contains("seedbank entry")));
}

#[test]
fn test_create_plan_should_skip_the_mounts_step_when_no_mounts_dir_exists() {
    let descriptions = descriptions(State {
        mounts_dir_exists: false,
        ..droppable_state()
    });

    assert!(!descriptions
        .iter()
        .any(|description| description.contains("mounts")));
}

#[test]
fn test_create_plan_should_refuse_when_not_stopped() {
    let name = name();
    let result = create_plan(
        &name,
        State {
            container_is_stopped: false,
            ..droppable_state()
        },
    );

    assert!(matches!(
        result,
        Err(DropSeedlingError::CannotDropSeedling(_))
    ));
}

#[test]
fn test_create_plan_should_refuse_to_drop_a_core_seedling() {
    let name = name();
    let result = create_plan(
        &name,
        State {
            origin: Some(Origin::Core),
            ..droppable_state()
        },
    );

    assert!(matches!(result, Err(DropSeedlingError::CoreSeedling(_))));
}

#[test]
fn test_create_plan_should_also_drop_an_existing_agent_container() {
    let descriptions = descriptions(State {
        agent_container_exists: true,
        agent_container_is_stopped: true,
        ..droppable_state()
    });

    assert_eq!(
        descriptions,
        vec![
            "Removing traefik route for 'hello-world'".to_string(),
            "Dropping seedling 'hello-world' (v1)".to_string(),
            "Dropping seedling 'hello-world'".to_string(),
            "Deleting network for 'hello-world'".to_string(),
            "Deleting seedbank entry for 'hello-world'".to_string(),
            "Deleting mounts for 'hello-world'".to_string(),
            "Releasing default for 'hello-world'".to_string(),
            "Deleting resin repository for 'hello-world'".to_string(),
        ]
    );
}

#[test]
fn test_create_plan_should_unmount_the_agent_ram_disk_before_deleting_mounts_when_present() {
    let descriptions = descriptions(State {
        agent_mount_is_ram_disk: true,
        ..droppable_state()
    });
    let unmount_index = descriptions
        .iter()
        .position(|description| description.contains("agent ram disk"))
        .expect("should hold the unmount step");
    let delete_mounts_index = descriptions
        .iter()
        .position(|description| description == "Deleting mounts for 'hello-world'")
        .expect("should hold the delete mounts step");

    assert!(unmount_index < delete_mounts_index);
}

#[test]
fn test_create_plan_should_skip_the_ram_disk_unmount_step_when_not_ram_backed() {
    assert!(!descriptions(droppable_state())
        .iter()
        .any(|description| description.contains("agent ram disk")));
}

#[test]
fn test_create_plan_should_refuse_when_the_agent_container_is_not_stopped() {
    let name = name();
    let result = create_plan(
        &name,
        State {
            agent_container_exists: true,
            agent_container_is_stopped: false,
            ..droppable_state()
        },
    );

    assert!(matches!(
        result,
        Err(DropSeedlingError::CannotDropSeedling(_))
    ));
}

#[test]
fn test_determine_origin_should_be_none_when_the_seedbank_entry_does_not_exist() {
    assert_eq!(determine_origin(false, None), None);
}

#[test]
fn test_determine_origin_should_load_the_persisted_origin_for_a_core_seedling() {
    assert_eq!(
        determine_origin(true, Some(Origin::Core)),
        Some(Origin::Core)
    );
}

#[test]
fn test_determine_origin_should_load_the_persisted_origin_for_a_user_seedling() {
    assert_eq!(
        determine_origin(true, Some(Origin::User)),
        Some(Origin::User)
    );
}

#[test]
fn test_discover_should_gather_everything_that_was_looked_at() {
    let labels: Vec<Label> = vec![create_version_label(Version(4))];
    let state = discover(
        &name(),
        &Observations {
            seedbank_entry_exists: true,
            declared_origin: Some(Origin::User),
            route_exists: false,
            mounts_dir_exists: true,
            agent_mount_is_ram_disk: true,
            network_exists: true,
            agent: ContainerPresence::Absent,
            container: ContainerPresence::Present(Status::Exited),
            labels,
        },
    );

    assert_eq!(
        state,
        State {
            container_exists: true,
            container_is_stopped: true,
            container_name: container_name(&name()),
            version: Some(Version(4)),
            origin: Some(Origin::User),
            network_exists: true,
            seedbank_entry_exists: true,
            route_exists: false,
            mounts_dir_exists: true,
            agent_container_exists: false,
            agent_container_is_stopped: false,
            agent_container_name: agent_container_name(&name()),
            agent_mount_is_ram_disk: true,
        }
    );
}

#[test]
fn test_errors_say_why_a_seedling_is_not_dropped() {
    let name = name();
    let refused = create_plan(
        &name,
        State {
            origin: Some(Origin::Core),
            ..droppable_state()
        },
    )
    .unwrap_err();
    assert_eq!(
        refused.describe(),
        "Cannot drop seedling hello-world: it is a core seedling managed by douglas"
    );
    let running = create_plan(
        &name,
        State {
            container_is_stopped: false,
            ..droppable_state()
        },
    )
    .unwrap_err();
    assert_eq!(
        running.describe(),
        "Cannot drop seedling Seedling is not stopped"
    );
}

#[test]
fn test_removing_a_route_disconnects_traefik_before_it_deletes_the_file() {
    let name = name();
    let step = Step::RemoveTraefikRoute {
        seedling_name: &name,
    };

    assert_eq!(
        run(&folders(), &step),
        vec![
            DropAction::DisconnectNetwork {
                network: container_name(&name),
                container: container_name(&Name::parse("traefik").expect("valid name")),
            },
            DropAction::DeleteFile(
                "/var/lib/douglas/mounts/traefik/config/dynamic/hello-world.yml".to_string()
            ),
        ]
    );
    assert_eq!(step.name(), "Removing traefik route");
}

#[test]
fn test_the_agents_ram_disk_is_unmounted_where_its_mount_is() {
    let name = name();
    let step = Step::UnmountAgentRamDisk {
        seedling_name: &name,
    };

    assert_eq!(
        run(&folders(), &step),
        vec![DropAction::UnmountRamDisk(
            "/var/lib/douglas/mounts/hello-world/openbao-agent".to_string()
        )]
    );
}
