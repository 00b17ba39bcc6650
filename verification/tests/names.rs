use douglas::docker::{observe_container, ContainerPresence, Observation, Status};
use douglas::names::{
    agent_container_name, container_name, seedling_name_from_agent_prefixed,
    seedling_name_from_doug_prefixed, seedling_network_name, system_network, ContainerName, Name,
};
use douglas::paths::{traefik_dynamic_dir, DouglasFolders};

fn name(text: &str) -> Name {
    Name::parse(text).expect("valid name")
}

fn folders() -> DouglasFolders {
    DouglasFolders {
        logs: "/var/log/douglas".to_string(),
        transients: "/run/douglas".to_string(),
        configs: "/etc/douglas".to_string(),
        seedlings_root: "/var/lib/douglas".to_string(),
        identity: "/var/lib/douglas-identity".to_string(),
    }
}

#[test]
fn test_container_name_should_add_the_douglas_prefix() {
    let result = container_name(&name("traefik"));

    assert_eq!(result.as_str(), "doug.traefik");
}

#[test]
fn test_seedling_name_from_doug_prefixed_should_strip_the_prefix() {
    assert_eq!(
        seedling_name_from_doug_prefixed("doug.hello-world"),
        Some(name("hello-world"))
    );
}

#[test]
fn test_seedling_name_from_doug_prefixed_should_be_none_without_the_prefix() {
    assert_eq!(seedling_name_from_doug_prefixed("hello-world"), None);
}

#[test]
fn test_seedling_name_from_doug_prefixed_should_be_none_for_an_invalid_name() {
    assert_eq!(seedling_name_from_doug_prefixed("doug.Not Valid!"), None);
}

#[test]
fn test_seedling_network_name_should_reuse_the_container_name() {
    let result = seedling_network_name(&name("hello-world"));

    assert_eq!(result.as_str(), "doug.hello-world");
}

#[test]
fn test_agent_container_name_should_add_the_agent_prefix() {
    let result = agent_container_name(&name("secrets"));

    assert_eq!(result.as_str(), "doug-agent.secrets");
}

#[test]
fn test_seedling_name_from_agent_prefixed_should_strip_the_prefix() {
    assert_eq!(
        seedling_name_from_agent_prefixed("doug-agent.secrets"),
        Some(name("secrets"))
    );
}

#[test]
fn test_seedling_name_from_agent_prefixed_should_be_none_without_the_prefix() {
    assert_eq!(seedling_name_from_agent_prefixed("secrets"), None);
}

#[test]
fn test_agent_and_doug_prefixes_should_never_collide() {
    let agent_name = agent_container_name(&name("secrets"));
    let app_name = container_name(&name("secrets"));

    assert_eq!(seedling_name_from_doug_prefixed(agent_name.as_str()), None);
    assert_eq!(seedling_name_from_agent_prefixed(app_name.as_str()), None);
}

#[test]
fn test_traefik_dynamic_dir_should_nest_under_traefiks_config_mount() {
    let folders = folders();

    let result = traefik_dynamic_dir(&folders);

    assert_eq!(
        result,
        format!("{}/config/dynamic", folders.seedling_mounts_dir("traefik"))
    );
    assert_eq!(result, "/var/lib/douglas/mounts/traefik/config/dynamic");
}

#[test]
fn test_container_presence_should_default_to_absent() {
    assert_eq!(ContainerPresence::default(), ContainerPresence::Absent);
}

#[test]
fn test_container_presence_absent_should_be_neither_existing_running_nor_stopped() {
    let absent = ContainerPresence::Absent;

    assert!(!absent.is_present());
    assert!(!absent.is_running());
    assert!(!absent.is_stopped());
}

#[test]
fn test_container_presence_running_should_exist_and_be_running_but_not_stopped() {
    let running = ContainerPresence::Present(Status::Running);

    assert!(running.is_present());
    assert!(running.is_running());
    assert!(!running.is_stopped());
}

#[test]
fn test_container_presence_should_call_created_exited_and_dead_stopped() {
    for status in [Status::Created, Status::Exited, Status::Dead] {
        let stopped = ContainerPresence::Present(status);

        assert!(stopped.is_present());
        assert!(stopped.is_stopped());
        assert!(!stopped.is_running());
    }
}

#[test]
fn test_container_presence_should_call_paused_restarting_and_removing_neither_running_nor_stopped() {
    for status in [Status::Paused, Status::Restarting, Status::Removing] {
        let in_between = ContainerPresence::Present(status);

        assert!(in_between.is_present());
        assert!(!in_between.is_running());
        assert!(!in_between.is_stopped());
    }
}

#[test]
fn test_observe_container_should_not_ask_for_the_status_of_a_container_that_is_absent() {
    assert_eq!(observe_container(None, None), Observation::AskExists);

    let result = observe_container(Some(false), None);

    assert!(matches!(
        result,
        Observation::Known(ContainerPresence::Absent)
    ));
}

#[test]
fn test_observe_container_should_carry_the_status_of_a_container_that_exists() {
    assert_eq!(observe_container(Some(true), None), Observation::AskStatus);

    let result = observe_container(Some(true), Some(Status::Paused));

    assert!(matches!(
        result,
        Observation::Known(ContainerPresence::Present(Status::Paused))
    ));
}

#[test]
fn test_observe_container_should_pass_on_a_docker_error() {
    // Where the engine gives no answer, nothing is known.
    let result = observe_container(None, None);

    assert!(!matches!(result, Observation::Known(_)));
}

#[test]
fn test_names_are_small_letters_digits_and_hyphens() {
    assert!(Name::parse("hello-world-2").is_some());
    assert!(Name::parse("").is_none());
    assert!(Name::parse("-hello").is_none());
    assert!(Name::parse("Hello").is_none());
    assert!(Name::parse("hello world").is_none());
    assert!(Name::parse("someone/hello").is_none());
}

#[test]
fn test_container_names_lead_back_to_their_seedlings() {
    for text in ["traefik", "openbao", "a", "hello-world-2"] {
        let seedling = name(text);
        assert_eq!(
            seedling_name_from_doug_prefixed(container_name(&seedling).as_str()),
            Some(name(text))
        );
        assert_eq!(
            seedling_name_from_agent_prefixed(agent_container_name(&seedling).as_str()),
            Some(name(text))
        );
    }
}

#[test]
fn test_the_system_network_is_a_docker_name() {
    assert_eq!(system_network().as_str(), "douglas-system");
    assert!(ContainerName::parse("douglas-system").is_some());
    assert!(ContainerName::parse(".hidden").is_none());
}
