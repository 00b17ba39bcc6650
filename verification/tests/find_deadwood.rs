use douglas::find_deadwood::{
    compute_deadwood, list_mount_names, list_route_file_names, names_from_roles_and_policies,
    protect_core_seedling_names, seedling_names_from_live_containers,
    seedling_names_from_networks, Deadwood, Known, Observed,
};
use douglas::find_orphans::compute_orphans;
use douglas::names::{ContainerName, Name};

fn name(value: &str) -> Name {
    Name::parse(value).expect("valid name")
}

fn container(value: &str) -> ContainerName {
    ContainerName::parse(value).expect("valid container name")
}

fn texts(values: &[&str]) -> Vec<String> {
    values.iter().map(|value| value.to_string()).collect()
}

fn names(values: &[&str]) -> Vec<Name> {
    values.iter().map(|value| name(value)).collect()
}

#[derive(Default)]
struct Seen {
    containers: Vec<Name>,
    networks: Vec<Name>,
    route_files: Vec<Name>,
    resin_repositories: Vec<String>,
    mounts: Vec<Name>,
    openbao_secrets: Vec<Name>,
}

fn deadwood(seedbank: &Vec<String>, repositories: &Vec<String>, seen: Seen) -> Deadwood {
    compute_deadwood(
        Known {
            seedbank_names: seedbank,
            image_repositories: repositories,
        },
        Observed {
            containers: &seen.containers,
            networks: &seen.networks,
            route_files: &seen.route_files,
            resin_repositories: &seen.resin_repositories,
            mounts: &seen.mounts,
            openbao_secrets: &seen.openbao_secrets,
        },
    )
}

#[test]
fn protect_core_seedling_names_should_add_traefik_and_openbao_even_when_absent() {
    let result = protect_core_seedling_names(texts(&["hello-world"]));

    assert!(result.contains(&"hello-world".to_string()));
    assert!(result.contains(&"traefik".to_string()));
    assert!(result.contains(&"openbao".to_string()));
}

#[test]
fn seedling_names_from_live_containers_should_map_an_agent_container_back_to_its_seedling() {
    let result = seedling_names_from_live_containers(&vec![container("doug-agent.secrets")]);

    assert_eq!(result, vec![name("secrets")]);
}

#[test]
fn seedling_names_from_live_containers_should_not_duplicate_a_seedling_with_both_containers() {
    let result = seedling_names_from_live_containers(&vec![
        container("doug.secrets"),
        container("doug-agent.secrets"),
    ]);

    assert_eq!(result, vec![name("secrets")]);
}

#[test]
fn test_compute_deadwood_should_never_flag_a_core_seedling_missing_from_seedbank() {
    let seedbank = protect_core_seedling_names(texts(&[]));

    let result = deadwood(
        &seedbank,
        &texts(&[]),
        Seen {
            containers: names(&["traefik", "openbao"]),
            networks: names(&["traefik", "openbao"]),
            route_files: names(&["traefik"]),
            mounts: names(&["openbao"]),
            ..Seen::default()
        },
    );

    assert!(result.containers.is_empty());
    assert!(result.networks.is_empty());
    assert!(result.route_files.is_empty());
    assert!(result.mounts.is_empty());
}

#[test]
fn test_compute_deadwood_should_be_empty_when_everything_is_known() {
    let result = deadwood(
        &texts(&["hello-world"]),
        &texts(&["hello-world"]),
        Seen {
            containers: names(&["hello-world"]),
            networks: names(&["hello-world"]),
            route_files: names(&["hello-world"]),
            resin_repositories: texts(&["hello-world"]),
            mounts: names(&["hello-world"]),
            openbao_secrets: names(&["hello-world"]),
        },
    );

    assert!(result.is_empty());
}

#[test]
fn test_compute_deadwood_should_find_a_container_with_no_seedbank_record() {
    let result = deadwood(
        &texts(&[]),
        &texts(&[]),
        Seen {
            containers: names(&["stale"]),
            ..Seen::default()
        },
    );

    assert_eq!(result.containers, vec![name("stale")]);
    assert!(result.networks.is_empty());
}

#[test]
fn test_compute_deadwood_should_find_a_network_with_no_seedbank_record() {
    let result = deadwood(
        &texts(&[]),
        &texts(&[]),
        Seen {
            networks: names(&["stale"]),
            ..Seen::default()
        },
    );

    assert_eq!(result.networks, vec![name("stale")]);
}

#[test]
fn test_compute_deadwood_should_find_a_route_file_with_no_seedbank_record() {
    let result = deadwood(
        &texts(&[]),
        &texts(&[]),
        Seen {
            route_files: names(&["stale"]),
            ..Seen::default()
        },
    );

    assert_eq!(result.route_files, vec![name("stale")]);
}

#[test]
fn test_compute_deadwood_should_find_a_resin_repository_with_no_matching_seedling_image() {
    let result = deadwood(
        &texts(&[]),
        &texts(&[]),
        Seen {
            resin_repositories: texts(&["stale"]),
            ..Seen::default()
        },
    );

    assert_eq!(result.resin_repositories, vec!["stale".to_string()]);
}

#[test]
fn test_compute_deadwood_should_flag_a_namespaced_resin_repository_as_deadwood() {
    let result = deadwood(
        &texts(&["hello-world"]),
        &texts(&["hello-world"]),
        Seen {
            resin_repositories: texts(&["someone/hello-world"]),
            ..Seen::default()
        },
    );

    assert_eq!(
        result.resin_repositories,
        vec!["someone/hello-world".to_string()]
    );
}

#[test]
fn test_compute_deadwood_should_not_flag_a_registered_seedlings_own_pulled_image_repository() {
    let result = deadwood(
        &texts(&["openbao"]),
        &texts(&["openbao/openbao"]),
        Seen {
            resin_repositories: texts(&["openbao/openbao"]),
            ..Seen::default()
        },
    );

    assert!(result.resin_repositories.is_empty());
}

#[test]
fn test_compute_deadwood_should_find_a_mount_dir_with_no_seedbank_record() {
    let result = deadwood(
        &texts(&[]),
        &texts(&[]),
        Seen {
            mounts: names(&["stale"]),
            ..Seen::default()
        },
    );

    assert_eq!(result.mounts, vec![name("stale")]);
}

#[test]
fn test_compute_deadwood_should_find_an_openbao_secret_with_no_seedbank_record() {
    let result = deadwood(
        &texts(&[]),
        &texts(&[]),
        Seen {
            openbao_secrets: names(&["stale"]),
            ..Seen::default()
        },
    );

    assert_eq!(result.openbao_secrets, vec![name("stale")]);
}

#[test]
fn list_openbao_secret_names_should_report_a_role_with_no_matching_policy() {
    let result = names_from_roles_and_policies(&texts(&["seedling.hello-openbao"]), &texts(&[]));

    assert_eq!(result, vec![name("hello-openbao")]);
}

#[test]
fn list_openbao_secret_names_should_report_a_policy_with_no_matching_role() {
    let result = names_from_roles_and_policies(&texts(&[]), &texts(&["seedling.hello-openbao"]));

    assert_eq!(result, vec![name("hello-openbao")]);
}

#[test]
fn list_openbao_secret_names_should_not_duplicate_a_name_present_in_both() {
    let result = names_from_roles_and_policies(
        &texts(&["seedling.hello-openbao"]),
        &texts(&["seedling.hello-openbao"]),
    );

    assert_eq!(result, vec![name("hello-openbao")]);
}

#[test]
fn test_folders_are_searched_for_names_only() {
    assert_eq!(
        list_mount_names(&Some(texts(&["hello-world", "Not Valid", "traefik"]))),
        names(&["hello-world", "traefik"])
    );
    assert_eq!(list_mount_names(&None), vec![]);
    assert_eq!(
        list_route_file_names(&Some(texts(&["hello-world.yml", "traefik.yaml", "x", ".yml"]))),
        names(&["hello-world"])
    );
    assert_eq!(list_route_file_names(&None), vec![]);
    assert_eq!(
        seedling_names_from_networks(&vec![
            container("doug.hello-world"),
            container("bridge"),
            container("doug.traefik"),
        ]),
        names(&["hello-world", "traefik"])
    );
}

#[test]
fn test_compute_orphans_should_be_empty_when_everything_is_known() {
    let result = compute_orphans(
        &texts(&["hello-world"]),
        &names(&["hello-world"]),
        &names(&["hello-world"]),
        &names(&["hello-world"]),
        &texts(&["hello-world"]),
    );

    assert!(result.is_empty());
}

#[test]
fn test_compute_orphans_should_find_a_container_with_no_seedbank_record() {
    let result = compute_orphans(
        &texts(&[]),
        &names(&["stale"]),
        &names(&[]),
        &names(&[]),
        &texts(&[]),
    );

    assert_eq!(result.containers, vec![name("stale")]);
    assert!(result.networks.is_empty());
}

#[test]
fn test_compute_orphans_should_find_a_network_with_no_seedbank_record() {
    let result = compute_orphans(
        &texts(&[]),
        &names(&[]),
        &names(&["stale"]),
        &names(&[]),
        &texts(&[]),
    );

    assert_eq!(result.networks, vec![name("stale")]);
}

#[test]
fn test_compute_orphans_should_find_a_route_file_with_no_seedbank_record() {
    let result = compute_orphans(
        &texts(&[]),
        &names(&[]),
        &names(&[]),
        &names(&["stale"]),
        &texts(&[]),
    );

    assert_eq!(result.route_files, vec![name("stale")]);
}

#[test]
fn test_compute_orphans_should_find_a_resin_repository_with_no_seedbank_record() {
    let result = compute_orphans(
        &texts(&[]),
        &names(&[]),
        &names(&[]),
        &names(&[]),
        &texts(&["stale"]),
    );

    assert_eq!(result.resin_repositories, vec!["stale".to_string()]);
}

#[test]
fn test_compute_orphans_should_flag_a_namespaced_resin_repository_as_orphaned() {
    let result = compute_orphans(
        &texts(&["hello-world"]),
        &names(&[]),
        &names(&[]),
        &names(&[]),
        &texts(&["someone/hello-world"]),
    );

    assert_eq!(
        result.resin_repositories,
        vec!["someone/hello-world".to_string()]
    );
}
