use douglas::find_deadwood::Deadwood;
use douglas::find_orphans::Orphans;
use douglas::names::{container_name, ContainerName, Name};
use douglas::paths::DouglasFolders;
use douglas::provision_seedling_secrets::{approle_name, revoke, RevokeCall, RevokeProgress};
use douglas::prune::{prune_deadwood, prune_orphans, PruneAction, PruneLine};
use douglas::script::{after_action, demand, start, Demand, Instruction, Outcome};

fn name(value: &str) -> Name {
    Name::parse(value).expect("valid name")
}

fn container(value: &str) -> ContainerName {
    ContainerName::parse(value).expect("valid container name")
}

fn folders() -> DouglasFolders {
    DouglasFolders {
        logs: "/var/log/douglas".to_string(),
        transients: "/run/douglas".to_string(),
        configs: "/etc/douglas".to_string(),
        seedlings_root: "/var/lib/douglas".to_string(),
        identity: "/var/lib/douglas-identity".to_string(),
    }
}

/// Carries a script out, with an outcome for each action, and gives the actions in words.
fn carry_out(
    script: &Vec<PruneLine>,
    outcome: impl Fn(&str) -> Outcome<String>,
) -> Result<Vec<String>, String> {
    let mut done = Vec::new();
    let mut at = start();
    loop {
        match demand(script, at) {
            Demand::Finished => return Ok(done),
            Demand::Ask(_) => unreachable!(),
            Demand::Act(action) => {
                let words = in_words(action);
                at = after_action(script, at, outcome(&words))?;
                done.push(words);
            }
        }
    }
}

fn in_words(action: &PruneAction) -> String {
    match action {
        PruneAction::StopContainer(name) => format!("stop {}", name.as_str()),
        PruneAction::DeleteContainer(name) => format!("delete {}", name.as_str()),
        PruneAction::DisconnectNetwork { network, container } => {
            format!("disconnect {} from {}", container.as_str(), network.as_str())
        }
        PruneAction::DeleteNetwork(name) => format!("delete network {}", name.as_str()),
        PruneAction::DeleteFile(path) => format!("delete file {path}"),
        PruneAction::DeleteRepository(name) => format!("delete repository {}", name.as_str()),
        PruneAction::DeleteFolder(path) => format!("delete folder {path}"),
        PruneAction::LogIn => "log in".to_string(),
        PruneAction::Revoke(name) => format!("revoke {}", name.as_str()),
    }
}

fn missing() -> Outcome<String> {
    Outcome::Missing("not found".to_string())
}

fn stale_containers() -> Vec<String> {
    vec![
        "stop doug.stale".to_string(),
        "delete doug.stale".to_string(),
        "stop doug-agent.stale".to_string(),
        "delete doug-agent.stale".to_string(),
    ]
}

fn deadwood_script(deadwood: Deadwood) -> Vec<PruneLine> {
    prune_deadwood(&folders(), &deadwood)
}

fn orphans_script(orphans: Orphans) -> Vec<PruneLine> {
    prune_orphans(&folders(), &orphans)
}

#[test]
fn test_prune_should_stop_and_delete_deadwood_containers() {
    let script = deadwood_script(Deadwood {
        containers: vec![name("stale")],
        ..Deadwood::default()
    });

    let result = carry_out(&script, |action| {
        if action.contains("doug-agent.stale") {
            missing()
        } else {
            Outcome::Done
        }
    });

    assert_eq!(result, Ok(stale_containers()));
}

#[test]
fn prune_deadwood_test_prune_should_delete_a_container_even_when_stop_fails() {
    let script = deadwood_script(Deadwood {
        containers: vec![name("stale")],
        ..Deadwood::default()
    });

    let result = carry_out(&script, |action| {
        if action.starts_with("stop") {
            missing()
        } else {
            Outcome::Done
        }
    });

    assert_eq!(result, Ok(stale_containers()));
}

#[test]
fn test_prune_should_also_stop_and_delete_an_deadwood_agent_container() {
    let script = deadwood_script(Deadwood {
        containers: vec![name("stale")],
        ..Deadwood::default()
    });

    let result = carry_out(&script, |_| Outcome::Done);

    assert_eq!(result, Ok(stale_containers()));
}

#[test]
fn test_prune_should_disconnect_traefik_before_deleting_deadwood_networks() {
    let script = deadwood_script(Deadwood {
        networks: vec![name("stale")],
        ..Deadwood::default()
    });

    assert_eq!(
        script,
        vec![
            Instruction::Settle(PruneAction::DisconnectNetwork {
                network: container("doug.stale"),
                container: container("doug.traefik"),
            }),
            Instruction::Do(PruneAction::DeleteNetwork(container("doug.stale"))),
        ]
    );
    assert!(carry_out(&script, |_| Outcome::Done).is_ok());
}

#[test]
fn test_prune_should_disconnect_traefik_before_deleting_deadwood_route_files() {
    let script = deadwood_script(Deadwood {
        route_files: vec![name("stale")],
        ..Deadwood::default()
    });

    assert_eq!(
        carry_out(&script, |_| Outcome::Done),
        Ok(vec![
            "disconnect doug.traefik from doug.stale".to_string(),
            "delete file /var/lib/douglas/mounts/traefik/config/dynamic/stale.yml".to_string(),
        ])
    );
}

#[test]
fn test_prune_should_tolerate_traefik_already_disconnected_when_a_name_is_deadwood_as_both_a_network_and_a_route_file()
{
    let script = deadwood_script(Deadwood {
        networks: vec![name("stale")],
        route_files: vec![name("stale")],
        ..Deadwood::default()
    });
    let disconnects = std::cell::Cell::new(0);

    let result = carry_out(&script, |action| {
        if action.starts_with("disconnect") {
            disconnects.set(disconnects.get() + 1);
            if disconnects.get() > 1 {
                return missing();
            }
        }
        Outcome::Done
    });

    assert!(result.is_ok());
    assert_eq!(disconnects.get(), 2);
}

#[test]
fn test_prune_should_delete_deadwood_resin_repositories() {
    let script = deadwood_script(Deadwood {
        resin_repositories: vec!["stale".to_string()],
        ..Deadwood::default()
    });

    assert_eq!(
        carry_out(&script, |_| Outcome::Done),
        Ok(vec!["delete repository stale".to_string()])
    );
}

#[test]
fn prune_deadwood_test_prune_should_skip_a_resin_repository_name_that_does_not_parse() {
    let script = deadwood_script(Deadwood {
        resin_repositories: vec!["Not-A-Valid-Name!".to_string()],
        ..Deadwood::default()
    });

    assert_eq!(carry_out(&script, |_| Outcome::Done), Ok(vec![]));
}

#[test]
fn test_prune_should_delete_deadwood_mount_directories() {
    let script = deadwood_script(Deadwood {
        mounts: vec![name("stale")],
        ..Deadwood::default()
    });

    assert_eq!(
        carry_out(&script, |_| Outcome::Done),
        Ok(vec![format!(
            "delete folder {}",
            folders().seedling_mounts_dir("stale")
        )])
    );
}

fn assert_revokes_role_and_policy() {
    assert_eq!(approle_name(&name("stale")), "seedling.stale");
    let mut progress = RevokeProgress {
        role_exists: None,
        role_deleted: false,
        policy_deleted: false,
    };
    assert_eq!(revoke(progress), RevokeCall::AskRoleExists);
    progress.role_exists = Some(true);
    assert_eq!(revoke(progress), RevokeCall::DeleteRole);
    progress.role_deleted = true;
    assert_eq!(revoke(progress), RevokeCall::DeletePolicy);
    progress.policy_deleted = true;
    assert_eq!(revoke(progress), RevokeCall::Finished);
}

#[test]
fn test_prune_should_revoke_deadwood_openbao_secrets() {
    let script = deadwood_script(Deadwood {
        openbao_secrets: vec![name("stale")],
        ..Deadwood::default()
    });

    assert_eq!(
        carry_out(&script, |_| Outcome::Done),
        Ok(vec!["log in".to_string(), "revoke stale".to_string()])
    );
    assert_revokes_role_and_policy();
}

#[test]
fn test_prune_should_stop_and_delete_orphaned_containers() {
    let script = orphans_script(Orphans {
        containers: vec![name("stale")],
        ..Orphans::default()
    });

    let result = carry_out(&script, |action| {
        if action.contains("doug-agent.stale") {
            missing()
        } else {
            Outcome::Done
        }
    });

    assert_eq!(result, Ok(stale_containers()));
}

#[test]
fn prune_orphans_test_prune_should_delete_a_container_even_when_stop_fails() {
    let script = orphans_script(Orphans {
        containers: vec![name("stale")],
        ..Orphans::default()
    });

    let result = carry_out(&script, |action| {
        if action.starts_with("stop") {
            missing()
        } else {
            Outcome::Done
        }
    });

    assert_eq!(result, Ok(stale_containers()));
}

#[test]
fn test_prune_should_also_stop_and_delete_an_orphaned_agent_container() {
    let script = orphans_script(Orphans {
        containers: vec![name("stale")],
        ..Orphans::default()
    });

    let result = carry_out(&script, |_| Outcome::Done);

    assert_eq!(result, Ok(stale_containers()));
}

#[test]
fn test_prune_should_disconnect_traefik_before_deleting_orphaned_networks() {
    let script = orphans_script(Orphans {
        networks: vec![name("stale")],
        ..Orphans::default()
    });

    assert_eq!(
        carry_out(&script, |_| Outcome::Done),
        Ok(vec![
            "disconnect doug.traefik from doug.stale".to_string(),
            "delete network doug.stale".to_string(),
        ])
    );
}

#[test]
fn test_prune_should_disconnect_traefik_before_deleting_orphaned_route_files() {
    let script = orphans_script(Orphans {
        route_files: vec![name("stale")],
        ..Orphans::default()
    });

    assert_eq!(
        carry_out(&script, |_| Outcome::Done),
        Ok(vec![
            "disconnect doug.traefik from doug.stale".to_string(),
            "delete file /var/lib/douglas/mounts/traefik/config/dynamic/stale.yml".to_string(),
        ])
    );
}

#[test]
fn test_prune_should_delete_orphaned_resin_repositories() {
    let script = orphans_script(Orphans {
        resin_repositories: vec!["stale".to_string()],
        ..Orphans::default()
    });

    assert_eq!(
        carry_out(&script, |_| Outcome::Done),
        Ok(vec!["delete repository stale".to_string()])
    );
}

#[test]
fn prune_orphans_test_prune_should_skip_a_resin_repository_name_that_does_not_parse() {
    let script = orphans_script(Orphans {
        resin_repositories: vec!["Not-A-Valid-Name!".to_string()],
        ..Orphans::default()
    });

    assert_eq!(carry_out(&script, |_| Outcome::Done), Ok(vec![]));
}

#[test]
fn test_prune_should_delete_orphaned_mount_directories() {
    let script = orphans_script(Orphans {
        mounts: vec![name("stale")],
        ..Orphans::default()
    });

    assert_eq!(
        carry_out(&script, |_| Outcome::Done),
        Ok(vec![
            "delete folder /var/lib/douglas/mounts/stale".to_string()
        ])
    );
}

#[test]
fn test_prune_should_revoke_orphaned_openbao_secrets() {
    let script = orphans_script(Orphans {
        openbao_secrets: vec![name("stale")],
        ..Orphans::default()
    });

    assert_eq!(
        carry_out(&script, |_| Outcome::Done),
        Ok(vec!["log in".to_string(), "revoke stale".to_string()])
    );
    assert_revokes_role_and_policy();
}

#[test]
fn test_pruning_orphans_minds_that_traefik_is_gone_and_pruning_deadwood_does_not() {
    let orphans = orphans_script(Orphans {
        networks: vec![name("stale")],
        ..Orphans::default()
    });
    let deadwood = deadwood_script(Deadwood {
        networks: vec![name("stale")],
        ..Deadwood::default()
    });
    let disconnected = |action: &str| {
        if action.starts_with("disconnect") {
            missing()
        } else {
            Outcome::Done
        }
    };

    assert!(carry_out(&orphans, disconnected).is_err());
    assert!(carry_out(&deadwood, disconnected).is_ok());
}

#[test]
fn test_nothing_left_means_nothing_pruned() {
    assert!(deadwood_script(Deadwood::default()).is_empty());
    assert!(orphans_script(Orphans::default()).is_empty());
}

#[test]
fn test_a_container_that_cannot_be_deleted_ends_the_pruning() {
    let script = deadwood_script(Deadwood {
        containers: vec![name("stale")],
        networks: vec![name("stale")],
        ..Deadwood::default()
    });

    let result = carry_out(&script, |action| {
        if action.starts_with("delete doug.") {
            Outcome::Failed("busy".to_string())
        } else {
            Outcome::Done
        }
    });

    assert_eq!(result, Err("busy".to_string()));
    assert_eq!(container_name(&name("stale")), container("doug.stale"));
}
