use douglas::docker::{Ipv4, VersionedImageName};
use douglas::names::Name;
use douglas::paths::DouglasFolders;
use douglas::provision_seedling_secrets::{
    agent_account_full_name, agent_private_network, approle_name, credentials_source,
    data_capabilities, metadata_capabilities, openbao_container_address, place_agent_if_requested,
    policy_document, provision_agent, render_agent_config, revoke, revoke_if_provisioned,
    seedling_name_from_approle, Capability, CredentialsSource, PolicyRule, ProvisionCall,
    ProvisionProgress, ProvisionSeedlingSecretsError, RevokeCall, RevokeProgress,
    SeedlingCredentials,
};
use douglas::seedling::{
    HealthCheck, Id, Origin, Routing, SecretsAccess, SeedlingDefinition,
};

fn name(value: &str) -> Name {
    Name::parse(value).expect("valid seedling name")
}

/// What OpenBao was told, and what it was asked, in order.
fn provision(role_exists: bool, accessors: Vec<String>) -> (SeedlingCredentials, Vec<String>) {
    let mut progress = ProvisionProgress::start();
    let mut calls = Vec::new();
    loop {
        let note = match progress.next() {
            ProvisionCall::CreatePolicy => "create policy".to_string(),
            ProvisionCall::AskRoleExists => "ask role".to_string(),
            ProvisionCall::CreateRole => "create role".to_string(),
            ProvisionCall::ListAccessors => "list accessors".to_string(),
            ProvisionCall::DestroyAccessor(accessor) => format!("destroy {accessor}"),
            ProvisionCall::GetRoleId => "get role id".to_string(),
            ProvisionCall::CreateSecretId => "create secret id".to_string(),
            ProvisionCall::Finished { role_id, secret_id } => {
                return (
                    SeedlingCredentials {
                        role_id: role_id.clone(),
                        secret_id: secret_id.clone(),
                    },
                    calls,
                );
            }
        };
        match note.as_str() {
            "create policy" => progress.policy_created = true,
            "ask role" => progress.role_exists = Some(role_exists),
            "create role" => progress.role_created = true,
            "list accessors" => progress.accessors = Some(accessors.clone()),
            "get role id" => progress.role_id = Some("role-id".to_string()),
            "create secret id" => progress.secret_id = Some("secret-id".to_string()),
            _ => progress.destroyed += 1,
        }
        calls.push(note);
    }
}

#[test]
fn execute_should_create_a_policy_scoped_to_the_seedlings_own_kv_namespace() {
    let seedling = name("hello-openbao");
    let access = SecretsAccess {
        read: true,
        write: false,
    };

    assert_eq!(approle_name(&seedling), "seedling.hello-openbao");
    assert_eq!(
        policy_document(&seedling, access),
        vec![
            PolicyRule {
                path: "kv/data/hello-openbao/*".to_string(),
                capabilities: vec![Capability::Read, Capability::List],
            },
            PolicyRule {
                path: "kv/metadata/hello-openbao/*".to_string(),
                capabilities: vec![Capability::Read, Capability::List],
            },
        ]
    );
    let (credentials, calls) = provision(true, Vec::new());
    assert!(!calls.contains(&"create role".to_string()));
    assert_eq!(calls[0], "create policy");
    assert_eq!(credentials.role_id, "role-id");
    assert_eq!(credentials.secret_id, "secret-id");
}

#[test]
fn execute_should_create_the_approle_only_when_it_does_not_already_exist() {
    let (_, calls) = provision(false, Vec::new());

    assert_eq!(
        calls,
        vec![
            "create policy",
            "ask role",
            "create role",
            "list accessors",
            "get role id",
            "create secret id",
        ]
    );
    assert_eq!(
        approle_name(&name("hello-openbao")),
        "seedling.hello-openbao"
    );
}

#[test]
fn execute_should_destroy_any_previously_issued_secret_ids_before_minting_a_new_one() {
    let (credentials, calls) = provision(true, vec!["stale-1".to_string(), "stale-2".to_string()]);

    assert_eq!(
        calls,
        vec![
            "create policy",
            "ask role",
            "list accessors",
            "destroy stale-1",
            "destroy stale-2",
            "get role id",
            "create secret id",
        ]
    );
    assert_eq!(credentials.secret_id, "secret-id");
}

fn revocation(role_exists: bool) -> Vec<RevokeCall> {
    let mut progress = RevokeProgress {
        role_exists: None,
        role_deleted: false,
        policy_deleted: false,
    };
    let mut calls = Vec::new();
    loop {
        let call = revoke(progress);
        match call {
            RevokeCall::AskRoleExists => progress.role_exists = Some(role_exists),
            RevokeCall::DeleteRole => progress.role_deleted = true,
            RevokeCall::DeletePolicy => progress.policy_deleted = true,
            RevokeCall::Finished => return calls,
        }
        calls.push(call);
    }
}

#[test]
fn revoke_should_delete_the_role_and_policy_when_the_role_exists() {
    assert_eq!(
        revocation(true),
        vec![
            RevokeCall::AskRoleExists,
            RevokeCall::DeleteRole,
            RevokeCall::DeletePolicy
        ]
    );
}

#[test]
fn revoke_should_skip_deleting_a_role_that_no_longer_exists() {
    assert_eq!(
        revocation(false),
        vec![RevokeCall::AskRoleExists, RevokeCall::DeletePolicy]
    );
}

fn folders() -> DouglasFolders {
    DouglasFolders {
        logs: "/var/log/douglas/".to_string(),
        transients: "/run/douglas/".to_string(),
        configs: "/etc/douglas/".to_string(),
        seedlings_root: "/var/lib/douglas/".to_string(),
        identity: "/var/lib/douglas-identity/".to_string(),
    }
}

fn definition_with_secrets(access: Option<SecretsAccess>) -> SeedlingDefinition {
    SeedlingDefinition {
        image: VersionedImageName::latest("test"),
        mounts: Vec::new(),
        routing: Routing::Unrouted,
        health_check: HealthCheck {
            command: "true".to_string(),
            wait_time_in_seconds: 1,
        },
        secrets: access,
        origin: Origin::User,
        published_ports: Vec::new(),
        command: None,
        added_capabilities: Vec::new(),
    }
}

fn read_and_write() -> Option<SecretsAccess> {
    Some(SecretsAccess {
        read: true,
        write: true,
    })
}

#[test]
fn provision_agent_should_return_none_when_secrets_are_not_requested() {
    let placement = place_agent_if_requested(
        &folders(),
        &name("hello-openbao"),
        None,
        &definition_with_secrets(None),
    )
    .expect("should not error");

    assert!(placement.is_none());
}

#[test]
fn provision_agent_should_reuse_previously_provisioned_credentials_from_disk() {
    let placement = place_agent_if_requested(
        &folders(),
        &name("hello-openbao"),
        Some(Id { value: 7 }),
        &definition_with_secrets(read_and_write()),
    )
    .expect("should place the agent")
    .expect("secrets were requested");
    assert!(placement.role_id_path.ends_with("role_id"));
    assert!(placement.secret_id_path.ends_with("secret_id"));
    assert_eq!(credentials_source(true, true), CredentialsSource::Stored);

    let provisioning = provision_agent(
        placement,
        SeedlingCredentials {
            role_id: "existing-role-id".to_string(),
            secret_id: "existing-secret-id".to_string(),
        },
    )
    .expect("should reuse existing credentials");

    assert_eq!(provisioning.role_id, "existing-role-id");
    assert_eq!(provisioning.secret_id, "existing-secret-id");
    assert!(provisioning.mount_dir.ends_with("openbao-agent"));
    assert_eq!(
        provisioning.agent_private_ip,
        Ipv4 {
            a: 10,
            b: 0,
            c: 7,
            d: 2
        }
    );
    assert_eq!(provisioning.private_subnet.cidr, "10.0.7.0/24");
    let config: serde_json::Value =
        serde_json::from_slice(&provisioning.agent_config).expect("should parse as json");
    assert_eq!(
        config["listener"][0]["tcp"]["address"].as_str(),
        Some("10.0.7.2:8100")
    );
}

#[test]
fn provision_agent_should_error_when_secrets_are_requested_without_a_seedling_id() {
    let result = place_agent_if_requested(
        &folders(),
        &name("hello-openbao"),
        None,
        &definition_with_secrets(read_and_write()),
    );

    assert!(matches!(
        result,
        Err(ProvisionSeedlingSecretsError::MissingSeedlingId)
    ));
}

#[test]
fn agent_private_network_should_derive_a_distinct_subnet_and_fixed_agent_address_per_id() {
    let (subnet, agent_ip) = agent_private_network(&Id { value: 300 });

    assert_eq!(subnet.cidr, "10.1.44.0/24");
    assert_eq!(
        subnet.gateway,
        Ipv4 {
            a: 10,
            b: 1,
            c: 44,
            d: 1
        }
    );
    assert_eq!(
        agent_ip,
        Ipv4 {
            a: 10,
            b: 1,
            c: 44,
            d: 2
        }
    );
}

#[test]
fn render_agent_config_should_reference_the_mounted_credential_files_and_local_proxy_port() {
    let bytes = render_agent_config(Ipv4 {
        a: 10,
        b: 0,
        c: 7,
        d: 2,
    })
    .expect("should render valid json");
    let config: serde_json::Value = serde_json::from_slice(&bytes).expect("should parse as json");

    assert_eq!(
        config["vault"]["address"].as_str(),
        Some("http://doug.openbao:8201")
    );

    let method = &config["auto_auth"]["method"][0];
    assert_eq!(method["type"].as_str(), Some("approle"));
    assert_eq!(
        method["config"]["role_id_file_path"].as_str(),
        Some("/etc/openbao-agent/role_id")
    );
    assert_eq!(
        method["config"]["secret_id_file_path"].as_str(),
        Some("/etc/openbao-agent/secret_id")
    );
    assert_eq!(
        method["config"]["remove_secret_id_file_after_reading"].as_bool(),
        Some(true)
    );

    assert_eq!(
        config["auto_auth"]["sink"][0]["type"].as_str(),
        Some("file")
    );
    assert_eq!(
        config["api_proxy"]["use_auto_auth_token"].as_bool(),
        Some(true)
    );
    assert_eq!(
        config["listener"][0]["tcp"]["address"].as_str(),
        Some("10.0.7.2:8100")
    );
    assert_eq!(
        config["listener"][0]["tcp"]["tls_disable"].as_bool(),
        Some(true)
    );
}

#[test]
fn revoke_if_provisioned_should_do_nothing_when_secrets_were_never_requested() {
    assert!(!revoke_if_provisioned(&definition_with_secrets(None)));
    assert!(revoke_if_provisioned(&definition_with_secrets(
        read_and_write()
    )));
}

#[test]
fn data_capabilities_should_be_empty_when_neither_read_nor_write_is_requested() {
    assert!(data_capabilities(SecretsAccess {
        read: false,
        write: false
    })
    .is_empty());
}

#[test]
fn metadata_capabilities_should_only_grant_delete_for_write_access() {
    let capabilities = metadata_capabilities(SecretsAccess {
        read: false,
        write: true,
    });

    assert_eq!(capabilities, vec![Capability::Delete]);
}

#[test]
fn seedling_name_from_approle_should_strip_the_prefix() {
    assert_eq!(
        seedling_name_from_approle("seedling.hello-openbao"),
        Some(name("hello-openbao"))
    );
}

#[test]
fn seedling_name_from_approle_should_be_none_for_an_unrelated_role() {
    assert_eq!(seedling_name_from_approle("douglas.cli"), None);
}

#[test]
fn test_credentials_of_which_one_is_missing_are_issued_anew() {
    assert_eq!(credentials_source(true, false), CredentialsSource::Issued);
    assert_eq!(credentials_source(false, true), CredentialsSource::Issued);
}

#[test]
fn test_write_access_grants_all_changes_of_the_data() {
    assert_eq!(
        data_capabilities(SecretsAccess {
            read: true,
            write: true
        }),
        vec![
            Capability::Read,
            Capability::List,
            Capability::Create,
            Capability::Update,
            Capability::Delete,
        ]
    );
}

#[test]
fn test_the_agent_has_an_account_of_its_own() {
    assert_eq!(
        agent_account_full_name(&name("hello-openbao")),
        "hello-openbao-openbao-agent"
    );
    assert_eq!(openbao_container_address(), "http://doug.openbao:8201");
}

#[test]
fn test_policies_keep_seedlings_apart() {
    let access = SecretsAccess {
        read: true,
        write: true,
    };
    let rules = policy_document(&Name::parse("web").expect("valid name"), access);

    for other in ["webb", "we", "blog"] {
        for theirs in policy_document(&Name::parse(other).expect("valid name"), access) {
            let secret = theirs.path.replace('*', "token");
            for rule in &rules {
                assert!(!secret.starts_with(rule.path.trim_end_matches('*')));
            }
        }
    }
}
