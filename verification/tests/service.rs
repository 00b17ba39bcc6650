use douglas::commands::ServiceCommand;
use douglas::modes::Modes;
use douglas::service::{
    discover_service_state, plan_service_bootstrap, BootstrapReporting, FolderModeRequirement,
    FolderOwnershipRequirement, FolderSight, GroupMembershipRequirement, GroupSight,
    ServiceDefinition, ServiceSight, ServiceState, ServiceUser, UserSight,
};

fn definition() -> ServiceDefinition {
    ServiceDefinition::new(
        ServiceUser::create_managed("foo"),
        "foo",
        vec![("/var/lib/foo".to_string(), Modes::OwnerReadWrite)],
        BootstrapReporting::Pipe,
    )
}

fn unmanaged_user_definition() -> ServiceDefinition {
    ServiceDefinition::new(
        ServiceUser::create_system("root"),
        "douglas-admin",
        vec![("/var/lib/foo".to_string(), Modes::OwnerReadWrite)],
        BootstrapReporting::Silent,
    )
}

fn definition_with_additional_group() -> ServiceDefinition {
    ServiceDefinition::with_sockets(
        ServiceUser::create_managed("foo"),
        "foo",
        vec![("/var/lib/foo".to_string(), Modes::OwnerReadWrite)],
        Vec::new(),
        vec!["shared".to_string()],
        BootstrapReporting::Pipe,
    )
}

fn group(present: bool, id: Option<u32>, members: &[&str]) -> GroupSight {
    GroupSight {
        present,
        id,
        members: members.iter().map(|member| member.to_string()).collect(),
    }
}

fn user(present: bool, primary_group: Option<u32>) -> UserSight {
    UserSight {
        present,
        primary_group,
    }
}

fn folder(owner: &str, owning_group: &str, mode: Modes) -> FolderSight {
    FolderSight::Present {
        user: owner.to_string(),
        group: owning_group.to_string(),
        mode,
    }
}

fn seen(group: GroupSight, user: UserSight, folder: FolderSight) -> ServiceSight {
    ServiceSight {
        group,
        user,
        additional_groups: Vec::new(),
        folders: vec![folder],
    }
}

fn own_folder() -> FolderSight {
    folder("foo", "foo", Modes::OwnerReadWrite)
}

#[test]
fn test_should_flag_missing_group() {
    let state = discover_service_state(
        &definition(),
        &seen(group(false, None, &["foo"]), user(true, None), own_folder()),
    );

    assert!(state.group_missing);
}

#[test]
fn test_should_flag_missing_user() {
    let state = discover_service_state(
        &definition(),
        &seen(group(true, None, &[]), user(false, None), own_folder()),
    );

    assert!(state.user_missing);
}

#[test]
fn test_should_flag_missing_group_membership_when_group_and_user_exist() {
    let state = discover_service_state(
        &definition(),
        &seen(
            group(true, Some(100), &["bar"]),
            user(true, Some(200)),
            own_folder(),
        ),
    );

    assert!(state.group_membership_missing);
}

#[test]
fn test_should_not_flag_group_membership_when_already_a_member() {
    let state = discover_service_state(
        &definition(),
        &seen(group(true, None, &["foo"]), user(true, None), own_folder()),
    );

    assert!(!state.group_membership_missing);
}

#[test]
fn test_should_not_flag_group_membership_when_it_is_the_users_primary_group() {
    let state = discover_service_state(
        &definition(),
        &seen(
            group(true, Some(100), &[]),
            user(true, Some(100)),
            own_folder(),
        ),
    );

    assert!(!state.group_membership_missing);
}

#[test]
fn test_should_flag_missing_folder_for_creation_ownership_and_mode() {
    let state = discover_service_state(
        &definition(),
        &seen(
            group(true, None, &["foo"]),
            user(true, None),
            FolderSight::Absent,
        ),
    );

    assert_eq!(state.folders_missing, vec!["/var/lib/foo".to_string()]);
    assert_eq!(state.folders_missing_ownership.len(), 1);
    assert_eq!(state.folders_missing_mode.len(), 1);
}

#[test]
fn test_should_flag_wrong_ownership_on_existing_folder() {
    let state = discover_service_state(
        &definition(),
        &seen(
            group(true, None, &["foo"]),
            user(true, None),
            folder("someone_else", "foo", Modes::OwnerReadWrite),
        ),
    );

    assert_eq!(state.folders_missing_ownership.len(), 1);
    assert!(state.folders_missing_mode.is_empty());
}

#[test]
fn test_should_flag_wrong_mode_on_existing_folder() {
    let state = discover_service_state(
        &definition(),
        &seen(
            group(true, None, &["foo"]),
            user(true, None),
            folder("foo", "foo", Modes::OwnerReadWriteGroupRead),
        ),
    );

    assert!(state.folders_missing_ownership.is_empty());
    assert_eq!(state.folders_missing_mode.len(), 1);
}

#[test]
fn test_should_flag_nothing_when_everything_already_correct() {
    let state = discover_service_state(
        &definition(),
        &seen(group(true, None, &["foo"]), user(true, None), own_folder()),
    );

    assert!(!state.group_missing);
    assert!(!state.user_missing);
    assert!(!state.group_membership_missing);
    assert!(state.folders_missing.is_empty());
    assert!(state.folders_missing_ownership.is_empty());
    assert!(state.folders_missing_mode.is_empty());
    assert!(plan_service_bootstrap(&definition(), &state).is_empty());
}

#[test]
fn test_should_never_flag_user_or_membership_when_user_is_unmanaged() {
    let state = discover_service_state(
        &unmanaged_user_definition(),
        &seen(
            group(false, None, &[]),
            user(true, None),
            folder("root", "douglas-admin", Modes::OwnerReadWrite),
        ),
    );

    assert!(state.group_missing);
    assert!(!state.user_missing);
    assert!(!state.group_membership_missing);
}

fn seen_with_additional(
    group_seen: GroupSight,
    user_seen: UserSight,
    shared: GroupSight,
) -> ServiceSight {
    ServiceSight {
        group: group_seen,
        user: user_seen,
        additional_groups: vec![shared],
        folders: vec![own_folder()],
    }
}

#[test]
fn test_should_flag_missing_additional_group_and_membership() {
    let state = discover_service_state(
        &definition_with_additional_group(),
        &seen_with_additional(
            group(true, None, &["foo"]),
            user(true, None),
            group(false, None, &[]),
        ),
    );

    assert_eq!(state.additional_groups_missing, vec!["shared".to_string()]);
    assert_eq!(state.additional_group_memberships_missing.len(), 1);
    assert_eq!(
        state.additional_group_memberships_missing[0].group_name,
        "shared"
    );
    assert_eq!(
        state.additional_group_memberships_missing[0].user_name,
        "foo"
    );
}

#[test]
fn test_should_flag_missing_membership_when_additional_group_already_exists() {
    let state = discover_service_state(
        &definition_with_additional_group(),
        &seen_with_additional(
            group(true, Some(200), &["foo"]),
            user(true, Some(200)),
            group(true, Some(100), &["someone_else"]),
        ),
    );

    assert!(state.additional_groups_missing.is_empty());
    assert_eq!(state.additional_group_memberships_missing.len(), 1);
}

#[test]
fn test_should_not_flag_additional_group_when_already_a_member() {
    let state = discover_service_state(
        &definition_with_additional_group(),
        &seen_with_additional(
            group(true, None, &["foo"]),
            user(true, None),
            group(true, None, &["foo"]),
        ),
    );

    assert!(state.additional_groups_missing.is_empty());
    assert!(state.additional_group_memberships_missing.is_empty());
}

fn bare_definition() -> ServiceDefinition {
    ServiceDefinition::new(
        ServiceUser::create_managed("foo"),
        "foo",
        Vec::new(),
        BootstrapReporting::Pipe,
    )
}

fn descriptions(steps: &[ServiceCommand]) -> Vec<String> {
    steps.iter().map(ServiceCommand::describe).collect()
}

#[test]
fn test_should_produce_no_steps_when_nothing_is_missing() {
    let state = ServiceState::default();

    let steps = plan_service_bootstrap(&bare_definition(), &state);

    assert!(steps.is_empty());
}

#[test]
fn test_should_create_group_and_user_when_both_missing() {
    let state = ServiceState {
        group_missing: true,
        user_missing: true,
        ..Default::default()
    };

    let steps = plan_service_bootstrap(&bare_definition(), &state);
    let descriptions = descriptions(&steps);

    assert_eq!(descriptions.len(), 2);
    assert!(descriptions[0].contains("Create group 'foo'"));
    assert!(descriptions[1].contains("Create user 'foo'"));
    assert_eq!(descriptions[1], "Create user 'foo' with primary group 'foo'");
}

#[test]
fn test_should_not_create_user_when_only_group_missing() {
    let state = ServiceState {
        group_missing: true,
        ..Default::default()
    };

    let steps = plan_service_bootstrap(&bare_definition(), &state);
    let descriptions = descriptions(&steps);

    assert_eq!(descriptions.len(), 1);
    assert!(descriptions[0].contains("Create group"));
}

#[test]
fn test_should_add_user_to_group_when_user_exists_but_not_a_member() {
    let state = ServiceState {
        group_membership_missing: true,
        ..Default::default()
    };

    let steps = plan_service_bootstrap(&bare_definition(), &state);
    let descriptions = descriptions(&steps);

    assert_eq!(descriptions.len(), 1);
    assert!(descriptions[0].contains("Add user 'foo' to group 'foo'"));
}

#[test]
fn test_should_not_add_user_to_group_when_user_was_just_created() {
    let state = ServiceState {
        user_missing: true,
        group_membership_missing: true,
        ..Default::default()
    };

    let steps = plan_service_bootstrap(&bare_definition(), &state);
    let descriptions = descriptions(&steps);

    assert_eq!(descriptions.len(), 1);
    assert!(descriptions[0].contains("Create user"));
}

#[test]
fn test_should_create_folder_set_ownership_and_mode_when_folder_missing() {
    let state = ServiceState {
        folders_missing: vec!["/var/lib/foo".to_string()],
        folders_missing_ownership: vec![FolderOwnershipRequirement::new(
            "/var/lib/foo".to_string(),
            "foo",
            "foo",
        )],
        folders_missing_mode: vec![FolderModeRequirement {
            path: "/var/lib/foo".to_string(),
            mode: Modes::OwnerReadWrite,
        }],
        ..Default::default()
    };

    let steps = plan_service_bootstrap(&bare_definition(), &state);
    let descriptions = descriptions(&steps);

    assert_eq!(descriptions.len(), 3);
    assert!(descriptions[0].contains("Create folder"));
    assert!(descriptions[1].contains("Set ownership"));
    assert!(descriptions[2].contains("Set mode"));
    assert_eq!(descriptions[2], "Set mode on '/var/lib/foo' to '0o600'");
}

#[test]
fn test_should_create_additional_group_and_add_membership_when_missing() {
    let state = ServiceState {
        additional_groups_missing: vec!["shared".to_string()],
        additional_group_memberships_missing: vec![GroupMembershipRequirement::new(
            "shared", "foo",
        )],
        ..Default::default()
    };

    let steps = plan_service_bootstrap(&bare_definition(), &state);
    let descriptions = descriptions(&steps);

    assert_eq!(descriptions.len(), 2);
    assert!(descriptions[0].contains("Create group 'shared'"));
    assert!(descriptions[1].contains("Add user 'foo' to group 'shared'"));
}

#[test]
fn test_commands_say_what_they_did() {
    let state = ServiceState {
        group_missing: true,
        ..Default::default()
    };

    let steps = plan_service_bootstrap(&bare_definition(), &state);

    assert_eq!(steps[0].name(), "Create group");
    assert_eq!(steps[0].announce(), "Created group 'foo'!");
}
