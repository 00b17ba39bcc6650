use douglas::naming::{derive_system_name, salted};
use douglas::rolodex::{
    create_service_account, create_share_group, find_credential, find_service_account,
    guest_joins, locate, share_full_name, AccountAction, AccountPlan, Credential, Kind, Located,
    Record, RolodexError, ServiceAccount, MAX_ATTEMPTS,
};

fn group_system_name() -> String {
    derive_system_name("traefik")
}

fn record(system_name: &str, full_name: &str) -> Record {
    Record {
        system_name: system_name.to_string(),
        full_name: full_name.to_string(),
    }
}

/// A system with records of names, groups and users.
#[derive(Default)]
struct System {
    groups: Vec<Record>,
    users: Vec<Record>,
    group_ids: Vec<(String, u32)>,
    user_ids: Vec<(String, u32)>,
}

fn id_of(ids: &[(String, u32)], name: &str) -> Option<u32> {
    ids.iter()
        .find(|(there, _)| there == name)
        .map(|(_, id)| *id)
}

fn name_of(found: &Located) -> &str {
    match found {
        Located::Found(name) | Located::Reserved(name) => name,
        _ => "",
    }
}

impl System {
    fn find_group(&self, full_name: &str) -> Result<Option<Credential>, RolodexError> {
        let found = locate(&self.groups, full_name, false);
        let id = id_of(&self.group_ids, name_of(&found));
        find_credential(full_name, found, Kind::Group, id.is_some(), id)
    }

    fn find_user(&self, full_name: &str) -> Result<Option<Credential>, RolodexError> {
        let found = locate(&self.users, full_name, false);
        let id = id_of(&self.user_ids, name_of(&found));
        find_credential(full_name, found, Kind::User, id.is_some(), id)
    }

    fn find_service_account(
        &self,
        full_name: &str,
    ) -> Result<Option<ServiceAccount>, RolodexError> {
        Ok(find_service_account(
            self.find_group(full_name)?,
            self.find_user(full_name)?,
        ))
    }
}

#[test]
fn test_should_return_none_when_the_group_has_never_been_reserved() {
    let result = System::default()
        .find_service_account("traefik")
        .expect("should look up");

    assert!(result.is_none());
}

#[test]
fn test_should_return_none_when_reserved_but_the_os_group_was_never_created() {
    let system = System {
        groups: vec![record(&group_system_name(), "traefik")],
        ..System::default()
    };

    let result = system
        .find_service_account("traefik")
        .expect("should look up");

    assert!(result.is_none());
}

#[test]
fn test_should_return_the_service_account_when_fully_provisioned() {
    let system_name = group_system_name();
    let system = System {
        groups: vec![record(&system_name, "traefik")],
        users: vec![record(&system_name, "traefik")],
        group_ids: vec![(system_name.clone(), 42)],
        user_ids: vec![(system_name.clone(), 7)],
    };

    let account = system
        .find_service_account("traefik")
        .expect("should look up")
        .expect("should be found");

    assert_eq!(account.group.id, 42);
    assert_eq!(account.user.id, 7);
}

#[test]
fn test_should_never_create_the_rolodex_directories() {
    let found = locate(&Vec::new(), "traefik", false);

    assert_eq!(found, Located::Nothing);
    let result =
        find_credential("traefik", found, Kind::Group, false, None).expect("should look up");
    assert!(result.is_none());
}

#[test]
fn test_should_return_none_when_the_share_group_does_not_exist() {
    let result = System::default()
        .find_group(&share_full_name("traefik", "config"))
        .expect("should look up");

    assert!(result.is_none());
}

#[test]
fn test_should_return_the_share_group_when_it_exists() {
    let share_system_name = derive_system_name("traefik:config");
    let system = System {
        groups: vec![record(&share_system_name, "traefik:config")],
        group_ids: vec![(share_system_name.clone(), 99)],
        ..System::default()
    };

    let group = system
        .find_group(&share_full_name("traefik", "config"))
        .expect("should look up")
        .expect("should be found");

    assert_eq!(group.id, 99);
    assert_eq!(group.system_name, share_system_name);
}

#[test]
fn test_should_create_a_new_group_and_user_when_neither_exists() {
    let system_name = group_system_name();
    let full_name = "traefik".to_string();
    let none = Vec::new();
    let group = locate(&Vec::new(), &full_name, true);
    let user = locate(&Vec::new(), &full_name, true);

    let plan = create_service_account(&full_name, &group, false, &user, false, &none);

    assert_eq!(
        plan,
        AccountPlan {
            actions: vec![
                AccountAction::Record {
                    kind: Kind::Group,
                    system_name: &system_name,
                    full_name: &full_name
                },
                AccountAction::CreateGroup {
                    system_name: &system_name
                },
                AccountAction::Record {
                    kind: Kind::User,
                    system_name: &system_name,
                    full_name: &full_name
                },
                AccountAction::CreateUser {
                    system_name: &system_name,
                    primary_group: &system_name,
                    groups: &none
                },
            ],
            error: None,
        }
    );
    let created =
        find_credential("traefik", group, Kind::Group, true, Some(42)).expect("is there");
    assert_eq!(
        created,
        Some(Credential {
            id: 42,
            full_name,
            system_name
        })
    );
}

#[test]
fn test_should_reuse_the_existing_credentials_when_already_reserved() {
    let system_name = group_system_name();
    let full_name = "traefik".to_string();
    let none = Vec::new();
    let records = vec![record(&system_name, "traefik")];
    let group = locate(&records, &full_name, true);
    let user = locate(&records, &full_name, true);

    let plan = create_service_account(&full_name, &group, true, &user, true, &none);

    assert_eq!(
        plan,
        AccountPlan {
            actions: vec![
                AccountAction::GetId {
                    kind: Kind::Group,
                    system_name: &system_name
                },
                AccountAction::GetId {
                    kind: Kind::User,
                    system_name: &system_name
                },
                AccountAction::SetPrimaryGroup {
                    system_name: &system_name,
                    group: &system_name
                },
            ],
            error: None,
        }
    );
}

#[test]
fn test_should_repin_the_users_primary_group_when_only_the_user_survived() {
    let system_name = group_system_name();
    let full_name = "traefik".to_string();
    let none = Vec::new();
    let group = locate(&Vec::new(), &full_name, true);
    let user = locate(&vec![record(&system_name, "traefik")], &full_name, true);

    let plan = create_service_account(&full_name, &group, false, &user, true, &none);

    assert_eq!(
        plan,
        AccountPlan {
            actions: vec![
                AccountAction::Record {
                    kind: Kind::Group,
                    system_name: &system_name,
                    full_name: &full_name
                },
                AccountAction::CreateGroup {
                    system_name: &system_name
                },
                AccountAction::GetId {
                    kind: Kind::User,
                    system_name: &system_name
                },
                AccountAction::SetPrimaryGroup {
                    system_name: &system_name,
                    group: &system_name
                },
            ],
            error: None,
        }
    );
}

#[test]
fn test_should_retry_with_a_salted_name_on_a_genuine_collision() {
    let colliding_name = group_system_name();
    let retried_name = derive_system_name(&salted("traefik", 1));
    let full_name = "traefik".to_string();
    let none = Vec::new();
    let groups = vec![record(&colliding_name, "some-other-service")];
    let group = locate(&groups, &full_name, true);
    let user = locate(&Vec::new(), &full_name, true);

    let plan = create_service_account(&full_name, &group, false, &user, false, &none);

    assert_eq!(group, Located::Reserved(retried_name.clone()));
    assert_eq!(
        plan.actions[3],
        AccountAction::CreateUser {
            system_name: &colliding_name,
            primary_group: &retried_name,
            groups: &none
        }
    );
    assert_eq!(plan.error, None);
}

#[test]
fn test_should_join_each_guest_users_reserved_system_name() {
    let share = share_full_name("traefik", "config");
    let share_system_name = derive_system_name("traefik:config");
    let guest_system_name = derive_system_name("openbao");
    let users = vec![record(&guest_system_name, "openbao")];
    let group = locate(&Vec::new(), &share, true);
    let guests = guest_joins(&users, &vec!["openbao".to_string()]);

    let plan = create_share_group(&share, &group, false, &guests);

    assert_eq!(
        plan,
        AccountPlan {
            actions: vec![
                AccountAction::Record {
                    kind: Kind::Group,
                    system_name: &share_system_name,
                    full_name: &share
                },
                AccountAction::CreateGroup {
                    system_name: &share_system_name
                },
                AccountAction::JoinGroup {
                    system_name: &guest_system_name,
                    group: &share_system_name
                },
            ],
            error: None,
        }
    );
}

#[test]
fn test_should_fail_when_a_guest_has_no_reserved_user_yet() {
    let share = share_full_name("traefik", "config");
    let group = locate(&Vec::new(), &share, true);
    let guests = guest_joins(&Vec::new(), &vec!["openbao".to_string()]);

    let plan = create_share_group(&share, &group, false, &guests);

    assert!(matches!(&plan.error, Some(RolodexError::UnknownGuest(guest)) if guest == "openbao"));
    assert_eq!(plan.actions.len(), 2);
}

#[test]
fn test_a_name_space_can_be_exhausted() {
    let full_name = "traefik".to_string();
    let taken: Vec<Record> = (0..MAX_ATTEMPTS)
        .map(|attempt| {
            record(
                &derive_system_name(&salted(&full_name, attempt)),
                "somebody-else",
            )
        })
        .collect();
    let none = Vec::new();
    let exhausted = locate(&taken, &full_name, true);
    let free = locate(&Vec::new(), &full_name, true);

    assert_eq!(exhausted, Located::Exhausted);
    let without_group =
        create_service_account(&full_name, &exhausted, false, &free, false, &none);
    assert!(without_group.actions.is_empty());
    assert_eq!(
        without_group.error,
        Some(RolodexError::ExhaustedNameSpace(full_name.clone()))
    );
    let without_user = create_service_account(&full_name, &free, false, &exhausted, false, &none);
    assert_eq!(without_user.actions.len(), 2);
    assert!(without_user.error.is_some());
    assert_eq!(
        guest_joins(&taken, &vec![full_name.clone()]).error,
        Some(RolodexError::ExhaustedNameSpace(full_name.clone()))
    );
    assert_eq!(
        find_credential("traefik", exhausted, Kind::Group, true, Some(1)),
        Err(RolodexError::ExhaustedNameSpace(full_name))
    );
}

#[test]
fn test_a_name_that_was_reserved_is_found_again() {
    let mut records = vec![record(&group_system_name(), "some-other-service")];
    let Located::Reserved(name) = locate(&records, "traefik", true) else {
        panic!("there is a free name");
    };
    records.push(record(&name, "traefik"));

    assert_eq!(locate(&records, "traefik", false), Located::Found(name));
    assert_eq!(
        locate(&records, "some-other-service", false),
        Located::Nothing
    );
}

#[test]
fn test_a_credential_without_an_id_is_an_error() {
    let found = Located::Found("doug-x".to_string());

    let result = find_credential("traefik", found, Kind::User, true, None);

    let error = result.expect_err("there is no id");
    assert_eq!(
        error.describe(),
        "Credentials error: user 'doug-x' not found"
    );
    assert_eq!(
        RolodexError::NotFound {
            kind: Kind::Group,
            system_name: "doug-y".to_string()
        }
        .describe(),
        "Credentials error: group 'doug-y' not found"
    );
    assert_eq!(
        RolodexError::ExhaustedNameSpace("traefik".to_string()).describe(),
        "Could not find a free system name for 'traefik'"
    );
    assert_eq!(
        RolodexError::UnknownGuest("openbao".to_string()).describe(),
        "Unknown guest 'openbao': it has no reserved user yet"
    );
}
