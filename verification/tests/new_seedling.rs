use douglas::docker::VersionedImageName;
use douglas::names::Name;
use douglas::new_seedling::{
    check_reserved, create_plan, discover, first_version, ready_message, seedling_definition,
    Discovery, Knowledge, NewSeedlingError, State, Step,
};
use douglas::seedling::{
    AccessMode, HealthCheck, ImageSource, Mount, MountType, NamedMount, Origin, PortSpec,
    RouteSpec, Routing, UserSeedlingDefinition, Version,
};

fn name() -> Name {
    Name::parse("foo").expect("valid name")
}

fn user_seedling_definition() -> UserSeedlingDefinition {
    UserSeedlingDefinition {
        image: ImageSource::Local,
        mounts: Vec::new(),
        route: RouteSpec::Root,
        ports: PortSpec {
            public: 8080,
            additional: Vec::new(),
        },
        health_check: HealthCheck {
            command: "true".to_string(),
            wait_time_in_seconds: 1,
        },
        secrets: None,
    }
}

fn state() -> State {
    State {
        seedling_exists: false,
        container_exists: false,
        image_exists: false,
        registered: false,
        missing_mount_siblings: Vec::new(),
    }
}

fn step_descriptions(steps: Vec<Step<'_>>) -> Vec<String> {
    steps.iter().map(Step::describe).collect()
}

/// Answers every question with no, and counts the questions about images.
fn discover_with(definition: &UserSeedlingDefinition) -> (Result<State, NewSeedlingError>, usize) {
    let mut knowledge = Knowledge {
        seedling_exists: None,
        container_exists: None,
        image_exists: None,
        registered: None,
        siblings: Vec::new(),
    };
    let mut images_asked = 0;
    loop {
        match discover(&name(), definition, &knowledge) {
            Err(error) => return (Err(error), images_asked),
            Ok(Discovery::Known(state)) => return (Ok(state), images_asked),
            Ok(Discovery::AskSeedlingExists) => knowledge.seedling_exists = Some(false),
            Ok(Discovery::AskContainerExists(container)) => {
                assert_eq!(container.as_str(), "foo");
                knowledge.container_exists = Some(false);
            }
            Ok(Discovery::AskImageExists) => {
                images_asked += 1;
                knowledge.image_exists = Some(false);
            }
            Ok(Discovery::AskRegistered) => knowledge.registered = Some(false),
            Ok(Discovery::AskSiblingExists(_)) => knowledge.siblings.push(false),
        }
    }
}

#[test]
fn test_discover_should_check_docker_image_existence_for_a_local_seedling() {
    let (result, images_asked) = discover_with(&user_seedling_definition());

    assert!(matches!(
        result,
        Ok(State {
            image_exists: false,
            ..
        })
    ));
    assert_eq!(images_asked, 1);
}

#[test]
fn test_discover_should_skip_the_docker_image_existence_check_for_an_external_seedling() {
    let definition = UserSeedlingDefinition {
        image: ImageSource::External("ghcr.io/foo/bar:1.2.3".to_string()),
        ..user_seedling_definition()
    };

    let (result, images_asked) = discover_with(&definition);

    assert!(matches!(
        result,
        Ok(State {
            image_exists: false,
            ..
        })
    ));
    assert_eq!(images_asked, 0);
}

#[test]
fn test_create_plan_should_create_the_seedling_and_claim_default() {
    let name = name();
    let definition = user_seedling_definition();
    let steps = create_plan(&name, &definition, state()).expect("should produce a plan");

    assert_eq!(
        step_descriptions(steps),
        vec![
            "Creating seedling for 'foo'".to_string(),
            "Claiming default for 'foo'".to_string(),
        ]
    );
}

#[test]
fn test_create_plan_should_not_claim_default_for_a_subdomain_seedling() {
    let name = name();
    let spec = UserSeedlingDefinition {
        route: RouteSpec::Subdomain,
        ..user_seedling_definition()
    };
    let steps = create_plan(&name, &spec, state()).expect("should produce a plan");

    assert_eq!(
        step_descriptions(steps),
        vec!["Creating seedling for 'foo'".to_string()]
    );
}

#[test]
fn test_create_plan_should_refuse_when_the_seedling_already_exists() {
    let name = name();
    let definition = user_seedling_definition();
    let result = create_plan(
        &name,
        &definition,
        State {
            seedling_exists: true,
            ..state()
        },
    );

    assert!(matches!(
        result,
        Err(NewSeedlingError::SeedlingAlreadyExists)
    ));
}

#[test]
fn test_create_plan_should_refuse_when_orphaned() {
    let name = name();
    let definition = user_seedling_definition();
    let result = create_plan(
        &name,
        &definition,
        State {
            container_exists: true,
            ..state()
        },
    );

    assert!(matches!(result, Err(NewSeedlingError::SeedlingOrphaned)));
}

#[test]
fn test_create_plan_should_refuse_when_mount_siblings_are_missing() {
    let name = name();
    let definition = user_seedling_definition();
    let result = create_plan(
        &name,
        &definition,
        State {
            missing_mount_siblings: vec!["bar".to_string()],
            ..state()
        },
    );

    assert!(matches!(
        result,
        Err(NewSeedlingError::MissingMountSiblings(siblings)) if siblings == vec!["bar".to_string()]
    ));
}

#[test]
fn test_siblings_that_are_not_there_are_named() {
    let shared = Mount {
        kind: MountType::PersistedShared(vec![
            Name::parse("bar").expect("valid name"),
            Name::parse("baz").expect("valid name"),
        ]),
        remote_path: "/data".to_string(),
        access_mode: AccessMode::Writable,
        contents: Vec::new(),
        rotate_logs: false,
    };
    let definition = UserSeedlingDefinition {
        mounts: vec![NamedMount {
            name: Name::parse("data").expect("valid name"),
            mount: shared,
        }],
        ..user_seedling_definition()
    };
    let knowledge = Knowledge {
        seedling_exists: Some(false),
        container_exists: Some(false),
        image_exists: Some(false),
        registered: Some(false),
        siblings: vec![true, false],
    };

    let found = discover(&name(), &definition, &knowledge);

    assert_eq!(
        found,
        Ok(Discovery::Known(State {
            missing_mount_siblings: vec!["baz".to_string()],
            ..state()
        }))
    );
    let (nobody_there, _) = discover_with(&definition);
    assert_eq!(
        nobody_there.map(|state| state.missing_mount_siblings),
        Ok(vec!["bar".to_string(), "baz".to_string()])
    );
}

#[test]
fn test_a_local_image_under_the_name_is_in_the_way() {
    let mut knowledge = Knowledge {
        seedling_exists: Some(false),
        container_exists: Some(false),
        image_exists: Some(true),
        registered: None,
        siblings: Vec::new(),
    };
    let definition = user_seedling_definition();

    assert_eq!(
        discover(&name(), &definition, &knowledge),
        Ok(Discovery::Known(State {
            container_exists: true,
            ..state()
        }))
    );
    knowledge.seedling_exists = Some(true);
    assert_eq!(
        discover(&name(), &definition, &knowledge),
        Ok(Discovery::Known(State {
            seedling_exists: true,
            ..state()
        }))
    );
}

#[test]
fn test_reserved_names_are_refused() {
    let reserved = vec!["traefik".to_string(), "openbao".to_string()];

    assert_eq!(check_reserved(&name(), &reserved), Ok(()));
    assert_eq!(
        check_reserved(&Name::parse("openbao").expect("valid name"), &reserved),
        Err(NewSeedlingError::ReservedName("openbao".to_string()))
    );
}

#[test]
fn test_only_the_registration_is_undone() {
    let name = name();
    let definition = user_seedling_definition();
    let steps = create_plan(&name, &definition, state()).expect("should produce a plan");

    assert_eq!(steps[0].rollback(), Some(&name));
    assert_eq!(steps[0].name(), "Creating seedling");
    assert_eq!(steps[1].rollback(), None);
    assert_eq!(steps[1].name(), "Claiming default");
}

#[test]
fn test_a_registered_seedling_is_a_routed_one_of_a_user() {
    let image = VersionedImageName::latest("foo");

    let definition = seedling_definition(user_seedling_definition(), image);

    assert_eq!(definition.origin, Origin::User);
    assert_eq!(
        definition.routing,
        Routing::Routed {
            route: RouteSpec::Root,
            ports: user_seedling_definition().ports
        }
    );
    assert_eq!(definition.image, VersionedImageName::latest("foo"));
    assert_eq!(first_version(), Version(1));
}

#[test]
fn test_the_user_is_told_how_to_go_on() {
    assert_eq!(
        ready_message(&name(), "localhost:7376"),
        "Ready. If your image isn't already named for this registry, tag it first: \
         `docker tag foo localhost:7376/foo`. Then push it to localhost:7376/foo to deploy it."
    );
}

#[test]
fn test_refusals_are_put_into_words() {
    for (error, words) in [
        (
            NewSeedlingError::DockerNameError("x".to_string()),
            "Docker name error x",
        ),
        (
            NewSeedlingError::SeedlingAlreadyExists,
            "Seedling already exists",
        ),
        (
            NewSeedlingError::SeedlingOrphaned,
            "Seedling is in an orphaned state.  Delete first before creating",
        ),
        (
            NewSeedlingError::ReservedName("openbao".to_string()),
            "'openbao' is a reserved name managed by douglas",
        ),
        (
            NewSeedlingError::MissingMountSiblings(vec!["a".to_string(), "b".to_string()]),
            "Mount references unregistered sibling seedlings: [\"a\", \"b\"]",
        ),
    ] {
        assert_eq!(error.describe(), words);
    }
}

#[test]
fn test_a_name_that_nothing_has_is_registered() {
    let definition = user_seedling_definition();
    let name = name();

    let (found, _) = discover_with(&definition);
    let plan = create_plan(&name, &definition, found.expect("the search ends"))
        .expect("nothing stands in the way");

    assert_eq!(
        plan[0],
        Step::NewSeedlingFromSpec {
            seedling_name: &name,
            definition: &definition,
        }
    );
}
