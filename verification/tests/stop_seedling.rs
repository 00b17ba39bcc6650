use douglas::docker::{ContainerPresence, Label, Status};
use douglas::labels::{create_origin_label, create_version_label};
use douglas::names::{agent_container_name, container_name, Name};
use douglas::seedling::{Origin, RequestedBy, Version};
use douglas::server::{stop, StopCall};
use douglas::stop_seedling::{create_plan, discover, State, Step, StopSeedlingError};

fn name() -> Name {
    Name::parse("traefik").expect("valid name")
}

fn stoppable_state() -> State {
    State {
        container_exists: true,
        container_is_running: true,
        container_name: container_name(&name()),
        version: Some(Version(1)),
        origin: Some(Origin::User),
        agent_container_exists: false,
        agent_container_is_running: false,
        agent_container_name: agent_container_name(&name()),
    }
}

fn step_descriptions(steps: Vec<Step<'_>>) -> Vec<String> {
    steps.iter().map(Step::describe).collect()
}

#[test]
fn test_create_plan_should_stop_a_running_container() {
    let name = name();
    let steps = create_plan(&name, stoppable_state(), RequestedBy::Operator)
        .expect("should produce a plan");

    assert_eq!(
        step_descriptions(steps),
        vec![
            "Setting seedling 'traefik' desired running status to stopped",
            "Stopping seedling 'traefik' (v1)",
        ]
    );
}

#[test]
fn stop_seedling_test_create_plan_should_omit_the_version_when_it_could_not_be_determined() {
    let name = name();
    let steps = create_plan(
        &name,
        State {
            version: None,
            ..stoppable_state()
        },
        RequestedBy::Operator,
    )
    .expect("should produce a plan");

    assert_eq!(
        step_descriptions(steps),
        vec![
            "Setting seedling 'traefik' desired running status to stopped",
            "Stopping seedling 'traefik'",
        ]
    );
}

#[test]
fn test_create_plan_should_be_a_no_op_when_the_container_does_not_exist() {
    let name = name();
    let steps = create_plan(
        &name,
        State {
            container_exists: false,
            ..stoppable_state()
        },
        RequestedBy::Operator,
    )
    .expect("should produce a plan");

    assert_eq!(
        step_descriptions(steps),
        vec!["Setting seedling 'traefik' desired running status to stopped"]
    );
}

#[test]
fn test_create_plan_should_be_a_no_op_when_not_running() {
    let name = name();
    let steps = create_plan(
        &name,
        State {
            container_is_running: false,
            ..stoppable_state()
        },
        RequestedBy::Operator,
    )
    .expect("should produce a plan");

    assert_eq!(
        step_descriptions(steps),
        vec!["Setting seedling 'traefik' desired running status to stopped"]
    );
}

#[test]
fn test_create_plan_should_refuse_to_stop_a_core_seedling_for_an_operator() {
    let name = name();
    let result = create_plan(
        &name,
        State {
            origin: Some(Origin::Core),
            ..stoppable_state()
        },
        RequestedBy::Operator,
    );

    assert!(matches!(result, Err(StopSeedlingError::CoreSeedling(_))));
    assert_eq!(
        result.expect_err("is refused").describe(),
        "Cannot stop seedling traefik: it is a core seedling managed by douglas"
    );
}

#[test]
fn test_create_plan_should_allow_the_watchdog_to_stop_a_core_seedling() {
    let name = name();
    let steps = create_plan(
        &name,
        State {
            origin: Some(Origin::Core),
            ..stoppable_state()
        },
        RequestedBy::Watchdog,
    )
    .expect("should produce a plan");

    assert_eq!(
        step_descriptions(steps),
        vec![
            "Setting seedling 'traefik' desired running status to stopped",
            "Stopping seedling 'traefik' (v1)",
        ]
    );
}

#[test]
fn test_create_plan_should_also_stop_a_running_agent_container() {
    let name = name();
    let steps = create_plan(
        &name,
        State {
            agent_container_exists: true,
            agent_container_is_running: true,
            ..stoppable_state()
        },
        RequestedBy::Operator,
    )
    .expect("should produce a plan");

    assert_eq!(
        step_descriptions(steps),
        vec![
            "Setting seedling 'traefik' desired running status to stopped",
            "Stopping seedling 'traefik' (v1)",
            "Stopping seedling 'traefik'",
        ]
    );
}

#[test]
fn test_create_plan_should_skip_stopping_an_agent_container_that_is_not_running() {
    let name = name();
    let steps = create_plan(
        &name,
        State {
            agent_container_exists: true,
            agent_container_is_running: false,
            ..stoppable_state()
        },
        RequestedBy::Operator,
    )
    .expect("should produce a plan");

    assert_eq!(
        step_descriptions(steps),
        vec![
            "Setting seedling 'traefik' desired running status to stopped",
            "Stopping seedling 'traefik' (v1)",
        ]
    );
}

/// What is seen of a core seedling whose container has exited.
fn existing_stopped_core_seedling(name: &Name) -> State {
    discover(
        name,
        ContainerPresence::Absent,
        ContainerPresence::Present(Status::Exited),
        &vec![create_origin_label(Origin::Core)],
    )
}

#[test]
fn test_stop_seedling_requested_by_should_allow_watchdog_to_stop_a_core_seedling() {
    let name = name();
    let state = existing_stopped_core_seedling(&name);

    let result = create_plan(&name, state, RequestedBy::Watchdog);

    assert!(result.is_ok());
}

#[test]
fn test_stop_seedling_requested_by_should_forbid_operator_from_stopping_a_core_seedling() {
    let name = name();
    let state = existing_stopped_core_seedling(&name);

    let result = create_plan(&name, state, RequestedBy::Operator);

    assert!(result.is_err());
}

#[test]
fn test_stop_core_seedlings_should_stop_both_traefik_and_openbao() {
    let mut told_to_stop = 0;
    let mut stopped = Vec::new();
    for call in stop(true) {
        if let StopCall::StopSeedling { name, requested_by } = call {
            let steps = create_plan(
                &name,
                discover(
                    &name,
                    ContainerPresence::Present(Status::Exited),
                    ContainerPresence::Present(Status::Exited),
                    &vec![create_origin_label(Origin::Core)],
                ),
                requested_by,
            )
            .expect("is allowed");
            told_to_stop += steps
                .iter()
                .filter(|step| matches!(step, Step::SetDesiredRunStatusToStopped { .. }))
                .count();
            assert_eq!(steps.len(), 1);
            stopped.push(name.to_text());
        }
    }

    assert_eq!(told_to_stop, 2);
    assert_eq!(stopped, vec!["traefik", "openbao"]);
}

#[test]
fn test_labels_of_a_container_that_is_not_there_do_not_count() {
    let labels: Vec<Label> = vec![
        create_origin_label(Origin::Core),
        create_version_label(Version(3)),
    ];

    let gone = discover(
        &name(),
        ContainerPresence::Absent,
        ContainerPresence::Absent,
        &labels,
    );
    let there = discover(
        &name(),
        ContainerPresence::Present(Status::Running),
        ContainerPresence::Present(Status::Running),
        &labels,
    );

    assert_eq!((gone.version, gone.origin), (None, None));
    assert!(!gone.container_exists);
    assert_eq!(
        (there.version, there.origin),
        (Some(Version(3)), Some(Origin::Core))
    );
    assert!(there.container_is_running && there.agent_container_is_running);
    assert_eq!(there.agent_container_name.as_str(), "doug-agent.traefik");
}

#[test]
fn test_a_stop_is_remembered_before_anything_is_stopped() {
    let name = name();
    let steps = create_plan(&name, stoppable_state(), RequestedBy::Watchdog)
        .expect("should produce a plan");

    assert_eq!(steps[0].name(), "Setting desired running state to stopped");
    assert_eq!(steps[1].name(), "Stopping seedling");
}
