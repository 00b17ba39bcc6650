use douglas::container_steps::{ContainerAction, DropContainerStep, StopContainerStep, Subject};
use douglas::names::{container_name, ContainerName, Name};
use douglas::script::{after_action, demand, start, Demand, Instruction, Outcome};
use douglas::seedling::Version;

fn seedling() -> Name {
    Name::parse("traefik").expect("valid name")
}

fn container() -> ContainerName {
    container_name(&seedling())
}

fn down<'a>(line: Instruction<(), ContainerAction<'a>>) -> Result<(), String> {
    finish(line, Outcome::Failed("down".to_string()))
}

fn finish<'a>(
    line: Instruction<(), ContainerAction<'a>>,
    outcome: Outcome<String>,
) -> Result<(), String> {
    let script = vec![line];
    assert!(matches!(demand(&script, start()), Demand::Act(_)));
    after_action(&script, start(), outcome).map(|at| {
        assert_eq!(demand(&script, at), Demand::Finished);
    })
}

#[test]
fn test_a_seedling_step_should_name_the_seedling_and_its_version() {
    let step = StopContainerStep::new(Subject::seedling(&seedling(), Some(Version(1))), container());

    assert_eq!(step.describe(), "Stopping seedling 'traefik' (v1)");
}

#[test]
fn test_a_seedling_step_should_leave_out_a_version_it_does_not_have() {
    let step = DropContainerStep::new(Subject::seedling(&seedling(), None), container());

    assert_eq!(step.describe(), "Dropping seedling 'traefik'");
}

#[test]
fn test_a_container_step_should_name_the_container_and_its_version() {
    let step = StopContainerStep::new(Subject::container(&container(), Version(2)), container());

    assert_eq!(step.describe(), "Stopping container 'doug.traefik' (v2)");
}

#[test]
fn test_the_step_names_should_use_the_noun_only() {
    let seedling_step = StopContainerStep::new(Subject::seedling(&seedling(), None), container());
    let container_step =
        DropContainerStep::new(Subject::container(&container(), Version(1)), container());

    assert_eq!(seedling_step.name(), "Stopping seedling");
    assert_eq!(container_step.name(), "Dropping container");
}

#[test]
fn test_stop_should_stop_the_container() {
    let step = StopContainerStep::new(Subject::seedling(&seedling(), None), container());

    assert_eq!(
        step.run(),
        Instruction::Do(ContainerAction::Stop(&container()))
    );
    assert!(finish(step.run(), Outcome::Done).is_ok());
}

#[test]
fn test_stop_should_fail_when_docker_cannot_stop_the_container() {
    let step = StopContainerStep::new(Subject::seedling(&seedling(), None), container());

    assert!(down(step.run()).is_err());
}

#[test]
fn test_stop_rollback_should_start_the_container_again() {
    let step = StopContainerStep::new(Subject::seedling(&seedling(), None), container());

    assert_eq!(
        step.rollback(),
        Instruction::Settle(ContainerAction::Start(&container()))
    );
    assert!(finish(step.rollback(), Outcome::Done).is_ok());
}

#[test]
fn test_stop_rollback_should_not_mind_a_container_that_is_already_gone() {
    let step = StopContainerStep::new(Subject::seedling(&seedling(), None), container());

    let result = finish(step.rollback(), Outcome::Missing("gone".to_string()));

    assert!(result.is_ok());
}

#[test]
fn test_stop_rollback_should_fail_on_any_other_docker_error() {
    let step = StopContainerStep::new(Subject::seedling(&seedling(), None), container());

    assert!(down(step.rollback()).is_err());
}

#[test]
fn test_drop_should_delete_the_container() {
    let step = DropContainerStep::new(Subject::seedling(&seedling(), None), container());

    assert_eq!(
        step.run(),
        Instruction::Do(ContainerAction::Delete(&container()))
    );
    assert!(finish(step.run(), Outcome::Done).is_ok());
}

#[test]
fn test_drop_should_fail_when_docker_cannot_delete_the_container() {
    let step = DropContainerStep::new(Subject::seedling(&seedling(), None), container());

    assert!(down(step.run()).is_err());
}
