//! Stopping a seedling.

use crate::docker::{ContainerPresence, Label, Status};
use crate::executor::{describe_failed, failed_words, only_reason};
use crate::labels::{get_origin, get_version, origin_in, version_in};
use crate::names::{
    agent_container_name, agent_container_name_of, container_name, container_name_of,
    ContainerName, Name,
};
use crate::seedling::{
    core_forbidden, core_seedling_forbidden_for, Origin, RequestedBy, Version,
};
use crate::text::{cat3, cat5};
use vstd::prelude::*;

verus! {

/// Why a seedling could not be stopped.
#[derive(Debug, PartialEq, Eq)]
pub enum StopSeedlingError {
    CoreSeedling(String),
    FailedBoostrap(Vec<String>),
}

impl StopSeedlingError {
    /// The error for a plan that could not be carried out for a reason.
    pub fn failed(reason: String) -> (r: Self)
        ensures
            r matches StopSeedlingError::FailedBoostrap(reasons) && reasons@ == seq![reason],
    {
        StopSeedlingError::FailedBoostrap(only_reason(reason))
    }

    /// The error in words.
    pub open spec fn text(&self) -> Seq<char> {
        match self {
            StopSeedlingError::CoreSeedling(name) => "Cannot stop seedling "@ + name@
                + ": it is a core seedling managed by douglas"@,
            StopSeedlingError::FailedBoostrap(reasons) => failed_words(reasons@),
        }
    }

    /// The error in words.
    pub fn describe(&self) -> (r: String)
        ensures
            r@ == self.text(),
    {
        match self {
            StopSeedlingError::CoreSeedling(name) => cat3(
                "Cannot stop seedling ",
                name,
                ": it is a core seedling managed by douglas",
            ),
            StopSeedlingError::FailedBoostrap(reasons) => describe_failed(reasons),
        }
    }
}

/// What was found of a seedling and of its agent.
#[derive(Debug, PartialEq, Eq)]
pub struct State {
    pub container_exists: bool,
    pub container_is_running: bool,
    pub container_name: ContainerName,
    pub version: Option<Version>,
    pub origin: Option<Origin>,
    pub agent_container_exists: bool,
    pub agent_container_is_running: bool,
    pub agent_container_name: ContainerName,
}

/// What was found of a seedling and of its agent, from what was seen of their containers. Labels
/// count only where the container is there.
pub fn discover(
    name: &Name,
    agent: ContainerPresence,
    container: ContainerPresence,
    labels: &Vec<Label>,
) -> (r: State)
    ensures
        r.container_exists == (container is Present),
        r.container_is_running == (container == ContainerPresence::Present(Status::Running)),
        r.container_name@ == container_name_of(name@),
        r.version == (if container is Present {
            version_in(labels@)
        } else {
            None
        }),
        r.origin == (if container is Present {
            origin_in(labels@)
        } else {
            None
        }),
        r.agent_container_exists == (agent is Present),
        r.agent_container_is_running == (agent == ContainerPresence::Present(Status::Running)),
        r.agent_container_name@ == agent_container_name_of(name@),
{
    let there: bool = container.is_present();
    State {
        container_exists: there,
        container_is_running: container.is_running(),
        container_name: container_name(name),
        version: if there {
            match get_version(labels) {
                Ok(version) => Some(version),
                Err(_) => None,
            }
        } else {
            None
        },
        origin: if there {
            get_origin(labels)
        } else {
            None
        },
        agent_container_exists: agent.is_present(),
        agent_container_is_running: agent.is_running(),
        agent_container_name: agent_container_name(name),
    }
}

/// One step of a stop.
#[derive(Debug, PartialEq, Eq)]
pub enum Step<'a> {
    SetDesiredRunStatusToStopped { seedling_name: &'a Name },
    StopSeedling {
        seedling_name: &'a Name,
        container_name: ContainerName,
        version: Option<Version>,
    },
}

impl<'a> Step<'a> {
    /// What the step does, in words.
    pub open spec fn described(&self) -> Seq<char> {
        match self {
            Step::SetDesiredRunStatusToStopped { seedling_name } => "Setting seedling '"@
                + seedling_name@ + "' desired running status to stopped"@,
            Step::StopSeedling { seedling_name, version: Some(version), .. } =>
                "Stopping seedling '"@ + seedling_name@ + "' (v"@ + version.text() + ")"@,
            Step::StopSeedling { seedling_name, version: None, .. } => "Stopping seedling '"@
                + seedling_name@ + "'"@,
        }
    }

    /// What the step does, in words.
    pub fn describe(&self) -> (r: String)
        ensures
            r@ == self.described(),
    {
        match self {
            Step::SetDesiredRunStatusToStopped { seedling_name } => cat3(
                "Setting seedling '",
                seedling_name.as_str(),
                "' desired running status to stopped",
            ),
            Step::StopSeedling { seedling_name, version, .. } => match version {
                Some(version) => cat5(
                    "Stopping seedling '",
                    seedling_name.as_str(),
                    "' (v",
                    &version.to_text(),
                    ")",
                ),
                None => cat3("Stopping seedling '", seedling_name.as_str(), "'"),
            },
        }
    }

    /// The step's name.
    pub fn name(&self) -> (r: String)
        ensures
            r@ == (match self {
                Step::SetDesiredRunStatusToStopped { .. } =>
                    "Setting desired running state to stopped"@,
                Step::StopSeedling { .. } => "Stopping seedling"@,
            }),
    {
        match self {
            Step::SetDesiredRunStatusToStopped { .. } =>
                "Setting desired running state to stopped".to_owned(),
            Step::StopSeedling { .. } => "Stopping seedling".to_owned(),
        }
    }
}

/// Whether a stop is refused: a seedling of douglas's own is not stopped for an operator.
pub open spec fn refused(state: State, requested_by: RequestedBy) -> bool {
    state.container_exists && core_forbidden(state.origin, requested_by)
}

/// The steps of a stop: the seedling is no longer wanted running in any case, and what runs of it
/// is stopped, its own container before its agent's.
pub open spec fn planned<'a>(name: &'a Name, state: State) -> Seq<Step<'a>> {
    seq![Step::SetDesiredRunStatusToStopped { seedling_name: name }] + (if state.container_exists
        && state.container_is_running {
        seq![
            Step::StopSeedling {
                seedling_name: name,
                container_name: state.container_name,
                version: state.version,
            },
        ]
    } else {
        Seq::empty()
    }) + (if state.agent_container_is_running {
        seq![
            Step::StopSeedling {
                seedling_name: name,
                container_name: state.agent_container_name,
                version: None,
            },
        ]
    } else {
        Seq::empty()
    })
}

/// Plans the stop of a seedling, or refuses it.
pub fn create_plan<'a>(name: &'a Name, state: State, requested_by: RequestedBy) -> (r: Result<
    Vec<Step<'a>>,
    StopSeedlingError,
>)
    ensures
        if refused(state, requested_by) {
            r matches Err(StopSeedlingError::CoreSeedling(text)) && text@ == name@
        } else {
            r matches Ok(steps) && steps@ == planned(name, state)
        },
{
    let ghost given = state;
    if state.container_exists && core_seedling_forbidden_for(state.origin, requested_by) {
        return Err(StopSeedlingError::CoreSeedling(name.to_text()));
    }
    let mut steps: Vec<Step<'a>> = Vec::new();
    steps.push(Step::SetDesiredRunStatusToStopped { seedling_name: name });
    if state.container_exists && state.container_is_running {
        steps.push(
            Step::StopSeedling {
                seedling_name: name,
                container_name: state.container_name,
                version: state.version,
            },
        );
    }
    if state.agent_container_is_running {
        steps.push(
            Step::StopSeedling {
                seedling_name: name,
                container_name: state.agent_container_name,
                version: None,
            },
        );
    }
    assert(steps@ =~= planned(name, given));
    Ok(steps)
}

/// A stop that is not refused always makes the seedling unwanted before anything else, so that
/// nothing starts it again while it is being stopped.
pub proof fn law_a_stop_is_remembered_first<'a>(name: &'a Name, state: State)
    ensures
        planned(name, state).len() >= 1,
        planned(name, state)[0] == (Step::SetDesiredRunStatusToStopped { seedling_name: name }),
{
}

/// The watchdog is never refused.
pub proof fn law_the_watchdog_may_stop_anything(state: State)
    ensures
        !refused(state, RequestedBy::Watchdog),
{
}

/// A stop stops what runs, and nothing else: the seedling's own container where it is there and
/// runs, and its agent's container where that runs. In any case the seedling is no longer wanted
/// running.
pub proof fn law_stops_stop_what_runs<'a>(name: &'a Name, state: State, step: Step<'a>)
    ensures
        planned(name, state).contains(step) == (match step {
            Step::SetDesiredRunStatusToStopped { seedling_name } => seedling_name == name,
            Step::StopSeedling { seedling_name, container_name, version } => {
                seedling_name == name && ((state.container_exists && state.container_is_running
                    && container_name == state.container_name && version == state.version) || (
                state.agent_container_is_running && container_name == state.agent_container_name
                    && version is None))
            },
        }),
        planned(name, state).len() == 1 + (if state.container_exists && state.container_is_running {
            1int
        } else {
            0
        }) + (if state.agent_container_is_running {
            1int
        } else {
            0
        }),
{
    let plan = planned(name, state);
    assert(plan.contains(plan[0]));
    assert(plan.len() > 1 ==> plan.contains(plan[1]));
    assert(plan.len() > 2 ==> plan.contains(plan[2]));
}

/// The agent is stopped after the seedling that it serves.
pub proof fn law_agents_are_stopped_last<'a>(name: &'a Name, state: State)
    requires
        state.agent_container_is_running,
    ensures
        planned(name, state).last() == (Step::StopSeedling {
            seedling_name: name,
            container_name: state.agent_container_name,
            version: None,
        }),
{
}

/// A stop is refused only of a seedling of douglas's own that is there, and only to an operator.
pub proof fn law_only_core_seedlings_are_kept_running(state: State, requested_by: RequestedBy)
    ensures
        refused(state, requested_by) == (state.container_exists && state.origin == Some(
            Origin::Core,
        ) && requested_by == RequestedBy::Operator),
{
}

} // verus!
