//! Dropping a seedling and everything that belongs to it.

use crate::docker::{ContainerPresence, Label};
use crate::executor::{describe_failed, failed_words, only_reason};
use crate::labels::{get_version, version_in};
use crate::names::{
    agent_container_name, agent_container_name_of, container_name, container_name_of,
    seedling_network_name, traefik, ContainerName, Name, TRAEFIK,
};
use crate::paths::{mount_of, mounts_dir_of, route_file, route_file_of, DouglasFolders};
use crate::provision_seedling_secrets::{agent_mount_dir, AGENT_MOUNT_NAME};
use crate::seedling::{Origin, Version};
use crate::sequences::{lemma_join_contains, lemma_one_contains};
use crate::text::{cat2, cat3, cat5};
use vstd::prelude::*;

verus! {

/// Why a seedling could not be dropped.
#[derive(Debug, PartialEq, Eq)]
pub enum DropSeedlingError {
    CannotDropSeedling(String),
    CoreSeedling(String),
    FailedBoostrap(Vec<String>),
}

impl DropSeedlingError {
    /// The error for a plan that could not be carried out for a reason.
    pub fn failed(reason: String) -> (r: Self)
        ensures
            r matches DropSeedlingError::FailedBoostrap(reasons) && reasons@ == seq![reason],
    {
        DropSeedlingError::FailedBoostrap(only_reason(reason))
    }

    /// The error in words.
    pub fn describe(&self) -> (r: String)
        ensures
            r@ == (match self {
                DropSeedlingError::CannotDropSeedling(reason) => "Cannot drop seedling "@ + reason@,
                DropSeedlingError::CoreSeedling(name) => "Cannot drop seedling "@ + name@
                    + ": it is a core seedling managed by douglas"@,
                DropSeedlingError::FailedBoostrap(reasons) => failed_words(reasons@),
            }),
    {
        match self {
            DropSeedlingError::CannotDropSeedling(reason) => cat2("Cannot drop seedling ", reason),
            DropSeedlingError::CoreSeedling(name) => cat3(
                "Cannot drop seedling ",
                name,
                ": it is a core seedling managed by douglas",
            ),
            DropSeedlingError::FailedBoostrap(reasons) => describe_failed(reasons),
        }
    }
}

/// What was found of a seedling and of what belongs to it.
#[derive(Debug, PartialEq, Eq)]
pub struct State {
    pub container_exists: bool,
    pub container_is_stopped: bool,
    pub container_name: ContainerName,
    pub version: Option<Version>,
    pub origin: Option<Origin>,
    pub network_exists: bool,
    pub seedbank_entry_exists: bool,
    pub route_exists: bool,
    pub mounts_dir_exists: bool,
    pub agent_container_exists: bool,
    pub agent_container_is_stopped: bool,
    pub agent_container_name: ContainerName,
    pub agent_mount_is_ram_disk: bool,
}

/// Whom a seedling belongs to: what its declaration says, where there is one.
pub fn determine_origin(seedbank_entry_exists: bool, declared: Option<Origin>) -> (r: Option<Origin>)
    ensures
        r == (if seedbank_entry_exists {
            declared
        } else {
            None
        }),
{
    if seedbank_entry_exists {
        declared
    } else {
        None
    }
}

/// What was looked at before a seedling is dropped.
#[derive(Debug, PartialEq, Eq)]
pub struct Observations {
    pub seedbank_entry_exists: bool,
    pub declared_origin: Option<Origin>,
    pub route_exists: bool,
    pub mounts_dir_exists: bool,
    pub agent_mount_is_ram_disk: bool,
    pub network_exists: bool,
    pub agent: ContainerPresence,
    pub container: ContainerPresence,
    pub labels: Vec<Label>,
}

/// What was found of a seedling, from everything that was looked at.
pub fn discover(name: &Name, seen: &Observations) -> (r: State)
    ensures
        r.container_exists == (seen.container is Present),
        r.container_is_stopped == seen.container.at_rest(),
        r.container_name@ == container_name_of(name@),
        r.version == (if seen.container is Present {
            version_in(seen.labels@)
        } else {
            None
        }),
        r.origin == (if seen.seedbank_entry_exists {
            seen.declared_origin
        } else {
            None
        }),
        r.network_exists == seen.network_exists,
        r.seedbank_entry_exists == seen.seedbank_entry_exists,
        r.route_exists == seen.route_exists,
        r.mounts_dir_exists == seen.mounts_dir_exists,
        r.agent_container_exists == (seen.agent is Present),
        r.agent_container_is_stopped == seen.agent.at_rest(),
        r.agent_container_name@ == agent_container_name_of(name@),
        r.agent_mount_is_ram_disk == seen.agent_mount_is_ram_disk,
{
    State {
        container_exists: seen.container.is_present(),
        container_is_stopped: seen.container.is_stopped(),
        container_name: container_name(name),
        version: if seen.container.is_present() {
            match get_version(&seen.labels) {
                Ok(version) => Some(version),
                Err(_) => None,
            }
        } else {
            None
        },
        origin: determine_origin(seen.seedbank_entry_exists, seen.declared_origin),
        network_exists: seen.network_exists,
        seedbank_entry_exists: seen.seedbank_entry_exists,
        route_exists: seen.route_exists,
        mounts_dir_exists: seen.mounts_dir_exists,
        agent_container_exists: seen.agent.is_present(),
        agent_container_is_stopped: seen.agent.is_stopped(),
        agent_container_name: agent_container_name(name),
        agent_mount_is_ram_disk: seen.agent_mount_is_ram_disk,
    }
}

/// One step of dropping a seedling.
#[derive(Debug, PartialEq, Eq)]
pub enum Step<'a> {
    RemoveTraefikRoute { seedling_name: &'a Name },
    DropSeedling {
        seedling_name: &'a Name,
        container_name: ContainerName,
        version: Option<Version>,
    },
    DeleteSeedlingNetwork { seedling_name: &'a Name },
    DeleteSeedbankEntry { seedling_name: &'a Name },
    UnmountAgentRamDisk { seedling_name: &'a Name },
    DeleteSeedlingMounts { seedling_name: &'a Name },
    ReleaseDefault { seedling_name: &'a Name },
    DeleteResinRepository { seedling_name: &'a Name },
}

impl<'a> Step<'a> {
    /// What the step does, in words.
    pub open spec fn described(&self) -> Seq<char> {
        match self {
            Step::RemoveTraefikRoute { seedling_name } => "Removing traefik route for '"@
                + seedling_name@ + "'"@,
            Step::DropSeedling { seedling_name, version: Some(version), .. } =>
                "Dropping seedling '"@ + seedling_name@ + "' (v"@ + version.text() + ")"@,
            Step::DropSeedling { seedling_name, version: None, .. } => "Dropping seedling '"@
                + seedling_name@ + "'"@,
            Step::DeleteSeedlingNetwork { seedling_name } => "Deleting network for '"@
                + seedling_name@ + "'"@,
            Step::DeleteSeedbankEntry { seedling_name } => "Deleting seedbank entry for '"@
                + seedling_name@ + "'"@,
            Step::UnmountAgentRamDisk { seedling_name } =>
                "Unmounting OpenBao agent ram disk for '"@ + seedling_name@ + "'"@,
            Step::DeleteSeedlingMounts { seedling_name } => "Deleting mounts for '"@
                + seedling_name@ + "'"@,
            Step::ReleaseDefault { seedling_name } => "Releasing default for '"@ + seedling_name@
                + "'"@,
            Step::DeleteResinRepository { seedling_name } => "Deleting resin repository for '"@
                + seedling_name@ + "'"@,
        }
    }

    /// What the step does, in words.
    pub fn describe(&self) -> (r: String)
        ensures
            r@ == self.described(),
    {
        match self {
            Step::RemoveTraefikRoute { seedling_name } => cat3(
                "Removing traefik route for '",
                seedling_name.as_str(),
                "'",
            ),
            Step::DropSeedling { seedling_name, version, .. } => match version {
                Some(version) => cat5(
                    "Dropping seedling '",
                    seedling_name.as_str(),
                    "' (v",
                    &version.to_text(),
                    ")",
                ),
                None => cat3("Dropping seedling '", seedling_name.as_str(), "'"),
            },
            Step::DeleteSeedlingNetwork { seedling_name } => cat3(
                "Deleting network for '",
                seedling_name.as_str(),
                "'",
            ),
            Step::DeleteSeedbankEntry { seedling_name } => cat3(
                "Deleting seedbank entry for '",
                seedling_name.as_str(),
                "'",
            ),
            Step::UnmountAgentRamDisk { seedling_name } => cat3(
                "Unmounting OpenBao agent ram disk for '",
                seedling_name.as_str(),
                "'",
            ),
            Step::DeleteSeedlingMounts { seedling_name } => cat3(
                "Deleting mounts for '",
                seedling_name.as_str(),
                "'",
            ),
            Step::ReleaseDefault { seedling_name } => cat3(
                "Releasing default for '",
                seedling_name.as_str(),
                "'",
            ),
            Step::DeleteResinRepository { seedling_name } => cat3(
                "Deleting resin repository for '",
                seedling_name.as_str(),
                "'",
            ),
        }
    }

    /// The step's name.
    pub fn name(&self) -> (r: String)
        ensures
            r@ == (match self {
                Step::RemoveTraefikRoute { .. } => "Removing traefik route"@,
                Step::DropSeedling { .. } => "Dropping seedling"@,
                Step::DeleteSeedlingNetwork { .. } => "Deleting network"@,
                Step::DeleteSeedbankEntry { .. } => "Deleting seedbank entry"@,
                Step::UnmountAgentRamDisk { .. } => "Unmounting OpenBao agent ram disk"@,
                Step::DeleteSeedlingMounts { .. } => "Deleting mounts"@,
                Step::ReleaseDefault { .. } => "Releasing default"@,
                Step::DeleteResinRepository { .. } => "Deleting resin repository"@,
            }),
    {
        match self {
            Step::RemoveTraefikRoute { .. } => "Removing traefik route".to_owned(),
            Step::DropSeedling { .. } => "Dropping seedling".to_owned(),
            Step::DeleteSeedlingNetwork { .. } => "Deleting network".to_owned(),
            Step::DeleteSeedbankEntry { .. } => "Deleting seedbank entry".to_owned(),
            Step::UnmountAgentRamDisk { .. } => "Unmounting OpenBao agent ram disk".to_owned(),
            Step::DeleteSeedlingMounts { .. } => "Deleting mounts".to_owned(),
            Step::ReleaseDefault { .. } => "Releasing default".to_owned(),
            Step::DeleteResinRepository { .. } => "Deleting resin repository".to_owned(),
        }
    }
}

/// Whether something of the seedling still works.
pub open spec fn is_at_work(state: State) -> bool {
    (state.container_exists && !state.container_is_stopped) || (state.agent_container_exists
        && !state.agent_container_is_stopped)
}

/// A step where there is something for it to do.
pub open spec fn only_if<'a>(needed: bool, step: Step<'a>) -> Seq<Step<'a>> {
    if needed {
        seq![step]
    } else {
        Seq::empty()
    }
}

/// The steps of dropping a seedling: nothing leads to it any more before its containers go, its
/// network goes after them, and the memory behind its agent's files before the files' folders.
pub open spec fn planned<'a>(name: &'a Name, state: State) -> Seq<Step<'a>> {
    only_if(state.route_exists, Step::RemoveTraefikRoute { seedling_name: name }) + only_if(
        state.container_exists,
        Step::DropSeedling {
            seedling_name: name,
            container_name: state.container_name,
            version: state.version,
        },
    ) + only_if(
        state.agent_container_exists,
        Step::DropSeedling {
            seedling_name: name,
            container_name: state.agent_container_name,
            version: None,
        },
    ) + only_if(state.network_exists, Step::DeleteSeedlingNetwork { seedling_name: name })
        + only_if(
        state.seedbank_entry_exists,
        Step::DeleteSeedbankEntry { seedling_name: name },
    ) + only_if(
        state.agent_mount_is_ram_disk,
        Step::UnmountAgentRamDisk { seedling_name: name },
    ) + only_if(state.mounts_dir_exists, Step::DeleteSeedlingMounts { seedling_name: name }) + seq![
        Step::ReleaseDefault { seedling_name: name },
        Step::DeleteResinRepository { seedling_name: name },
    ]
}

fn push_if<'a>(steps: &mut Vec<Step<'a>>, needed: bool, step: Step<'a>)
    ensures
        final(steps)@ == old(steps)@ + only_if(needed, step),
{
    if needed {
        steps.push(step);
    }
    assert(steps@ =~= old(steps)@ + only_if(needed, step));
}

/// Plans the dropping of a seedling. One of douglas's own, and one that is not stopped, is refused.
pub fn create_plan<'a>(name: &'a Name, state: State) -> (r: Result<
    Vec<Step<'a>>,
    DropSeedlingError,
>)
    ensures
        if state.origin == Some(Origin::Core) {
            r matches Err(DropSeedlingError::CoreSeedling(text)) && text@ == name@
        } else if is_at_work(state) {
            r matches Err(DropSeedlingError::CannotDropSeedling(text)) && text@
                == "Seedling is not stopped"@
        } else {
            r matches Ok(steps) && steps@ == planned(name, state)
        },
{
    if let Some(Origin::Core) = state.origin {
        return Err(DropSeedlingError::CoreSeedling(name.to_text()));
    }
    if (state.container_exists && !state.container_is_stopped) || (state.agent_container_exists
        && !state.agent_container_is_stopped) {
        return Err(DropSeedlingError::CannotDropSeedling("Seedling is not stopped".to_owned()));
    }
    let mut steps: Vec<Step<'a>> = Vec::new();
    push_if(&mut steps, state.route_exists, Step::RemoveTraefikRoute { seedling_name: name });
    push_if(
        &mut steps,
        state.container_exists,
        Step::DropSeedling {
            seedling_name: name,
            container_name: state.container_name,
            version: state.version,
        },
    );
    push_if(
        &mut steps,
        state.agent_container_exists,
        Step::DropSeedling {
            seedling_name: name,
            container_name: state.agent_container_name,
            version: None,
        },
    );
    push_if(&mut steps, state.network_exists, Step::DeleteSeedlingNetwork { seedling_name: name });
    push_if(
        &mut steps,
        state.seedbank_entry_exists,
        Step::DeleteSeedbankEntry { seedling_name: name },
    );
    push_if(
        &mut steps,
        state.agent_mount_is_ram_disk,
        Step::UnmountAgentRamDisk { seedling_name: name },
    );
    push_if(
        &mut steps,
        state.mounts_dir_exists,
        Step::DeleteSeedlingMounts { seedling_name: name },
    );
    let ghost before = steps@;
    steps.push(Step::ReleaseDefault { seedling_name: name });
    steps.push(Step::DeleteResinRepository { seedling_name: name });
    assert(steps@ =~= before + seq![
        Step::ReleaseDefault { seedling_name: name },
        Step::DeleteResinRepository { seedling_name: name },
    ]);
    Ok(steps)
}

/// Memory behind an agent's files is given back before their folders are deleted.
pub proof fn law_ram_disks_are_unmounted_before_mounts_go<'a>(name: &'a Name, state: State)
    requires
        state.agent_mount_is_ram_disk,
        state.mounts_dir_exists,
    ensures
        exists|i: int|
            0 <= i < planned(name, state).len() - 1 && #[trigger] planned(name, state)[i]
                is UnmountAgentRamDisk && planned(name, state)[i + 1] is DeleteSeedlingMounts,
{
    let plan = planned(name, state);
    let i = plan.len() - 4;
    assert(plan[i] is UnmountAgentRamDisk);
    assert(plan[i + 1] is DeleteSeedlingMounts);
}

/// However much of a seedling is gone already, its claim to the default host and its repository
/// are given up at the end.
pub proof fn law_dropping_always_releases<'a>(name: &'a Name, state: State)
    ensures
        planned(name, state).len() >= 2,
        planned(name, state)[planned(name, state).len() - 2] == (Step::ReleaseDefault {
            seedling_name: name,
        }),
        planned(name, state).last() == (Step::DeleteResinRepository { seedling_name: name }),
{
}

/// What a step does.
#[derive(Debug, PartialEq, Eq)]
pub enum DropAction<'a> {
    DisconnectNetwork { network: ContainerName, container: ContainerName },
    DeleteFile(String),
    DeleteContainer(&'a ContainerName),
    DeleteNetwork(ContainerName),
    DeleteSeedbankEntry(&'a Name),
    UnmountRamDisk(String),
    DeleteFolder(String),
    ReleaseDefault(&'a Name),
    DeleteRepository(&'a Name),
}

/// What a step does, in texts.
pub enum DropActionView {
    DisconnectNetwork { network: Seq<char>, container: Seq<char> },
    DeleteFile(Seq<char>),
    DeleteContainer(Seq<char>),
    DeleteNetwork(Seq<char>),
    DeleteSeedbankEntry(Seq<char>),
    UnmountRamDisk(Seq<char>),
    DeleteFolder(Seq<char>),
    ReleaseDefault(Seq<char>),
    DeleteRepository(Seq<char>),
}

impl<'a> View for DropAction<'a> {
    type V = DropActionView;

    open spec fn view(&self) -> DropActionView {
        match self {
            DropAction::DisconnectNetwork { network, container } =>
                DropActionView::DisconnectNetwork { network: network@, container: container@ },
            DropAction::DeleteFile(path) => DropActionView::DeleteFile(path@),
            DropAction::DeleteContainer(name) => DropActionView::DeleteContainer(name@),
            DropAction::DeleteNetwork(name) => DropActionView::DeleteNetwork(name@),
            DropAction::DeleteSeedbankEntry(name) => DropActionView::DeleteSeedbankEntry(name@),
            DropAction::UnmountRamDisk(path) => DropActionView::UnmountRamDisk(path@),
            DropAction::DeleteFolder(path) => DropActionView::DeleteFolder(path@),
            DropAction::ReleaseDefault(name) => DropActionView::ReleaseDefault(name@),
            DropAction::DeleteRepository(name) => DropActionView::DeleteRepository(name@),
        }
    }
}

/// What a step does, in order. To remove a route, traefik leaves the seedling's network before the
/// route file is deleted.
pub open spec fn actions_of(root: Seq<char>, step: Step) -> Seq<DropActionView> {
    match step {
        Step::RemoveTraefikRoute { seedling_name } => seq![
            DropActionView::DisconnectNetwork {
                network: container_name_of(seedling_name@),
                container: container_name_of(TRAEFIK@),
            },
            DropActionView::DeleteFile(route_file_of(root, seedling_name@)),
        ],
        Step::DropSeedling { container_name, .. } => seq![
            DropActionView::DeleteContainer(container_name@),
        ],
        Step::DeleteSeedlingNetwork { seedling_name } => seq![
            DropActionView::DeleteNetwork(container_name_of(seedling_name@)),
        ],
        Step::DeleteSeedbankEntry { seedling_name } => seq![
            DropActionView::DeleteSeedbankEntry(seedling_name@),
        ],
        Step::UnmountAgentRamDisk { seedling_name } => seq![
            DropActionView::UnmountRamDisk(mount_of(root, seedling_name@, AGENT_MOUNT_NAME@)),
        ],
        Step::DeleteSeedlingMounts { seedling_name } => seq![
            DropActionView::DeleteFolder(mounts_dir_of(root, seedling_name@)),
        ],
        Step::ReleaseDefault { seedling_name } => seq![
            DropActionView::ReleaseDefault(seedling_name@),
        ],
        Step::DeleteResinRepository { seedling_name } => seq![
            DropActionView::DeleteRepository(seedling_name@),
        ],
    }
}

/// What a step does, in order. The first failure fails the step.
pub fn run<'a>(folders: &DouglasFolders, step: &'a Step<'a>) -> (r: Vec<DropAction<'a>>)
    ensures
        r@.map_values(|action: DropAction<'a>| action@) == actions_of(
            folders.seedlings_root@,
            *step,
        ),
{
    let actions: Vec<DropAction<'a>> = match step {
        Step::RemoveTraefikRoute { seedling_name } => vec![
            DropAction::DisconnectNetwork {
                network: seedling_network_name(seedling_name),
                container: container_name(&traefik()),
            },
            DropAction::DeleteFile(route_file(folders, seedling_name)),
        ],
        Step::DropSeedling { container_name, .. } => vec![
            DropAction::DeleteContainer(container_name),
        ],
        Step::DeleteSeedlingNetwork { seedling_name } => vec![
            DropAction::DeleteNetwork(seedling_network_name(seedling_name)),
        ],
        Step::DeleteSeedbankEntry { seedling_name } => vec![
            DropAction::DeleteSeedbankEntry(seedling_name),
        ],
        Step::UnmountAgentRamDisk { seedling_name } => vec![
            DropAction::UnmountRamDisk(agent_mount_dir(folders, seedling_name)),
        ],
        Step::DeleteSeedlingMounts { seedling_name } => vec![
            DropAction::DeleteFolder(folders.seedling_mounts_dir(seedling_name.as_str())),
        ],
        Step::ReleaseDefault { seedling_name } => vec![DropAction::ReleaseDefault(seedling_name)],
        Step::DeleteResinRepository { seedling_name } => vec![
            DropAction::DeleteRepository(seedling_name),
        ],
    };
    assert(actions@.map_values(|action: DropAction<'a>| action@) =~= actions_of(
        folders.seedlings_root@,
        *step,
    ));
    actions
}

/// Dropping takes away what is there, and nothing else: the route, the seedling's own container,
/// its agent's container, the network, the declaration, the memory behind the agent's files and the
/// mounts, each exactly where it was found. The claim to the default host and the repository are
/// given up in any case.
#[verifier::spinoff_prover]
pub proof fn law_drops_take_away_what_is_there<'a>(name: &'a Name, state: State, step: Step<'a>)
    ensures
        planned(name, state).contains(step) == (match step {
            Step::RemoveTraefikRoute { seedling_name } => {
                state.route_exists && seedling_name == name
            },
            Step::DropSeedling { seedling_name, container_name, version } => {
                seedling_name == name && ((state.container_exists && container_name
                    == state.container_name && version == state.version) || (
                state.agent_container_exists && container_name == state.agent_container_name
                    && version is None))
            },
            Step::DeleteSeedlingNetwork { seedling_name } => {
                state.network_exists && seedling_name == name
            },
            Step::DeleteSeedbankEntry { seedling_name } => {
                state.seedbank_entry_exists && seedling_name == name
            },
            Step::UnmountAgentRamDisk { seedling_name } => {
                state.agent_mount_is_ram_disk && seedling_name == name
            },
            Step::DeleteSeedlingMounts { seedling_name } => {
                state.mounts_dir_exists && seedling_name == name
            },
            Step::ReleaseDefault { seedling_name } => seedling_name == name,
            Step::DeleteResinRepository { seedling_name } => seedling_name == name,
        }),
{
    let route = only_if(state.route_exists, Step::RemoveTraefikRoute { seedling_name: name });
    let own = Step::DropSeedling {
        seedling_name: name,
        container_name: state.container_name,
        version: state.version,
    };
    let agents = Step::DropSeedling {
        seedling_name: name,
        container_name: state.agent_container_name,
        version: None,
    };
    let network = Step::DeleteSeedlingNetwork { seedling_name: name };
    let entry = Step::DeleteSeedbankEntry { seedling_name: name };
    let memory = Step::UnmountAgentRamDisk { seedling_name: name };
    let mounts = Step::DeleteSeedlingMounts { seedling_name: name };
    lemma_only_if_contains(state.route_exists, Step::RemoveTraefikRoute { seedling_name: name }, step);
    let s = lemma_then(route, state.container_exists, own, step);
    let s = lemma_then(s, state.agent_container_exists, agents, step);
    let s = lemma_then(s, state.network_exists, network, step);
    let s = lemma_then(s, state.seedbank_entry_exists, entry, step);
    let s = lemma_then(s, state.agent_mount_is_ram_disk, memory, step);
    let s = lemma_then(s, state.mounts_dir_exists, mounts, step);
    let release = Step::ReleaseDefault { seedling_name: name };
    let repository = Step::DeleteResinRepository { seedling_name: name };
    lemma_two_more(s, release, repository);
    let s = lemma_then(s, true, release, step);
    let s = lemma_then(s, true, repository, step);
}

proof fn lemma_only_if_contains<'a>(needed: bool, only: Step<'a>, step: Step<'a>)
    ensures
        only_if(needed, only).contains(step) == (needed && step == only),
{
    lemma_one_contains(only, step);
}

proof fn lemma_then<'a>(s: Seq<Step<'a>>, needed: bool, only: Step<'a>, step: Step<'a>) -> (t: Seq<
    Step<'a>,
>)
    ensures
        t == s + only_if(needed, only),
        t.contains(step) == (s.contains(step) || (needed && step == only)),
{
    lemma_only_if_contains(needed, only, step);
    lemma_join_contains(s, only_if(needed, only), step);
    s + only_if(needed, only)
}

/// Each thing that is there is taken away once: there are as many steps as things.
pub proof fn law_drops_take_things_away_once<'a>(name: &'a Name, state: State)
    ensures
        planned(name, state).len() == 2 + (if state.route_exists {
            1int
        } else {
            0
        }) + (if state.container_exists {
            1int
        } else {
            0
        }) + (if state.agent_container_exists {
            1int
        } else {
            0
        }) + (if state.network_exists {
            1int
        } else {
            0
        }) + (if state.seedbank_entry_exists {
            1int
        } else {
            0
        }) + (if state.agent_mount_is_ram_disk {
            1int
        } else {
            0
        }) + (if state.mounts_dir_exists {
            1int
        } else {
            0
        }),
{
}

/// The place of a step in a drop.
pub open spec fn rank<'a>(step: Step<'a>) -> int {
    match step {
        Step::RemoveTraefikRoute { .. } => 0,
        Step::DropSeedling { .. } => 1,
        Step::DeleteSeedlingNetwork { .. } => 2,
        Step::DeleteSeedbankEntry { .. } => 3,
        Step::UnmountAgentRamDisk { .. } => 4,
        Step::DeleteSeedlingMounts { .. } => 5,
        Step::ReleaseDefault { .. } => 6,
        Step::DeleteResinRepository { .. } => 7,
    }
}

/// A drop goes from the outside in: the route first, then the containers, the network that they
/// were in, the declaration, the memory behind the agent's files, the mounts, the claim to the
/// default host and the repository. Only of containers there can be two.
pub proof fn law_drops_go_from_the_outside_in<'a>(name: &'a Name, state: State, i: int, j: int)
    requires
        0 <= i < j < planned(name, state).len(),
    ensures
        rank(planned(name, state)[i]) <= rank(planned(name, state)[j]),
        rank(planned(name, state)[i]) == rank(planned(name, state)[j]) ==> planned(name, state)[i]
            == (Step::DropSeedling {
            seedling_name: name,
            container_name: state.container_name,
            version: state.version,
        }) && planned(name, state)[j] == (Step::DropSeedling {
            seedling_name: name,
            container_name: state.agent_container_name,
            version: None,
        }),
{
    let a = lemma_first_half_climbs(name, state);
    let b = lemma_second_half_climbs(name, state, a);
    let plan = planned(name, state);
    if j < a.len() {
        assert(plan[i] == a[i] && plan[j] == a[j]);
        assert(rank(a[i]) < rank(a[j]));
    } else if i >= a.len() {
        assert(plan[i] == b[i - a.len()] && plan[j] == b[j - a.len()]);
        assert(rank(b[i - a.len()]) < rank(b[j - a.len()]));
    } else {
        assert(plan[i] == a[i] && plan[j] == b[j - a.len()]);
        assert(rank(a[i]) <= 1);
        assert(rank(b[j - a.len()]) >= 1);
    }
}

proof fn lemma_first_half_climbs<'a>(name: &'a Name, state: State) -> (a: Seq<Step<'a>>)
    ensures
        a == only_if(state.route_exists, Step::RemoveTraefikRoute { seedling_name: name })
            + only_if(
            state.container_exists,
            Step::DropSeedling {
                seedling_name: name,
                container_name: state.container_name,
                version: state.version,
            },
        ),
        climbing(a),
        forall|i: int|
            0 <= i < a.len() ==> #[trigger] rank(a[i]) <= 1 && (rank(a[i]) == 1 ==> a[i] == (
            Step::DropSeedling {
                seedling_name: name,
                container_name: state.container_name,
                version: state.version,
            })),
{
    only_if(state.route_exists, Step::RemoveTraefikRoute { seedling_name: name }) + only_if(
        state.container_exists,
        Step::DropSeedling {
            seedling_name: name,
            container_name: state.container_name,
            version: state.version,
        },
    )
}

proof fn lemma_two_more<'a>(s: Seq<Step<'a>>, x: Step<'a>, y: Step<'a>)
    ensures
        s + seq![x] + seq![y] == s + seq![x, y],
{
    assert(s + seq![x] + seq![y] =~= s + seq![x, y]);
}

proof fn lemma_second_half_climbs<'a>(name: &'a Name, state: State, a: Seq<Step<'a>>) -> (b: Seq<
    Step<'a>,
>)
    requires
        a == only_if(state.route_exists, Step::RemoveTraefikRoute { seedling_name: name })
            + only_if(
            state.container_exists,
            Step::DropSeedling {
                seedling_name: name,
                container_name: state.container_name,
                version: state.version,
            },
        ),
    ensures
        planned(name, state) == a + b,
        climbing(b),
        forall|i: int|
            0 <= i < b.len() ==> #[trigger] rank(b[i]) >= 1 && (rank(b[i]) == 1 ==> b[i] == (
            Step::DropSeedling {
                seedling_name: name,
                container_name: state.agent_container_name,
                version: None,
            })),
{
    let agents = Step::DropSeedling {
        seedling_name: name,
        container_name: state.agent_container_name,
        version: None,
    };
    let release = Step::ReleaseDefault { seedling_name: name };
    let repository = Step::DeleteResinRepository { seedling_name: name };
    let b = only_if(state.agent_container_exists, agents);
    assert(climbs_to(b, agents, 1)) by {
        reveal(climbs_to);
    }
    let b = lemma_climbs(
        a,
        b,
        agents,
        state.network_exists,
        Step::DeleteSeedlingNetwork { seedling_name: name },
    );
    let b = lemma_climbs(
        a,
        b,
        agents,
        state.seedbank_entry_exists,
        Step::DeleteSeedbankEntry { seedling_name: name },
    );
    let b = lemma_climbs(
        a,
        b,
        agents,
        state.agent_mount_is_ram_disk,
        Step::UnmountAgentRamDisk { seedling_name: name },
    );
    let b = lemma_climbs(
        a,
        b,
        agents,
        state.mounts_dir_exists,
        Step::DeleteSeedlingMounts { seedling_name: name },
    );
    let before = a + b;
    let b = lemma_climbs(a, b, agents, true, release);
    let b = lemma_climbs(a, b, agents, true, repository);
    lemma_two_more(before, release, repository);
    reveal(climbs_to);
    b
}

/// Whether every step has its place behind all that come before it.
pub open spec fn climbing<'a>(steps: Seq<Step<'a>>) -> bool {
    forall|i: int, j: int|
        0 <= i < j < steps.len() ==> #[trigger] rank(steps[i]) < #[trigger] rank(steps[j])
}

/// Whether the steps climb to at most a place, and only one of them can be there for containers.
#[verifier::opaque]
pub open spec fn climbs_to<'a>(steps: Seq<Step<'a>>, only: Step<'a>, high: int) -> bool {
    &&& climbing(steps)
    &&& forall|i: int|
        0 <= i < steps.len() ==> 1 <= #[trigger] rank(steps[i]) <= high && (rank(steps[i]) == 1
            ==> steps[i] == only)
}

proof fn lemma_climbs<'a>(
    a: Seq<Step<'a>>,
    s: Seq<Step<'a>>,
    only: Step<'a>,
    needed: bool,
    step: Step<'a>,
) -> (t: Seq<Step<'a>>)
    requires
        rank(step) > 1,
        climbs_to(s, only, rank(step) - 1),
    ensures
        t == s + only_if(needed, step),
        a + t == a + s + only_if(needed, step),
        climbs_to(t, only, rank(step)),
{
    reveal(climbs_to);
    let t = s + only_if(needed, step);
    assert(a + t =~= a + s + only_if(needed, step));
    assert forall|i: int| 0 <= i < t.len() implies 1 <= #[trigger] rank(t[i]) <= rank(step) && (
    rank(t[i]) == 1 ==> t[i] == only) by {
        if i < s.len() {
            assert(rank(s[i]) < rank(step));
        }
    }
    assert forall|i: int, j: int| 0 <= i < j < t.len() implies #[trigger] rank(t[i])
        < #[trigger] rank(t[j]) by {
        assert(t[i] == s[i]);
        assert(rank(s[i]) < rank(step));
        if j < s.len() {
            assert(t[j] == s[j]);
            assert(rank(s[i]) < rank(s[j]));
        }
    }
    t
}

/// What a drop does keeps to the seedling: it deletes no container but the seedling's own and its
/// agent's, no network but the seedling's, no file but its route file, no folder but that of its
/// mounts, and no declaration, claim or repository but its own. Nothing but traefik is taken off
/// the seedling's network.
pub proof fn law_drops_keep_to_the_seedling<'a>(
    root: Seq<char>,
    name: &'a Name,
    state: State,
    i: int,
    k: int,
)
    requires
        0 <= i < planned(name, state).len(),
        0 <= k < actions_of(root, planned(name, state)[i]).len(),
    ensures
        match actions_of(root, planned(name, state)[i])[k] {
            DropActionView::DisconnectNetwork { network, container } => network == "doug."@ + name@
                && container == "doug."@ + "traefik"@,
            DropActionView::DeleteFile(path) => path == route_file_of(root, name@),
            DropActionView::DeleteContainer(container) => (state.container_exists && container
                == state.container_name@) || (state.agent_container_exists && container
                == state.agent_container_name@),
            DropActionView::DeleteNetwork(network) => network == "doug."@ + name@,
            DropActionView::DeleteSeedbankEntry(entry) => entry == name@,
            DropActionView::UnmountRamDisk(path) => path == mount_of(
                root,
                name@,
                "openbao-agent"@,
            ),
            DropActionView::DeleteFolder(path) => path == mounts_dir_of(root, name@),
            DropActionView::ReleaseDefault(claimant) => claimant == name@,
            DropActionView::DeleteRepository(repository) => repository == name@,
        },
{
    let step = planned(name, state)[i];
    assert(planned(name, state).contains(step));
    law_drops_take_away_what_is_there(name, state, step);
}

/// Every step of a drop does its work: a route is removed by taking traefik off the network and
/// then deleting the file, and every other step deletes, unmounts or gives up the one thing that it
/// is there for.
pub proof fn law_steps_of_a_drop_do_their_work<'a>(root: Seq<char>, step: Step<'a>)
    ensures
        match step {
            Step::RemoveTraefikRoute { seedling_name } => {
                &&& actions_of(root, step).len() == 2
                &&& actions_of(root, step)[0] is DisconnectNetwork
                &&& actions_of(root, step)[1] == DropActionView::DeleteFile(
                    route_file_of(root, seedling_name@),
                )
            },
            Step::DropSeedling { container_name, .. } => actions_of(root, step) == seq![
                DropActionView::DeleteContainer(container_name@),
            ],
            Step::DeleteSeedlingNetwork { .. } => actions_of(root, step).len() == 1 && actions_of(
                root,
                step,
            )[0] is DeleteNetwork,
            Step::DeleteSeedbankEntry { .. } => actions_of(root, step).len() == 1 && actions_of(
                root,
                step,
            )[0] is DeleteSeedbankEntry,
            Step::UnmountAgentRamDisk { .. } => actions_of(root, step).len() == 1 && actions_of(
                root,
                step,
            )[0] is UnmountRamDisk,
            Step::DeleteSeedlingMounts { .. } => actions_of(root, step).len() == 1 && actions_of(
                root,
                step,
            )[0] is DeleteFolder,
            Step::ReleaseDefault { .. } => actions_of(root, step).len() == 1 && actions_of(
                root,
                step,
            )[0] is ReleaseDefault,
            Step::DeleteResinRepository { .. } => actions_of(root, step).len() == 1 && actions_of(
                root,
                step,
            )[0] is DeleteRepository,
        },
{
}

/// A seedling is at work exactly while its container or its agent's is there and not stopped; one
/// whose containers are gone or stopped is not.
pub proof fn law_anything_that_is_not_stopped_is_at_work(state: State)
    ensures
        state.container_exists && !state.container_is_stopped ==> is_at_work(state),
        state.agent_container_exists && !state.agent_container_is_stopped ==> is_at_work(state),
        (!state.container_exists || state.container_is_stopped) && (!state.agent_container_exists
            || state.agent_container_is_stopped) ==> !is_at_work(state),
{
}

} // verus!
