//! Starting a seedling: whether it can be started, and what starting it takes.

use crate::docker::{ContainerPresence, Ipv4, Label, Status};
use crate::executor::{describe_failed, failed_words, only_reason};
use crate::labels::{get_origin, origin_in};
use crate::modes::{Modes, EXPECTED_MOUNT_MODE};
use crate::names::{ContainerName, Name};
use crate::provision_seedling_secrets::AGENT_LOCAL_PROXY_PORT;
use crate::reconcile_discovery::{same_bytes, ContentObservation};
use crate::rolodex::ServiceAccount;
use crate::script::Instruction;
use crate::seedling::{
    core_forbidden, core_seedling_forbidden_for, HealthCheck, MountContents, NamedMount, Origin,
    RequestedBy, Version,
};
use crate::text::{cat2, cat3, cat5, decimal, decimal_text, same_text};
use vstd::prelude::*;

verus! {

/// The exit code of a health check that passed.
pub const EXIT_CODE_SUCCESS: i32 = 0;

/// How long a health check may take.
pub const HEALTH_CHECK_TIMEOUT_SECONDS: u64 = 10;

/// How long to wait before a running health check is looked at again.
pub const HEALTH_CHECK_POLL_INTERVAL_MILLIS: u64 = 500;

/// Why a seedling could not be started.
#[derive(Debug, PartialEq, Eq)]
pub enum StartSeedlingError {
    CannotStartSeedling(String),
    CoreSeedling(String),
    FailedToStart,
    FailedBoostrap(Vec<String>),
}

impl StartSeedlingError {
    /// The error for a plan that could not be carried out for a reason.
    pub fn failed(reason: String) -> (r: Self)
        ensures
            r matches StartSeedlingError::FailedBoostrap(reasons) && reasons@ == seq![reason],
    {
        StartSeedlingError::FailedBoostrap(only_reason(reason))
    }

    /// The error in words.
    pub open spec fn text(&self) -> Seq<char> {
        match self {
            StartSeedlingError::CannotStartSeedling(reason) => "Cannot start seedling "@ + reason@,
            StartSeedlingError::CoreSeedling(name) => "Cannot start seedling "@ + name@
                + ": it is a core seedling managed by douglas"@,
            StartSeedlingError::FailedToStart => "Seedling start failed"@,
            StartSeedlingError::FailedBoostrap(reasons) => failed_words(reasons@),
        }
    }

    /// The error in words.
    pub fn describe(&self) -> (r: String)
        ensures
            r@ == self.text(),
    {
        match self {
            StartSeedlingError::CannotStartSeedling(reason) => cat2(
                "Cannot start seedling ",
                reason,
            ),
            StartSeedlingError::CoreSeedling(name) => cat3(
                "Cannot start seedling ",
                name,
                ": it is a core seedling managed by douglas",
            ),
            StartSeedlingError::FailedToStart => "Seedling start failed".to_owned(),
            StartSeedlingError::FailedBoostrap(reasons) => describe_failed(reasons),
        }
    }
}

/// How ready a seedling's container is.
#[derive(Debug, Clone, Copy, PartialEq, Eq, Structural)]
pub enum Readiness {
    MountsNotInitialized,
    Stopped,
    Running,
}

/// What was found of a seedling that has a container.
#[derive(Debug, Clone, Copy, PartialEq, Eq, Structural)]
pub struct Found {
    pub version: Version,
    pub origin: Option<Origin>,
    pub has_health_check_failure: bool,
    pub readiness: Readiness,
}

/// How far a seedling is from being started.
#[derive(Debug, Clone, Copy, PartialEq, Eq, Structural)]
pub enum Condition {
    Undefined,
    MissingCredentials,
    GaveUp,
    MissingImage,
    MissingContainer,
    Container(Found),
}

/// What was found of a seedling and of its agent.
#[derive(Debug, PartialEq, Eq)]
pub struct State {
    pub agent_container: ContainerPresence,
    pub agent_container_name: ContainerName,
    pub container_name: ContainerName,
    pub seedling: Condition,
}

/// What is known so far of a seedling that is to be started.
#[derive(Debug, PartialEq, Eq)]
pub struct Knowledge {
    /// Whether the seedbank has it.
    pub defined: Option<bool>,
    /// Whether it has an account.
    pub has_account: Option<bool>,
    /// Whether it has failed health checks, and if so, too many of them.
    pub health_log: Option<Option<bool>>,
    /// The version of its declaration.
    pub version: Option<Version>,
    pub image_exists: Option<bool>,
    pub container_exists: Option<bool>,
    pub labels: Option<Vec<Label>>,
    pub mounts_are_initialized: Option<bool>,
    pub status: Option<Status>,
}

/// What is to be found out next.
#[derive(Debug, Clone, Copy, PartialEq, Eq, Structural)]
pub enum Question {
    IsDefined,
    HasAccount,
    HealthLog,
    Load,
    ImageExists,
    ContainerExists,
    Labels,
    MountsAreInitialized,
    Status,
}

/// What is to be found out next, or what is known.
#[derive(Debug, Clone, Copy, PartialEq, Eq, Structural)]
pub enum Discovery {
    Ask(Question),
    Known(Condition),
}

/// Whether the watchdog gives up on a seedling: an operator never does.
pub open spec fn gives_up(health_log: Option<bool>, requested_by: RequestedBy) -> bool {
    requested_by == RequestedBy::Watchdog && health_log == Some(true)
}

/// What is to be found out next about a seedling. Each question is asked only where everything
/// before it went well.
pub open spec fn discovered(k: Knowledge, requested_by: RequestedBy) -> Discovery {
    if k.defined is None {
        Discovery::Ask(Question::IsDefined)
    } else if k.defined == Some(false) {
        Discovery::Known(Condition::Undefined)
    } else if k.has_account is None {
        Discovery::Ask(Question::HasAccount)
    } else if k.has_account == Some(false) {
        Discovery::Known(Condition::MissingCredentials)
    } else if k.health_log is None {
        Discovery::Ask(Question::HealthLog)
    } else if gives_up(k.health_log->0, requested_by) {
        Discovery::Known(Condition::GaveUp)
    } else if k.version is None {
        Discovery::Ask(Question::Load)
    } else if k.image_exists is None {
        Discovery::Ask(Question::ImageExists)
    } else if k.image_exists == Some(false) {
        Discovery::Known(Condition::MissingImage)
    } else if k.container_exists is None {
        Discovery::Ask(Question::ContainerExists)
    } else if k.container_exists == Some(false) {
        Discovery::Known(Condition::MissingContainer)
    } else if k.labels is None {
        Discovery::Ask(Question::Labels)
    } else if k.mounts_are_initialized is None {
        Discovery::Ask(Question::MountsAreInitialized)
    } else if k.mounts_are_initialized == Some(true) && k.status is None {
        Discovery::Ask(Question::Status)
    } else {
        Discovery::Known(
            Condition::Container(
                Found {
                    version: k.version->0,
                    origin: origin_in(k.labels->0@),
                    has_health_check_failure: k.health_log->0 is Some,
                    readiness: if k.mounts_are_initialized == Some(false) {
                        Readiness::MountsNotInitialized
                    } else if k.status == Some(Status::Running) {
                        Readiness::Running
                    } else {
                        Readiness::Stopped
                    },
                },
            ),
        )
    }
}

/// What is to be found out next about a seedling that is to be started, or how far it is from it.
pub fn discover_seedling(k: &Knowledge, requested_by: RequestedBy) -> (r: Discovery)
    ensures
        r == discovered(*k, requested_by),
{
    match k.defined {
        None => return Discovery::Ask(Question::IsDefined),
        Some(defined) => {
            if !defined {
                return Discovery::Known(Condition::Undefined);
            }
        },
    }
    match k.has_account {
        None => return Discovery::Ask(Question::HasAccount),
        Some(has_account) => {
            if !has_account {
                return Discovery::Known(Condition::MissingCredentials);
            }
        },
    }
    let log: Option<bool> = match k.health_log {
        None => return Discovery::Ask(Question::HealthLog),
        Some(log) => log,
    };
    if let (RequestedBy::Watchdog, Some(too_many)) = (requested_by, log) {
        if too_many {
            return Discovery::Known(Condition::GaveUp);
        }
    }
    let version: Version = match k.version {
        None => return Discovery::Ask(Question::Load),
        Some(version) => version,
    };
    match k.image_exists {
        None => return Discovery::Ask(Question::ImageExists),
        Some(there) => {
            if !there {
                return Discovery::Known(Condition::MissingImage);
            }
        },
    }
    match k.container_exists {
        None => return Discovery::Ask(Question::ContainerExists),
        Some(there) => {
            if !there {
                return Discovery::Known(Condition::MissingContainer);
            }
        },
    }
    let origin: Option<Origin> = match &k.labels {
        None => return Discovery::Ask(Question::Labels),
        Some(labels) => get_origin(labels),
    };
    let readiness: Readiness = match k.mounts_are_initialized {
        None => return Discovery::Ask(Question::MountsAreInitialized),
        Some(initialized) => {
            if !initialized {
                Readiness::MountsNotInitialized
            } else {
                match k.status {
                    None => return Discovery::Ask(Question::Status),
                    Some(status) => {
                        if status == Status::Running {
                            Readiness::Running
                        } else {
                            Readiness::Stopped
                        }
                    },
                }
            }
        },
    };
    Discovery::Known(
        Condition::Container(
            Found { version, origin, has_health_check_failure: log.is_some(), readiness },
        ),
    )
}

/// However often a seedling failed its health checks, an operator is never told that it was given
/// up on.
pub proof fn law_operators_are_never_given_up_on(k: Knowledge)
    ensures
        discovered(k, RequestedBy::Operator) != Discovery::Known(Condition::GaveUp),
{
}

/// What was seen of a mount's folder: whether it is there, whom it belongs to, its mode, and its
/// contents.
#[derive(Debug, PartialEq, Eq)]
pub struct MountSight {
    pub exists_here: bool,
    pub owning_user: String,
    pub owning_group: String,
    pub mode: Modes,
    pub contents: Vec<ContentObservation>,
}

/// Whether a content of a mount is there, and holds what it should.
pub open spec fn content_in_place(content: MountContents, seen: ContentObservation) -> bool {
    match (content, seen) {
        (_, ContentObservation::Absent) => false,
        (MountContents::FolderOnly(_), ContentObservation::There(_)) => true,
        (MountContents::File(file), ContentObservation::There(bytes)) => file.contents@ == bytes@,
    }
}

/// Whether a content of a mount is there, and holds what it should.
pub fn content_is_in_place(content: &MountContents, seen: &ContentObservation) -> (r: bool)
    ensures
        r == content_in_place(*content, *seen),
{
    match seen {
        ContentObservation::Absent => false,
        ContentObservation::There(bytes) => match content {
            MountContents::FolderOnly(_) => true,
            MountContents::File(file) => same_bytes(&file.contents, bytes),
        },
    }
}

/// Whether there is one sight for each content of a mount whose folder is there.
pub open spec fn sight_covers(named: NamedMount, seen: MountSight) -> bool {
    seen.exists_here ==> seen.contents@.len() == named.mount.contents@.len()
}

/// Whether a mount's folder is there, belongs to the seedling's account, has its mode, and holds
/// everything that it should.
pub open spec fn mount_in_place(
    named: NamedMount,
    seen: MountSight,
    account: ServiceAccount,
) -> bool {
    &&& seen.exists_here
    &&& account.user.system_name@ == seen.owning_user@
    &&& account.group.system_name@ == seen.owning_group@
    &&& seen.mode == EXPECTED_MOUNT_MODE
    &&& forall|i: int|
        0 <= i < named.mount.contents@.len() ==> content_in_place(
            #[trigger] named.mount.contents@[i],
            seen.contents@[i],
        )
}

/// Whether a mount is in place.
pub fn mount_is_in_place(named: &NamedMount, seen: &MountSight, account: &ServiceAccount) -> (r:
    bool)
    requires
        sight_covers(*named, *seen),
    ensures
        r == mount_in_place(*named, *seen, *account),
{
    if !seen.exists_here {
        return false;
    }
    if !same_text(&account.user.system_name, &seen.owning_user) || !same_text(
        &account.group.system_name,
        &seen.owning_group,
    ) {
        return false;
    }
    if seen.mode != EXPECTED_MOUNT_MODE {
        return false;
    }
    let mut i: usize = 0;
    while i < named.mount.contents.len()
        invariant
            i <= named.mount.contents@.len(),
            seen.contents@.len() == named.mount.contents@.len(),
            forall|j: int|
                0 <= j < i ==> content_in_place(
                    #[trigger] named.mount.contents@[j],
                    seen.contents@[j],
                ),
        decreases named.mount.contents@.len() - i,
    {
        if !content_is_in_place(&named.mount.contents[i], &seen.contents[i]) {
            assert(!content_in_place(named.mount.contents@[i as int], seen.contents@[i as int]));
            return false;
        }
        i += 1;
    }
    true
}

/// Whether every mount of a seedling is in place.
pub fn mounts_are_initialized(
    mounts: &Vec<NamedMount>,
    seen: &Vec<MountSight>,
    account: &ServiceAccount,
) -> (r: bool)
    requires
        seen@.len() == mounts@.len(),
        forall|i: int| 0 <= i < mounts@.len() ==> sight_covers(#[trigger] mounts@[i], seen@[i]),
    ensures
        r == (forall|i: int|
            0 <= i < mounts@.len() ==> mount_in_place(#[trigger] mounts@[i], seen@[i], *account)),
{
    let mut i: usize = 0;
    while i < mounts.len()
        invariant
            i <= mounts@.len(),
            seen@.len() == mounts@.len(),
            forall|j: int| 0 <= j < mounts@.len() ==> sight_covers(#[trigger] mounts@[j], seen@[j]),
            forall|j: int|
                0 <= j < i ==> mount_in_place(#[trigger] mounts@[j], seen@[j], *account),
        decreases mounts@.len() - i,
    {
        assert(sight_covers(mounts@[i as int], seen@[i as int]));
        if !mount_is_in_place(&mounts[i], &seen[i], account) {
            assert(!mount_in_place(mounts@[i as int], seen@[i as int], *account));
            return false;
        }
        i += 1;
    }
    true
}

/// One step of a start.
#[derive(Debug, PartialEq, Eq)]
pub enum Step<'a> {
    SetDesiredRunStatusToRunning { seedling_name: &'a Name },
    StartAgentContainer { container_name: ContainerName, agent_ip: Ipv4 },
    StartSeedling {
        seedling_name: &'a Name,
        container_name: ContainerName,
        version: Version,
        health_check: &'a HealthCheck,
        already_running: bool,
    },
    ClearHealthCheckLogs { seedling_name: &'a Name },
}

impl<'a> Step<'a> {
    /// What the step does, in words.
    pub open spec fn described(&self) -> Seq<char> {
        match self {
            Step::SetDesiredRunStatusToRunning { seedling_name } => "Setting seedling '"@
                + seedling_name@ + "' desired running status to running"@,
            Step::StartAgentContainer { container_name, .. } => "Starting agent container '"@
                + container_name@ + "'"@,
            Step::StartSeedling { seedling_name, version, .. } => "Starting seedling '"@
                + seedling_name@ + "' (v"@ + version.text() + ")"@,
            Step::ClearHealthCheckLogs { seedling_name } => "Clearing seedling '"@
                + seedling_name@ + "' health check logs"@,
        }
    }

    /// What the step does, in words.
    pub fn describe(&self) -> (r: String)
        ensures
            r@ == self.described(),
    {
        match self {
            Step::SetDesiredRunStatusToRunning { seedling_name } => cat3(
                "Setting seedling '",
                seedling_name.as_str(),
                "' desired running status to running",
            ),
            Step::StartAgentContainer { container_name, .. } => cat3(
                "Starting agent container '",
                container_name.as_str(),
                "'",
            ),
            Step::StartSeedling { seedling_name, version, .. } => cat5(
                "Starting seedling '",
                seedling_name.as_str(),
                "' (v",
                &version.to_text(),
                ")",
            ),
            Step::ClearHealthCheckLogs { seedling_name } => cat3(
                "Clearing seedling '",
                seedling_name.as_str(),
                "' health check logs",
            ),
        }
    }

    /// The step's name.
    pub open spec fn named(&self) -> Seq<char> {
        match self {
            Step::SetDesiredRunStatusToRunning { .. } =>
                "Setting desired running state to running"@,
            Step::StartAgentContainer { .. } => "Starting agent container"@,
            Step::StartSeedling { .. } => "Starting seedling"@,
            Step::ClearHealthCheckLogs { .. } => self.described(),
        }
    }

    /// The step's name.
    pub fn name(&self) -> (r: String)
        ensures
            r@ == self.named(),
    {
        match self {
            Step::SetDesiredRunStatusToRunning { .. } =>
                "Setting desired running state to running".to_owned(),
            Step::StartAgentContainer { .. } => "Starting agent container".to_owned(),
            Step::StartSeedling { .. } => "Starting seedling".to_owned(),
            Step::ClearHealthCheckLogs { .. } => self.describe(),
        }
    }
}

/// Why a start is refused.
pub enum Refusal {
    NotDefined,
    GaveUp,
    NoCredentials,
    NoContainer,
    Core,
    MountsNotInitialized,
    AlreadyRunning,
}

/// Why a start is refused, if it is. A seedling of douglas's own is refused to operators before
/// its mounts are looked at, and one that runs is started again only where a health check failed.
pub open spec fn refusal(condition: Condition, requested_by: RequestedBy) -> Option<Refusal> {
    match condition {
        Condition::Undefined => Some(Refusal::NotDefined),
        Condition::GaveUp => Some(Refusal::GaveUp),
        Condition::MissingCredentials => Some(Refusal::NoCredentials),
        Condition::MissingImage | Condition::MissingContainer => Some(Refusal::NoContainer),
        Condition::Container(found) => if core_forbidden(found.origin, requested_by) {
            Some(Refusal::Core)
        } else if found.readiness == Readiness::MountsNotInitialized {
            Some(Refusal::MountsNotInitialized)
        } else if found.readiness == Readiness::Running && !found.has_health_check_failure {
            Some(Refusal::AlreadyRunning)
        } else {
            None
        },
    }
}

/// The words for a refusal.
pub open spec fn refusal_text(refusal: Refusal) -> Seq<char> {
    match refusal {
        Refusal::NotDefined => "Seedling not defined"@,
        Refusal::GaveUp => "Seedling has failed its health checks"@,
        Refusal::NoCredentials => "Seedling credentials not created yet"@,
        Refusal::NoContainer => "Docker instance not initialized"@,
        Refusal::MountsNotInitialized => "Could not initialize"@,
        Refusal::AlreadyRunning => "The seedling is already running"@,
        Refusal::Core => Seq::empty(),
    }
}

/// The steps of a start that is not refused: the agent is started before the seedling, where it is
/// there and does not run.
pub open spec fn planned<'a>(
    name: &'a Name,
    health_check: &'a HealthCheck,
    agent_ip: Ipv4,
    state: State,
) -> Seq<Step<'a>> {
    let found = state.seedling->Container_0;
    seq![Step::SetDesiredRunStatusToRunning { seedling_name: name }] + (if state.agent_container
        is Present && state.agent_container != ContainerPresence::Present(Status::Running) {
        seq![
            Step::StartAgentContainer { container_name: state.agent_container_name, agent_ip },
        ]
    } else {
        Seq::empty()
    }) + seq![
        Step::StartSeedling {
            seedling_name: name,
            container_name: state.container_name,
            version: found.version,
            health_check,
            already_running: found.readiness == Readiness::Running,
        },
        Step::ClearHealthCheckLogs { seedling_name: name },
    ]
}

fn refuse(reason: &str) -> (r: StartSeedlingError)
    ensures
        r matches StartSeedlingError::CannotStartSeedling(text) && text@ == reason@,
{
    StartSeedlingError::CannotStartSeedling(reason.to_owned())
}

/// Plans the start of a seedling, or says why it is refused.
pub fn create_plan<'a>(
    name: &'a Name,
    health_check: &'a HealthCheck,
    agent_ip: Ipv4,
    state: State,
    requested_by: RequestedBy,
) -> (r: Result<Vec<Step<'a>>, StartSeedlingError>)
    ensures
        match refusal(state.seedling, requested_by) {
            Some(Refusal::Core) => r matches Err(StartSeedlingError::CoreSeedling(text)) && text@
                == name@,
            Some(why) => r matches Err(StartSeedlingError::CannotStartSeedling(text)) && text@
                == refusal_text(why),
            None => r matches Ok(steps) && steps@ == planned(name, health_check, agent_ip, state),
        },
{
    let ghost given = state;
    let found: Found = match state.seedling {
        Condition::Undefined => return Err(refuse("Seedling not defined")),
        Condition::GaveUp => return Err(refuse("Seedling has failed its health checks")),
        Condition::MissingCredentials => return Err(
            refuse("Seedling credentials not created yet"),
        ),
        Condition::MissingImage => return Err(refuse("Docker instance not initialized")),
        Condition::MissingContainer => return Err(refuse("Docker instance not initialized")),
        Condition::Container(found) => found,
    };
    if core_seedling_forbidden_for(found.origin, requested_by) {
        return Err(StartSeedlingError::CoreSeedling(name.to_text()));
    }
    let already_running: bool = match found.readiness {
        Readiness::MountsNotInitialized => return Err(refuse("Could not initialize")),
        Readiness::Running => {
            if !found.has_health_check_failure {
                return Err(refuse("The seedling is already running"));
            }
            true
        },
        Readiness::Stopped => false,
    };
    let mut steps: Vec<Step<'a>> = Vec::new();
    steps.push(Step::SetDesiredRunStatusToRunning { seedling_name: name });
    if state.agent_container.is_present() && !state.agent_container.is_running() {
        steps.push(
            Step::StartAgentContainer { container_name: state.agent_container_name, agent_ip },
        );
    }
    steps.push(
        Step::StartSeedling {
            seedling_name: name,
            container_name: state.container_name,
            version: found.version,
            health_check,
            already_running,
        },
    );
    steps.push(Step::ClearHealthCheckLogs { seedling_name: name });
    assert(steps@ =~= planned(name, health_check, agent_ip, given));
    Ok(steps)
}

/// No operator starts a seedling of douglas's own, whatever else is found of it; and the watchdog
/// is not kept from one.
pub proof fn law_core_seedlings_are_refused_to_operators(found: Found)
    requires
        found.origin == Some(Origin::Core),
    ensures
        refusal(Condition::Container(found), RequestedBy::Operator) == Some(Refusal::Core),
        refusal(Condition::Container(found), RequestedBy::Watchdog) != Some(Refusal::Core),
{
}

/// What a health check runs in a container.
#[derive(Debug, PartialEq, Eq)]
pub struct ExecInstanceOptions {
    pub attach_stdin: bool,
    pub attach_stdout: bool,
    pub attach_stderr: bool,
    pub cmd: Vec<String>,
}

/// Runs a command by the container's shell.
pub fn shell_exec_instance_options(command: &str) -> (r: ExecInstanceOptions)
    ensures
        !r.attach_stdin,
        r.attach_stdout,
        r.attach_stderr,
        r.cmd@.len() == 3,
        r.cmd@[0]@ == "/bin/sh"@,
        r.cmd@[1]@ == "-c"@,
        r.cmd@[2]@ == command@,
{
    ExecInstanceOptions {
        attach_stdin: false,
        attach_stdout: true,
        attach_stderr: true,
        cmd: vec!["/bin/sh".to_owned(), "-c".to_owned(), command.to_owned()],
    }
}

/// Where a health check stands.
#[derive(Debug, Clone, Copy, PartialEq, Eq, Structural)]
pub enum HealthCheckState {
    /// The command is to be set up in the container.
    Create,
    /// The command is to be started.
    Start,
    /// The command is to be looked at.
    Inspect,
    /// The command still runs; it is to be looked at again after the poll interval.
    Sleep,
    /// The check is over.
    Finished { healthy: bool },
}

/// What happens during a health check.
#[derive(Debug, Clone, Copy, PartialEq, Eq, Structural)]
pub enum HealthCheckEvent {
    Created,
    Started,
    Inspected { running: bool, exit_code: Option<i32> },
    Slept,
    TimedOut,
}

/// What a health check does next. It is over when the command has ended, which passes only with
/// exit code zero, or when it took too long, which does not pass.
pub open spec fn health_check_next(
    state: HealthCheckState,
    event: HealthCheckEvent,
) -> HealthCheckState {
    match (state, event) {
        (HealthCheckState::Create, HealthCheckEvent::Created) => HealthCheckState::Start,
        (HealthCheckState::Start, HealthCheckEvent::Started) => HealthCheckState::Inspect,
        (HealthCheckState::Inspect, HealthCheckEvent::Inspected { running, exit_code }) =>
            if running {
                HealthCheckState::Sleep
            } else {
                HealthCheckState::Finished { healthy: exit_code == Some(EXIT_CODE_SUCCESS) }
            },
        (HealthCheckState::Sleep, HealthCheckEvent::Slept) => HealthCheckState::Inspect,
        (HealthCheckState::Inspect, HealthCheckEvent::TimedOut) => HealthCheckState::Finished {
            healthy: false,
        },
        (HealthCheckState::Sleep, HealthCheckEvent::TimedOut) => HealthCheckState::Finished {
            healthy: false,
        },
        (state, _) => state,
    }
}

/// What a health check does next.
pub fn run_shell_health_check(state: HealthCheckState, event: HealthCheckEvent) -> (r:
    HealthCheckState)
    ensures
        r == health_check_next(state, event),
{
    match (state, event) {
        (HealthCheckState::Create, HealthCheckEvent::Created) => HealthCheckState::Start,
        (HealthCheckState::Start, HealthCheckEvent::Started) => HealthCheckState::Inspect,
        (HealthCheckState::Inspect, HealthCheckEvent::Inspected { running, exit_code }) => {
            if running {
                HealthCheckState::Sleep
            } else {
                match exit_code {
                    Some(code) => HealthCheckState::Finished {
                        healthy: code == EXIT_CODE_SUCCESS,
                    },
                    None => HealthCheckState::Finished { healthy: false },
                }
            }
        },
        (HealthCheckState::Sleep, HealthCheckEvent::Slept) => HealthCheckState::Inspect,
        (HealthCheckState::Inspect, HealthCheckEvent::TimedOut) => HealthCheckState::Finished {
            healthy: false,
        },
        (HealthCheckState::Sleep, HealthCheckEvent::TimedOut) => HealthCheckState::Finished {
            healthy: false,
        },
        (state, _) => state,
    }
}

/// The state that a run of events leads to.
pub open spec fn health_check_after(
    state: HealthCheckState,
    events: Seq<HealthCheckEvent>,
) -> HealthCheckState
    decreases events.len(),
{
    if events.len() == 0 {
        state
    } else {
        health_check_next(health_check_after(state, events.drop_last()), events.last())
    }
}

/// A check that passed has seen the command end with exit code zero.
pub proof fn law_healthy_means_exit_code_zero(events: Seq<HealthCheckEvent>)
    requires
        health_check_after(HealthCheckState::Create, events) == (HealthCheckState::Finished {
            healthy: true,
        }),
    ensures
        events.contains(HealthCheckEvent::Inspected { running: false, exit_code: Some(0i32) }),
    decreases events.len(),
{
    let before = health_check_after(HealthCheckState::Create, events.drop_last());
    if before == (HealthCheckState::Finished { healthy: true }) {
        law_healthy_means_exit_code_zero(events.drop_last());
        let rest = events.drop_last();
        let wanted = HealthCheckEvent::Inspected { running: false, exit_code: Some(0i32) };
        let i = choose|i: int| 0 <= i < rest.len() && rest[i] == wanted;
        assert(events[i] == wanted);
    } else {
        assert(events[events.len() - 1] == (HealthCheckEvent::Inspected {
            running: false,
            exit_code: Some(0i32),
        }));
    }
}

/// A check that is over stays as it ended.
pub proof fn law_a_finished_check_stays_finished(
    events: Seq<HealthCheckEvent>,
    more: HealthCheckEvent,
    healthy: bool,
)
    requires
        health_check_after(HealthCheckState::Create, events) == (HealthCheckState::Finished {
            healthy,
        }),
    ensures
        health_check_after(HealthCheckState::Create, events.push(more))
            == (HealthCheckState::Finished { healthy }),
{
    assert(events.push(more).drop_last() =~= events);
}

/// The command by which an agent is asked whether it is logged in.
pub fn agent_health_check_command(agent_ip: Ipv4) -> (r: String)
    ensures
        r@ == "BAO_ADDR=http://"@ + agent_ip.text() + ":"@ + decimal(
            AGENT_LOCAL_PROXY_PORT as nat,
        ) + " bao token lookup"@,
{
    cat5(
        "BAO_ADDR=http://",
        &agent_ip.to_text(),
        ":",
        &decimal_text(AGENT_LOCAL_PROXY_PORT as u64),
        " bao token lookup",
    )
}

/// How far the start of a container has come.
#[derive(Debug, Clone, Copy, PartialEq, Eq, Structural)]
pub struct StartProgress {
    pub started: bool,
    pub waited: bool,
    pub running: Option<bool>,
    pub healthy: Option<bool>,
    pub failure_recorded: bool,
}

/// What the start of a container needs next.
#[derive(Debug, Clone, Copy, PartialEq, Eq, Structural)]
pub enum StartCall {
    StartContainer,
    Wait { seconds: u8 },
    AskRunning,
    CheckHealth,
    RecordFailure,
    Succeeded,
    FailedToStart,
}

/// Whether a start came to nothing: the container does not run, or runs and is not well.
pub open spec fn came_to_nothing(p: StartProgress) -> bool {
    p.running == Some(false) || (p.running == Some(true) && p.healthy == Some(false))
}

/// What the start of a seedling's container needs next: unless it runs already, it is started and
/// given its time; then it must run and be well. Where it is not, that is recorded before the
/// start fails.
pub open spec fn start_seedling_call(
    p: StartProgress,
    already_running: bool,
    wait_seconds: u8,
) -> StartCall {
    if !already_running && !p.started {
        StartCall::StartContainer
    } else if !already_running && !p.waited {
        StartCall::Wait { seconds: wait_seconds }
    } else if p.running is None {
        StartCall::AskRunning
    } else if p.running == Some(true) && p.healthy is None {
        StartCall::CheckHealth
    } else if !came_to_nothing(p) {
        StartCall::Succeeded
    } else if !p.failure_recorded {
        StartCall::RecordFailure
    } else {
        StartCall::FailedToStart
    }
}

/// What the start of a seedling's container needs next.
pub fn start_seedling(p: StartProgress, already_running: bool, wait_seconds: u8) -> (r: StartCall)
    ensures
        r == start_seedling_call(p, already_running, wait_seconds),
{
    if !already_running {
        if !p.started {
            return StartCall::StartContainer;
        }
        if !p.waited {
            return StartCall::Wait { seconds: wait_seconds };
        }
    }
    let running: bool = match p.running {
        None => return StartCall::AskRunning,
        Some(running) => running,
    };
    if running {
        match p.healthy {
            None => return StartCall::CheckHealth,
            Some(healthy) => {
                if healthy {
                    return StartCall::Succeeded;
                }
            },
        }
    }
    if !p.failure_recorded {
        StartCall::RecordFailure
    } else {
        StartCall::FailedToStart
    }
}

/// What the start of an agent's container needs next: it is started, must run, and must be well.
pub open spec fn start_agent_call(p: StartProgress) -> StartCall {
    if !p.started {
        StartCall::StartContainer
    } else if p.running is None {
        StartCall::AskRunning
    } else if p.running == Some(true) && p.healthy is None {
        StartCall::CheckHealth
    } else if !came_to_nothing(p) {
        StartCall::Succeeded
    } else {
        StartCall::FailedToStart
    }
}

/// What the start of an agent's container needs next.
pub fn start_agent_container(p: StartProgress) -> (r: StartCall)
    ensures
        r == start_agent_call(p),
{
    if !p.started {
        return StartCall::StartContainer;
    }
    match p.running {
        None => StartCall::AskRunning,
        Some(running) => {
            if !running {
                StartCall::FailedToStart
            } else {
                match p.healthy {
                    None => StartCall::CheckHealth,
                    Some(healthy) => {
                        if healthy {
                            StartCall::Succeeded
                        } else {
                            StartCall::FailedToStart
                        }
                    },
                }
            }
        },
    }
}

/// A start succeeds only with a container that runs and is well, and a seedling's start that fails
/// was recorded as a failed health check. A container that ran already is not started again.
pub proof fn law_starts_end_well_or_are_recorded(
    p: StartProgress,
    already_running: bool,
    wait_seconds: u8,
)
    ensures
        start_seedling_call(p, already_running, wait_seconds) is Succeeded ==> p.running == Some(
            true,
        ) && p.healthy == Some(true),
        start_agent_call(p) is Succeeded ==> p.running == Some(true) && p.healthy == Some(true),
        start_seedling_call(p, already_running, wait_seconds) is FailedToStart
            ==> p.failure_recorded && came_to_nothing(p),
        already_running ==> start_seedling_call(p, already_running, wait_seconds)
            !is StartContainer,
{
    assert(p.running is Some ==> p.running == Some(p.running->0));
    assert(p.healthy is Some ==> p.healthy == Some(p.healthy->0));
}

/// Nothing done yet.
pub open spec fn nothing_started() -> StartProgress {
    StartProgress {
        started: false,
        waited: false,
        running: None,
        healthy: None,
        failure_recorded: false,
    }
}

/// What comes of what the start of a container needs.
#[derive(Debug, Clone, Copy, PartialEq, Eq, Structural)]
pub enum StartEvent {
    Started,
    Waited,
    RunningSeen(bool),
    HealthChecked(bool),
    FailureRecorded,
}

/// Whether this can come of what is needed.
pub open spec fn comes_of(call: StartCall, event: StartEvent) -> bool {
    match event {
        StartEvent::Started => call is StartContainer,
        StartEvent::Waited => call is Wait,
        StartEvent::RunningSeen(_) => call is AskRunning,
        StartEvent::HealthChecked(_) => call is CheckHealth,
        StartEvent::FailureRecorded => call is RecordFailure,
    }
}

/// How far the start has come once what was needed was done. What cannot come of it changes
/// nothing.
pub open spec fn started_with(p: StartProgress, call: StartCall, event: StartEvent) -> StartProgress {
    if !comes_of(call, event) {
        p
    } else {
        match event {
            StartEvent::Started => StartProgress { started: true, ..p },
            StartEvent::Waited => StartProgress { waited: true, ..p },
            StartEvent::RunningSeen(running) => StartProgress { running: Some(running), ..p },
            StartEvent::HealthChecked(healthy) => StartProgress { healthy: Some(healthy), ..p },
            StartEvent::FailureRecorded => StartProgress { failure_recorded: true, ..p },
        }
    }
}

impl StartProgress {
    /// Nothing done yet.
    pub fn start() -> (r: Self)
        ensures
            r == nothing_started(),
    {
        StartProgress {
            started: false,
            waited: false,
            running: None,
            healthy: None,
            failure_recorded: false,
        }
    }

    /// How far the start has come once what was needed was done.
    pub fn after(self, call: StartCall, event: StartEvent) -> (r: Self)
        ensures
            r == started_with(self, call, event),
    {
        let mut progress: Self = self;
        match (call, event) {
            (StartCall::StartContainer, StartEvent::Started) => progress.started = true,
            (StartCall::Wait { .. }, StartEvent::Waited) => progress.waited = true,
            (StartCall::AskRunning, StartEvent::RunningSeen(running)) => {
                progress.running = Some(running);
            },
            (StartCall::CheckHealth, StartEvent::HealthChecked(healthy)) => {
                progress.healthy = Some(healthy);
            },
            (StartCall::RecordFailure, StartEvent::FailureRecorded) => {
                progress.failure_recorded = true;
            },
            _ => {},
        }
        progress
    }
}

/// Whose container is started.
pub enum Starting {
    Seedling { already_running: bool, wait_seconds: u8 },
    Agent,
}

/// What the start of a container needs next.
pub open spec fn start_call(of: Starting, p: StartProgress) -> StartCall {
    match of {
        Starting::Seedling { already_running, wait_seconds } => start_seedling_call(
            p,
            already_running,
            wait_seconds,
        ),
        Starting::Agent => start_agent_call(p),
    }
}

/// How far a start has come after all that came of it, from nothing done.
pub open spec fn started_by(of: Starting, events: Seq<StartEvent>) -> StartProgress
    decreases events.len(),
{
    if events.len() == 0 {
        nothing_started()
    } else {
        let before = started_by(of, events.drop_last());
        started_with(before, start_call(of, before), events.last())
    }
}

/// Whether each of these, in order, came of what the start needed next.
pub open spec fn starts_in_turn(of: Starting, events: Seq<StartEvent>) -> bool
    decreases events.len(),
{
    events.len() == 0 || (starts_in_turn(of, events.drop_last()) && comes_of(
        start_call(of, started_by(of, events.drop_last())),
        events.last(),
    ))
}

/// What comes before a container is looked at: a seedling's that does not run already is started
/// and given its time, an agent's is started.
pub open spec fn brought_up(of: Starting) -> Seq<StartEvent> {
    match of {
        Starting::Seedling { already_running: true, .. } => Seq::empty(),
        Starting::Seedling { already_running: false, .. } => seq![
            StartEvent::Started,
            StartEvent::Waited,
        ],
        Starting::Agent => seq![StartEvent::Started],
    }
}

/// What comes after a container was found not to run, or not to be well: a seedling's failure is
/// recorded.
pub open spec fn given_up(of: Starting) -> Seq<StartEvent> {
    match of {
        Starting::Seedling { .. } => seq![StartEvent::FailureRecorded],
        Starting::Agent => Seq::empty(),
    }
}

spec fn start_told(p: StartProgress) -> Seq<StartEvent> {
    (if p.started {
        seq![StartEvent::Started]
    } else {
        Seq::empty()
    }) + (if p.waited {
        seq![StartEvent::Waited]
    } else {
        Seq::empty()
    }) + (match p.running {
        Some(running) => seq![StartEvent::RunningSeen(running)],
        None => Seq::empty(),
    }) + (match p.healthy {
        Some(healthy) => seq![StartEvent::HealthChecked(healthy)],
        None => Seq::empty(),
    }) + (if p.failure_recorded {
        seq![StartEvent::FailureRecorded]
    } else {
        Seq::empty()
    })
}

spec fn start_orderly(of: Starting, p: StartProgress) -> bool {
    &&& p.waited ==> p.started
    &&& match of {
        Starting::Seedling { already_running, .. } => if already_running {
            !p.started
        } else {
            p.running is Some ==> p.waited
        },
        Starting::Agent => !p.waited && !p.failure_recorded && (p.running is Some ==> p.started),
    }
    &&& p.healthy is Some ==> p.running == Some(true)
    &&& p.failure_recorded ==> came_to_nothing(p)
}

proof fn lemma_start_tells_what_happened(of: Starting, events: Seq<StartEvent>)
    requires
        starts_in_turn(of, events),
    ensures
        start_orderly(of, started_by(of, events)),
        events == start_told(started_by(of, events)),
    decreases events.len(),
{
    if events.len() == 0 {
        assert(events =~= start_told(nothing_started()));
    } else {
        let rest = events.drop_last();
        lemma_start_tells_what_happened(of, rest);
        let before = started_by(of, rest);
        assert(before.running matches Some(seen) ==> before.running == Some(seen));
        assert(before.healthy matches Some(seen) ==> before.healthy == Some(seen));
        assert(start_told(started_by(of, events)) =~= start_told(before).push(events.last()));
        assert(events =~= rest.push(events.last()));
    }
}

/// A start that succeeds has brought the container up and seen it run and be well; one that fails
/// has seen it not run or not be well, and recorded that where it is a seedling's. Nothing else
/// leads to either end.
pub proof fn law_starts_end_one_way_or_the_other(of: Starting, events: Seq<StartEvent>)
    requires
        starts_in_turn(of, events),
    ensures
        start_call(of, started_by(of, events)) is Succeeded ==> events == brought_up(of) + seq![
            StartEvent::RunningSeen(true),
            StartEvent::HealthChecked(true),
        ],
        start_call(of, started_by(of, events)) is FailedToStart ==> events == brought_up(of)
            + seq![StartEvent::RunningSeen(false)] + given_up(of) || events == brought_up(of)
            + seq![StartEvent::RunningSeen(true), StartEvent::HealthChecked(false)] + given_up(of),
{
    lemma_start_tells_what_happened(of, events);
    let p = started_by(of, events);
    assert(p.running matches Some(seen) ==> p.running == Some(seen));
    assert(p.healthy matches Some(seen) ==> p.healthy == Some(seen));
    let end = start_call(of, p);
    if end is Succeeded {
        assert(events =~= brought_up(of) + seq![
            StartEvent::RunningSeen(true),
            StartEvent::HealthChecked(true),
        ]);
    } else if end is FailedToStart && p.running == Some(false) {
        assert(events =~= brought_up(of) + seq![StartEvent::RunningSeen(false)] + given_up(of));
    } else if end is FailedToStart {
        assert(events =~= brought_up(of) + seq![
            StartEvent::RunningSeen(true),
            StartEvent::HealthChecked(false),
        ] + given_up(of));
    }
}

/// What follows a failed health check.
#[derive(Debug, Clone, Copy, PartialEq, Eq, Structural)]
pub enum FailureAction {
    SetDesiredRunStatusToStopped,
    StopContainer,
}

/// What follows a failed health check that was counted: nothing, or where it was one too many, the
/// seedling is no longer wanted running and its container is stopped.
pub fn record_health_check_failure(reached_max_fail_count: bool) -> (r: Vec<FailureAction>)
    ensures
        r@ == (if reached_max_fail_count {
            seq![FailureAction::SetDesiredRunStatusToStopped, FailureAction::StopContainer]
        } else {
            Seq::empty()
        }),
{
    let mut actions: Vec<FailureAction> = Vec::new();
    if reached_max_fail_count {
        actions.push(FailureAction::SetDesiredRunStatusToStopped);
        actions.push(FailureAction::StopContainer);
    }
    assert(actions@ =~= (if reached_max_fail_count {
        seq![FailureAction::SetDesiredRunStatusToStopped, FailureAction::StopContainer]
    } else {
        Seq::empty()
    }));
    actions
}

/// What a container is told.
#[derive(Debug, PartialEq, Eq)]
pub enum ContainerAction<'a> {
    Stop(&'a ContainerName),
}

/// What undoes a step of a start: a container that the step started is stopped, and that it is
/// gone already is as good. Nothing else is undone, and a container that ran before is left alone.
pub open spec fn undoing<'a>(step: &'a Step<'a>) -> Seq<Instruction<(), ContainerAction<'a>>> {
    match step {
        Step::StartAgentContainer { container_name, .. } => seq![
            Instruction::Settle(ContainerAction::Stop(container_name)),
        ],
        Step::StartSeedling { container_name, already_running: false, .. } => seq![
            Instruction::Settle(ContainerAction::Stop(container_name)),
        ],
        _ => Seq::empty(),
    }
}

/// What undoes a step of a start.
pub fn rollback<'a>(step: &'a Step<'a>) -> (r: Vec<Instruction<(), ContainerAction<'a>>>)
    ensures
        r@ == undoing(step),
{
    let mut script: Vec<Instruction<(), ContainerAction<'a>>> = Vec::new();
    match step {
        Step::StartAgentContainer { container_name, .. } => {
            script.push(Instruction::Settle(ContainerAction::Stop(container_name)));
        },
        Step::StartSeedling { container_name, already_running, .. } => {
            if !*already_running {
                script.push(Instruction::Settle(ContainerAction::Stop(container_name)));
            }
        },
        _ => {},
    }
    assert(script@ =~= undoing(step));
    script
}

/// How far a seedling is from being started follows from what is known, each thing looked at only
/// where everything before it went well.
pub proof fn law_conditions_follow_from_what_is_known(k: Knowledge, requested_by: RequestedBy)
    ensures
        ({
            let defined = k.defined == Some(true);
            let accounted = defined && k.has_account == Some(true);
            let worth_it = accounted && k.health_log is Some && !(requested_by
                == RequestedBy::Watchdog && k.health_log == Some(Some(true)));
            let imaged = worth_it && k.version is Some && k.image_exists == Some(true);
            let contained = imaged && k.container_exists == Some(true) && k.labels is Some;
            let found = discovered(k, requested_by);
            &&& found == Discovery::Known(Condition::Undefined) <==> k.defined == Some(false)
            &&& found == Discovery::Known(Condition::MissingCredentials) <==> defined
                && k.has_account == Some(false)
            &&& found == Discovery::Known(Condition::GaveUp) <==> accounted && requested_by
                == RequestedBy::Watchdog && k.health_log == Some(Some(true))
            &&& found == Discovery::Known(Condition::MissingImage) <==> worth_it && k.version
                is Some && k.image_exists == Some(false)
            &&& found == Discovery::Known(Condition::MissingContainer) <==> imaged
                && k.container_exists == Some(false)
            &&& (found matches Discovery::Known(Condition::Container(container)) ==> {
                &&& contained
                &&& Some(container.version) == k.version
                &&& container.origin == origin_in(k.labels->0@)
                &&& container.has_health_check_failure == (k.health_log->0 is Some)
                &&& match container.readiness {
                    Readiness::MountsNotInitialized => k.mounts_are_initialized == Some(false),
                    Readiness::Running => k.mounts_are_initialized == Some(true) && k.status
                        == Some(Status::Running),
                    Readiness::Stopped => k.mounts_are_initialized == Some(true) && (k.status
                        matches Some(status) && status != Status::Running),
                }
            })
            &&& (found matches Discovery::Ask(question) ==> match question {
                Question::IsDefined => k.defined is None,
                Question::HasAccount => defined && k.has_account is None,
                Question::HealthLog => accounted && k.health_log is None,
                Question::Load => worth_it && k.version is None,
                Question::ImageExists => worth_it && k.version is Some && k.image_exists is None,
                Question::ContainerExists => imaged && k.container_exists is None,
                Question::Labels => imaged && k.container_exists == Some(true) && k.labels is None,
                Question::MountsAreInitialized => contained && k.mounts_are_initialized is None,
                Question::Status => contained && k.mounts_are_initialized == Some(true) && k.status
                    is None,
            })
        }),
{
    assert(k.defined matches Some(b) ==> k.defined == Some(b));
    assert(k.has_account matches Some(b) ==> k.has_account == Some(b));
    assert(k.health_log matches Some(b) ==> k.health_log == Some(b));
    assert(k.image_exists matches Some(b) ==> k.image_exists == Some(b));
    assert(k.container_exists matches Some(b) ==> k.container_exists == Some(b));
    assert(k.mounts_are_initialized matches Some(b) ==> k.mounts_are_initialized == Some(b));
    assert(k.status matches Some(b) ==> k.status == Some(b));
}

/// A start is refused for exactly these reasons: the seedling is not defined, was given up on, has
/// no credentials, no image or container, is douglas's own and an operator asks, has mounts that
/// are not in place, or runs without a failed health check.
pub proof fn law_starts_are_refused_for_a_reason(condition: Condition, requested_by: RequestedBy)
    ensures
        match refusal(condition, requested_by) {
            Some(Refusal::NotDefined) => condition == Condition::Undefined,
            Some(Refusal::GaveUp) => condition == Condition::GaveUp,
            Some(Refusal::NoCredentials) => condition == Condition::MissingCredentials,
            Some(Refusal::NoContainer) => condition == Condition::MissingImage || condition
                == Condition::MissingContainer,
            Some(Refusal::Core) => condition matches Condition::Container(found) && found.origin
                == Some(Origin::Core) && requested_by == RequestedBy::Operator,
            Some(Refusal::MountsNotInitialized) => condition matches Condition::Container(found)
                && found.readiness == Readiness::MountsNotInitialized && !(found.origin == Some(
                Origin::Core,
            ) && requested_by == RequestedBy::Operator),
            Some(Refusal::AlreadyRunning) => condition matches Condition::Container(found)
                && found.readiness == Readiness::Running && !found.has_health_check_failure && !(
            found.origin == Some(Origin::Core) && requested_by == RequestedBy::Operator),
            None => condition matches Condition::Container(found) && !(found.origin == Some(
                Origin::Core,
            ) && requested_by == RequestedBy::Operator) && (found.readiness == Readiness::Stopped
                || (found.readiness == Readiness::Running && found.has_health_check_failure)),
        },
{
}

/// A start makes the seedling wanted running, brings up an agent that is there and does not run,
/// brings up the seedling itself, and then forgets its failed health checks, in this order and
/// nothing else. A container that runs already is only looked at.
pub proof fn law_starts_go_in_order<'a>(
    name: &'a Name,
    health_check: &'a HealthCheck,
    agent_ip: Ipv4,
    state: State,
)
    ensures
        ({
            let plan = planned(name, health_check, agent_ip, state);
            let n = plan.len() as int;
            let found = state.seedling->Container_0;
            let agent_waits = state.agent_container matches ContainerPresence::Present(status)
                && status != Status::Running;
            &&& n == (if agent_waits {
                4int
            } else {
                3
            })
            &&& plan[0] == (Step::SetDesiredRunStatusToRunning { seedling_name: name })
            &&& agent_waits ==> plan[1] == (Step::StartAgentContainer {
                container_name: state.agent_container_name,
                agent_ip,
            })
            &&& plan[n - 2] == (Step::StartSeedling {
                seedling_name: name,
                container_name: state.container_name,
                version: found.version,
                health_check,
                already_running: found.readiness == Readiness::Running,
            })
            &&& plan[n - 1] == (Step::ClearHealthCheckLogs { seedling_name: name })
        }),
{
    if let ContainerPresence::Present(status) = state.agent_container {
        assert(state.agent_container == ContainerPresence::Present(status));
    }
}

/// A mount is in place only where its folder is there, belongs to the seedling's user and group,
/// has the mode of mounts, and every one of its contents is there, every file with the very bytes
/// that it should hold; and where all this holds, it is in place.
pub proof fn law_mounts_in_place_lack_nothing(
    named: NamedMount,
    seen: MountSight,
    account: ServiceAccount,
)
    ensures
        mount_in_place(named, seen, account) <==> {
            &&& seen.exists_here
            &&& seen.owning_user@ == account.user.system_name@
            &&& seen.owning_group@ == account.group.system_name@
            &&& seen.mode == EXPECTED_MOUNT_MODE
            &&& forall|i: int|
                0 <= i < named.mount.contents@.len() ==> (seen.contents@[i]
                    matches ContentObservation::There(bytes) && (
                #[trigger] named.mount.contents@[i] matches MountContents::File(file)
                    ==> file.contents@ == bytes@))
        },
{
    if mount_in_place(named, seen, account) {
        assert forall|i: int| 0 <= i < named.mount.contents@.len() implies (seen.contents@[i]
            matches ContentObservation::There(bytes) && (#[trigger] named.mount.contents@[i]
            matches MountContents::File(file) ==> file.contents@ == bytes@)) by {
            assert(content_in_place(named.mount.contents@[i], seen.contents@[i]));
        }
    }
    if !mount_in_place(named, seen, account) && seen.exists_here && seen.owning_user@
        == account.user.system_name@ && seen.owning_group@ == account.group.system_name@
        && seen.mode == EXPECTED_MOUNT_MODE {
        let i = choose|i: int|
            0 <= i < named.mount.contents@.len() && !content_in_place(
                #[trigger] named.mount.contents@[i],
                seen.contents@[i],
            );
        assert(named.mount.contents@[i] == named.mount.contents@[i]);
    }
}

/// A health check goes on by what happens: once set up it is started, once started it is looked
/// at, and looked at again after each pause while the command runs. It ends when the command has
/// ended, well only with exit code zero, or when the time is over. Anything else changes nothing.
pub proof fn law_health_checks_go_on_by_what_happens(
    state: HealthCheckState,
    event: HealthCheckEvent,
)
    ensures
        health_check_next(HealthCheckState::Create, HealthCheckEvent::Created)
            == HealthCheckState::Start,
        health_check_next(HealthCheckState::Start, HealthCheckEvent::Started)
            == HealthCheckState::Inspect,
        health_check_next(HealthCheckState::Sleep, HealthCheckEvent::Slept)
            == HealthCheckState::Inspect,
        event matches HealthCheckEvent::Inspected { running, exit_code } ==> health_check_next(
            HealthCheckState::Inspect,
            event,
        ) == (if running {
            HealthCheckState::Sleep
        } else {
            HealthCheckState::Finished { healthy: exit_code == Some(0i32) }
        }),
        event == HealthCheckEvent::TimedOut && (state == HealthCheckState::Inspect || state
            == HealthCheckState::Sleep) ==> health_check_next(state, event) == (
        HealthCheckState::Finished { healthy: false }),
        health_check_next(state, event) != state ==> match state {
            HealthCheckState::Create => event == HealthCheckEvent::Created,
            HealthCheckState::Start => event == HealthCheckEvent::Started,
            HealthCheckState::Inspect => event is Inspected || event is TimedOut,
            HealthCheckState::Sleep => event is Slept || event is TimedOut,
            HealthCheckState::Finished { .. } => false,
        },
{
}

/// The start of a seedling's container asks for one thing at a time: unless the container ran
/// already it is started and then given the time that its health check names; then it must be seen
/// to run and to be well; where it is not, the failure is recorded, and then the start has failed.
pub proof fn law_starts_ask_for_one_thing_at_a_time(
    p: StartProgress,
    already_running: bool,
    wait_seconds: u8,
)
    ensures
        ({
            let call = start_seedling_call(p, already_running, wait_seconds);
            let up = already_running || (p.started && p.waited);
            let well = p.running == Some(true) && p.healthy == Some(true);
            let unwell = p.running == Some(false) || (p.running == Some(true) && p.healthy == Some(
                false,
            ));
            &&& call == StartCall::StartContainer <==> !already_running && !p.started
            &&& call is Wait <==> !already_running && p.started && !p.waited
            &&& (call matches StartCall::Wait { seconds } ==> seconds == wait_seconds)
            &&& call == StartCall::AskRunning <==> up && p.running is None
            &&& call == StartCall::CheckHealth <==> up && p.running == Some(true) && p.healthy
                is None
            &&& call == StartCall::Succeeded <==> up && well
            &&& call == StartCall::RecordFailure <==> up && unwell && !p.failure_recorded
            &&& call == StartCall::FailedToStart <==> up && unwell && p.failure_recorded
        }),
        ({
            let call = start_agent_call(p);
            let well = p.running == Some(true) && p.healthy == Some(true);
            let unwell = p.running == Some(false) || (p.running == Some(true) && p.healthy == Some(
                false,
            ));
            &&& call == StartCall::StartContainer <==> !p.started
            &&& call == StartCall::AskRunning <==> p.started && p.running is None
            &&& call == StartCall::CheckHealth <==> p.started && p.running == Some(true)
                && p.healthy is None
            &&& call == StartCall::Succeeded <==> p.started && well
            &&& call == StartCall::FailedToStart <==> p.started && unwell
            &&& !(call is Wait) && !(call is RecordFailure)
        }),
{
    assert(p.running matches Some(b) ==> p.running == Some(b));
    assert(p.healthy matches Some(b) ==> p.healthy == Some(b));
}

proof fn lemma_next_event(of: Starting, events: Seq<StartEvent>, event: StartEvent)
    requires
        starts_in_turn(of, events),
        comes_of(start_call(of, started_by(of, events)), event),
    ensures
        starts_in_turn(of, events.push(event)),
        started_by(of, events.push(event)) == started_with(
            started_by(of, events),
            start_call(of, started_by(of, events)),
            event,
        ),
{
    assert(events.push(event).drop_last() =~= events);
}

/// Every start comes to its end: brought up and then seen to run and be well, it succeeds; seen
/// not to run, or not to be well, it fails once that was recorded where it is a seedling's.
pub proof fn law_starts_reach_their_end(of: Starting)
    ensures
        ({
            let good = brought_up(of) + seq![
                StartEvent::RunningSeen(true),
                StartEvent::HealthChecked(true),
            ];
            let down = brought_up(of) + seq![StartEvent::RunningSeen(false)] + given_up(of);
            let unwell = brought_up(of) + seq![
                StartEvent::RunningSeen(true),
                StartEvent::HealthChecked(false),
            ] + given_up(of);
            &&& starts_in_turn(of, good) && start_call(of, started_by(of, good)) is Succeeded
            &&& starts_in_turn(of, down) && start_call(of, started_by(of, down)) is FailedToStart
            &&& starts_in_turn(of, unwell) && start_call(of, started_by(of, unwell))
                is FailedToStart
        }),
{
    let none = Seq::<StartEvent>::empty();
    let up = brought_up(of);
    match of {
        Starting::Seedling { already_running, .. } => {
            if already_running {
                assert(up =~= none);
            } else {
                lemma_next_event(of, none, StartEvent::Started);
                lemma_next_event(of, none.push(StartEvent::Started), StartEvent::Waited);
                assert(up =~= none.push(StartEvent::Started).push(StartEvent::Waited));
            }
        },
        Starting::Agent => {
            lemma_next_event(of, none, StartEvent::Started);
            assert(up =~= none.push(StartEvent::Started));
        },
    }
    lemma_next_event(of, up, StartEvent::RunningSeen(true));
    lemma_next_event(of, up, StartEvent::RunningSeen(false));
    let runs = up.push(StartEvent::RunningSeen(true));
    lemma_next_event(of, runs, StartEvent::HealthChecked(true));
    lemma_next_event(of, runs, StartEvent::HealthChecked(false));
    let down = up.push(StartEvent::RunningSeen(false));
    let unwell = runs.push(StartEvent::HealthChecked(false));
    assert(up + seq![StartEvent::RunningSeen(true), StartEvent::HealthChecked(true)] =~= runs.push(
        StartEvent::HealthChecked(true),
    ));
    match of {
        Starting::Seedling { .. } => {
            lemma_next_event(of, down, StartEvent::FailureRecorded);
            lemma_next_event(of, unwell, StartEvent::FailureRecorded);
            assert(up + seq![StartEvent::RunningSeen(false)] + given_up(of) =~= down.push(
                StartEvent::FailureRecorded,
            ));
            assert(up + seq![StartEvent::RunningSeen(true), StartEvent::HealthChecked(false)]
                + given_up(of) =~= unwell.push(StartEvent::FailureRecorded));
        },
        Starting::Agent => {
            assert(up + seq![StartEvent::RunningSeen(false)] + given_up(of) =~= down);
            assert(up + seq![StartEvent::RunningSeen(true), StartEvent::HealthChecked(false)]
                + given_up(of) =~= unwell);
        },
    }
}

/// Undoing a start stops the containers that the start brought up, and only those: one that ran
/// before is left running.
pub proof fn law_undoing_a_start_stops_what_it_brought_up<'a>(step: &'a Step<'a>)
    ensures
        match step {
            Step::StartAgentContainer { container_name, .. } => undoing(step).len() == 1 && undoing(
                step,
            )[0] == Instruction::<(), ContainerAction<'a>>::Settle(
                ContainerAction::Stop(container_name),
            ),
            Step::StartSeedling { container_name, already_running, .. } => if *already_running {
                undoing(step).len() == 0
            } else {
                undoing(step).len() == 1 && undoing(step)[0] == Instruction::<
                    (),
                    ContainerAction<'a>,
                >::Settle(ContainerAction::Stop(container_name))
            },
            _ => undoing(step).len() == 0,
        },
{
}

} // verus!
