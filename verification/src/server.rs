//! What the service does about the seedlings that it is asked about.

use crate::bootstrap::BootstrapError;
use crate::docker::{Label, Status};
use crate::labels::{get_version, version_in, LabelError};
use crate::names::{openbao, traefik, Name, OPENBAO, TRAEFIK};
use crate::script::Instruction;
use crate::seedling::{DesiredRunStatus, RequestedBy, Version};
use crate::text::{cat2, cat5, decimal, decimal_text};
use vstd::prelude::*;

verus! {

/// How many seconds lie between two sweeps of the watchdog.
pub const WATCHDOG_INTERVAL_SECONDS: u64 = 30;

/// How many seconds lie between two searches for logs that have grown too large.
pub const LOG_ROTATION_INTERVAL_SECONDS: u64 = 60;

/// How many seconds lie between two heartbeats.
pub const HEARTBEAT_INTERVAL_SECONDS: u64 = 5;

/// Why the service could not do what it was asked. What failed below it is kept in words.
#[derive(Debug, PartialEq, Eq)]
pub enum ServerError {
    BootstrapError(BootstrapError),
    IoError(String),
    FileSystemError(String),
    BuildError(String),
    NameError(String),
    DockerError(String),
    UnknownSeedling,
    TooManySeedlings,
    SeedbankError(String),
    MissingVersion,
    UncreatedSeedling,
    LabelError(LabelError),
    ReconcileSeedlingError(String),
    StartSeedlingError(String),
    StopSeedlingError(String),
    DropSeedlingError(String),
    NewSeedlingError(String),
    WriteTraefikRoutesError(String),
    FindDeadwoodError(String),
    PruneDeadwoodError(String),
    OpenBaoStatusError(String),
    ProvisionSeedlingSecretsError(String),
    NameParseError(String),
    RolodexError(String),
}

impl ServerError {
    /// The error in words.
    pub open spec fn text(&self) -> Seq<char> {
        match self {
            ServerError::BootstrapError(error) => "BootstrapError: "@ + error.text(),
            ServerError::IoError(error) => "IO error: "@ + error@,
            ServerError::FileSystemError(error) => "FileSystem error: "@ + error@,
            ServerError::BuildError(error) => "Build error: "@ + error@,
            ServerError::NameError(error) => "Name error: "@ + error@,
            ServerError::DockerError(error) => "Docker error: "@ + error@,
            ServerError::UnknownSeedling => "Unknown seedling"@,
            ServerError::TooManySeedlings => "Too many seedlings"@,
            ServerError::SeedbankError(error) => "Seedbank error: "@ + error@,
            ServerError::MissingVersion => "Missing version"@,
            ServerError::UncreatedSeedling => "Seedling not yet created"@,
            ServerError::LabelError(error) => "Label error: "@ + error.text(),
            ServerError::ReconcileSeedlingError(error) => "Failed to reconcile seedling: "@ + error@,
            ServerError::StartSeedlingError(error) => "Failed to start seedling: "@ + error@,
            ServerError::StopSeedlingError(error) => "Failed to stop seedling: "@ + error@,
            ServerError::DropSeedlingError(error) => "Failed to drop seedling: "@ + error@,
            ServerError::NewSeedlingError(error) => "Failed to create new seedling: "@ + error@,
            ServerError::WriteTraefikRoutesError(error) => "Failed to write traefik routes: "@ + error@,
            ServerError::FindDeadwoodError(error) => "Failed to find deadwood: "@ + error@,
            ServerError::PruneDeadwoodError(error) => "Failed to prune deadwood: "@ + error@,
            ServerError::OpenBaoStatusError(error) => "Failed to determine OpenBao status: "@ + error@,
            ServerError::ProvisionSeedlingSecretsError(error) => "Failed to provision seedling secrets: "@
                + error@,
            ServerError::NameParseError(error) => "Name parse error: "@ + error@,
            ServerError::RolodexError(error) => "Rolodex error: "@ + error@,
        }
    }

    /// The error in words.
    pub fn describe(&self) -> (r: String)
        ensures
            r@ == self.text(),
    {
        match self {
            ServerError::BootstrapError(error) => cat2("BootstrapError: ", &error.describe()),
            ServerError::IoError(error) => cat2("IO error: ", error),
            ServerError::FileSystemError(error) => cat2("FileSystem error: ", error),
            ServerError::BuildError(error) => cat2("Build error: ", error),
            ServerError::NameError(error) => cat2("Name error: ", error),
            ServerError::DockerError(error) => cat2("Docker error: ", error),
            ServerError::UnknownSeedling => "Unknown seedling".to_owned(),
            ServerError::TooManySeedlings => "Too many seedlings".to_owned(),
            ServerError::SeedbankError(error) => cat2("Seedbank error: ", error),
            ServerError::MissingVersion => "Missing version".to_owned(),
            ServerError::UncreatedSeedling => "Seedling not yet created".to_owned(),
            ServerError::LabelError(error) => cat2("Label error: ", &error.describe()),
            ServerError::ReconcileSeedlingError(error) => cat2("Failed to reconcile seedling: ", error),
            ServerError::StartSeedlingError(error) => cat2("Failed to start seedling: ", error),
            ServerError::StopSeedlingError(error) => cat2("Failed to stop seedling: ", error),
            ServerError::DropSeedlingError(error) => cat2("Failed to drop seedling: ", error),
            ServerError::NewSeedlingError(error) => cat2("Failed to create new seedling: ", error),
            ServerError::WriteTraefikRoutesError(error) => cat2(
                "Failed to write traefik routes: ",
                error,
            ),
            ServerError::FindDeadwoodError(error) => cat2("Failed to find deadwood: ", error),
            ServerError::PruneDeadwoodError(error) => cat2("Failed to prune deadwood: ", error),
            ServerError::OpenBaoStatusError(error) => cat2(
                "Failed to determine OpenBao status: ",
                error,
            ),
            ServerError::ProvisionSeedlingSecretsError(error) => cat2(
                "Failed to provision seedling secrets: ",
                error,
            ),
            ServerError::NameParseError(error) => cat2("Name parse error: ", error),
            ServerError::RolodexError(error) => cat2("Rolodex error: ", error),
        }
    }
}

/// How the declaration that a container was built from compares to the present one.
#[derive(Debug, Clone, Copy, PartialEq, Eq, Structural)]
pub enum DefinitionStatus {
    Current,
    Stale,
    Newer,
}

/// How a seedling does.
#[derive(Debug, Clone, Copy, PartialEq, Eq, Structural)]
pub enum SeedlingStatus {
    Running(DefinitionStatus),
    Defined(DefinitionStatus),
    Missing,
    Unknown,
}

/// How a container's version compares to the declared one.
pub open spec fn compared(actual: Version, declared: Version) -> DefinitionStatus {
    if actual.0 == declared.0 {
        DefinitionStatus::Current
    } else if actual.0 < declared.0 {
        DefinitionStatus::Stale
    } else {
        DefinitionStatus::Newer
    }
}

/// How a seedling does whose container has this status.
pub open spec fn status_with(status: Status, definition: DefinitionStatus) -> SeedlingStatus {
    match status {
        Status::Running => SeedlingStatus::Running(definition),
        Status::Exited => SeedlingStatus::Defined(definition),
        Status::Created => SeedlingStatus::Defined(definition),
        _ => SeedlingStatus::Missing,
    }
}

/// How a seedling does, by its container. One whose version cannot be told is an error.
pub fn check_container_status(labels: &Vec<Label>, status: Status, version: Version) -> (r: Result<
    SeedlingStatus,
    LabelError,
>)
    ensures
        r == (match version_in(labels@) {
            Some(actual) => Ok::<SeedlingStatus, LabelError>(
                status_with(status, compared(actual, version)),
            ),
            None => Err(LabelError::MissingVersion),
        }),
{
    let actual: Version = match get_version(labels) {
        Ok(actual) => actual,
        Err(error) => return Err(error),
    };
    let definition: DefinitionStatus = if actual.0 == version.0 {
        DefinitionStatus::Current
    } else if actual.0 < version.0 {
        DefinitionStatus::Stale
    } else {
        DefinitionStatus::Newer
    };
    match status {
        Status::Running => Ok(SeedlingStatus::Running(definition)),
        Status::Exited => Ok(SeedlingStatus::Defined(definition)),
        Status::Created => Ok(SeedlingStatus::Defined(definition)),
        _ => Ok(SeedlingStatus::Missing),
    }
}

/// What the container engine says of a seedling's container.
#[derive(Debug, PartialEq, Eq)]
pub enum Inspection {
    Found { labels: Vec<Label>, status: Status },
    NotFound,
    Failed(String),
}

/// What is known of a seedling so far.
#[derive(Debug, PartialEq, Eq)]
pub struct StatusKnowledge<'a> {
    pub declared: Option<bool>,
    pub version: Option<Version>,
    pub inspection: Option<&'a Inspection>,
}

/// What has to be found out next about a seedling, or how it does.
#[derive(Debug, PartialEq, Eq)]
pub enum StatusInquiry {
    AskDeclared,
    Load,
    Inspect,
    Known(Result<SeedlingStatus, ServerError>),
}

/// Finds out how a seedling does: one that is not declared is unknown, one without a container is
/// missing.
pub fn seedling_status(knowledge: &StatusKnowledge<'_>) -> (r: StatusInquiry)
    ensures
        match (knowledge.declared, knowledge.version, knowledge.inspection) {
            (None, _, _) => r == StatusInquiry::AskDeclared,
            (Some(false), _, _) => r == StatusInquiry::Known(Ok(SeedlingStatus::Unknown)),
            (Some(true), None, _) => r == StatusInquiry::Load,
            (Some(true), Some(_), None) => r == StatusInquiry::Inspect,
            (Some(true), Some(version), Some(inspection)) => match *inspection {
                Inspection::NotFound => r == StatusInquiry::Known(Ok(SeedlingStatus::Missing)),
                Inspection::Failed(error) => r == StatusInquiry::Known(
                    Err(ServerError::DockerError(error)),
                ),
                Inspection::Found { labels, status } => match version_in(labels@) {
                    Some(actual) => r == StatusInquiry::Known(
                        Ok(status_with(status, compared(actual, version))),
                    ),
                    None => r == StatusInquiry::Known(
                        Err(ServerError::LabelError(LabelError::MissingVersion)),
                    ),
                },
            },
        },
{
    match knowledge.declared {
        None => return StatusInquiry::AskDeclared,
        Some(declared) => {
            if !declared {
                return StatusInquiry::Known(Ok(SeedlingStatus::Unknown));
            }
        },
    }
    let version: Version = match knowledge.version {
        None => return StatusInquiry::Load,
        Some(version) => version,
    };
    match knowledge.inspection {
        None => StatusInquiry::Inspect,
        Some(Inspection::NotFound) => StatusInquiry::Known(Ok(SeedlingStatus::Missing)),
        Some(Inspection::Failed(error)) => StatusInquiry::Known(
            Err(ServerError::DockerError(error.clone())),
        ),
        Some(Inspection::Found { labels, status }) => match check_container_status(
            labels,
            *status,
            version,
        ) {
            Ok(found) => StatusInquiry::Known(Ok(found)),
            Err(error) => StatusInquiry::Known(Err(ServerError::LabelError(error))),
        },
    }
}

/// A seedling counts as running only where its container does, whatever its version.
pub proof fn law_running_means_running(status: Status, actual: Version, declared: Version)
    ensures
        status_with(status, compared(actual, declared)) is Running <==> status == Status::Running,
        compared(actual, declared) == DefinitionStatus::Current <==> actual == declared,
{
}

/// How a seedling is started.
#[derive(Debug, Clone, Copy, PartialEq, Eq, Structural)]
pub enum StartRoute {
    /// Whether the seedling has a service account has to be found out first.
    AskAccount,
    /// The seedling has never been set up, and is reconciled instead.
    Reconcile,
    Start,
}

/// How a seedling is started on an operator's request. A declared one without a service account is
/// reconciled instead. That it could not be told whether it is declared counts as that it is not.
pub fn start_seedling(declared: Option<bool>, has_account: Option<bool>) -> (r: StartRoute)
    ensures
        r == (if declared != Some(true) {
            StartRoute::Start
        } else {
            match has_account {
                None => StartRoute::AskAccount,
                Some(true) => StartRoute::Start,
                Some(false) => StartRoute::Reconcile,
            }
        }),
{
    match declared {
        Some(true) => match has_account {
            None => StartRoute::AskAccount,
            Some(has) => {
                if has {
                    StartRoute::Start
                } else {
                    StartRoute::Reconcile
                }
            },
        },
        _ => StartRoute::Start,
    }
}

/// How far the dropping of a seedling has come.
#[derive(Debug, Clone, Copy, PartialEq, Eq, Structural)]
pub struct DropProgress {
    pub declared: Option<bool>,
    pub loaded: bool,
    /// Whether revoking its secrets succeeded.
    pub revoked: Option<bool>,
    pub dropped: bool,
}

/// What is done next.
#[derive(Debug, Clone, Copy, PartialEq, Eq, Structural)]
pub enum DropCall {
    AskDeclared,
    Load,
    Revoke,
    Drop,
    Finished,
}

/// What is done next in dropping a seedling.
pub open spec fn drop_call(p: DropProgress) -> DropCall {
    if p.declared is None {
        DropCall::AskDeclared
    } else if p.declared == Some(true) && !p.loaded {
        DropCall::Load
    } else if p.declared == Some(true) && p.revoked is None {
        DropCall::Revoke
    } else if !p.dropped {
        DropCall::Drop
    } else {
        DropCall::Finished
    }
}

/// What is done next in dropping a seedling. The secrets of a declared one are revoked first; that
/// this fails does not keep the rest from being dropped.
pub fn drop_seedling(p: DropProgress) -> (r: DropCall)
    ensures
        r == drop_call(p),
{
    let declared: bool = match p.declared {
        None => return DropCall::AskDeclared,
        Some(declared) => declared,
    };
    if declared {
        if !p.loaded {
            return DropCall::Load;
        }
        if p.revoked.is_none() {
            return DropCall::Revoke;
        }
    }
    if !p.dropped {
        DropCall::Drop
    } else {
        DropCall::Finished
    }
}

/// Nothing done yet.
pub open spec fn nothing_dropped() -> DropProgress {
    DropProgress { declared: None, loaded: false, revoked: None, dropped: false }
}

/// What comes of what is done in dropping a seedling.
#[derive(Debug, Clone, Copy, PartialEq, Eq, Structural)]
pub enum DropEvent {
    Declared(bool),
    Loaded,
    /// Whether revoking the seedling's secrets succeeded.
    Revoked(bool),
    Dropped,
}

/// Whether this can come of what is done next.
pub open spec fn drops(p: DropProgress, event: DropEvent) -> bool {
    match event {
        DropEvent::Declared(_) => drop_call(p) is AskDeclared,
        DropEvent::Loaded => drop_call(p) is Load,
        DropEvent::Revoked(_) => drop_call(p) is Revoke,
        DropEvent::Dropped => drop_call(p) is Drop,
    }
}

/// How far the dropping has come after what was done. What cannot come of it changes nothing.
pub open spec fn dropped(p: DropProgress, event: DropEvent) -> DropProgress {
    if !drops(p, event) {
        p
    } else {
        match event {
            DropEvent::Declared(declared) => DropProgress { declared: Some(declared), ..p },
            DropEvent::Loaded => DropProgress { loaded: true, ..p },
            DropEvent::Revoked(success) => DropProgress { revoked: Some(success), ..p },
            DropEvent::Dropped => DropProgress { dropped: true, ..p },
        }
    }
}

impl DropProgress {
    /// Nothing done yet.
    pub fn start() -> (r: Self)
        ensures
            r == nothing_dropped(),
    {
        DropProgress { declared: None, loaded: false, revoked: None, dropped: false }
    }

    /// How far the dropping has come after what was done.
    pub fn after(self, event: DropEvent) -> (r: Self)
        ensures
            r == dropped(self, event),
    {
        let mut progress: Self = self;
        match (drop_seedling(self), event) {
            (DropCall::AskDeclared, DropEvent::Declared(declared)) => {
                progress.declared = Some(declared);
            },
            (DropCall::Load, DropEvent::Loaded) => progress.loaded = true,
            (DropCall::Revoke, DropEvent::Revoked(success)) => progress.revoked = Some(success),
            (DropCall::Drop, DropEvent::Dropped) => progress.dropped = true,
            _ => {},
        }
        progress
    }
}

/// How far the dropping has come after all that was done, from nothing done.
pub open spec fn dropped_by(events: Seq<DropEvent>) -> DropProgress
    decreases events.len(),
{
    if events.len() == 0 {
        nothing_dropped()
    } else {
        dropped(dropped_by(events.drop_last()), events.last())
    }
}

/// Whether each of these, in order, came of what was done next.
pub open spec fn drops_in_turn(events: Seq<DropEvent>) -> bool
    decreases events.len(),
{
    events.len() == 0 || (drops_in_turn(events.drop_last()) && drops(
        dropped_by(events.drop_last()),
        events.last(),
    ))
}

proof fn lemma_dropping_tells_what_happened(events: Seq<DropEvent>)
    requires
        drops_in_turn(events),
    ensures
        ({
            let p = dropped_by(events);
            &&& p.loaded ==> p.declared == Some(true)
            &&& p.revoked is Some ==> p.loaded
            &&& p.dropped ==> p.declared == Some(false) || p.revoked is Some
            &&& events == (match p.declared {
                Some(declared) => seq![DropEvent::Declared(declared)],
                None => Seq::empty(),
            }) + (if p.loaded {
                seq![DropEvent::Loaded]
            } else {
                Seq::empty()
            }) + (match p.revoked {
                Some(success) => seq![DropEvent::Revoked(success)],
                None => Seq::empty(),
            }) + (if p.dropped {
                seq![DropEvent::Dropped]
            } else {
                Seq::empty()
            })
        }),
    decreases events.len(),
{
    if events.len() > 0 {
        let rest = events.drop_last();
        lemma_dropping_tells_what_happened(rest);
        let before = dropped_by(rest);
        assert(before.declared matches Some(there) ==> before.declared == Some(there));
        assert(events =~= rest.push(events.last()));
    }
}

/// What comes of dropping a declared seedling whose secrets could be revoked, or could not.
pub open spec fn dropping_of_declared(success: bool) -> Seq<DropEvent> {
    seq![
        DropEvent::Declared(true),
        DropEvent::Loaded,
        DropEvent::Revoked(success),
        DropEvent::Dropped,
    ]
}

/// A seedling that is not declared is just dropped. One that is declared is loaded, it is tried to
/// revoke its secrets, and it is dropped whatever came of that.
pub proof fn law_dropping_tries_to_revoke(events: Seq<DropEvent>)
    requires
        drops_in_turn(events),
        drop_call(dropped_by(events)) is Finished,
    ensures
        events == seq![DropEvent::Declared(false), DropEvent::Dropped] || exists|success: bool|
            events == #[trigger] dropping_of_declared(success),
{
    lemma_dropping_tells_what_happened(events);
    let p = dropped_by(events);
    assert(p.declared == Some(p.declared->0));
    if p.declared->0 {
        assert(events =~= dropping_of_declared(p.revoked->0));
    } else {
        assert(events =~= seq![DropEvent::Declared(false), DropEvent::Dropped]);
    }
}

/// A declared seedling is never dropped before it was tried to revoke its secrets, and whether that
/// succeeded makes no difference.
pub proof fn law_secrets_are_revoked_first(p: DropProgress, succeeded: bool)
    requires
        drop_call(p) == DropCall::Drop,
        p.declared == Some(true),
    ensures
        p.revoked is Some,
        drop_call(DropProgress { revoked: Some(succeeded), ..p }) == DropCall::Drop,
{
}

/// What is said where the secrets of a seedling could not be revoked.
pub fn revoke_warning(name: &Name, error: &str) -> (r: String)
    ensures
        r@ == "Could not revoke OpenBao secrets for '"@ + name@ + "': "@ + error@
            + ". Dropping the rest of the seedling anyway; run 'seedling prune' to clean this up later."@,
{
    cat5(
        "Could not revoke OpenBao secrets for '",
        name.as_str(),
        "': ",
        error,
        ". Dropping the rest of the seedling anyway; run 'seedling prune' to clean this up later.",
    )
}

/// What is known of a seedling that may have to be stopped along with the service. `Some(None)`
/// stands for an answer that could not be had.
#[derive(Debug, Clone, Copy, PartialEq, Eq, Structural)]
pub struct UserSight {
    pub desired: Option<Option<DesiredRunStatus>>,
    pub status: Option<Option<SeedlingStatus>>,
}

/// What is done about a seedling along with which the service stops.
#[derive(Debug, Clone, Copy, PartialEq, Eq, Structural)]
pub enum UserStop {
    AskDesired,
    AskStatus,
    Skip,
    Stop,
}

/// What is done about a seedling when the service stops: one that should run and does is stopped.
/// One about which something could not be told is left alone.
pub open spec fn user_stop(sight: UserSight) -> UserStop {
    match sight.desired {
        None => UserStop::AskDesired,
        Some(None) => UserStop::Skip,
        Some(Some(DesiredRunStatus::Stopped)) => UserStop::Skip,
        Some(Some(DesiredRunStatus::Running)) => match sight.status {
            None => UserStop::AskStatus,
            Some(Some(SeedlingStatus::Running(_))) => UserStop::Stop,
            Some(_) => UserStop::Skip,
        },
    }
}

/// What is done about a seedling when the service stops.
pub fn stop_user_seedling(sight: UserSight) -> (r: UserStop)
    ensures
        r == user_stop(sight),
{
    match sight.desired {
        None => UserStop::AskDesired,
        Some(None) => UserStop::Skip,
        Some(Some(DesiredRunStatus::Stopped)) => UserStop::Skip,
        Some(Some(DesiredRunStatus::Running)) => match sight.status {
            None => UserStop::AskStatus,
            Some(Some(SeedlingStatus::Running(_))) => UserStop::Stop,
            Some(_) => UserStop::Skip,
        },
    }
}

/// What stopping the service does.
#[derive(Debug, PartialEq, Eq)]
pub enum StopCall {
    EndWatchdog,
    StopSeedling { name: Name, requested_by: RequestedBy },
    StopUserSeedlings,
}

/// What stopping the service does, in texts.
pub enum StopCallView {
    EndWatchdog,
    StopSeedling { name: Seq<char>, requested_by: RequestedBy },
    StopUserSeedlings,
}

impl View for StopCall {
    type V = StopCallView;

    open spec fn view(&self) -> StopCallView {
        match self {
            StopCall::EndWatchdog => StopCallView::EndWatchdog,
            StopCall::StopSeedling { name, requested_by } => StopCallView::StopSeedling {
                name: name@,
                requested_by: *requested_by,
            },
            StopCall::StopUserSeedlings => StopCallView::StopUserSeedlings,
        }
    }
}

/// The seedlings of douglas's own that are stopped along with it.
pub open spec fn core_stops() -> Seq<StopCallView> {
    seq![
        StopCallView::StopSeedling { name: TRAEFIK@, requested_by: RequestedBy::Watchdog },
        StopCallView::StopSeedling { name: OPENBAO@, requested_by: RequestedBy::Watchdog },
    ]
}

/// What stopping the service does: the watchdog ends first, so that it starts nothing again; then,
/// where containers are to stop too, douglas's own, and then the users'.
pub open spec fn stop_plan(including_containers: bool) -> Seq<StopCallView> {
    if including_containers {
        seq![StopCallView::EndWatchdog] + core_stops() + seq![StopCallView::StopUserSeedlings]
    } else {
        seq![StopCallView::EndWatchdog]
    }
}

/// What stopping the service does. None of it fails the stopping.
pub fn stop(including_containers: bool) -> (r: Vec<StopCall>)
    ensures
        r@.map_values(|call: StopCall| call@) == stop_plan(including_containers),
{
    let mut calls: Vec<StopCall> = Vec::new();
    calls.push(StopCall::EndWatchdog);
    if including_containers {
        calls.push(
            StopCall::StopSeedling { name: traefik(), requested_by: RequestedBy::Watchdog },
        );
        calls.push(
            StopCall::StopSeedling { name: openbao(), requested_by: RequestedBy::Watchdog },
        );
        calls.push(StopCall::StopUserSeedlings);
    }
    assert(calls@.map_values(|call: StopCall| call@) =~= stop_plan(including_containers));
    calls
}

/// What reconciling a seedling takes.
#[derive(Debug, Clone, Copy, PartialEq, Eq, Structural)]
pub enum ReconcileCall {
    ProvisionAgent,
    Reconcile,
    WriteRoutes,
}

/// What reconciling a seedling takes: its agent's credentials before its container, its route
/// after it. The first failure ends it.
pub fn reconcile_seedling() -> (r: Vec<Instruction<(), ReconcileCall>>)
    ensures
        r@ == seq![
            Instruction::<(), ReconcileCall>::Do(ReconcileCall::ProvisionAgent),
            Instruction::Do(ReconcileCall::Reconcile),
            Instruction::Do(ReconcileCall::WriteRoutes),
        ],
{
    let script: Vec<Instruction<(), ReconcileCall>> = vec![
        Instruction::Do(ReconcileCall::ProvisionAgent),
        Instruction::Do(ReconcileCall::Reconcile),
        Instruction::Do(ReconcileCall::WriteRoutes),
    ];
    assert(script@ =~= seq![
        Instruction::<(), ReconcileCall>::Do(ReconcileCall::ProvisionAgent),
        Instruction::Do(ReconcileCall::Reconcile),
        Instruction::Do(ReconcileCall::WriteRoutes),
    ]);
    script
}

/// What starting the service takes.
#[derive(Debug, Clone, Copy, PartialEq, Eq, Structural)]
pub enum StartCall {
    WriteRoutes,
    OpenSocket,
    OpenTriggerSocket,
    Serve,
}

/// What starting the service takes. That routes could not be written does not keep it from
/// starting; that a socket could not be opened does.
pub fn start() -> (r: Vec<Instruction<(), StartCall>>)
    ensures
        r@ == seq![
            Instruction::<(), StartCall>::Attempt(StartCall::WriteRoutes),
            Instruction::Do(StartCall::OpenSocket),
            Instruction::Do(StartCall::OpenTriggerSocket),
            Instruction::Do(StartCall::Serve),
        ],
{
    let script: Vec<Instruction<(), StartCall>> = vec![
        Instruction::Attempt(StartCall::WriteRoutes),
        Instruction::Do(StartCall::OpenSocket),
        Instruction::Do(StartCall::OpenTriggerSocket),
        Instruction::Do(StartCall::Serve),
    ];
    assert(script@ =~= seq![
        Instruction::<(), StartCall>::Attempt(StartCall::WriteRoutes),
        Instruction::Do(StartCall::OpenSocket),
        Instruction::Do(StartCall::OpenTriggerSocket),
        Instruction::Do(StartCall::Serve),
    ]);
    script
}

/// What is done next about a seedling that is to be reconciled because somebody triggered it.
#[derive(Debug, Clone, Copy, PartialEq, Eq, Structural)]
pub enum TriggerCall {
    Load,
    Reconcile,
    Succeeded,
    Failed,
}

/// What is done next about a seedling that is to be reconciled because somebody triggered it.
pub fn trigger_reconcile(loaded: Option<bool>, reconciled: Option<bool>) -> (r: TriggerCall)
    ensures
        r == (match (loaded, reconciled) {
            (None, _) => TriggerCall::Load,
            (Some(false), _) => TriggerCall::Failed,
            (Some(true), None) => TriggerCall::Reconcile,
            (Some(true), Some(true)) => TriggerCall::Succeeded,
            (Some(true), Some(false)) => TriggerCall::Failed,
        }),
{
    match loaded {
        None => TriggerCall::Load,
        Some(loaded) => {
            if !loaded {
                return TriggerCall::Failed;
            }
            match reconciled {
                None => TriggerCall::Reconcile,
                Some(success) => {
                    if success {
                        TriggerCall::Succeeded
                    } else {
                        TriggerCall::Failed
                    }
                },
            }
        },
    }
}

/// The registry of images on this machine.
pub fn registry(port: u16) -> (r: String)
    ensures
        r@ == "localhost:"@ + decimal(port as nat),
{
    cat2("localhost:", &decimal_text(port as u64))
}

/// The watchdog has ended before any container is stopped.
pub proof fn law_the_watchdog_ends_first(including_containers: bool)
    ensures
        stop_plan(including_containers).len() >= 1,
        stop_plan(including_containers)[0] == StopCallView::EndWatchdog,
        !including_containers ==> stop_plan(including_containers).len() == 1,
{
}

/// How a seedling does follows from its container: one that runs is running, one that was made or
/// has ended is defined, any other is missing; an older version is stale and a later one newer.
pub proof fn law_statuses_follow_from_the_container(
    status: Status,
    actual: Version,
    declared: Version,
)
    ensures
        ({
            let found = status_with(status, compared(actual, declared));
            let definition = if actual.0 < declared.0 {
                DefinitionStatus::Stale
            } else if actual.0 > declared.0 {
                DefinitionStatus::Newer
            } else {
                DefinitionStatus::Current
            };
            &&& status == Status::Running ==> found == SeedlingStatus::Running(definition)
            &&& status == Status::Exited || status == Status::Created ==> found
                == SeedlingStatus::Defined(definition)
            &&& status != Status::Running && status != Status::Exited && status != Status::Created
                ==> found == SeedlingStatus::Missing
        }),
{
}

/// When the service stops, a seedling is stopped exactly where it should run and does. What is not
/// known yet is asked, first whether it should run, and what could not be told leaves it alone.
pub proof fn law_only_running_seedlings_are_stopped(sight: UserSight)
    ensures
        user_stop(sight) == UserStop::AskDesired <==> sight.desired is None,
        user_stop(sight) == UserStop::AskStatus <==> sight.desired == Some(
            Some(DesiredRunStatus::Running),
        ) && sight.status is None,
        user_stop(sight) == UserStop::Stop <==> sight.desired == Some(
            Some(DesiredRunStatus::Running),
        ) && (sight.status matches Some(Some(SeedlingStatus::Running(_)))),
{
    if let Some(Some(desired)) = sight.desired {
        assert(sight.desired == Some(Some(desired)));
    }
    if let Some(Some(SeedlingStatus::Running(definition))) = sight.status {
        assert(sight.status == Some(Some(SeedlingStatus::Running(definition))));
    }
}

/// Stopping the service with its containers ends the watchdog, then stops traefik and OpenBao, then
/// the users' seedlings; without its containers it ends the watchdog alone. Douglas's own seedlings
/// are stopped on nobody's behalf but the service's.
pub proof fn law_stopping_goes_in_order()
    ensures
        stop_plan(true).len() == 4,
        stop_plan(true)[0] == StopCallView::EndWatchdog,
        stop_plan(true)[1] == (StopCallView::StopSeedling {
            name: "traefik"@,
            requested_by: RequestedBy::Watchdog,
        }),
        stop_plan(true)[2] == (StopCallView::StopSeedling {
            name: "openbao"@,
            requested_by: RequestedBy::Watchdog,
        }),
        stop_plan(true)[3] == StopCallView::StopUserSeedlings,
        stop_plan(false) == seq![StopCallView::EndWatchdog],
{
}

/// Dropping comes to its end, for a seedling that is not declared and for one that is, whether or
/// not its secrets could be revoked.
pub proof fn law_dropping_reaches_its_end(success: bool)
    ensures
        ({
            let undeclared = seq![DropEvent::Declared(false), DropEvent::Dropped];
            let declared = dropping_of_declared(success);
            &&& drops_in_turn(undeclared)
            &&& drop_call(dropped_by(undeclared)) is Finished
            &&& drops_in_turn(declared)
            &&& drop_call(dropped_by(declared)) is Finished
        }),
{
    reveal_with_fuel(dropped_by, 6);
    reveal_with_fuel(drops_in_turn, 6);
    let a = seq![DropEvent::Declared(false), DropEvent::Dropped];
    assert(a.drop_last() =~= seq![DropEvent::Declared(false)]);
    assert(seq![DropEvent::Declared(false)].drop_last() =~= Seq::empty());
    let d = dropping_of_declared(success);
    let c = seq![DropEvent::Declared(true), DropEvent::Loaded, DropEvent::Revoked(success)];
    let b = seq![DropEvent::Declared(true), DropEvent::Loaded];
    assert(d.drop_last() =~= c);
    assert(c.drop_last() =~= b);
    assert(b.drop_last() =~= seq![DropEvent::Declared(true)]);
    assert(seq![DropEvent::Declared(true)].drop_last() =~= Seq::empty());
}

} // verus!
