//! Sockets, and whether a service is alive.

use crate::modes::Modes;
use crate::script::Instruction;
use crate::text::{cat3, cat5, decimal, decimal_text};
use vstd::prelude::*;

verus! {

/// A socket and whom it belongs to.
#[derive(Debug, PartialEq, Eq)]
pub struct ListenerDefinition {
    pub socket_path: String,
    pub owning_user: String,
    pub owning_group: String,
    pub mode: Modes,
}

impl ListenerDefinition {
    pub fn new(socket_path: &str, owning_user: &str, owning_group: &str, mode: Modes) -> (r: Self)
        ensures
            r.socket_path@ == socket_path@,
            r.owning_user@ == owning_user@,
            r.owning_group@ == owning_group@,
            r.mode == mode,
    {
        ListenerDefinition {
            socket_path: socket_path.to_owned(),
            owning_user: owning_user.to_owned(),
            owning_group: owning_group.to_owned(),
            mode,
        }
    }
}

/// What opening a socket does.
#[derive(Debug, PartialEq, Eq)]
pub enum SocketAction<'a> {
    Delete { path: &'a String },
    Bind { path: &'a String },
    ChangeOwnership { path: &'a String, user: &'a String, group: &'a String },
    ChangeMode { path: &'a String, mode: Modes },
}

/// Opens sockets.
#[derive(Debug, PartialEq, Eq)]
pub struct SocketListenerFactory {
    pub definition: ListenerDefinition,
}

/// How a socket is opened: what is left of an earlier one is deleted, the socket is bound, and then
/// it is closed to all but those whom it is for.
pub open spec fn opening<'a>(definition: &'a ListenerDefinition) -> Seq<
    Instruction<(), SocketAction<'a>>,
> {
    seq![
        Instruction::Do(SocketAction::Delete { path: &definition.socket_path }),
        Instruction::Do(SocketAction::Bind { path: &definition.socket_path }),
        Instruction::Do(
            SocketAction::ChangeOwnership {
                path: &definition.socket_path,
                user: &definition.owning_user,
                group: &definition.owning_group,
            },
        ),
        Instruction::Do(
            SocketAction::ChangeMode { path: &definition.socket_path, mode: definition.mode },
        ),
    ]
}

impl SocketListenerFactory {
    pub fn new(definition: ListenerDefinition) -> (r: Self)
        ensures
            r.definition == definition,
    {
        SocketListenerFactory { definition }
    }

    /// How the socket is opened. The first failure ends it.
    pub fn create<'a>(&'a self) -> (r: Vec<Instruction<(), SocketAction<'a>>>)
        ensures
            r@ == opening(&self.definition),
    {
        let d: &'a ListenerDefinition = &self.definition;
        let script: Vec<Instruction<(), SocketAction<'a>>> = vec![
            Instruction::Do(SocketAction::Delete { path: &d.socket_path }),
            Instruction::Do(SocketAction::Bind { path: &d.socket_path }),
            Instruction::Do(
                SocketAction::ChangeOwnership {
                    path: &d.socket_path,
                    user: &d.owning_user,
                    group: &d.owning_group,
                },
            ),
            Instruction::Do(SocketAction::ChangeMode { path: &d.socket_path, mode: d.mode }),
        ];
        assert(script@ =~= opening(&self.definition));
        script
    }
}

/// Whether a service runs.
#[derive(Debug, Clone, Copy, PartialEq, Eq, Structural)]
pub enum RunningStatus {
    Running,
    NotRunning,
    Unknown,
}

impl Default for RunningStatus {
    fn default() -> (r: Self)
        ensures
            r == RunningStatus::NotRunning,
    {
        RunningStatus::NotRunning
    }
}

/// Why a connection or a file could not be opened.
#[derive(Debug, Clone, Copy, PartialEq, Eq, Structural)]
pub enum ErrorKind {
    NotFound,
    PermissionDenied,
    ConnectionRefused,
    ConnectionReset,
    ConnectionAborted,
    NotConnected,
    AddrInUse,
    AddrNotAvailable,
    BrokenPipe,
    AlreadyExists,
    WouldBlock,
    InvalidInput,
    InvalidData,
    TimedOut,
    WriteZero,
    Interrupted,
    Unsupported,
    UnexpectedEof,
    OutOfMemory,
    Other,
}

/// What a failure to connect says of a service: where nothing is there, or nothing answers, or
/// nobody may connect, it does not run; any other failure says nothing.
pub open spec fn status_of(kind: ErrorKind) -> RunningStatus {
    if kind == ErrorKind::NotFound || kind == ErrorKind::ConnectionRefused || kind
        == ErrorKind::PermissionDenied {
        RunningStatus::NotRunning
    } else {
        RunningStatus::Unknown
    }
}

/// What a failure to connect says of a service.
pub fn running_status_for_error_kind(kind: ErrorKind) -> (r: RunningStatus)
    ensures
        r == status_of(kind),
{
    match kind {
        ErrorKind::NotFound => RunningStatus::NotRunning,
        ErrorKind::ConnectionRefused => RunningStatus::NotRunning,
        ErrorKind::PermissionDenied => RunningStatus::NotRunning,
        _ => RunningStatus::Unknown,
    }
}

/// How it is found out whether a service runs.
#[derive(Debug, PartialEq, Eq)]
pub enum LivenessCheck {
    UnixSocket(String),
    TcpPort { host: String, port: u16 },
    Heartbeat { path: String, max_age_nanos: u128 },
}

/// What came of reading a heartbeat.
#[derive(Debug, Clone, Copy, PartialEq, Eq, Structural)]
pub enum HeartbeatReading {
    /// The process that wrote it, and how long ago; nothing where that lies in the future.
    Read { pid: u32, age_nanos: Option<u128> },
    /// There is no heartbeat file.
    Missing,
    /// The file could not be opened.
    Unopened(ErrorKind),
    /// The file says nothing that can be understood.
    Unreadable,
}

/// Whether a process is there.
#[derive(Debug, Clone, Copy, PartialEq, Eq, Structural)]
pub enum PidSight {
    Active,
    Gone,
    Unknown,
}

/// What was found out about a service so far.
#[derive(Debug, Clone, Copy, PartialEq, Eq)]
pub struct Evidence {
    pub connection: Option<Result<(), ErrorKind>>,
    pub heartbeat: Option<HeartbeatReading>,
    pub pid: Option<PidSight>,
}

/// What has to be tried next, or what is known.
#[derive(Debug, PartialEq, Eq)]
pub enum Liveness<'a> {
    ConnectSocket(&'a String),
    ConnectPort { host: &'a String, port: u16 },
    ReadHeartbeat(&'a String),
    LookForPid(u32),
    Known(RunningStatus),
}

/// What a heartbeat says of a service. One that is too old is not followed up; one that is fresh
/// counts only where its process is there.
pub open spec fn heartbeat_says<'a>(
    max_age_nanos: u128,
    reading: HeartbeatReading,
    pid_sight: Option<PidSight>,
) -> Liveness<'a> {
    match reading {
        HeartbeatReading::Missing => Liveness::Known(RunningStatus::NotRunning),
        HeartbeatReading::Unopened(kind) => Liveness::Known(status_of(kind)),
        HeartbeatReading::Unreadable => Liveness::Known(RunningStatus::Unknown),
        HeartbeatReading::Read { age_nanos: None, .. } => Liveness::Known(RunningStatus::Unknown),
        HeartbeatReading::Read { pid, age_nanos: Some(age) } => if age > max_age_nanos {
            Liveness::Known(RunningStatus::NotRunning)
        } else {
            match pid_sight {
                None => Liveness::LookForPid(pid),
                Some(PidSight::Active) => Liveness::Known(RunningStatus::Running),
                Some(PidSight::Gone) => Liveness::Known(RunningStatus::NotRunning),
                Some(PidSight::Unknown) => Liveness::Known(RunningStatus::Unknown),
            }
        },
    }
}

/// What a heartbeat says of a service.
pub fn check_heartbeat_with<'a>(
    max_age_nanos: u128,
    reading: HeartbeatReading,
    pid_sight: Option<PidSight>,
) -> (r: Liveness<'a>)
    ensures
        r == heartbeat_says::<'a>(max_age_nanos, reading, pid_sight),
{
    match reading {
        HeartbeatReading::Missing => Liveness::Known(RunningStatus::NotRunning),
        HeartbeatReading::Unopened(kind) => Liveness::Known(running_status_for_error_kind(kind)),
        HeartbeatReading::Unreadable => Liveness::Known(RunningStatus::Unknown),
        HeartbeatReading::Read { pid, age_nanos } => match age_nanos {
            None => Liveness::Known(RunningStatus::Unknown),
            Some(age) => {
                if age > max_age_nanos {
                    Liveness::Known(RunningStatus::NotRunning)
                } else {
                    match pid_sight {
                        None => Liveness::LookForPid(pid),
                        Some(PidSight::Active) => Liveness::Known(RunningStatus::Running),
                        Some(PidSight::Gone) => Liveness::Known(RunningStatus::NotRunning),
                        Some(PidSight::Unknown) => Liveness::Known(RunningStatus::Unknown),
                    }
                }
            },
        },
    }
}

/// What an attempt to connect says of a service.
pub open spec fn connection_says<'a>(connection: Result<(), ErrorKind>) -> Liveness<'a> {
    match connection {
        Ok(_) => Liveness::Known(RunningStatus::Running),
        Err(kind) => Liveness::Known(status_of(kind)),
    }
}

fn check_connection<'a>(connection: Result<(), ErrorKind>) -> (r: Liveness<'a>)
    ensures
        r == connection_says::<'a>(connection),
{
    match connection {
        Ok(_) => Liveness::Known(RunningStatus::Running),
        Err(kind) => Liveness::Known(running_status_for_error_kind(kind)),
    }
}

/// What has to be tried next to find out whether a service runs, or what is known of that.
pub open spec fn liveness_of<'a>(check: &'a LivenessCheck, seen: Evidence) -> Liveness<'a> {
    match check {
        LivenessCheck::UnixSocket(path) => match seen.connection {
            None => Liveness::ConnectSocket(path),
            Some(connection) => connection_says(connection),
        },
        LivenessCheck::TcpPort { host, port } => match seen.connection {
            None => Liveness::ConnectPort { host, port: *port },
            Some(connection) => connection_says(connection),
        },
        LivenessCheck::Heartbeat { path, max_age_nanos } => match seen.heartbeat {
            None => Liveness::ReadHeartbeat(path),
            Some(reading) => heartbeat_says(*max_age_nanos, reading, seen.pid),
        },
    }
}

/// What has to be tried next to find out whether a service runs, or what is known of that.
pub fn check_liveness<'a>(check: &'a LivenessCheck, seen: Evidence) -> (r: Liveness<'a>)
    ensures
        r == liveness_of(check, seen),
{
    match check {
        LivenessCheck::UnixSocket(path) => match seen.connection {
            None => Liveness::ConnectSocket(path),
            Some(connection) => check_connection(connection),
        },
        LivenessCheck::TcpPort { host, port } => match seen.connection {
            None => Liveness::ConnectPort { host, port: *port },
            Some(connection) => check_connection(connection),
        },
        LivenessCheck::Heartbeat { path, max_age_nanos } => match seen.heartbeat {
            None => Liveness::ReadHeartbeat(path),
            Some(reading) => check_heartbeat_with(*max_age_nanos, reading, seen.pid),
        },
    }
}

/// What a check looks at, in words: the path of a socket or of a heartbeat, or a host and a port.
pub open spec fn target_of(check: LivenessCheck) -> Seq<char> {
    match check {
        LivenessCheck::UnixSocket(path) => path@,
        LivenessCheck::TcpPort { host, port } => host@ + ":"@ + decimal(port as nat),
        LivenessCheck::Heartbeat { path, .. } => path@,
    }
}

fn target(check: &LivenessCheck) -> (r: String)
    ensures
        r@ == target_of(*check),
{
    match check {
        LivenessCheck::UnixSocket(path) => path.clone(),
        LivenessCheck::TcpPort { host, port } => cat3(host, ":", &decimal_text(*port as u64)),
        LivenessCheck::Heartbeat { path, .. } => path.clone(),
    }
}

/// Whether it was an error that left a check without an answer. A heartbeat from the future leaves
/// it without one too, and is no error.
pub open spec fn ends_in_error<'a>(check: &'a LivenessCheck, seen: Evidence) -> bool {
    &&& liveness_of(check, seen) == Liveness::<'a>::Known(RunningStatus::Unknown)
    &&& !(check is Heartbeat && seen.heartbeat matches Some(
        HeartbeatReading::Read { age_nanos: None, .. },
    ))
}

/// The warning that a status could not be determined.
pub open spec fn undetermined(target: Seq<char>, error: Seq<char>) -> Seq<char> {
    "Could not determine status of '"@ + target + "': '"@ + error + "'"@
}

/// What is warned of a target whose status was told from an error: that it could not be determined,
/// where it is unknown.
pub fn status_warning(target: &str, status: RunningStatus, error: &str) -> (r: Option<String>)
    ensures
        r is Some == (status == RunningStatus::Unknown),
        r matches Some(words) ==> words@ == undetermined(target@, error@),
{
    match status {
        RunningStatus::Unknown => Some(
            cat5("Could not determine status of '", target, "': '", error, "'"),
        ),
        _ => None,
    }
}

/// What is warned of at the end of a check. `error` is the last error that was met.
pub fn liveness_warning(check: &LivenessCheck, seen: Evidence, error: &str) -> (r: Option<String>)
    ensures
        r is Some == ends_in_error(check, seen),
        r matches Some(words) ==> words@ == undetermined(target_of(*check), error@),
{
    if let LivenessCheck::Heartbeat { .. } = check {
        if let Some(HeartbeatReading::Read { age_nanos: None, .. }) = seen.heartbeat {
            return None;
        }
    }
    match check_liveness(check, seen) {
        Liveness::Known(status) => status_warning(&target(check), status, error),
        _ => None,
    }
}

/// A service counts as running only where something answered or a fresh heartbeat's process is
/// there.
pub proof fn law_running_needs_proof<'a>(check: &'a LivenessCheck, seen: Evidence)
    requires
        liveness_of(check, seen) == Liveness::<'a>::Known(RunningStatus::Running),
    ensures
        match check {
            LivenessCheck::Heartbeat { max_age_nanos, .. } => {
                &&& seen.pid == Some(PidSight::Active)
                &&& seen.heartbeat matches Some(HeartbeatReading::Read { age_nanos: Some(age), .. })
                &&& age <= *max_age_nanos
            },
            _ => seen.connection matches Some(Ok(_)),
        },
{
}

/// The process behind a heartbeat that is too old is never looked for.
pub proof fn law_stale_heartbeats_are_not_followed_up<'a>(
    check: &'a LivenessCheck,
    seen: Evidence,
    pid: u32,
)
    requires
        liveness_of(check, seen) == Liveness::<'a>::LookForPid(pid),
    ensures
        check matches LivenessCheck::Heartbeat { max_age_nanos, .. } && seen.heartbeat matches Some(
            HeartbeatReading::Read { age_nanos: Some(age), .. },
        ) && age <= *max_age_nanos,
{
}

/// A socket is opened at one path, from first to last: the old one goes, the new one comes, and it
/// belongs to those whom it is for before its mode lets anybody in.
pub proof fn law_sockets_are_handed_over<'a>(definition: &'a ListenerDefinition)
    ensures
        ({
            let script = opening(definition);
            &&& script.len() == 4
            &&& forall|i: int| 0 <= i < 4 ==> #[trigger] script[i] is Do
            &&& script[0]->Do_0 matches SocketAction::Delete { path } && path@
                == definition.socket_path@
            &&& script[1]->Do_0 matches SocketAction::Bind { path } && path@
                == definition.socket_path@
            &&& script[2]->Do_0 matches SocketAction::ChangeOwnership { path, user, group }
                && path@ == definition.socket_path@ && user@ == definition.owning_user@ && group@
                == definition.owning_group@
            &&& script[3]->Do_0 matches SocketAction::ChangeMode { path, mode } && path@
                == definition.socket_path@ && mode == definition.mode
        }),
{
}

/// No failure proves that a service runs. That nothing is there, that nothing answers and that
/// nobody may connect prove that it does not; nothing else does.
pub proof fn law_failures_prove_little(kind: ErrorKind)
    ensures
        status_of(kind) != RunningStatus::Running,
        status_of(kind) == RunningStatus::NotRunning <==> (kind is NotFound || kind is
            ConnectionRefused || kind is PermissionDenied),
{
}

/// What answered runs; what failed is known as far as the failure tells; and what was not tried is
/// tried at the place that the check names.
pub proof fn law_connections_tell_what_runs<'a>(check: &'a LivenessCheck, seen: Evidence)
    requires
        !(check is Heartbeat),
    ensures
        match seen.connection {
            Some(Ok(_)) => liveness_of(check, seen) == Liveness::<'a>::Known(RunningStatus::Running),
            Some(Err(kind)) => liveness_of(check, seen) == Liveness::<'a>::Known(status_of(kind)),
            None => match check {
                LivenessCheck::UnixSocket(wanted) => liveness_of(check, seen) matches
                    Liveness::ConnectSocket(path) && path@ == wanted@,
                LivenessCheck::TcpPort { host: wanted, port: at } => liveness_of(check, seen) matches
                    Liveness::ConnectPort { host, port } && host@ == wanted@ && port == *at,
                LivenessCheck::Heartbeat { .. } => true,
            },
        },
{
}

/// A heartbeat is read where the check names it, and believed only while it is fresh: one that is
/// missing or too old belongs to a service that does not run, and one from the future or one that
/// nobody can read says nothing. A fresh one is as good as its process.
pub proof fn law_heartbeats_are_as_good_as_their_process<'a>(
    check: &'a LivenessCheck,
    seen: Evidence,
)
    requires
        check is Heartbeat,
    ensures
        match seen.heartbeat {
            None => liveness_of(check, seen) matches Liveness::ReadHeartbeat(path) && path@
                == check->path@,
            Some(HeartbeatReading::Missing) => liveness_of(check, seen) == Liveness::<'a>::Known(
                RunningStatus::NotRunning,
            ),
            Some(HeartbeatReading::Unopened(kind)) => liveness_of(check, seen)
                == Liveness::<'a>::Known(status_of(kind)),
            Some(HeartbeatReading::Unreadable) => liveness_of(check, seen) == Liveness::<
                'a,
            >::Known(RunningStatus::Unknown),
            Some(HeartbeatReading::Read { pid, age_nanos }) => {
                &&& age_nanos is None ==> liveness_of(check, seen) == Liveness::<'a>::Known(
                    RunningStatus::Unknown,
                )
                &&& (age_nanos matches Some(age) && age > check->max_age_nanos) ==> liveness_of(
                    check,
                    seen,
                ) == Liveness::<'a>::Known(RunningStatus::NotRunning)
                &&& (age_nanos matches Some(age) && age <= check->max_age_nanos) ==> {
                    &&& seen.pid is None ==> liveness_of(check, seen) == Liveness::<
                        'a,
                    >::LookForPid(pid)
                    &&& seen.pid == Some(PidSight::Active) ==> liveness_of(check, seen)
                        == Liveness::<'a>::Known(RunningStatus::Running)
                    &&& seen.pid == Some(PidSight::Gone) ==> liveness_of(check, seen) == Liveness::<
                        'a,
                    >::Known(RunningStatus::NotRunning)
                    &&& seen.pid == Some(PidSight::Unknown) ==> liveness_of(check, seen)
                        == Liveness::<'a>::Known(RunningStatus::Unknown)
                }
            },
        },
{
}

/// An error is reported exactly where a check of a socket or a port failed for a reason that proves
/// nothing, or where a heartbeat could not be opened for such a reason, could not be read, or
/// belongs to a fresh process of which nothing is known.
pub proof fn law_only_errors_are_reported<'a>(check: &'a LivenessCheck, seen: Evidence)
    ensures
        ends_in_error(check, seen) <==> (match check {
            LivenessCheck::Heartbeat { max_age_nanos, .. } => match seen.heartbeat {
                Some(HeartbeatReading::Unopened(kind)) => !(kind is NotFound || kind is
                    ConnectionRefused || kind is PermissionDenied),
                Some(HeartbeatReading::Unreadable) => true,
                Some(HeartbeatReading::Read { age_nanos: Some(age), .. }) => age <= *max_age_nanos
                    && seen.pid == Some(PidSight::Unknown),
                _ => false,
            },
            _ => seen.connection matches Some(Err(kind)) && !(kind is NotFound || kind is
                ConnectionRefused || kind is PermissionDenied),
        }),
{
    assert(seen.pid matches Some(sight) ==> seen.pid == Some(sight));
}

} // verus!
