//! Seedlings as they are declared: images, mounts, routes, secrets and health checks.

use crate::docker::{Capability, VersionedImageName};
use crate::names::Name;
use crate::text::{decimal, decimal_text};
use vstd::prelude::*;

verus! {

/// The version of a seedling's declaration.
#[derive(Debug, Clone, Copy, PartialEq, Eq, Structural)]
pub struct Version(pub u32);

impl Version {
    /// The version as it is written.
    pub open spec fn text(&self) -> Seq<char> {
        decimal(self.0 as nat)
    }

    /// The version as it is written.
    pub fn to_text(&self) -> (r: String)
        ensures
            r@ == self.text(),
    {
        decimal_text(self.0 as u64)
    }
}

/// The number under which a seedling is kept.
#[derive(Debug, Clone, Copy, PartialEq, Eq, Structural)]
pub struct Id {
    pub value: u16,
}

/// Who a seedling belongs to.
#[derive(Debug, Clone, Copy, PartialEq, Eq, Structural)]
pub enum Origin {
    Core,
    User,
}

/// Who asks for something to be done with a seedling.
#[derive(Debug, Clone, Copy, PartialEq, Eq, Structural)]
pub enum RequestedBy {
    Operator,
    Watchdog,
}

/// Whether a request is refused because the seedling is one that douglas manages itself.
pub open spec fn core_forbidden(origin: Option<Origin>, requested_by: RequestedBy) -> bool {
    origin == Some(Origin::Core) && requested_by == RequestedBy::Operator
}

/// Whether a request is refused because the seedling is one that douglas manages itself.
pub fn core_seedling_forbidden_for(origin: Option<Origin>, requested_by: RequestedBy) -> (r: bool)
    ensures
        r == core_forbidden(origin, requested_by),
{
    match (origin, requested_by) {
        (Some(Origin::Core), RequestedBy::Operator) => true,
        _ => false,
    }
}

/// The watchdog may touch every seedling; an operator may touch all but douglas's own.
pub proof fn law_only_operators_are_kept_from_core_seedlings(
    origin: Option<Origin>,
    requested_by: RequestedBy,
)
    ensures
        requested_by == RequestedBy::Watchdog ==> !core_forbidden(origin, requested_by),
        requested_by == RequestedBy::Operator ==> core_forbidden(origin, requested_by) == (origin
            == Some(Origin::Core)),
{
}

/// Whether a seedling should be running.
#[derive(Debug, Clone, Copy, PartialEq, Eq, Structural)]
pub enum DesiredRunStatus {
    Running,
    Stopped,
}

/// Where a mount's contents live and who shares them.
#[derive(Debug, Clone, PartialEq, Eq)]
pub enum MountType {
    Persisted,
    InMemory,
    PersistedShared(Vec<Name>),
}

/// Whether a container may write to a mount.
#[derive(Debug, Clone, Copy, PartialEq, Eq, Structural)]
pub enum AccessMode {
    ReadOnly,
    Writable,
}

/// A file that a mount is to hold.
#[derive(Debug, Clone, PartialEq, Eq)]
pub struct MountFile {
    pub file_relative_path: String,
    pub contents: Vec<u8>,
}

/// A folder or a file that a mount is to hold.
#[derive(Debug, Clone, PartialEq, Eq)]
pub enum MountContents {
    FolderOnly(String),
    File(MountFile),
}

/// A folder that a seedling's container sees.
#[derive(Debug, Clone, PartialEq, Eq)]
pub struct Mount {
    pub kind: MountType,
    pub remote_path: String,
    pub access_mode: AccessMode,
    pub contents: Vec<MountContents>,
    pub rotate_logs: bool,
}

/// A mount under the name that the seedling gives it.
#[derive(Debug, Clone, PartialEq, Eq)]
pub struct NamedMount {
    pub name: Name,
    pub mount: Mount,
}

/// A port outside that leads to a port inside.
#[derive(Debug, Clone, Copy, PartialEq, Eq, Structural)]
pub struct PortMapping {
    pub external: u16,
    pub internal: u16,
}

/// The port that is routed to and those that are published beside it.
#[derive(Debug, Clone, PartialEq, Eq)]
pub struct PortSpec {
    pub public: u16,
    pub additional: Vec<PortMapping>,
}

/// Under which host a seedling is reached.
#[derive(Debug, Clone, Copy, PartialEq, Eq, Structural)]
pub enum RouteSpec {
    Root,
    Subdomain,
}

/// Whether and how a seedling is reached from outside.
#[derive(Debug, PartialEq, Eq)]
pub enum Routing {
    Routed { route: RouteSpec, ports: PortSpec },
    Unrouted,
}

/// What a seedling may do with its secrets.
#[derive(Debug, Clone, Copy, PartialEq, Eq, Structural)]
pub struct SecretsAccess {
    pub read: bool,
    pub write: bool,
}

/// The command that tells whether a seedling is well, and how long to wait before the first try.
#[derive(Debug, Clone, PartialEq, Eq)]
pub struct HealthCheck {
    pub command: String,
    pub wait_time_in_seconds: u8,
}

/// What a seedling is declared to be.
#[derive(Debug, PartialEq, Eq)]
pub struct SeedlingDefinition {
    pub image: VersionedImageName,
    pub mounts: Vec<NamedMount>,
    pub routing: Routing,
    pub health_check: HealthCheck,
    pub secrets: Option<SecretsAccess>,
    pub origin: Origin,
    pub published_ports: Vec<PortMapping>,
    pub command: Option<String>,
    pub added_capabilities: Vec<Capability>,
}

/// A seedling and its declaration.
#[derive(Debug, PartialEq, Eq)]
pub struct Seedling {
    pub id: Id,
    pub name: Name,
    pub version: Version,
    pub definition: SeedlingDefinition,
}

/// Where the image of a user's seedling comes from.
#[derive(Debug, Clone, PartialEq, Eq)]
pub enum ImageSource {
    Local,
    External(String),
}

/// What a user declares of a new seedling.
#[derive(Debug, Clone, PartialEq, Eq)]
pub struct UserSeedlingDefinition {
    pub image: ImageSource,
    pub mounts: Vec<NamedMount>,
    pub route: RouteSpec,
    pub ports: PortSpec,
    pub health_check: HealthCheck,
    pub secrets: Option<SecretsAccess>,
}

} // verus!
