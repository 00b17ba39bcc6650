//! What the container engine is told and what it reports.

use crate::names::ContainerName;
use crate::text::{cat3, decimal, decimal_text};
use vstd::prelude::*;

verus! {

/// What a container is doing.
#[derive(Debug, Clone, Copy, PartialEq, Eq, Structural)]
pub enum Status {
    Created,
    Running,
    Paused,
    Restarting,
    Removing,
    Exited,
    Dead,
}

/// Why a request to the container engine failed.
#[derive(Debug, PartialEq, Eq)]
pub enum DockerError {
    ResourceNotFound,
    Other(String),
}

impl DockerError {
    /// The error in words.
    pub open spec fn text(&self) -> Seq<char> {
        match self {
            DockerError::ResourceNotFound => "Resource not found"@,
            DockerError::Other(words) => words@,
        }
    }

    /// The error in words.
    pub fn describe(&self) -> (r: String)
        ensures
            r@ == self.text(),
    {
        match self {
            DockerError::ResourceNotFound => "Resource not found".to_owned(),
            DockerError::Other(words) => words.clone(),
        }
    }
}

/// Whether a container is there, and what it is doing.
#[derive(Debug, Clone, Copy, PartialEq, Eq, Structural)]
pub enum ContainerPresence {
    Absent,
    Present(Status),
}

impl Default for ContainerPresence {
    fn default() -> (r: Self)
        ensures
            r == ContainerPresence::Absent,
    {
        ContainerPresence::Absent
    }
}

impl ContainerPresence {
    /// Whether there is a container.
    pub fn is_present(&self) -> (r: bool)
        ensures
            r == (*self is Present),
    {
        match self {
            ContainerPresence::Absent => false,
            ContainerPresence::Present(_) => true,
        }
    }

    /// Whether the container runs.
    pub fn is_running(&self) -> (r: bool)
        ensures
            r == (*self == ContainerPresence::Present(Status::Running)),
    {
        match self {
            ContainerPresence::Present(Status::Running) => true,
            _ => false,
        }
    }

    /// Whether the container is there and at rest.
    pub fn is_stopped(&self) -> (r: bool)
        ensures
            r == self.at_rest(),
    {
        match self {
            ContainerPresence::Present(Status::Created) => true,
            ContainerPresence::Present(Status::Exited) => true,
            ContainerPresence::Present(Status::Dead) => true,
            _ => false,
        }
    }

    /// Whether the container was made and is not at work in any way.
    pub open spec fn at_rest(self) -> bool {
        ||| self == ContainerPresence::Present(Status::Created)
        ||| self == ContainerPresence::Present(Status::Exited)
        ||| self == ContainerPresence::Present(Status::Dead)
    }
}

/// What is still to be asked about a container, or what is known of it.
#[derive(Debug, PartialEq, Eq)]
pub enum Observation {
    AskExists,
    AskStatus,
    Known(ContainerPresence),
}

/// What is to be asked next about a container: first whether it exists, and its status only where
/// it does.
pub fn observe_container(found: Option<bool>, status: Option<Status>) -> (r: Observation)
    ensures
        r == (match (found, status) {
            (None, _) => Observation::AskExists,
            (Some(false), _) => Observation::Known(ContainerPresence::Absent),
            (Some(true), None) => Observation::AskStatus,
            (Some(true), Some(status)) => Observation::Known(ContainerPresence::Present(status)),
        }),
{
    match found {
        None => Observation::AskExists,
        Some(there) => {
            if !there {
                Observation::Known(ContainerPresence::Absent)
            } else {
                match status {
                    None => Observation::AskStatus,
                    Some(status) => Observation::Known(ContainerPresence::Present(status)),
                }
            }
        },
    }
}

/// A container at rest is there, and does not run.
pub proof fn law_at_rest_is_not_running(presence: ContainerPresence)
    ensures
        presence.at_rest() ==> presence is Present,
        presence.at_rest() ==> presence != ContainerPresence::Present(Status::Running),
{
}

/// A label on a container.
#[derive(Debug, PartialEq, Eq)]
pub struct Label {
    pub name: String,
    pub value: String,
}

impl Label {
    /// The label with this name and value.
    pub fn new(name: &str, value: &str) -> (r: Self)
        ensures
            r.name@ == name@,
            r.value@ == value@,
    {
        Label { name: name.to_owned(), value: value.to_owned() }
    }
}

/// A port of the host that leads to a port of a container.
#[derive(Debug, Clone, Copy, PartialEq, Eq, Structural)]
pub struct PortMapping {
    pub host_port: u16,
    pub container_port: u16,
}

/// The user and the group that a container runs as.
#[derive(Debug, Clone, Copy, PartialEq, Eq, Structural)]
pub struct ContainerUser {
    pub user_id: u32,
    pub group_id: u32,
}

/// A folder of the host that a container sees.
#[derive(Debug, PartialEq, Eq)]
pub struct MountDefinition {
    pub name: String,
    pub host_path: String,
    pub container_path: String,
    pub writable: bool,
}

/// A variable in a container's environment.
#[derive(Debug, PartialEq, Eq)]
pub struct EnvironmentVariable {
    pub name: String,
    pub value: String,
}

impl EnvironmentVariable {
    /// The variable with this name and value.
    pub fn new(name: &str, value: &str) -> (r: Self)
        ensures
            r.name@ == name@,
            r.value@ == value@,
    {
        EnvironmentVariable { name: name.to_owned(), value: value.to_owned() }
    }
}

/// A right that a container gets beyond the usual ones.
#[derive(Debug, Clone, Copy, PartialEq, Eq, Structural)]
pub enum Capability {
    Chown,
    IpcLock,
    NetBindService,
    SetGid,
    SetUid,
}

/// The name and version of an image.
#[derive(Debug, PartialEq, Eq)]
pub struct VersionedImageName {
    pub namespace: Option<String>,
    pub name: String,
    pub version: String,
}

impl VersionedImageName {
    /// The repository that holds the image: the namespace and a `/` where there is one, and the
    /// name.
    pub open spec fn repository(&self) -> Seq<char> {
        match self.namespace {
            Some(namespace) => namespace@ + "/"@ + self.name@,
            None => self.name@,
        }
    }

    /// The image's name as it is written: its repository, a `:` and the version.
    pub open spec fn text(&self) -> Seq<char> {
        self.repository() + ":"@ + self.version@
    }

    /// An image without a namespace.
    pub fn specific(name: &str, version: &str) -> (r: Self)
        ensures
            r.namespace is None,
            r.name@ == name@,
            r.version@ == version@,
    {
        VersionedImageName { namespace: None, name: name.to_owned(), version: version.to_owned() }
    }

    /// The newest image of a name.
    pub fn latest(name: &str) -> (r: Self)
        ensures
            r.namespace is None,
            r.name@ == name@,
            r.version@ == "latest"@,
    {
        Self::specific(name, "latest")
    }

    /// An image in a namespace.
    pub fn namespaced_specific(namespace: &str, name: &str, version: &str) -> (r: Self)
        ensures
            r.namespace matches Some(n) && n@ == namespace@,
            r.name@ == name@,
            r.version@ == version@,
    {
        VersionedImageName {
            namespace: Some(namespace.to_owned()),
            name: name.to_owned(),
            version: version.to_owned(),
        }
    }

    /// The repository that holds the image.
    pub fn formatted_name(&self) -> (r: String)
        ensures
            r@ == self.repository(),
    {
        match &self.namespace {
            Some(namespace) => cat3(namespace, "/", &self.name),
            None => self.name.clone(),
        }
    }

    /// The image's name as it is written.
    pub fn to_text(&self) -> (r: String)
        ensures
            r@ == self.text(),
    {
        cat3(&self.formatted_name(), ":", &self.version)
    }
}

impl Clone for VersionedImageName {
    fn clone(&self) -> (r: Self)
        ensures
            r == *self,
    {
        VersionedImageName {
            namespace: match &self.namespace {
                Some(namespace) => Some(namespace.clone()),
                None => None,
            },
            name: self.name.clone(),
            version: self.version.clone(),
        }
    }
}

/// A container that is to be made.
#[derive(Debug, PartialEq, Eq)]
pub struct NewContainer {
    pub name: ContainerName,
    pub run_as: Option<ContainerUser>,
    pub command: Option<String>,
    pub environment_variables: Vec<EnvironmentVariable>,
    pub image: VersionedImageName,
    pub mounts: Vec<MountDefinition>,
    pub added_capabilities: Vec<Capability>,
    pub labels: Vec<Label>,
    pub published_ports: Vec<PortMapping>,
}

/// An address of four bytes.
#[derive(Debug, Clone, Copy, PartialEq, Eq, Structural)]
pub struct Ipv4 {
    pub a: u8,
    pub b: u8,
    pub c: u8,
    pub d: u8,
}

impl Ipv4 {
    /// The address with dots between its bytes.
    pub open spec fn text(&self) -> Seq<char> {
        decimal(self.a as nat) + "."@ + decimal(self.b as nat) + "."@ + decimal(self.c as nat)
            + "."@ + decimal(self.d as nat)
    }

    /// The address with dots between its bytes.
    pub fn to_text(&self) -> (r: String)
        ensures
            r@ == self.text(),
    {
        let mut s: String = decimal_text(self.a as u64);
        s.append(".");
        s.append(&decimal_text(self.b as u64));
        s.append(".");
        s.append(&decimal_text(self.c as u64));
        s.append(".");
        s.append(&decimal_text(self.d as u64));
        s
    }
}

/// A private range of addresses and the one that the host has in it.
#[derive(Debug, PartialEq, Eq)]
pub struct Ipv4Subnet {
    pub cidr: String,
    pub gateway: Ipv4,
}

/// A container is absent, runs, is at rest, or is on its way between these, and never two of them.
pub proof fn law_containers_do_one_thing(presence: ContainerPresence)
    ensures
        presence.at_rest() <==> {
            &&& presence != ContainerPresence::Absent
            &&& presence != ContainerPresence::Present(Status::Running)
            &&& presence != ContainerPresence::Present(Status::Paused)
            &&& presence != ContainerPresence::Present(Status::Restarting)
            &&& presence != ContainerPresence::Present(Status::Removing)
        },
{
}

/// The bytes of an address stand in its text in order, each before its dot.
pub proof fn law_addresses_are_written_byte_by_byte(address: Ipv4)
    ensures
        ({
            let first = decimal(address.a as nat) + "."@ + decimal(address.b as nat) + "."@;
            let second = decimal(address.c as nat) + "."@ + decimal(address.d as nat);
            &&& first.is_prefix_of(address.text())
            &&& second.is_suffix_of(address.text())
            &&& address.text().len() == first.len() + second.len()
        }),
{
    let first = decimal(address.a as nat) + "."@ + decimal(address.b as nat) + "."@;
    let second = decimal(address.c as nat) + "."@ + decimal(address.d as nat);
    assert(address.text() =~= first + second);
    assert(first =~= address.text().take(first.len() as int));
    assert(second =~= address.text().skip(first.len() as int));
}

} // verus!
