//! The containers of a seedling and of its agent: what they are made of, and the networks and
//! mounts that they need.

use crate::docker::{
    ContainerUser, EnvironmentVariable, Ipv4, Ipv4Subnet, MountDefinition, NewContainer,
    PortMapping, VersionedImageName,
};
use crate::labels::{
    create_origin_label, create_version_label, origin_text, ORIGIN_LABEL, VERSION_LABEL,
};
use crate::modes::{Modes, EXPECTED_MOUNT_MODE};
use crate::names::{
    agent_container_name, agent_container_name_of, container_name, container_name_of,
    seedling_network_name, system_network, ContainerName, Name, SYSTEM_NETWORK_NAME,
};
use crate::paths::{mount_of, DouglasFolders};
use crate::provision_seedling_secrets::{
    AgentProvisioning, AGENT_CONFIG_FILE_NAME, AGENT_CONTAINER_MOUNT_PATH, AGENT_LOCAL_PROXY_PORT,
};
use crate::reconcile_seedling::{MountOwnership, ReconcileSeedlingError};
use crate::rolodex::{Credential, ServiceAccount};
use crate::script::Instruction;
use crate::seedling::{
    AccessMode, MountType, NamedMount, Origin, Routing, SeedlingDefinition, Version,
};
use crate::text::{cat4, decimal, decimal_text};
use vstd::prelude::*;

verus! {

/// The systems that douglas runs on.
#[derive(Debug, Clone, Copy, PartialEq, Eq, Structural)]
pub enum Platform {
    Linux,
    MacOs,
}

/// How many megabytes of memory an agent's files get on a system.
pub fn agent_mount_ram_disk_size_mb(platform: Platform) -> (r: u32)
    ensures
        r == (match platform {
            Platform::Linux => 1u32,
            Platform::MacOs => 8u32,
        }),
{
    match platform {
        Platform::Linux => 1,
        Platform::MacOs => 8,
    }
}

/// A port as it is published.
pub open spec fn published(port: crate::seedling::PortMapping) -> PortMapping {
    PortMapping { host_port: port.external, container_port: port.internal }
}

/// The ports that a seedling publishes: those that it names, and those that its route adds. The
/// port that is routed to is not among the latter.
pub open spec fn published_ports(definition: SeedlingDefinition) -> Seq<PortMapping> {
    (definition.published_ports@ + match definition.routing {
        Routing::Routed { ports, .. } => ports.additional@,
        Routing::Unrouted => Seq::empty(),
    }).map_values(|port: crate::seedling::PortMapping| published(port))
}

fn push_ports(out: &mut Vec<PortMapping>, ports: &Vec<crate::seedling::PortMapping>)
    ensures
        final(out)@ == old(out)@ + ports@.map_values(
            |port: crate::seedling::PortMapping| published(port),
        ),
{
    let mut i: usize = 0;
    while i < ports.len()
        invariant
            i <= ports@.len(),
            out@ == old(out)@ + ports@.take(i as int).map_values(
                |port: crate::seedling::PortMapping| published(port),
            ),
        decreases ports@.len() - i,
    {
        out.push(
            PortMapping { host_port: ports[i].external, container_port: ports[i].internal },
        );
        i += 1;
        assert(out@ =~= old(out)@ + ports@.take(i as int).map_values(
            |port: crate::seedling::PortMapping| published(port),
        ));
    }
    assert(ports@.take(ports@.len() as int) =~= ports@);
}

/// The ports that a seedling publishes.
pub fn published_ports_for(definition: &SeedlingDefinition) -> (r: Vec<PortMapping>)
    ensures
        r@ == published_ports(*definition),
{
    let mut ports: Vec<PortMapping> = Vec::new();
    push_ports(&mut ports, &definition.published_ports);
    if let Routing::Routed { ports: routed, .. } = &definition.routing {
        push_ports(&mut ports, &routed.additional);
    }
    assert(ports@ =~= published_ports(*definition));
    ports
}

/// Whether a container carries the labels of a version and an origin, in this order.
pub open spec fn labelled(container: NewContainer, version: Version, origin: Origin) -> bool {
    &&& container.labels@.len() == 2
    &&& container.labels@[0].name@ == VERSION_LABEL@
    &&& container.labels@[0].value@ == version.text()
    &&& container.labels@[1].name@ == ORIGIN_LABEL@
    &&& container.labels@[1].value@ == origin_text(origin)
}

/// The container of a seedling, made of its declaration and of what depends on the host.
pub fn build_new_container(
    name: ContainerName,
    definition: &SeedlingDefinition,
    uid: u32,
    gid: u32,
    mounts: Vec<MountDefinition>,
    version: Version,
    environment_variables: Vec<EnvironmentVariable>,
) -> (r: NewContainer)
    ensures
        r.name == name,
        r.run_as == Some(ContainerUser { user_id: uid, group_id: gid }),
        r.command == definition.command,
        r.environment_variables == environment_variables,
        r.image == definition.image,
        r.mounts == mounts,
        r.added_capabilities@ == definition.added_capabilities@,
        labelled(r, version, definition.origin),
        r.published_ports@ == published_ports(*definition),
{
    let added_capabilities: Vec<crate::docker::Capability> = definition.added_capabilities.clone();
    assert(added_capabilities@ =~= definition.added_capabilities@);
    NewContainer {
        name,
        run_as: Some(ContainerUser { user_id: uid, group_id: gid }),
        command: match &definition.command {
            Some(command) => Some(command.clone()),
            None => None,
        },
        environment_variables,
        image: definition.image.clone(),
        mounts,
        added_capabilities,
        labels: vec![create_version_label(version), create_origin_label(definition.origin)],
        published_ports: published_ports_for(definition),
    }
}

/// The labels of a built container tell its version and its origin.
pub proof fn law_built_containers_are_recognised(
    container: NewContainer,
    version: Version,
    origin: Origin,
)
    requires
        labelled(container, version, origin),
    ensures
        crate::labels::version_in(container.labels@) == Some(version),
        crate::labels::origin_in(container.labels@) == Some(origin),
{
    crate::labels::law_labels_round_trip(container.labels@, version, origin);
}

/// Whether a mount of a container is what a seedling's mount comes to on this host.
pub open spec fn mounts_as(
    mount: MountDefinition,
    named: NamedMount,
    root: Seq<char>,
    seedling: Seq<char>,
) -> bool {
    &&& mount.name@ == named.name@
    &&& mount.host_path@ == mount_of(root, seedling, named.name@)
    &&& mount.container_path == named.mount.remote_path
    &&& mount.writable == (named.mount.access_mode == AccessMode::Writable)
}

/// The mounts of a seedling's container.
pub fn container_mounts(
    folders: &DouglasFolders,
    seedling_name: &Name,
    definition: &SeedlingDefinition,
) -> (r: Vec<MountDefinition>)
    ensures
        r@.len() == definition.mounts@.len(),
        forall|i: int|
            0 <= i < r@.len() ==> mounts_as(
                #[trigger] r@[i],
                definition.mounts@[i],
                folders.seedlings_root@,
                seedling_name@,
            ),
{
    let mut mounts: Vec<MountDefinition> = Vec::new();
    let mut i: usize = 0;
    while i < definition.mounts.len()
        invariant
            i <= definition.mounts@.len(),
            mounts@.len() == i,
            forall|j: int|
                0 <= j < i ==> mounts_as(
                    #[trigger] mounts@[j],
                    definition.mounts@[j],
                    folders.seedlings_root@,
                    seedling_name@,
                ),
        decreases definition.mounts@.len() - i,
    {
        let named: &NamedMount = &definition.mounts[i];
        mounts.push(
            MountDefinition {
                name: named.name.to_text(),
                host_path: folders.seedling_mount(seedling_name.as_str(), named.name.as_str()),
                container_path: named.mount.remote_path.clone(),
                writable: named.mount.access_mode == AccessMode::Writable,
            },
        );
        i += 1;
    }
    mounts
}

/// Where a seedling reaches its agent.
pub open spec fn agent_address(seedling: Seq<char>) -> Seq<char> {
    "http://"@ + agent_container_name_of(seedling) + ":"@ + decimal(AGENT_LOCAL_PROXY_PORT as nat)
}

/// The environment of a seedling's container: where its agent is, if it has one.
pub fn container_environment(seedling_name: &Name, definition: &SeedlingDefinition) -> (r: Vec<
    EnvironmentVariable,
>)
    ensures
        definition.secrets is None ==> r@.len() == 0,
        definition.secrets is Some ==> r@.len() == 1 && r@[0].name@ == "OPENBAO_AGENT_ADDR"@
            && r@[0].value@ == agent_address(seedling_name@),
{
    if definition.secrets.is_some() {
        let agent: ContainerName = agent_container_name(seedling_name);
        let address: String = cat4(
            "http://",
            agent.as_str(),
            ":",
            &decimal_text(AGENT_LOCAL_PROXY_PORT as u64),
        );
        vec![EnvironmentVariable::new("OPENBAO_AGENT_ADDR", &address)]
    } else {
        Vec::new()
    }
}

/// What the container engine is to do.
#[derive(Debug, PartialEq, Eq)]
pub enum DockerAction {
    CreateContainer(NewContainer),
    CreateNetwork { network: ContainerName, subnet: Option<Ipv4Subnet> },
    ConnectNetwork { network: ContainerName, container: ContainerName, address: Option<Ipv4> },
}

/// What the container engine is asked.
#[derive(Debug, PartialEq, Eq)]
pub enum DockerQuestion {
    NetworkExists(ContainerName),
}

/// A script for the container engine.
pub type DockerScript = Vec<Instruction<DockerQuestion, DockerAction>>;

/// A line that makes a network unless it is there.
pub open spec fn ensures_network(
    line: Instruction<DockerQuestion, DockerAction>,
    name: Seq<char>,
    wanted: Option<Ipv4Subnet>,
) -> bool {
    line matches Instruction::Unless {
        question: DockerQuestion::NetworkExists(asked),
        action: DockerAction::CreateNetwork { network, subnet },
    } && asked@ == name && network@ == name && subnet == wanted
}

/// A line that puts a container into a network.
pub open spec fn connects(
    line: Instruction<DockerQuestion, DockerAction>,
    name: Seq<char>,
    joining: Seq<char>,
    at: Option<Ipv4>,
) -> bool {
    line matches Instruction::Do(
        DockerAction::ConnectNetwork { network, container, address },
    ) && network@ == name && container@ == joining && address == at
}

/// The user and the group that a container runs as. Without an account, or where the system does
/// not know its user or its group, there is none.
pub fn container_user(account: &Option<ServiceAccount>, uid: Option<u32>, gid: Option<u32>) -> (r:
    Result<(u32, u32), ReconcileSeedlingError>)
    ensures
        match (*account, uid, gid) {
            (Some(_), Some(uid), Some(gid)) => r == Ok::<(u32, u32), ReconcileSeedlingError>(
                (uid, gid),
            ),
            _ => r == Err::<(u32, u32), ReconcileSeedlingError>(
                ReconcileSeedlingError::MissingServiceAccount,
            ),
        },
{
    match (account, uid, gid) {
        (Some(_), Some(uid), Some(gid)) => Ok((uid, gid)),
        _ => Err(ReconcileSeedlingError::MissingServiceAccount),
    }
}

fn clone_subnet(subnet: &Ipv4Subnet) -> (r: Ipv4Subnet)
    ensures
        r == *subnet,
{
    Ipv4Subnet { cidr: subnet.cidr.clone(), gateway: subnet.gateway }
}

/// Whether a container is the one of a seedling, as it is declared, on this host.
pub open spec fn is_container_of(
    container: NewContainer,
    folders: DouglasFolders,
    name: Seq<char>,
    version: Version,
    definition: SeedlingDefinition,
    uid: u32,
    gid: u32,
) -> bool {
    &&& container.name@ == container_name_of(name)
    &&& container.run_as == Some(ContainerUser { user_id: uid, group_id: gid })
    &&& container.command == definition.command
    &&& definition.secrets is None ==> container.environment_variables@.len() == 0
    &&& definition.secrets is Some ==> container.environment_variables@.len() == 1
        && container.environment_variables@[0].name@ == "OPENBAO_AGENT_ADDR"@
        && container.environment_variables@[0].value@ == agent_address(name)
    &&& container.image == definition.image
    &&& container.mounts@.len() == definition.mounts@.len()
    &&& forall|i: int|
        0 <= i < container.mounts@.len() ==> mounts_as(
            #[trigger] container.mounts@[i],
            definition.mounts@[i],
            folders.seedlings_root@,
            name,
        )
    &&& container.added_capabilities@ == definition.added_capabilities@
    &&& labelled(container, version, definition.origin)
    &&& container.published_ports@ == published_ports(definition)
}

/// The script that makes a seedling's container: the container, its network unless it is there,
/// the connection to it, and for douglas's own seedlings the connection to the system network.
pub fn build_container(
    folders: &DouglasFolders,
    name: &Name,
    version: Version,
    definition: &SeedlingDefinition,
    agent_provisioning: Option<&AgentProvisioning>,
    account: &Option<ServiceAccount>,
    uid: Option<u32>,
    gid: Option<u32>,
) -> (r: Result<DockerScript, ReconcileSeedlingError>)
    ensures
        r is Ok == (account is Some && uid is Some && gid is Some),
        r matches Err(error) ==> error == ReconcileSeedlingError::MissingServiceAccount,
        r matches Ok(script) ==> {
            let subnet = match agent_provisioning {
                Some(agent) => Some(agent.private_subnet),
                None => None,
            };
            let network = container_name_of(name@);
            &&& script@.len() == (if definition.origin == Origin::Core {
                4int
            } else {
                3int
            })
            &&& script@[0] matches Instruction::Do(DockerAction::CreateContainer(container))
                && is_container_of(
                    container,
                    *folders,
                    name@,
                    version,
                    *definition,
                    uid->0,
                    gid->0,
                )
            &&& ensures_network(script@[1], network, subnet)
            &&& connects(script@[2], network, container_name_of(name@), None)
            &&& definition.origin == Origin::Core ==> connects(
                script@[3],
                SYSTEM_NETWORK_NAME@,
                container_name_of(name@),
                None,
            )
        },
{
    let (uid, gid) = match container_user(account, uid, gid) {
        Ok(ids) => ids,
        Err(error) => return Err(error),
    };
    let container: NewContainer = build_new_container(
        container_name(name),
        definition,
        uid,
        gid,
        container_mounts(folders, name, definition),
        version,
        container_environment(name, definition),
    );
    let joining: ContainerName = container.name.clone();
    let subnet: Option<Ipv4Subnet> = match agent_provisioning {
        Some(agent) => Some(clone_subnet(&agent.private_subnet)),
        None => None,
    };
    let mut script: DockerScript = vec![
        Instruction::Do(DockerAction::CreateContainer(container)),
        Instruction::Unless {
            question: DockerQuestion::NetworkExists(seedling_network_name(name)),
            action: DockerAction::CreateNetwork { network: seedling_network_name(name), subnet },
        },
        Instruction::Do(
            DockerAction::ConnectNetwork {
                network: seedling_network_name(name),
                container: joining.clone(),
                address: None,
            },
        ),
    ];
    if definition.origin == Origin::Core {
        script.push(
            Instruction::Do(
                DockerAction::ConnectNetwork {
                    network: system_network(),
                    container: joining,
                    address: None,
                },
            ),
        );
    }
    Ok(script)
}

/// Whether a container is the agent's of a seedling, on this host.
pub open spec fn is_agent_container_of(
    container: NewContainer,
    agent: AgentProvisioning,
    name: Seq<char>,
    version: Version,
    origin: Origin,
    image_version: Seq<char>,
    uid: u32,
    gid: u32,
) -> bool {
    &&& container.name@ == agent_container_name_of(name)
    &&& container.run_as == Some(ContainerUser { user_id: uid, group_id: gid })
    &&& container.command matches Some(command) && command@ == "agent -config="@
        + AGENT_CONTAINER_MOUNT_PATH@ + "/"@ + AGENT_CONFIG_FILE_NAME@
    &&& container.environment_variables@.len() == 0
    &&& container.image.namespace matches Some(namespace) && namespace@ == "openbao"@
    &&& container.image.name@ == "openbao"@
    &&& container.image.version@ == image_version
    &&& container.mounts@.len() == 1
    &&& container.mounts@[0].name@ == "config"@
    &&& container.mounts@[0].host_path == agent.mount_dir
    &&& container.mounts@[0].container_path@ == AGENT_CONTAINER_MOUNT_PATH@
    &&& !container.mounts@[0].writable
    &&& container.added_capabilities@.len() == 0
    &&& labelled(container, version, origin)
    &&& container.published_ports@.len() == 0
}

/// The script that makes the container of a seedling's agent: the container, the seedling's
/// network unless it is there, the connection to it at the agent's address, and the connection to
/// the system network, where OpenBao is.
pub fn build_agent_container(
    name: &Name,
    version: Version,
    origin: Origin,
    image_version: &str,
    agent_provisioning: Option<&AgentProvisioning>,
    account: &Option<ServiceAccount>,
    uid: Option<u32>,
    gid: Option<u32>,
) -> (r: Result<DockerScript, ReconcileSeedlingError>)
    ensures
        agent_provisioning is None ==> r == Err::<DockerScript, _>(
            ReconcileSeedlingError::MissingAgentProvisioning,
        ),
        agent_provisioning is Some && !(account is Some && uid is Some && gid is Some) ==> r
            == Err::<DockerScript, _>(ReconcileSeedlingError::MissingServiceAccount),
        r is Ok == (agent_provisioning is Some && account is Some && uid is Some && gid is Some),
        r matches Ok(script) ==> {
            let agent = agent_provisioning->0;
            let network = container_name_of(name@);
            let joining = agent_container_name_of(name@);
            &&& script@.len() == 4
            &&& script@[0] matches Instruction::Do(DockerAction::CreateContainer(container))
                && is_agent_container_of(
                    container,
                    *agent,
                    name@,
                    version,
                    origin,
                    image_version@,
                    uid->0,
                    gid->0,
                )
            &&& ensures_network(script@[1], network, Some(agent.private_subnet))
            &&& connects(script@[2], network, joining, Some(agent.agent_private_ip))
            &&& connects(script@[3], SYSTEM_NETWORK_NAME@, joining, None)
        },
{
    let agent: &AgentProvisioning = match agent_provisioning {
        Some(agent) => agent,
        None => return Err(ReconcileSeedlingError::MissingAgentProvisioning),
    };
    let (uid, gid) = match container_user(account, uid, gid) {
        Ok(ids) => ids,
        Err(error) => return Err(error),
    };
    let joining: ContainerName = agent_container_name(name);
    let container: NewContainer = NewContainer {
        name: joining.clone(),
        run_as: Some(ContainerUser { user_id: uid, group_id: gid }),
        command: Some(
            cat4("agent -config=", AGENT_CONTAINER_MOUNT_PATH, "/", AGENT_CONFIG_FILE_NAME),
        ),
        environment_variables: Vec::new(),
        image: VersionedImageName::namespaced_specific("openbao", "openbao", image_version),
        mounts: vec![
            MountDefinition {
                name: "config".to_owned(),
                host_path: agent.mount_dir.clone(),
                container_path: AGENT_CONTAINER_MOUNT_PATH.to_owned(),
                writable: false,
            },
        ],
        added_capabilities: Vec::new(),
        labels: vec![create_version_label(version), create_origin_label(origin)],
        published_ports: Vec::new(),
    };
    let script: DockerScript = vec![
        Instruction::Do(DockerAction::CreateContainer(container)),
        Instruction::Unless {
            question: DockerQuestion::NetworkExists(seedling_network_name(name)),
            action: DockerAction::CreateNetwork {
                network: seedling_network_name(name),
                subnet: Some(clone_subnet(&agent.private_subnet)),
            },
        },
        Instruction::Do(
            DockerAction::ConnectNetwork {
                network: seedling_network_name(name),
                container: joining.clone(),
                address: Some(agent.agent_private_ip),
            },
        ),
        Instruction::Do(
            DockerAction::ConnectNetwork {
                network: system_network(),
                container: joining,
                address: None,
            },
        ),
    ];
    Ok(script)
}

/// Who a mount's folder is to belong to: the user of the seedling's account, and the group of the
/// share or of the account.
pub fn mount_owner<'b>(
    step: &MountOwnership<'_>,
    account: &'b Option<ServiceAccount>,
    share_group: &'b Option<Credential>,
) -> (r: Result<(&'b String, &'b String), ReconcileSeedlingError>)
    ensures
        match (*account, *step.kind, *share_group) {
            (None, _, _) => r == Err::<(&'b String, &'b String), _>(
                ReconcileSeedlingError::MissingServiceAccount,
            ),
            (Some(_), MountType::PersistedShared(_), None) => r
                == Err::<(&'b String, &'b String), _>(ReconcileSeedlingError::MissingShareGroup),
            (Some(account), MountType::PersistedShared(_), Some(group)) => r == Ok::<
                _,
                ReconcileSeedlingError,
            >((&account.user.system_name, &group.system_name)),
            (Some(account), _, _) => r == Ok::<_, ReconcileSeedlingError>(
                (&account.user.system_name, &account.group.system_name),
            ),
        },
{
    let account: &ServiceAccount = match account {
        Some(account) => account,
        None => return Err(ReconcileSeedlingError::MissingServiceAccount),
    };
    match step.kind {
        MountType::PersistedShared(_) => match share_group {
            Some(group) => Ok((&account.user.system_name, &group.system_name)),
            None => Err(ReconcileSeedlingError::MissingShareGroup),
        },
        _ => Ok((&account.user.system_name, &account.group.system_name)),
    }
}

/// What is to be done with files and folders.
#[derive(Debug, PartialEq, Eq)]
pub enum FileAction<'a> {
    CreateFolder { path: &'a String },
    MountRamDisk { path: &'a String, size_mb: u32 },
    SetOwner { path: &'a String, user: &'a String, group: &'a String },
    SetMode { path: &'a String, mode: Modes },
    WriteText { path: &'a String, text: &'a String },
    WriteBytes { path: &'a String, bytes: &'a Vec<u8> },
}

/// What makes the place for an agent's files: its folder, and memory of this size behind it, so
/// that nothing of it reaches a disk.
pub fn prepare_agent_mount<'a>(
    agent_provisioning: Option<&'a AgentProvisioning>,
    size_mb: u32,
) -> (r: Result<Vec<FileAction<'a>>, ReconcileSeedlingError>)
    ensures
        match agent_provisioning {
            None => r == Err::<Vec<FileAction<'a>>, _>(
                ReconcileSeedlingError::MissingAgentProvisioning,
            ),
            Some(agent) => r matches Ok(actions) && actions@ == seq![
                FileAction::CreateFolder { path: &agent.mount_dir },
                FileAction::MountRamDisk { path: &agent.mount_dir, size_mb },
            ],
        },
{
    match agent_provisioning {
        None => Err(ReconcileSeedlingError::MissingAgentProvisioning),
        Some(agent) => {
            let actions: Vec<FileAction<'a>> = vec![
                FileAction::CreateFolder { path: &agent.mount_dir },
                FileAction::MountRamDisk { path: &agent.mount_dir, size_mb },
            ];
            assert(actions@ =~= seq![
                FileAction::CreateFolder { path: &agent.mount_dir },
                FileAction::MountRamDisk { path: &agent.mount_dir, size_mb },
            ]);
            Ok(actions)
        },
    }
}

/// The files of an agent, in a folder that is the agent's own before anything is written into it.
pub open spec fn agent_files<'a>(
    agent: &'a AgentProvisioning,
    account: &'a ServiceAccount,
) -> Seq<FileAction<'a>> {
    seq![
        FileAction::SetOwner {
            path: &agent.mount_dir,
            user: &account.user.system_name,
            group: &account.group.system_name,
        },
        FileAction::SetMode { path: &agent.mount_dir, mode: EXPECTED_MOUNT_MODE },
        FileAction::WriteText { path: &agent.role_id_path, text: &agent.role_id },
        FileAction::WriteText { path: &agent.secret_id_path, text: &agent.secret_id },
        FileAction::WriteBytes { path: &agent.agent_config_path, bytes: &agent.agent_config },
    ]
}

/// What fills the place of an agent's files, once it is there and the agent's account is known.
pub fn fill_agent_mount<'a>(
    agent: &'a AgentProvisioning,
    account: &'a Option<ServiceAccount>,
) -> (r: Result<Vec<FileAction<'a>>, ReconcileSeedlingError>)
    ensures
        match *account {
            None => r == Err::<Vec<FileAction<'a>>, _>(
                ReconcileSeedlingError::MissingServiceAccount,
            ),
            Some(account) => r matches Ok(actions) && actions@ == agent_files(agent, &account),
        },
{
    match account {
        None => Err(ReconcileSeedlingError::MissingServiceAccount),
        Some(account) => {
            let actions: Vec<FileAction<'a>> = vec![
                FileAction::SetOwner {
                    path: &agent.mount_dir,
                    user: &account.user.system_name,
                    group: &account.group.system_name,
                },
                FileAction::SetMode { path: &agent.mount_dir, mode: EXPECTED_MOUNT_MODE },
                FileAction::WriteText { path: &agent.role_id_path, text: &agent.role_id },
                FileAction::WriteText { path: &agent.secret_id_path, text: &agent.secret_id },
                FileAction::WriteBytes {
                    path: &agent.agent_config_path,
                    bytes: &agent.agent_config,
                },
            ];
            assert(actions@ =~= agent_files(agent, account));
            Ok(actions)
        },
    }
}

/// A container publishes every port that its declaration names, and after those every port that
/// its route adds, in order, each from the outer to the inner number, and no others.
pub proof fn law_ports_are_published_as_declared(definition: SeedlingDefinition, i: int)
    ensures
        ({
            let ports = published_ports(definition);
            let named = definition.published_ports@;
            let added = match definition.routing {
                Routing::Routed { ports, .. } => ports.additional@,
                Routing::Unrouted => Seq::empty(),
            };
            &&& ports.len() == named.len() + added.len()
            &&& 0 <= i < named.len() ==> ports[i].host_port == named[i].external
                && ports[i].container_port == named[i].internal
            &&& 0 <= i < added.len() ==> ports[named.len() + i].host_port == added[i].external
                && ports[named.len() + i].container_port == added[i].internal
        }),
{
}

/// A seedling's container is what its declaration says: it runs the declared image and command as
/// the seedling's user and group, sees each declared mount at its place, writable exactly where
/// that is declared, has the declared capabilities and ports, and knows its agent's address exactly
/// where it has secrets.
pub proof fn law_containers_are_as_declared(
    container: NewContainer,
    folders: DouglasFolders,
    name: Seq<char>,
    version: Version,
    definition: SeedlingDefinition,
    uid: u32,
    gid: u32,
    i: int,
)
    requires
        is_container_of(container, folders, name, version, definition, uid, gid),
    ensures
        container.name@ == "doug."@ + name,
        container.run_as == Some(ContainerUser { user_id: uid, group_id: gid }),
        container.image == definition.image,
        container.command == definition.command,
        container.added_capabilities@ == definition.added_capabilities@,
        container.mounts@.len() == definition.mounts@.len(),
        0 <= i < definition.mounts@.len() ==> {
            let mount = container.mounts@[i];
            let declared = definition.mounts@[i];
            &&& mount.name@ == declared.name@
            &&& mount.host_path@ == mount_of(folders.seedlings_root@, name, declared.name@)
            &&& mount.container_path == declared.mount.remote_path
            &&& mount.writable <==> declared.mount.access_mode == AccessMode::Writable
        },
        container.environment_variables@.len() == (if definition.secrets is Some {
            1int
        } else {
            0
        }),
        definition.secrets is Some ==> container.environment_variables@[0].name@
            == "OPENBAO_AGENT_ADDR"@ && container.environment_variables@[0].value@ == "http://"@
            + ("doug-agent."@ + name) + ":"@ + decimal(8100),
        crate::labels::version_in(container.labels@) == Some(version),
        crate::labels::origin_in(container.labels@) == Some(definition.origin),
        container.published_ports@ == published_ports(definition),
{
    law_built_containers_are_recognised(container, version, definition.origin);
    if 0 <= i < definition.mounts@.len() {
        assert(mounts_as(
            container.mounts@[i],
            definition.mounts@[i],
            folders.seedlings_root@,
            name,
        ));
    }
}

/// An agent's container runs OpenBao's agent with the configuration in its own mount, which it
/// cannot write, as the agent's user and group, with no capabilities, ports or environment.
pub proof fn law_agents_run_from_their_mount(
    container: NewContainer,
    agent: AgentProvisioning,
    name: Seq<char>,
    version: Version,
    origin: Origin,
    image_version: Seq<char>,
    uid: u32,
    gid: u32,
)
    requires
        is_agent_container_of(
            container,
            agent,
            name,
            version,
            origin,
            image_version,
            uid,
            gid,
        ),
    ensures
        container.name@ == "doug-agent."@ + name,
        container.run_as == Some(ContainerUser { user_id: uid, group_id: gid }),
        container.image.text() == "openbao/openbao:"@ + image_version,
        container.command matches Some(command) && command@
            == "agent -config=/etc/openbao-agent/agent.json"@,
        container.mounts@.len() == 1,
        container.mounts@[0].host_path == agent.mount_dir,
        container.mounts@[0].container_path@ == "/etc/openbao-agent"@,
        !container.mounts@[0].writable,
        container.environment_variables@.len() == 0,
        container.added_capabilities@.len() == 0,
        container.published_ports@.len() == 0,
        crate::labels::version_in(container.labels@) == Some(version),
        crate::labels::origin_in(container.labels@) == Some(origin),
{
    law_built_containers_are_recognised(container, version, origin);
    reveal_strlit("agent -config=");
    reveal_strlit("/etc/openbao-agent");
    reveal_strlit("/");
    reveal_strlit("agent.json");
    reveal_strlit("agent -config=/etc/openbao-agent/agent.json");
    assert("agent -config="@ + AGENT_CONTAINER_MOUNT_PATH@ + "/"@ + AGENT_CONFIG_FILE_NAME@
        =~= "agent -config=/etc/openbao-agent/agent.json"@);
    reveal_strlit("openbao");
    reveal_strlit(":");
    reveal_strlit("openbao/openbao:");
    assert(container.image.text() =~= "openbao/openbao:"@ + image_version);
}

/// A line that ensures a network asks for the very network that it makes.
pub proof fn law_networks_are_made_where_they_are_missing(
    line: Instruction<DockerQuestion, DockerAction>,
    name: Seq<char>,
    wanted: Option<Ipv4Subnet>,
)
    requires
        ensures_network(line, name, wanted),
    ensures
        line matches Instruction::Unless { question, action } && (question
            matches DockerQuestion::NetworkExists(asked) && asked@ == name) && (action
            matches DockerAction::CreateNetwork { network, subnet } && network@ == name && subnet
            == wanted),
{
}

/// A line that connects puts this container into this network at this address, and fails where it
/// cannot.
pub proof fn law_connections_are_as_asked(
    line: Instruction<DockerQuestion, DockerAction>,
    name: Seq<char>,
    joining: Seq<char>,
    at: Option<Ipv4>,
)
    requires
        connects(line, name, joining, at),
    ensures
        line matches Instruction::Do(action) && (action matches DockerAction::ConnectNetwork {
            network,
            container,
            address,
        } && network@ == name && container@ == joining && address == at),
{
}

/// An agent's folder is the agent's own, and closed to others, before anything is written into it;
/// then it holds the role's id, the secret and the configuration, each in its own file.
pub proof fn law_agent_files_are_written_into_a_closed_folder<'a>(
    agent: &'a AgentProvisioning,
    account: &'a ServiceAccount,
    i: int,
)
    requires
        0 <= i < agent_files(agent, account).len(),
    ensures
        agent_files(agent, account).len() == 5,
        match agent_files(agent, account)[i] {
            FileAction::SetOwner { path, user, group } => i == 0 && *path == agent.mount_dir
                && *user == account.user.system_name && *group == account.group.system_name,
            FileAction::SetMode { path, mode } => i == 1 && *path == agent.mount_dir && mode
                == EXPECTED_MOUNT_MODE,
            FileAction::WriteText { path, text } => (i == 2 && *path == agent.role_id_path && *text
                == agent.role_id) || (i == 3 && *path == agent.secret_id_path && *text
                == agent.secret_id),
            FileAction::WriteBytes { path, bytes } => i == 4 && *path == agent.agent_config_path
                && *bytes == agent.agent_config,
            FileAction::CreateFolder { .. } | FileAction::MountRamDisk { .. } => false,
        },
{
}

} // verus!
