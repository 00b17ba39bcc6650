//! Bringing a seedling's container, mounts and accounts in line with its declaration.

use crate::docker::{DockerError, VersionedImageName};
use crate::executor::{describe_failed, failed_words, only_reason};
use crate::labels::LabelError;
use crate::modes::Modes;
use crate::names::{agent_container_name, agent_container_name_of, ContainerName, Name};
use crate::paths::{join, joined};
use crate::seedling::{MountType, SeedlingDefinition, Version};
use crate::sequences::lemma_join_contains;
use crate::text::{cat2, cat3, cat5};
use vstd::prelude::*;

verus! {

/// Why a seedling could not be brought in line.
#[derive(Debug, PartialEq, Eq)]
pub enum ReconcileSeedlingError {
    DockerError(DockerError),
    LabelError(LabelError),
    MissingImage,
    MissingServiceAccount,
    MissingShareGroup,
    InvalidPath(String),
    InvalidMountPath(String),
    WouldDowngrade,
    MissingAgentProvisioning,
    FailedBoostrap(Vec<String>),
}

impl ReconcileSeedlingError {
    /// The error for a plan that could not be carried out for a reason.
    pub fn failed(reason: String) -> (r: Self)
        ensures
            r matches ReconcileSeedlingError::FailedBoostrap(reasons) && reasons@ == seq![reason],
    {
        ReconcileSeedlingError::FailedBoostrap(only_reason(reason))
    }

    /// The error in words.
    pub open spec fn text(&self) -> Seq<char> {
        match self {
            ReconcileSeedlingError::DockerError(error) => "Docker error: "@ + error.text(),
            ReconcileSeedlingError::LabelError(error) => "Label error: "@ + error.text(),
            ReconcileSeedlingError::MissingImage =>
                "Could not locate the image to build the seedling"@,
            ReconcileSeedlingError::MissingServiceAccount => "Service account missing"@,
            ReconcileSeedlingError::MissingShareGroup => "Share group missing"@,
            ReconcileSeedlingError::InvalidPath(path) => "File system error: invalid path "@
                + path@,
            ReconcileSeedlingError::InvalidMountPath(path) => "Invalid mount path "@ + path@,
            ReconcileSeedlingError::WouldDowngrade =>
                "Refusing to downgrade: the running container is newer than the declared version"@,
            ReconcileSeedlingError::MissingAgentProvisioning =>
                "Agent provisioning was requested but not available"@,
            ReconcileSeedlingError::FailedBoostrap(reasons) => failed_words(reasons@),
        }
    }

    /// The error in words.
    pub fn describe(&self) -> (r: String)
        ensures
            r@ == self.text(),
    {
        match self {
            ReconcileSeedlingError::DockerError(error) => cat2(
                "Docker error: ",
                &error.describe(),
            ),
            ReconcileSeedlingError::LabelError(error) => cat2("Label error: ", &error.describe()),
            ReconcileSeedlingError::MissingImage =>
                "Could not locate the image to build the seedling".to_owned(),
            ReconcileSeedlingError::MissingServiceAccount => "Service account missing".to_owned(),
            ReconcileSeedlingError::MissingShareGroup => "Share group missing".to_owned(),
            ReconcileSeedlingError::InvalidPath(path) => cat2(
                "File system error: invalid path ",
                path,
            ),
            ReconcileSeedlingError::InvalidMountPath(path) => cat2("Invalid mount path ", path),
            ReconcileSeedlingError::WouldDowngrade =>
                "Refusing to downgrade: the running container is newer than the declared version".to_owned(),
            ReconcileSeedlingError::MissingAgentProvisioning =>
                "Agent provisioning was requested but not available".to_owned(),
            ReconcileSeedlingError::FailedBoostrap(reasons) => describe_failed(reasons),
        }
    }
}

/// Where the seedling's image can be had.
#[derive(Debug, Clone, Copy, PartialEq, Eq, Structural)]
pub enum ImageStatus {
    Unknown,
    Local,
    AvailableFromResin,
}

/// How something that is there compares with the declared version.
#[derive(Debug, Clone, Copy, PartialEq, Eq, Structural)]
pub enum VersionComparison {
    Missing,
    Current,
    Stale,
    Newer,
}

/// What the seedbank has under a seedling's name.
#[derive(Debug, Clone, Copy, PartialEq, Eq, Structural)]
pub enum SeedlingStatus {
    Defined(Version),
    Unknown,
}

/// A mount whose share group is missing, and those that it is shared with.
#[derive(Debug, PartialEq, Eq)]
pub struct MissingShareGroup<'a> {
    pub mount_name: &'a Name,
    pub siblings: &'a Vec<Name>,
}

/// A mount folder whose owner is to be set.
#[derive(Debug, PartialEq, Eq)]
pub struct MountOwnership<'a> {
    pub path: String,
    pub mount_name: &'a Name,
    pub kind: &'a MountType,
}

/// A mount folder whose mode is to be set.
#[derive(Debug, PartialEq, Eq)]
pub struct MountMode {
    pub path: String,
    pub mode: Modes,
}

/// A mount folder that is to be made.
#[derive(Debug, PartialEq, Eq)]
pub struct CreateMountFolder {
    pub path: String,
}

impl CreateMountFolder {
    /// The step that makes the folder at a path.
    pub fn new(path: String) -> (r: Self)
        ensures
            r.path == path,
    {
        CreateMountFolder { path }
    }
}

/// A file that is to be written into a mount.
#[derive(Debug, PartialEq, Eq)]
pub struct WriteFile<'a> {
    pub parent_path: String,
    pub file_name: String,
    pub contents: &'a Vec<u8>,
}

impl<'a> WriteFile<'a> {
    /// The step that writes a file into a folder.
    pub fn new(parent_path: String, file_name: String, contents: &'a Vec<u8>) -> (r: Self)
        ensures
            r.parent_path == parent_path,
            r.file_name == file_name,
            r.contents == contents,
    {
        WriteFile { parent_path, file_name, contents }
    }

    /// Where the file is written, once its folder is there.
    pub fn file_path(&self) -> (r: String)
        ensures
            r@ == joined(self.parent_path@, self.file_name@),
    {
        join(&self.parent_path, &self.file_name)
    }
}

/// What was found of a seedling.
#[derive(Debug, PartialEq, Eq)]
pub struct State<'a> {
    pub seedling_version: VersionComparison,
    pub container_name: ContainerName,
    pub image_status: ImageStatus,
    pub container_status: VersionComparison,
    pub container_version: Option<Version>,
    pub container_is_running: bool,
    pub missing_service_credentials: bool,
    pub missing_share_groups: Vec<MissingShareGroup<'a>>,
    pub missing_mount_folders: Vec<String>,
    pub needs_mount_ownership: Vec<MountOwnership<'a>>,
    pub missing_mount_mode: Vec<MountMode>,
    pub missing_mount_files: Vec<WriteFile<'a>>,
    pub agent_missing_service_credentials: bool,
    pub agent_container_exists: bool,
    pub agent_container_is_running: bool,
}

/// One step towards the declaration.
#[derive(Debug, PartialEq, Eq)]
pub enum Step<'a> {
    CreateSeedling { name: &'a Name, version: Version, definition: &'a SeedlingDefinition },
    UpdateSeedling { name: &'a Name, version: Version, definition: &'a SeedlingDefinition },
    CreateServiceAccount { name: &'a Name },
    CreateAgentServiceAccount { seedling_name: &'a Name },
    CreateShareGroup { seedling_name: &'a Name, group: MissingShareGroup<'a> },
    CreateMountFolder(CreateMountFolder),
    SetMountOwnership(MountOwnership<'a>),
    SetMountMode(MountMode),
    WriteFile(WriteFile<'a>),
    PullImageFromResin { registry: &'a str, image: &'a VersionedImageName },
    EnsureAgentMount { seedling_name: &'a Name },
    BuildAgentContainer { seedling_name: &'a Name, version: Version },
    BuildContainer { name: &'a Name, version: Version },
    StartContainer { container: ContainerName, version: Version },
    StopContainer { container: ContainerName, version: Version },
    DropContainer { container: ContainerName, version: Version },
}

/// A step in words that name a container and its version.
pub open spec fn versioned(head: Seq<char>, name: Seq<char>, version: Version) -> Seq<char> {
    head + name + "' (v"@ + version.text() + ")"@
}

impl<'a> Step<'a> {
    /// What the step does, in words.
    pub open spec fn described(&self) -> Seq<char> {
        match self {
            Step::CreateSeedling { name, version, .. } => "Creating seedling for '"@ + name@
                + "' version '"@ + version.text() + "'"@,
            Step::UpdateSeedling { name, version, .. } => "Updating seedling for '"@ + name@
                + "' version '"@ + version.text() + "'"@,
            Step::CreateServiceAccount { name } => "Creating service account '"@ + name@ + "'"@,
            Step::CreateAgentServiceAccount { seedling_name } =>
                "Creating OpenBao agent service account for '"@ + seedling_name@ + "'"@,
            Step::CreateShareGroup { seedling_name, group } => "Creating share group '"@
                + group.mount_name@ + "' for '"@ + seedling_name@ + "'"@,
            Step::CreateMountFolder(step) => "Creating seedling mount '"@ + step.path@ + "'"@,
            Step::SetMountOwnership(step) => "Setting mount ownership '"@ + step.path@ + "'"@,
            Step::SetMountMode(step) => "Setting mode on '"@ + step.path@ + "' to '"@
                + step.mode.text() + "'"@,
            Step::WriteFile(step) => "Writing mount file '"@ + step.file_name@ + "'"@,
            Step::PullImageFromResin { image, .. } => "Pull image '"@ + image.text()
                + "' from Resin"@,
            Step::EnsureAgentMount { seedling_name } => "Ensuring OpenBao agent mount for '"@
                + seedling_name@ + "'"@,
            Step::BuildAgentContainer { seedling_name, version } => versioned(
                "Building OpenBao agent container for '"@,
                seedling_name@,
                *version,
            ),
            Step::BuildContainer { name, version } => versioned(
                "Building container '"@,
                name@,
                *version,
            ),
            Step::StartContainer { container, version } => versioned(
                "Starting container '"@,
                container@,
                *version,
            ),
            Step::StopContainer { container, version } => versioned(
                "Stopping container '"@,
                container@,
                *version,
            ),
            Step::DropContainer { container, version } => versioned(
                "Dropping container '"@,
                container@,
                *version,
            ),
        }
    }

    /// What the step does, in words.
    pub fn describe(&self) -> (r: String)
        ensures
            r@ == self.described(),
    {
        match self {
            Step::CreateSeedling { name, version, .. } => cat5(
                "Creating seedling for '",
                name.as_str(),
                "' version '",
                &version.to_text(),
                "'",
            ),
            Step::UpdateSeedling { name, version, .. } => cat5(
                "Updating seedling for '",
                name.as_str(),
                "' version '",
                &version.to_text(),
                "'",
            ),
            Step::CreateServiceAccount { name } => cat3(
                "Creating service account '",
                name.as_str(),
                "'",
            ),
            Step::CreateAgentServiceAccount { seedling_name } => cat3(
                "Creating OpenBao agent service account for '",
                seedling_name.as_str(),
                "'",
            ),
            Step::CreateShareGroup { seedling_name, group } => cat5(
                "Creating share group '",
                group.mount_name.as_str(),
                "' for '",
                seedling_name.as_str(),
                "'",
            ),
            Step::CreateMountFolder(step) => cat3("Creating seedling mount '", &step.path, "'"),
            Step::SetMountOwnership(step) => cat3("Setting mount ownership '", &step.path, "'"),
            Step::SetMountMode(step) => cat5(
                "Setting mode on '",
                &step.path,
                "' to '",
                &step.mode.to_text(),
                "'",
            ),
            Step::WriteFile(step) => cat3("Writing mount file '", &step.file_name, "'"),
            Step::PullImageFromResin { image, .. } => cat3(
                "Pull image '",
                &image.to_text(),
                "' from Resin",
            ),
            Step::EnsureAgentMount { seedling_name } => cat3(
                "Ensuring OpenBao agent mount for '",
                seedling_name.as_str(),
                "'",
            ),
            Step::BuildAgentContainer { seedling_name, version } => cat5(
                "Building OpenBao agent container for '",
                seedling_name.as_str(),
                "' (v",
                &version.to_text(),
                ")",
            ),
            Step::BuildContainer { name, version } => cat5(
                "Building container '",
                name.as_str(),
                "' (v",
                &version.to_text(),
                ")",
            ),
            Step::StartContainer { container, version } => cat5(
                "Starting container '",
                container.as_str(),
                "' (v",
                &version.to_text(),
                ")",
            ),
            Step::StopContainer { container, version } => cat5(
                "Stopping container '",
                container.as_str(),
                "' (v",
                &version.to_text(),
                ")",
            ),
            Step::DropContainer { container, version } => cat5(
                "Dropping container '",
                container.as_str(),
                "' (v",
                &version.to_text(),
                ")",
            ),
        }
    }

    /// The step's name.
    pub open spec fn named(&self) -> Seq<char> {
        match self {
            Step::CreateSeedling { .. } => "Creating seedling"@,
            Step::UpdateSeedling { .. } => "Updating seedling"@,
            Step::CreateServiceAccount { .. } => "Creating service account"@,
            Step::CreateAgentServiceAccount { .. } => "Creating OpenBao agent service account"@,
            Step::CreateShareGroup { .. } => "Creating share group"@,
            Step::CreateMountFolder(_) => "Creating seedling mount"@,
            Step::SetMountOwnership(_) => "Setting mount ownership"@,
            Step::SetMountMode(_) => "Setting mode"@,
            Step::WriteFile(_) => "Writing mount file"@,
            Step::PullImageFromResin { .. } => "Pulling image"@,
            Step::EnsureAgentMount { .. } => "Ensuring OpenBao agent mount"@,
            Step::BuildAgentContainer { .. } => "Building OpenBao agent container"@,
            Step::BuildContainer { .. } => "Building container"@,
            Step::StartContainer { .. } => "Starting container"@,
            Step::StopContainer { .. } => "Stopping container"@,
            Step::DropContainer { .. } => "Dropping container"@,
        }
    }

    /// The step's name.
    pub fn name(&self) -> (r: String)
        ensures
            r@ == self.named(),
    {
        match self {
            Step::CreateSeedling { .. } => "Creating seedling".to_owned(),
            Step::UpdateSeedling { .. } => "Updating seedling".to_owned(),
            Step::CreateServiceAccount { .. } => "Creating service account".to_owned(),
            Step::CreateAgentServiceAccount { .. } =>
                "Creating OpenBao agent service account".to_owned(),
            Step::CreateShareGroup { .. } => "Creating share group".to_owned(),
            Step::CreateMountFolder(_) => "Creating seedling mount".to_owned(),
            Step::SetMountOwnership(_) => "Setting mount ownership".to_owned(),
            Step::SetMountMode(_) => "Setting mode".to_owned(),
            Step::WriteFile(_) => "Writing mount file".to_owned(),
            Step::PullImageFromResin { .. } => "Pulling image".to_owned(),
            Step::EnsureAgentMount { .. } => "Ensuring OpenBao agent mount".to_owned(),
            Step::BuildAgentContainer { .. } => "Building OpenBao agent container".to_owned(),
            Step::BuildContainer { .. } => "Building container".to_owned(),
            Step::StartContainer { .. } => "Starting container".to_owned(),
            Step::StopContainer { .. } => "Stopping container".to_owned(),
            Step::DropContainer { .. } => "Dropping container".to_owned(),
        }
    }
}

/// The steps that bring the seedbank up to the declared version.
pub open spec fn seedbank_steps<'a>(
    name: &'a Name,
    version: Version,
    definition: &'a SeedlingDefinition,
    found: VersionComparison,
) -> Seq<Step<'a>> {
    match found {
        VersionComparison::Missing => seq![Step::CreateSeedling { name, version, definition }],
        VersionComparison::Stale => seq![Step::UpdateSeedling { name, version, definition }],
        VersionComparison::Current | VersionComparison::Newer => Seq::empty(),
    }
}

/// The steps that make the accounts that are missing.
pub open spec fn account_steps<'a>(
    name: &'a Name,
    account_missing: bool,
    agent_account_missing: bool,
) -> Seq<Step<'a>> {
    (if account_missing {
        seq![Step::CreateServiceAccount { name }]
    } else {
        Seq::empty()
    }) + (if agent_account_missing {
        seq![Step::CreateAgentServiceAccount { seedling_name: name }]
    } else {
        Seq::empty()
    })
}

/// The steps that make the groups of shared mounts.
pub open spec fn share_group_steps<'a>(
    name: &'a Name,
    groups: Seq<MissingShareGroup<'a>>,
) -> Seq<Step<'a>> {
    groups.map_values(|group: MissingShareGroup<'a>|
        Step::CreateShareGroup { seedling_name: name, group })
}

/// The steps that make folders.
pub open spec fn folder_steps<'a>(folders: Seq<String>) -> Seq<Step<'a>> {
    folders.map_values(|path: String| Step::CreateMountFolder(CreateMountFolder { path }))
}

/// The steps that set owners.
pub open spec fn ownership_steps<'a>(owners: Seq<MountOwnership<'a>>) -> Seq<Step<'a>> {
    owners.map_values(|owner: MountOwnership<'a>| Step::SetMountOwnership(owner))
}

/// The steps that set modes.
pub open spec fn mode_steps<'a>(modes: Seq<MountMode>) -> Seq<Step<'a>> {
    modes.map_values(|mode: MountMode| Step::SetMountMode(mode))
}

/// The steps that write files.
pub open spec fn file_steps<'a>(files: Seq<WriteFile<'a>>) -> Seq<Step<'a>> {
    files.map_values(|file: WriteFile<'a>| Step::WriteFile(file))
}

/// The steps that fetch the image.
pub open spec fn image_steps<'a>(
    registry: &'a str,
    definition: &'a SeedlingDefinition,
    found: ImageStatus,
) -> Seq<Step<'a>> {
    match found {
        ImageStatus::AvailableFromResin => seq![
            Step::PullImageFromResin { registry, image: &definition.image },
        ],
        ImageStatus::Local | ImageStatus::Unknown => Seq::empty(),
    }
}

/// The steps for the agent's container, where the seedling is to have an agent.
pub open spec fn agent_steps<'a>(
    requested: bool,
    name: &'a Name,
    version: Version,
    container: ContainerName,
    there: bool,
    running: bool,
) -> Seq<Step<'a>> {
    let start = Step::StartContainer { container, version };
    if !requested {
        Seq::empty()
    } else if !there {
        seq![
            Step::EnsureAgentMount { seedling_name: name },
            Step::BuildAgentContainer { seedling_name: name, version },
            start,
        ]
    } else if !running {
        seq![Step::EnsureAgentMount { seedling_name: name }, start]
    } else {
        seq![Step::EnsureAgentMount { seedling_name: name }]
    }
}

/// The steps for the seedling's own container.
pub open spec fn container_steps<'a>(
    name: &'a Name,
    version: Version,
    container: ContainerName,
    status: VersionComparison,
    found: Option<Version>,
    running: bool,
) -> Seq<Step<'a>> {
    let build = seq![
        Step::BuildContainer { name, version },
        Step::StartContainer { container, version },
    ];
    match status {
        VersionComparison::Missing => build,
        VersionComparison::Current => if running {
            Seq::empty()
        } else {
            seq![Step::StartContainer { container, version }]
        },
        VersionComparison::Stale => (if running {
            seq![Step::StopContainer { container, version: found->0 }]
        } else {
            Seq::empty()
        }) + seq![Step::DropContainer { container, version: found->0 }] + build,
        VersionComparison::Newer => Seq::empty(),
    }
}

/// The steps that come before any container is touched.
pub open spec fn groundwork<'a>(
    name: &'a Name,
    version: Version,
    definition: &'a SeedlingDefinition,
    state: State<'a>,
    registry: &'a str,
) -> Seq<Step<'a>> {
    seedbank_steps(name, version, definition, state.seedling_version) + account_steps(
        name,
        state.missing_service_credentials,
        definition.secrets is Some && state.agent_missing_service_credentials,
    ) + share_group_steps(name, state.missing_share_groups@) + folder_steps(
        state.missing_mount_folders@,
    ) + ownership_steps(state.needs_mount_ownership@) + mode_steps(state.missing_mount_mode@)
        + file_steps(state.missing_mount_files@) + image_steps(
        registry,
        definition,
        state.image_status,
    )
}

/// The whole plan: the groundwork, the agent where there is to be one, and the container. The
/// agent's container has the name `agent`.
pub open spec fn planned<'a>(
    name: &'a Name,
    version: Version,
    definition: &'a SeedlingDefinition,
    state: State<'a>,
    agent: ContainerName,
    registry: &'a str,
) -> Seq<Step<'a>> {
    groundwork(name, version, definition, state, registry) + agent_steps(
        definition.secrets is Some,
        name,
        version,
        agent,
        state.agent_container_exists,
        state.agent_container_is_running,
    ) + container_steps(
        name,
        version,
        state.container_name,
        state.container_status,
        state.container_version,
        state.container_is_running,
    )
}

fn push_seedbank<'a>(
    steps: &mut Vec<Step<'a>>,
    name: &'a Name,
    version: Version,
    definition: &'a SeedlingDefinition,
    found: VersionComparison,
)
    ensures
        final(steps)@ == old(steps)@ + seedbank_steps(name, version, definition, found),
{
    match found {
        VersionComparison::Missing => steps.push(
            Step::CreateSeedling { name, version, definition },
        ),
        VersionComparison::Stale => steps.push(
            Step::UpdateSeedling { name, version, definition },
        ),
        VersionComparison::Current => {},
        VersionComparison::Newer => {},
    }
    assert(steps@ =~= old(steps)@ + seedbank_steps(name, version, definition, found));
}

fn push_image<'a>(
    steps: &mut Vec<Step<'a>>,
    registry: &'a str,
    definition: &'a SeedlingDefinition,
    found: ImageStatus,
)
    ensures
        final(steps)@ == old(steps)@ + image_steps(registry, definition, found),
{
    if let ImageStatus::AvailableFromResin = found {
        steps.push(Step::PullImageFromResin { registry, image: &definition.image });
    }
    assert(steps@ =~= old(steps)@ + image_steps(registry, definition, found));
}

fn push_container<'a>(
    steps: &mut Vec<Step<'a>>,
    name: &'a Name,
    version: Version,
    container: ContainerName,
    status: VersionComparison,
    found: Option<Version>,
    running: bool,
)
    requires
        status is Stale ==> found is Some,
    ensures
        final(steps)@ == old(steps)@ + container_steps(
            name,
            version,
            container,
            status,
            found,
            running,
        ),
{
    let ghost expected = container_steps(name, version, container, status, found, running);
    match (status, found) {
        (VersionComparison::Missing, _) => {
            steps.push(Step::BuildContainer { name, version });
            steps.push(Step::StartContainer { container, version });
        },
        (VersionComparison::Current, _) => {
            if !running {
                steps.push(Step::StartContainer { container, version });
            }
        },
        (VersionComparison::Stale, Some(current)) => {
            if running {
                steps.push(
                    Step::StopContainer { container: container.clone(), version: current },
                );
            }
            steps.push(Step::DropContainer { container: container.clone(), version: current });
            steps.push(Step::BuildContainer { name, version });
            steps.push(Step::StartContainer { container, version });
        },
        (VersionComparison::Stale, None) => {},
        (VersionComparison::Newer, _) => {},
    }
    assert(steps@ =~= old(steps)@ + expected);
}

fn push_share_groups<'a>(steps: &mut Vec<Step<'a>>, name: &'a Name, groups: Vec<MissingShareGroup<'a>>)
    ensures
        final(steps)@ == old(steps)@ + share_group_steps(name, groups@),
{
    let ghost before = steps@;
    let ghost given = groups@;
    for item in iter: groups
        invariant
            iter.seq() == given,
            steps@ == before + share_group_steps(name, given.take(iter.index() as int)),
    {
        let ghost i = iter.index() as int;
        steps.push(Step::CreateShareGroup { seedling_name: name, group: item });
        assert(steps@ =~= before + share_group_steps(name, given.take(i + 1)));
    }
    assert(given.take(given.len() as int) =~= given);
}

fn push_folders<'a>(steps: &mut Vec<Step<'a>>, folders: Vec<String>)
    ensures
        final(steps)@ == old(steps)@ + folder_steps::<'a>(folders@),
{
    let ghost before = steps@;
    let ghost given = folders@;
    for item in iter: folders
        invariant
            iter.seq() == given,
            steps@ == before + folder_steps::<'a>(given.take(iter.index() as int)),
    {
        let ghost i = iter.index() as int;
        steps.push(Step::CreateMountFolder(CreateMountFolder::new(item)));
        assert(steps@ =~= before + folder_steps::<'a>(given.take(i + 1)));
    }
    assert(given.take(given.len() as int) =~= given);
}

fn push_owners<'a>(steps: &mut Vec<Step<'a>>, owners: Vec<MountOwnership<'a>>)
    ensures
        final(steps)@ == old(steps)@ + ownership_steps(owners@),
{
    let ghost before = steps@;
    let ghost given = owners@;
    for item in iter: owners
        invariant
            iter.seq() == given,
            steps@ == before + ownership_steps(given.take(iter.index() as int)),
    {
        let ghost i = iter.index() as int;
        steps.push(Step::SetMountOwnership(item));
        assert(steps@ =~= before + ownership_steps(given.take(i + 1)));
    }
    assert(given.take(given.len() as int) =~= given);
}

fn push_modes<'a>(steps: &mut Vec<Step<'a>>, modes: Vec<MountMode>)
    ensures
        final(steps)@ == old(steps)@ + mode_steps::<'a>(modes@),
{
    let ghost before = steps@;
    let ghost given = modes@;
    for item in iter: modes
        invariant
            iter.seq() == given,
            steps@ == before + mode_steps::<'a>(given.take(iter.index() as int)),
    {
        let ghost i = iter.index() as int;
        steps.push(Step::SetMountMode(item));
        assert(steps@ =~= before + mode_steps::<'a>(given.take(i + 1)));
    }
    assert(given.take(given.len() as int) =~= given);
}

fn push_files<'a>(steps: &mut Vec<Step<'a>>, files: Vec<WriteFile<'a>>)
    ensures
        final(steps)@ == old(steps)@ + file_steps(files@),
{
    let ghost before = steps@;
    let ghost given = files@;
    for item in iter: files
        invariant
            iter.seq() == given,
            steps@ == before + file_steps(given.take(iter.index() as int)),
    {
        let ghost i = iter.index() as int;
        steps.push(Step::WriteFile(item));
        assert(steps@ =~= before + file_steps(given.take(i + 1)));
    }
    assert(given.take(given.len() as int) =~= given);
}

fn push_accounts<'a>(
    steps: &mut Vec<Step<'a>>,
    name: &'a Name,
    account_missing: bool,
    agent_account_missing: bool,
)
    ensures
        final(steps)@ == old(steps)@ + account_steps(name, account_missing, agent_account_missing),
{
    if account_missing {
        steps.push(Step::CreateServiceAccount { name });
    }
    if agent_account_missing {
        steps.push(Step::CreateAgentServiceAccount { seedling_name: name });
    }
    assert(steps@ =~= old(steps)@ + account_steps(name, account_missing, agent_account_missing));
}

fn push_agent<'a>(
    steps: &mut Vec<Step<'a>>,
    requested: bool,
    name: &'a Name,
    version: Version,
    container: ContainerName,
    there: bool,
    running: bool,
)
    ensures
        final(steps)@ == old(steps)@ + agent_steps(
            requested,
            name,
            version,
            container,
            there,
            running,
        ),
{
    if requested {
        steps.push(Step::EnsureAgentMount { seedling_name: name });
        if !there {
            steps.push(Step::BuildAgentContainer { seedling_name: name, version });
            steps.push(Step::StartContainer { container, version });
        } else if !running {
            steps.push(Step::StartContainer { container, version });
        }
    }
    assert(steps@ =~= old(steps)@ + agent_steps(
        requested,
        name,
        version,
        container,
        there,
        running,
    ));
}

/// Plans what brings a seedling in line with its declaration. There is no plan where its image
/// cannot be had, nor where its container is newer than the declaration.
pub fn create_plan<'a>(
    name: &'a Name,
    version: Version,
    definition: &'a SeedlingDefinition,
    state: State<'a>,
    registry: &'a str,
) -> (r: Result<Vec<Step<'a>>, ReconcileSeedlingError>)
    requires
        state.container_status is Stale ==> state.container_version is Some,
    ensures
        match state.image_status {
            ImageStatus::Unknown => r == Err::<Vec<Step<'a>>, _>(
                ReconcileSeedlingError::MissingImage,
            ),
            _ => match state.container_status {
                VersionComparison::Newer => r == Err::<Vec<Step<'a>>, _>(
                    ReconcileSeedlingError::WouldDowngrade,
                ),
                _ => r matches Ok(steps) && exists|agent: ContainerName|
                    agent@ == agent_container_name_of(name@) && steps@ == #[trigger] planned(
                        name,
                        version,
                        definition,
                        state,
                        agent,
                        registry,
                    ),
            },
        },
{
    let mut steps: Vec<Step<'a>> = Vec::new();
    push_seedbank(&mut steps, name, version, definition, state.seedling_version);
    let agent_requested: bool = definition.secrets.is_some();
    push_accounts(
        &mut steps,
        name,
        state.missing_service_credentials,
        agent_requested && state.agent_missing_service_credentials,
    );
    push_share_groups(&mut steps, name, state.missing_share_groups);
    push_folders(&mut steps, state.missing_mount_folders);
    push_owners(&mut steps, state.needs_mount_ownership);
    push_modes(&mut steps, state.missing_mount_mode);
    push_files(&mut steps, state.missing_mount_files);
    if let ImageStatus::Unknown = state.image_status {
        return Err(ReconcileSeedlingError::MissingImage);
    }
    push_image(&mut steps, registry, definition, state.image_status);
    let agent: ContainerName = agent_container_name(name);
    let ghost agent_name = agent;
    push_agent(
        &mut steps,
        agent_requested,
        name,
        version,
        agent,
        state.agent_container_exists,
        state.agent_container_is_running,
    );
    if let VersionComparison::Newer = state.container_status {
        return Err(ReconcileSeedlingError::WouldDowngrade);
    }
    push_container(
        &mut steps,
        name,
        version,
        state.container_name,
        state.container_status,
        state.container_version,
        state.container_is_running,
    );
    assert(steps@ == planned(name, version, definition, state, agent_name, registry));
    Ok(steps)
}

/// A seedling that is in line with its declaration, and that asks for no secrets, needs nothing.
pub proof fn law_in_line_means_nothing_to_do<'a>(
    name: &'a Name,
    version: Version,
    definition: &'a SeedlingDefinition,
    state: State<'a>,
    agent: ContainerName,
    registry: &'a str,
)
    requires
        definition.secrets is None,
        state.seedling_version is Current,
        state.image_status is Local,
        state.container_status is Current,
        state.container_is_running,
        !state.missing_service_credentials,
        state.missing_share_groups@.len() == 0,
        state.missing_mount_folders@.len() == 0,
        state.needs_mount_ownership@.len() == 0,
        state.missing_mount_mode@.len() == 0,
        state.missing_mount_files@.len() == 0,
    ensures
        planned(name, version, definition, state, agent, registry).len() == 0,
{
}

/// Whether a step is there for the agent's sake.
pub open spec fn serves_agent<'a>(step: Step<'a>) -> bool {
    step is CreateAgentServiceAccount || step is EnsureAgentMount || step is BuildAgentContainer
}

/// Whether no step is there for the agent's sake.
pub open spec fn free_of_agents<'a>(steps: Seq<Step<'a>>) -> bool {
    forall|i: int| 0 <= i < steps.len() ==> !serves_agent(#[trigger] steps[i])
}

proof fn lemma_join_free_of_agents<'a>(a: Seq<Step<'a>>, b: Seq<Step<'a>>)
    requires
        free_of_agents(a),
        free_of_agents(b),
    ensures
        free_of_agents(a + b),
{
    assert forall|i: int| 0 <= i < (a + b).len() implies !serves_agent(#[trigger] (a + b)[i]) by {
        if i < a.len() {
            assert((a + b)[i] == a[i]);
        } else {
            assert((a + b)[i] == b[i - a.len()]);
        }
    }
}

/// A seedling that asks for no secrets gets no step for an agent, and what was found of an agent
/// makes no difference to its plan.
pub proof fn law_agents_need_secrets<'a>(
    name: &'a Name,
    version: Version,
    definition: &'a SeedlingDefinition,
    state: State<'a>,
    other: State<'a>,
    agent: ContainerName,
    other_agent: ContainerName,
    registry: &'a str,
)
    requires
        definition.secrets is None,
        other == (State {
            agent_missing_service_credentials: other.agent_missing_service_credentials,
            agent_container_exists: other.agent_container_exists,
            agent_container_is_running: other.agent_container_is_running,
            ..state
        }),
    ensures
        planned(name, version, definition, state, agent, registry) == planned(
            name,
            version,
            definition,
            other,
            other_agent,
            registry,
        ),
        free_of_agents(planned(name, version, definition, state, agent, registry)),
{
    let s = seedbank_steps(name, version, definition, state.seedling_version);
    let accounts = account_steps(name, state.missing_service_credentials, false);
    lemma_join_free_of_agents(s, accounts);
    let s = s + accounts;
    let groups = share_group_steps(name, state.missing_share_groups@);
    lemma_join_free_of_agents(s, groups);
    let s = s + groups;
    let folders = folder_steps::<'a>(state.missing_mount_folders@);
    lemma_join_free_of_agents(s, folders);
    let s = s + folders;
    let owners = ownership_steps(state.needs_mount_ownership@);
    lemma_join_free_of_agents(s, owners);
    let s = s + owners;
    let modes = mode_steps::<'a>(state.missing_mount_mode@);
    lemma_join_free_of_agents(s, modes);
    let s = s + modes;
    let files = file_steps(state.missing_mount_files@);
    lemma_join_free_of_agents(s, files);
    let s = s + files;
    let image = image_steps(registry, definition, state.image_status);
    lemma_join_free_of_agents(s, image);
    let s = s + image;
    let none = Seq::<Step<'a>>::empty();
    lemma_join_free_of_agents(s, none);
    let s = s + none;
    let container = container_steps(
        name,
        version,
        state.container_name,
        state.container_status,
        state.container_version,
        state.container_is_running,
    );
    lemma_join_free_of_agents(s, container);
}

/// The place of a step in a plan: the declaration, accounts, groups, folders, owners, modes, files
/// and the image come in this order, and containers last.
pub open spec fn rank<'a>(step: Step<'a>) -> int {
    match step {
        Step::CreateSeedling { .. } | Step::UpdateSeedling { .. } => 0,
        Step::CreateServiceAccount { .. } => 1,
        Step::CreateAgentServiceAccount { .. } => 2,
        Step::CreateShareGroup { .. } => 3,
        Step::CreateMountFolder(_) => 4,
        Step::SetMountOwnership(_) => 5,
        Step::SetMountMode(_) => 6,
        Step::WriteFile(_) => 7,
        Step::PullImageFromResin { .. } => 8,
        _ => 9,
    }
}

/// Whether the steps are in order and keep to the places from `low` to `high`.
pub open spec fn in_order<'a>(steps: Seq<Step<'a>>, low: int, high: int) -> bool {
    &&& forall|i: int| 0 <= i < steps.len() ==> low <= #[trigger] rank(steps[i]) <= high
    &&& forall|i: int, j: int|
        0 <= i <= j < steps.len() ==> #[trigger] rank(steps[i]) <= #[trigger] rank(steps[j])
}

proof fn lemma_join_in_order<'a>(a: Seq<Step<'a>>, b: Seq<Step<'a>>, low: int, mid: int, high: int)
    requires
        low <= mid <= high,
        in_order(a, low, mid),
        in_order(b, mid, high),
    ensures
        in_order(a + b, low, high),
{
    let s = a + b;
    assert forall|i: int| 0 <= i < s.len() implies low <= #[trigger] rank(s[i]) <= high by {
        if i < a.len() {
            assert(low <= rank(a[i]) <= mid);
        } else {
            assert(mid <= rank(b[i - a.len()]) <= high);
        }
    }
    assert forall|i: int, j: int| 0 <= i <= j < s.len() implies #[trigger] rank(s[i])
        <= #[trigger] rank(s[j]) by {
        if j < a.len() {
            assert(rank(a[i]) <= rank(a[j]));
        } else if i >= a.len() {
            assert(rank(b[i - a.len()]) <= rank(b[j - a.len()]));
        } else {
            assert(rank(a[i]) <= mid);
            assert(mid <= rank(b[j - a.len()]));
        }
    }
}

/// A plan does things in order: accounts and groups are there before anything belongs to them,
/// folders before they get owners, modes and files, and everything before containers are touched.
pub proof fn law_plans_are_in_order<'a>(
    name: &'a Name,
    version: Version,
    definition: &'a SeedlingDefinition,
    state: State<'a>,
    agent: ContainerName,
    registry: &'a str,
)
    ensures
        in_order(planned(name, version, definition, state, agent, registry), 0, 9),
{
    let seedbank = seedbank_steps(name, version, definition, state.seedling_version);
    let accounts = account_steps(
        name,
        state.missing_service_credentials,
        definition.secrets is Some && state.agent_missing_service_credentials,
    );
    let groups = share_group_steps(name, state.missing_share_groups@);
    let folders = folder_steps::<'a>(state.missing_mount_folders@);
    let owners = ownership_steps(state.needs_mount_ownership@);
    let modes = mode_steps::<'a>(state.missing_mount_mode@);
    let files = file_steps(state.missing_mount_files@);
    let image = image_steps(registry, definition, state.image_status);
    let for_agent = agent_steps(
        definition.secrets is Some,
        name,
        version,
        agent,
        state.agent_container_exists,
        state.agent_container_is_running,
    );
    let container = container_steps(
        name,
        version,
        state.container_name,
        state.container_status,
        state.container_version,
        state.container_is_running,
    );
    assert(in_order(seedbank, 0, 0));
    assert(in_order(accounts, 0, 2));
    lemma_join_in_order(seedbank, accounts, 0, 0, 2);
    let s = seedbank + accounts;
    assert(in_order(groups, 2, 3));
    lemma_join_in_order(s, groups, 0, 2, 3);
    let s = s + groups;
    assert(in_order(folders, 3, 4));
    lemma_join_in_order(s, folders, 0, 3, 4);
    let s = s + folders;
    assert(in_order(owners, 4, 5));
    lemma_join_in_order(s, owners, 0, 4, 5);
    let s = s + owners;
    assert(in_order(modes, 5, 6));
    lemma_join_in_order(s, modes, 0, 5, 6);
    let s = s + modes;
    assert(in_order(files, 6, 7));
    lemma_join_in_order(s, files, 0, 6, 7);
    let s = s + files;
    assert(in_order(image, 7, 8));
    lemma_join_in_order(s, image, 0, 7, 8);
    let s = s + image;
    assert(in_order(for_agent, 8, 9));
    lemma_join_in_order(s, for_agent, 0, 8, 9);
    let s = s + for_agent;
    assert(in_order(container, 9, 9));
    lemma_join_in_order(s, container, 0, 9, 9);
}

/// Where the container is missing or stale, the plan ends by building it and starting it.
pub proof fn law_built_containers_are_started<'a>(
    name: &'a Name,
    version: Version,
    definition: &'a SeedlingDefinition,
    state: State<'a>,
    agent: ContainerName,
    registry: &'a str,
)
    requires
        state.container_status is Missing || state.container_status is Stale,
    ensures
        ({
            let plan = planned(name, version, definition, state, agent, registry);
            &&& plan.len() >= 2
            &&& plan[plan.len() - 2] == (Step::BuildContainer { name, version })
            &&& plan[plan.len() - 1] == (Step::StartContainer {
                container: state.container_name,
                version,
            })
        }),
{
    let container = container_steps(
        name,
        version,
        state.container_name,
        state.container_status,
        state.container_version,
        state.container_is_running,
    );
    let plan = planned(name, version, definition, state, agent, registry);
    let n = plan.len() as int;
    let m = container.len() as int;
    assert(plan[n - 2] == container[m - 2]);
    assert(plan[n - 1] == container[m - 1]);
}

/// A plan holds what is needed, and nothing else: the declaration is stored where it is missing or
/// stale, everything that was found missing is made, the image is pulled exactly where it is only
/// in the registry, an agent is there exactly for a seedling with secrets, and the container is
/// built where it is missing or stale and started where it does not run.
pub proof fn law_plans_hold_what_is_needed<'a>(
    name: &'a Name,
    version: Version,
    definition: &'a SeedlingDefinition,
    state: State<'a>,
    agent: ContainerName,
    registry: &'a str,
    step: Step<'a>,
)
    requires
        state.container_status is Stale ==> state.container_version is Some,
    ensures
        planned(name, version, definition, state, agent, registry).contains(step) == (match step {
            Step::CreateSeedling { name: n, version: v, definition: d } => {
                state.seedling_version is Missing && n == name && v == version && d == definition
            },
            Step::UpdateSeedling { name: n, version: v, definition: d } => {
                state.seedling_version is Stale && n == name && v == version && d == definition
            },
            Step::CreateServiceAccount { name: n } => {
                state.missing_service_credentials && n == name
            },
            Step::CreateAgentServiceAccount { seedling_name } => {
                definition.secrets is Some && state.agent_missing_service_credentials
                    && seedling_name == name
            },
            Step::CreateShareGroup { seedling_name, group } => {
                seedling_name == name && state.missing_share_groups@.contains(group)
            },
            Step::CreateMountFolder(folder) => state.missing_mount_folders@.contains(folder.path),
            Step::SetMountOwnership(owner) => state.needs_mount_ownership@.contains(owner),
            Step::SetMountMode(mode) => state.missing_mount_mode@.contains(mode),
            Step::WriteFile(file) => state.missing_mount_files@.contains(file),
            Step::PullImageFromResin { registry: from, image } => {
                state.image_status is AvailableFromResin && from == registry && *image
                    == definition.image
            },
            Step::EnsureAgentMount { seedling_name } => {
                definition.secrets is Some && seedling_name == name
            },
            Step::BuildAgentContainer { seedling_name, version: v } => {
                definition.secrets is Some && !state.agent_container_exists && seedling_name
                    == name && v == version
            },
            Step::BuildContainer { name: n, version: v } => {
                (state.container_status is Missing || state.container_status is Stale) && n
                    == name && v == version
            },
            Step::StartContainer { container, version: v } => {
                v == version && ((definition.secrets is Some && container == agent && !(
                state.agent_container_exists && state.agent_container_is_running)) || (container
                    == state.container_name && (state.container_status is Missing
                    || state.container_status is Stale || (state.container_status is Current
                    && !state.container_is_running))))
            },
            Step::StopContainer { container, version: v } => {
                state.container_status is Stale && state.container_is_running && container
                    == state.container_name && state.container_version == Some(v)
            },
            Step::DropContainer { container, version: v } => {
                state.container_status is Stale && container == state.container_name
                    && state.container_version == Some(v)
            },
        }),
{
    let seedbank = seedbank_steps(name, version, definition, state.seedling_version);
    let accounts = account_steps(
        name,
        state.missing_service_credentials,
        definition.secrets is Some && state.agent_missing_service_credentials,
    );
    let groups = share_group_steps(name, state.missing_share_groups@);
    let folders = folder_steps::<'a>(state.missing_mount_folders@);
    let owners = ownership_steps(state.needs_mount_ownership@);
    let modes = mode_steps::<'a>(state.missing_mount_mode@);
    let files = file_steps(state.missing_mount_files@);
    let image = image_steps(registry, definition, state.image_status);
    let for_agent = agent_steps(
        definition.secrets is Some,
        name,
        version,
        agent,
        state.agent_container_exists,
        state.agent_container_is_running,
    );
    let container = container_steps(
        name,
        version,
        state.container_name,
        state.container_status,
        state.container_version,
        state.container_is_running,
    );
    lemma_join_contains(seedbank, accounts, step);
    let s = seedbank + accounts;
    lemma_join_contains(s, groups, step);
    let s = s + groups;
    lemma_join_contains(s, folders, step);
    let s = s + folders;
    lemma_join_contains(s, owners, step);
    let s = s + owners;
    lemma_join_contains(s, modes, step);
    let s = s + modes;
    lemma_join_contains(s, files, step);
    let s = s + files;
    lemma_join_contains(s, image, step);
    let s = s + image;
    lemma_join_contains(s, for_agent, step);
    let s = s + for_agent;
    lemma_join_contains(s, container, step);
    lemma_seedbank_and_accounts_hold(
        name,
        version,
        definition,
        state.seedling_version,
        state.missing_service_credentials,
        definition.secrets is Some && state.agent_missing_service_credentials,
        step,
    );
    lemma_lists_hold(name, state, step);
    lemma_containers_hold(name, version, definition, state, agent, registry, step);
}

proof fn lemma_seedbank_and_accounts_hold<'a>(
    name: &'a Name,
    version: Version,
    definition: &'a SeedlingDefinition,
    found: VersionComparison,
    account_missing: bool,
    agent_account_missing: bool,
    step: Step<'a>,
)
    ensures
        seedbank_steps(name, version, definition, found).contains(step) == ((found is Missing
            && step == (Step::CreateSeedling { name, version, definition })) || (found is Stale
            && step == (Step::UpdateSeedling { name, version, definition }))),
        account_steps(name, account_missing, agent_account_missing).contains(step) == ((
        account_missing && step == (Step::CreateServiceAccount { name })) || (agent_account_missing
            && step == (Step::CreateAgentServiceAccount { seedling_name: name }))),
{
    let seedbank = seedbank_steps(name, version, definition, found);
    assert(seedbank.len() > 0 ==> seedbank.contains(seedbank[0]));
    let accounts = account_steps(name, account_missing, agent_account_missing);
    assert(accounts.len() > 0 ==> accounts.contains(accounts[0]));
    assert(accounts.len() > 1 ==> accounts.contains(accounts[1]));
}

proof fn lemma_lists_hold<'a>(name: &'a Name, state: State<'a>, step: Step<'a>)
    ensures
        share_group_steps(name, state.missing_share_groups@).contains(step) == (step matches
            Step::CreateShareGroup { seedling_name, group } && seedling_name == name
            && state.missing_share_groups@.contains(group)),
        folder_steps::<'a>(state.missing_mount_folders@).contains(step) == (step matches
            Step::CreateMountFolder(folder) && state.missing_mount_folders@.contains(folder.path)),
        ownership_steps(state.needs_mount_ownership@).contains(step) == (step matches
            Step::SetMountOwnership(owner) && state.needs_mount_ownership@.contains(owner)),
        mode_steps::<'a>(state.missing_mount_mode@).contains(step) == (step matches
            Step::SetMountMode(mode) && state.missing_mount_mode@.contains(mode)),
        file_steps(state.missing_mount_files@).contains(step) == (step matches Step::WriteFile(
            file,
        ) && state.missing_mount_files@.contains(file)),
{
    let groups = share_group_steps(name, state.missing_share_groups@);
    let folders = folder_steps::<'a>(state.missing_mount_folders@);
    let owners = ownership_steps(state.needs_mount_ownership@);
    let modes = mode_steps::<'a>(state.missing_mount_mode@);
    let files = file_steps(state.missing_mount_files@);
    match step {
        Step::CreateShareGroup { seedling_name, group } => {
            if state.missing_share_groups@.contains(group) {
                let i = state.missing_share_groups@.index_of(group);
                assert(groups[i] == (Step::CreateShareGroup { seedling_name: name, group }));
            }
        },
        Step::CreateMountFolder(folder) => {
            if state.missing_mount_folders@.contains(folder.path) {
                let i = state.missing_mount_folders@.index_of(folder.path);
                assert(folders[i] == step);
            }
        },
        Step::SetMountOwnership(owner) => {
            if state.needs_mount_ownership@.contains(owner) {
                let i = state.needs_mount_ownership@.index_of(owner);
                assert(owners[i] == step);
            }
        },
        Step::SetMountMode(mode) => {
            if state.missing_mount_mode@.contains(mode) {
                let i = state.missing_mount_mode@.index_of(mode);
                assert(modes[i] == step);
            }
        },
        Step::WriteFile(file) => {
            if state.missing_mount_files@.contains(file) {
                let i = state.missing_mount_files@.index_of(file);
                assert(files[i] == step);
            }
        },
        _ => {},
    }
}

proof fn lemma_containers_hold<'a>(
    name: &'a Name,
    version: Version,
    definition: &'a SeedlingDefinition,
    state: State<'a>,
    agent: ContainerName,
    registry: &'a str,
    step: Step<'a>,
)
    requires
        state.container_status is Stale ==> state.container_version is Some,
    ensures
        image_steps(registry, definition, state.image_status).contains(step) == (
        state.image_status is AvailableFromResin && step == (Step::PullImageFromResin {
            registry,
            image: &definition.image,
        })),
        agent_steps(
            definition.secrets is Some,
            name,
            version,
            agent,
            state.agent_container_exists,
            state.agent_container_is_running,
        ).contains(step) == (definition.secrets is Some && (step == (Step::EnsureAgentMount {
            seedling_name: name,
        }) || (!state.agent_container_exists && step == (Step::BuildAgentContainer {
            seedling_name: name,
            version,
        })) || (!(state.agent_container_exists && state.agent_container_is_running) && step == (
        Step::StartContainer { container: agent, version })))),
        container_steps(
            name,
            version,
            state.container_name,
            state.container_status,
            state.container_version,
            state.container_is_running,
        ).contains(step) == (match state.container_status {
            VersionComparison::Newer => false,
            VersionComparison::Current => !state.container_is_running && step == (
            Step::StartContainer { container: state.container_name, version }),
            _ => step == (Step::BuildContainer { name, version }) || step == (
            Step::StartContainer { container: state.container_name, version }) || (
            state.container_status is Stale && (step == (Step::DropContainer {
                container: state.container_name,
                version: state.container_version->0,
            }) || (state.container_is_running && step == (Step::StopContainer {
                container: state.container_name,
                version: state.container_version->0,
            })))),
        }),
{
    let image = image_steps(registry, definition, state.image_status);
    assert(image.len() > 0 ==> image.contains(image[0]));
    let for_agent = agent_steps(
        definition.secrets is Some,
        name,
        version,
        agent,
        state.agent_container_exists,
        state.agent_container_is_running,
    );
    assert(for_agent.len() > 0 ==> for_agent.contains(for_agent[0]));
    assert(for_agent.len() > 1 ==> for_agent.contains(for_agent[1]));
    assert(for_agent.len() > 2 ==> for_agent.contains(for_agent[2]));
    let container = container_steps(
        name,
        version,
        state.container_name,
        state.container_status,
        state.container_version,
        state.container_is_running,
    );
    assert(container.len() > 0 ==> container.contains(container[0]));
    assert(container.len() > 1 ==> container.contains(container[1]));
    assert(container.len() > 2 ==> container.contains(container[2]));
    assert(container.len() > 3 ==> container.contains(container[3]));
}

/// Everything that is needed is planned once: a plan has no more steps than it has things to do.
pub proof fn law_plans_do_things_once<'a>(
    name: &'a Name,
    version: Version,
    definition: &'a SeedlingDefinition,
    state: State<'a>,
    agent: ContainerName,
    registry: &'a str,
)
    ensures
        planned(name, version, definition, state, agent, registry).len() == (if (
        state.seedling_version is Missing || state.seedling_version is Stale) {
            1int
        } else {
            0
        }) + (if state.missing_service_credentials {
            1int
        } else {
            0
        }) + (if definition.secrets is Some && state.agent_missing_service_credentials {
            1int
        } else {
            0
        }) + state.missing_share_groups@.len() + state.missing_mount_folders@.len()
            + state.needs_mount_ownership@.len() + state.missing_mount_mode@.len()
            + state.missing_mount_files@.len() + (if state.image_status is AvailableFromResin {
            1int
        } else {
            0
        }) + (if definition.secrets is None {
            0int
        } else if !state.agent_container_exists {
            3
        } else if !state.agent_container_is_running {
            2
        } else {
            1
        }) + (match state.container_status {
            VersionComparison::Missing => 2int,
            VersionComparison::Current => if state.container_is_running {
                0
            } else {
                1
            },
            VersionComparison::Stale => if state.container_is_running {
                4
            } else {
                3
            },
            VersionComparison::Newer => 0,
        }),
{
}

/// What was found missing of the mounts is worked off in the order in which it was found: from a
/// place in the plan on, the groups, the folders, the owners, the modes and the files.
pub proof fn law_mounts_are_worked_off_in_order<'a>(
    name: &'a Name,
    version: Version,
    definition: &'a SeedlingDefinition,
    state: State<'a>,
    agent: ContainerName,
    registry: &'a str,
) -> (at: int)
    ensures
        ({
            let plan = planned(name, version, definition, state, agent, registry);
            let folders = at + state.missing_share_groups@.len();
            let owners = folders + state.missing_mount_folders@.len();
            let modes = owners + state.needs_mount_ownership@.len();
            let files = modes + state.missing_mount_mode@.len();
            &&& 0 <= at
            &&& files + state.missing_mount_files@.len() <= plan.len()
            &&& forall|i: int|
                0 <= i < state.missing_share_groups@.len() ==> plan[at + i] == (
                Step::CreateShareGroup {
                    seedling_name: name,
                    group: #[trigger] state.missing_share_groups@[i],
                })
            &&& forall|i: int|
                0 <= i < state.missing_mount_folders@.len() ==> plan[folders + i] == (
                Step::CreateMountFolder(
                    CreateMountFolder { path: #[trigger] state.missing_mount_folders@[i] },
                ))
            &&& forall|i: int|
                0 <= i < state.needs_mount_ownership@.len() ==> plan[owners + i] == (
                Step::SetMountOwnership(#[trigger] state.needs_mount_ownership@[i]))
            &&& forall|i: int|
                0 <= i < state.missing_mount_mode@.len() ==> plan[modes + i] == (
                Step::SetMountMode(#[trigger] state.missing_mount_mode@[i]))
            &&& forall|i: int|
                0 <= i < state.missing_mount_files@.len() ==> plan[files + i] == (
                Step::WriteFile(#[trigger] state.missing_mount_files@[i]))
        }),
{
    let seedbank = seedbank_steps(name, version, definition, state.seedling_version);
    let accounts = account_steps(
        name,
        state.missing_service_credentials,
        definition.secrets is Some && state.agent_missing_service_credentials,
    );
    seedbank.len() as int + accounts.len()
}

/// An image that is only in the registry is pulled once, from there, before any container is built
/// or taken away, whatever the container's status. One that is there is not pulled.
pub proof fn law_images_are_pulled_before_they_are_used<'a>(
    name: &'a Name,
    version: Version,
    definition: &'a SeedlingDefinition,
    state: State<'a>,
    agent: ContainerName,
    registry: &'a str,
) -> (at: int)
    ensures
        ({
            let plan = planned(name, version, definition, state, agent, registry);
            &&& state.image_status is AvailableFromResin ==> {
                &&& 0 <= at < plan.len()
                &&& plan[at] == (Step::PullImageFromResin { registry, image: &definition.image })
                &&& forall|j: int|
                    0 <= j < plan.len() && (#[trigger] plan[j]) is PullImageFromResin ==> j == at
                &&& forall|j: int|
                    0 <= j < plan.len() && ((#[trigger] plan[j]) is BuildContainer
                        || plan[j] is StopContainer || plan[j] is DropContainer
                        || plan[j] is StartContainer || plan[j] is BuildAgentContainer) ==> at < j
            }
            &&& !(state.image_status is AvailableFromResin) ==> forall|j: int|
                0 <= j < plan.len() ==> !((#[trigger] plan[j]) is PullImageFromResin)
        }),
{
    let plan = planned(name, version, definition, state, agent, registry);
    let before = groundwork(name, version, definition, state, registry);
    let behind = agent_steps(
        definition.secrets is Some,
        name,
        version,
        agent,
        state.agent_container_exists,
        state.agent_container_is_running,
    ) + container_steps(
        name,
        version,
        state.container_name,
        state.container_status,
        state.container_version,
        state.container_is_running,
    );
    let image = image_steps(registry, definition, state.image_status);
    let at = before.len() - 1;
    assert(plan =~= before + behind);
    assert(image.len() > 0 ==> before[at] == image[0]);
    lemma_groundwork_is_in_order(name, version, definition, state, registry);
    lemma_containers_pull_nothing(name, version, definition, state, agent);
    lemma_parts_by_rank(before, behind, before.len() - image.len());
    at
}

proof fn lemma_parts_by_rank<'a>(before: Seq<Step<'a>>, behind: Seq<Step<'a>>, last: int)
    requires
        before.len() - 1 <= last <= before.len(),
        forall|i: int|
            0 <= i < before.len() ==> #[trigger] rank(before[i]) <= (if i < last {
                7int
            } else {
                8
            }),
        forall|i: int| 0 <= i < behind.len() ==> #[trigger] rank(behind[i]) == 9,
    ensures
        forall|j: int|
            #![trigger (before + behind)[j]]
            0 <= j < (before + behind).len() ==> {
                &&& rank((before + behind)[j]) == 8 ==> last <= j < before.len()
                &&& rank((before + behind)[j]) == 9 ==> j >= before.len()
            },
{
    assert forall|j: int|
        #![trigger (before + behind)[j]]
        0 <= j < (before + behind).len() implies {
        &&& rank((before + behind)[j]) == 8 ==> last <= j < before.len()
        &&& rank((before + behind)[j]) == 9 ==> j >= before.len()
    } by {
        if j < before.len() {
            assert(rank(before[j]) <= 8);
        } else {
            assert(rank(behind[j - before.len()]) == 9);
        }
    }
}

proof fn lemma_containers_pull_nothing<'a>(
    name: &'a Name,
    version: Version,
    definition: &'a SeedlingDefinition,
    state: State<'a>,
    agent: ContainerName,
)
    ensures
        ({
            let behind = agent_steps(
                definition.secrets is Some,
                name,
                version,
                agent,
                state.agent_container_exists,
                state.agent_container_is_running,
            ) + container_steps(
                name,
                version,
                state.container_name,
                state.container_status,
                state.container_version,
                state.container_is_running,
            );
            forall|i: int| 0 <= i < behind.len() ==> #[trigger] rank(behind[i]) == 9
        }),
{
}

proof fn lemma_groundwork_is_in_order<'a>(
    name: &'a Name,
    version: Version,
    definition: &'a SeedlingDefinition,
    state: State<'a>,
    registry: &'a str,
)
    ensures
        ({
            let steps = groundwork(name, version, definition, state, registry);
            let last = steps.len() - image_steps(registry, definition, state.image_status).len();
            forall|i: int|
                0 <= i < steps.len() ==> #[trigger] rank(steps[i]) <= (if i < last {
                    7int
                } else {
                    8
                })
        }),
{
}

/// A container that is stale makes way before it is built anew: it is stopped where it runs, it is
/// dropped, and its successor is built and started, in this order and at the end of the plan.
pub proof fn law_stale_containers_make_way<'a>(
    name: &'a Name,
    version: Version,
    definition: &'a SeedlingDefinition,
    state: State<'a>,
    agent: ContainerName,
    registry: &'a str,
)
    requires
        state.container_status is Stale,
        state.container_version is Some,
    ensures
        ({
            let plan = planned(name, version, definition, state, agent, registry);
            let n = plan.len() as int;
            &&& n >= 3
            &&& plan[n - 1] == (Step::StartContainer { container: state.container_name, version })
            &&& plan[n - 2] == (Step::BuildContainer { name, version })
            &&& plan[n - 3] == (Step::DropContainer {
                container: state.container_name,
                version: state.container_version->0,
            })
            &&& state.container_is_running ==> n >= 4 && plan[n - 4] == (Step::StopContainer {
                container: state.container_name,
                version: state.container_version->0,
            })
        }),
{
    let container = container_steps(
        name,
        version,
        state.container_name,
        state.container_status,
        state.container_version,
        state.container_is_running,
    );
    let plan = planned(name, version, definition, state, agent, registry);
    let n = plan.len() as int;
    let m = container.len() as int;
    assert(plan[n - 1] == container[m - 1]);
    assert(plan[n - 2] == container[m - 2]);
    assert(plan[n - 3] == container[m - 3]);
    if state.container_is_running {
        assert(plan[n - 4] == container[m - 4]);
    }
}

/// The agent of a seedling with secrets is up before the seedling's own container is touched: its
/// mount is ensured, then its container is built where there is none, then it is started where it
/// does not run. All this comes before any step for the seedling's own container.
pub proof fn law_agents_come_before_their_seedlings<'a>(
    name: &'a Name,
    version: Version,
    definition: &'a SeedlingDefinition,
    state: State<'a>,
    agent: ContainerName,
    registry: &'a str,
) -> (at: int)
    requires
        definition.secrets is Some,
    ensures
        ({
            let plan = planned(name, version, definition, state, agent, registry);
            &&& 0 <= at < plan.len()
            &&& plan[at] == (Step::EnsureAgentMount { seedling_name: name })
            &&& !state.agent_container_exists ==> {
                &&& at + 2 < plan.len()
                &&& plan[at + 1] == (Step::BuildAgentContainer { seedling_name: name, version })
                &&& plan[at + 2] == (Step::StartContainer { container: agent, version })
            }
            &&& state.agent_container_exists && !state.agent_container_is_running ==> {
                &&& at + 1 < plan.len()
                &&& plan[at + 1] == (Step::StartContainer { container: agent, version })
            }
            &&& forall|j: int|
                0 <= j < plan.len() && ((#[trigger] plan[j]) is BuildContainer
                    || plan[j] is StopContainer || plan[j] is DropContainer) ==> at < j
        }),
{
    let plan = planned(name, version, definition, state, agent, registry);
    let before = groundwork(name, version, definition, state, registry);
    let for_agent = agent_steps(
        definition.secrets is Some,
        name,
        version,
        agent,
        state.agent_container_exists,
        state.agent_container_is_running,
    );
    let at = before.len() as int;
    lemma_groundwork_is_in_order(name, version, definition, state, registry);
    assert(plan[at] == for_agent[0]);
    if !state.agent_container_exists {
        assert(plan[at + 1] == for_agent[1]);
        assert(plan[at + 2] == for_agent[2]);
    } else if !state.agent_container_is_running {
        assert(plan[at + 1] == for_agent[1]);
    }
    assert forall|j: int|
        0 <= j < plan.len() && rank(#[trigger] plan[j]) == 9 implies j >= before.len() by {
        if j < before.len() {
            assert(plan[j] == before[j]);
            assert(rank(before[j]) <= 8);
        }
    }
    at
}

} // verus!
