//! Finding out how far a seedling is from its declaration.

use crate::docker::{DockerError, Label, Status};
use crate::labels::{get_version, version_in, LabelError};
use crate::modes::{Modes, EXPECTED_MOUNT_MODE};
use crate::names::{container_name, container_name_of, Name};
use crate::paths::{
    file_name, file_name_of, join, joined, mount_of, parent, parent_of, DouglasFolders,
};
use crate::reconcile_seedling::{
    ImageStatus, MissingShareGroup, MountMode, MountOwnership, ReconcileSeedlingError,
    SeedlingStatus, State, VersionComparison, WriteFile,
};
use crate::rolodex::{Credential, ServiceAccount};
use crate::seedling::{MountContents, MountType, NamedMount, SeedlingDefinition, Version};
use crate::sequences::lemma_join_contains;
use crate::text::{same_text, string_texts};
use vstd::prelude::*;

verus! {

/// How a version that is there compares with the declared one.
pub open spec fn compared(there: Version, declared: Version) -> VersionComparison {
    if there.0 < declared.0 {
        VersionComparison::Stale
    } else if there.0 == declared.0 {
        VersionComparison::Current
    } else {
        VersionComparison::Newer
    }
}

/// How a version that is there compares with the declared one.
pub fn compare_versions(there: Version, declared: Version) -> (r: VersionComparison)
    ensures
        r == compared(there, declared),
{
    if there.0 < declared.0 {
        VersionComparison::Stale
    } else if there.0 == declared.0 {
        VersionComparison::Current
    } else {
        VersionComparison::Newer
    }
}

/// How the seedbank's version compares with the declared one.
pub fn discover_current_seedbank_version(status: SeedlingStatus, version: Version) -> (r:
    VersionComparison)
    ensures
        r == (match status {
            SeedlingStatus::Defined(current) => compared(current, version),
            SeedlingStatus::Unknown => VersionComparison::Missing,
        }),
{
    match status {
        SeedlingStatus::Defined(current) => compare_versions(current, version),
        SeedlingStatus::Unknown => VersionComparison::Missing,
    }
}

/// What is still to be asked about an image, or where it can be had.
#[derive(Debug, Clone, Copy, PartialEq, Eq, Structural)]
pub enum ImageObservation {
    AskLocal,
    AskResin,
    Known(ImageStatus),
}

/// What is to be asked next about an image: the registry only where the image is not here.
pub fn discover_image_status(local: Option<bool>, in_resin: Option<bool>) -> (r: ImageObservation)
    ensures
        r == (match (local, in_resin) {
            (None, _) => ImageObservation::AskLocal,
            (Some(true), _) => ImageObservation::Known(ImageStatus::Local),
            (Some(false), None) => ImageObservation::AskResin,
            (Some(false), Some(true)) => ImageObservation::Known(ImageStatus::AvailableFromResin),
            (Some(false), Some(false)) => ImageObservation::Known(ImageStatus::Unknown),
        }),
{
    match local {
        None => ImageObservation::AskLocal,
        Some(here) => {
            if here {
                ImageObservation::Known(ImageStatus::Local)
            } else {
                match in_resin {
                    None => ImageObservation::AskResin,
                    Some(there) => {
                        if there {
                            ImageObservation::Known(ImageStatus::AvailableFromResin)
                        } else {
                            ImageObservation::Known(ImageStatus::Unknown)
                        }
                    },
                }
            }
        },
    }
}

/// How a container compares with the declared version, from what the engine says of its labels. A
/// container that is not there is missing; any other failure is one of the search.
pub fn discover_container_status(labels: Result<Vec<Label>, DockerError>, version: Version) -> (r:
    Result<(VersionComparison, Option<Version>), ReconcileSeedlingError>)
    ensures
        match labels {
            Ok(labels) => match version_in(labels@) {
                Some(actual) => r == Ok::<_, ReconcileSeedlingError>(
                    (compared(actual, version), Some(actual)),
                ),
                None => r == Err::<(VersionComparison, Option<Version>), _>(
                    ReconcileSeedlingError::LabelError(LabelError::MissingVersion),
                ),
            },
            Err(DockerError::ResourceNotFound) => r == Ok::<_, ReconcileSeedlingError>(
                (VersionComparison::Missing, None::<Version>),
            ),
            Err(error) => r == Err::<(VersionComparison, Option<Version>), _>(
                ReconcileSeedlingError::DockerError(error),
            ),
        },
{
    match labels {
        Ok(labels) => match get_version(&labels) {
            Ok(actual) => Ok((compare_versions(actual, version), Some(actual))),
            Err(error) => Err(ReconcileSeedlingError::LabelError(error)),
        },
        Err(DockerError::ResourceNotFound) => Ok((VersionComparison::Missing, None)),
        Err(error) => Err(ReconcileSeedlingError::DockerError(error)),
    }
}

/// Whether a container runs, from what the engine says of its status. One that is not there does
/// not run.
pub fn discover_container_is_running(status: Result<Status, DockerError>) -> (r: Result<
    bool,
    ReconcileSeedlingError,
>)
    ensures
        match status {
            Ok(status) => r == Ok::<bool, ReconcileSeedlingError>(status == Status::Running),
            Err(DockerError::ResourceNotFound) => r == Ok::<bool, ReconcileSeedlingError>(false),
            Err(error) => r == Err::<bool, _>(ReconcileSeedlingError::DockerError(error)),
        },
{
    match status {
        Ok(status) => Ok(status == Status::Running),
        Err(DockerError::ResourceNotFound) => Ok(false),
        Err(error) => Err(ReconcileSeedlingError::DockerError(error)),
    }
}

/// What was seen where a mount is to hold a folder or a file: nothing, or what is there with its
/// bytes.
#[derive(Debug, PartialEq, Eq)]
pub enum ContentObservation {
    Absent,
    There(Vec<u8>),
}

/// What was seen of a mount: the group that shares it, whether its folder is there, the folder's
/// group and mode, and each of its contents. The last three count only where the folder is there.
#[derive(Debug, PartialEq, Eq)]
pub struct MountObservation {
    pub share_group: Option<Credential>,
    pub folder_exists: bool,
    pub owning_group: String,
    pub mode: Modes,
    pub contents: Vec<ContentObservation>,
}

/// What a mount's content comes to.
pub enum Finding {
    InPlace,
    MissingFolder(Seq<char>),
    MissingFile { parent: Seq<char>, file_name: Seq<char> },
    StaleFile { parent: Seq<char>, file_name: Seq<char> },
    InvalidPath(Seq<char>),
    InvalidMountPath(Seq<char>),
}

/// What a mount's content comes to: a folder that is not there, a file that is not there or holds
/// other bytes, a path that cannot be one, or nothing to do.
pub open spec fn finding(root: Seq<char>, content: MountContents, there: Option<Seq<u8>>) -> Finding {
    match content {
        MountContents::FolderOnly(relative) => if there is None {
            Finding::MissingFolder(joined(root, relative@))
        } else {
            Finding::InPlace
        },
        MountContents::File(file) => {
            let path = joined(root, file.file_relative_path@);
            match there {
                Some(bytes) => if bytes == file.contents@ {
                    Finding::InPlace
                } else {
                    match (parent_of(path), file_name_of(path)) {
                        (Some(parent), Some(file_name)) => Finding::StaleFile {
                            parent,
                            file_name,
                        },
                        _ => Finding::InvalidMountPath(file.file_relative_path@),
                    }
                },
                None => match (parent_of(path), file_name_of(path)) {
                    (Some(parent), Some(file_name)) => Finding::MissingFile { parent, file_name },
                    (Some(_), None) => Finding::InvalidMountPath(file.file_relative_path@),
                    (None, _) => Finding::InvalidPath(path),
                },
            }
        },
    }
}

impl Finding {
    /// Whether the search ends here.
    pub open spec fn is_bad(self) -> bool {
        self is InvalidPath || self is InvalidMountPath
    }

    /// The folders that are to be made.
    pub open spec fn folders(self) -> Seq<Seq<char>> {
        match self {
            Finding::MissingFolder(path) => seq![path],
            Finding::MissingFile { parent, .. } => seq![parent],
            _ => Seq::empty(),
        }
    }

    /// The files that are to be written.
    pub open spec fn files(self, content: MountContents) -> Seq<(Seq<char>, Seq<char>, Seq<u8>)> {
        match (self, content) {
            (Finding::MissingFile { parent, file_name }, MountContents::File(file)) => seq![
                (parent, file_name, file.contents@),
            ],
            (Finding::StaleFile { parent, file_name }, MountContents::File(file)) => seq![
                (parent, file_name, file.contents@),
            ],
            _ => Seq::empty(),
        }
    }

    /// The error with which the search ends.
    pub open spec fn gives(self, error: ReconcileSeedlingError) -> bool {
        match self {
            Finding::InvalidPath(path) => error matches ReconcileSeedlingError::InvalidPath(p)
                && p@ == path,
            Finding::InvalidMountPath(path) => error
                matches ReconcileSeedlingError::InvalidMountPath(p) && p@ == path,
            _ => false,
        }
    }
}

/// What was seen of a content, in a mount whose folder is there or is not.
pub open spec fn seen_content(seen: MountObservation, i: int) -> Option<Seq<u8>> {
    if !seen.folder_exists {
        None
    } else {
        match seen.contents@[i] {
            ContentObservation::Absent => None,
            ContentObservation::There(bytes) => Some(bytes@),
        }
    }
}

/// What a content of a mount comes to.
pub open spec fn content_finding(
    root: Seq<char>,
    contents: Seq<MountContents>,
    seen: MountObservation,
    i: int,
) -> Finding {
    finding(root, contents[i], seen_content(seen, i))
}

/// The folders that the first `n` contents of a mount need.
pub open spec fn content_folders(
    root: Seq<char>,
    contents: Seq<MountContents>,
    seen: MountObservation,
    n: nat,
) -> Seq<Seq<char>>
    decreases n,
{
    if n == 0 {
        Seq::empty()
    } else {
        content_folders(root, contents, seen, (n - 1) as nat) + content_finding(
            root,
            contents,
            seen,
            n - 1,
        ).folders()
    }
}

/// The files that the first `n` contents of a mount need.
pub open spec fn content_files(
    root: Seq<char>,
    contents: Seq<MountContents>,
    seen: MountObservation,
    n: nat,
) -> Seq<(Seq<char>, Seq<char>, Seq<u8>)>
    decreases n,
{
    if n == 0 {
        Seq::empty()
    } else {
        content_files(root, contents, seen, (n - 1) as nat) + content_finding(
            root,
            contents,
            seen,
            n - 1,
        ).files(contents[n - 1])
    }
}

/// What files are to be written, and where.
pub open spec fn file_views<'a>(files: Seq<WriteFile<'a>>) -> Seq<
    (Seq<char>, Seq<char>, Seq<u8>),
> {
    files.map_values(|file: WriteFile<'a>| (file.parent_path@, file.file_name@, file.contents@))
}

pub(crate) fn same_bytes(a: &Vec<u8>, b: &Vec<u8>) -> (r: bool)
    ensures
        r == (a@ == b@),
{
    if a.len() != b.len() {
        return false;
    }
    let mut i: usize = 0;
    while i < a.len()
        invariant
            i <= a@.len(),
            a@.len() == b@.len(),
            forall|j: int| 0 <= j < i ==> a@[j] == b@[j],
        decreases a@.len() - i,
    {
        if a[i] != b[i] {
            return false;
        }
        i += 1;
    }
    assert(a@ =~= b@);
    true
}

fn add_content<'a>(
    folders: &mut Vec<String>,
    files: &mut Vec<WriteFile<'a>>,
    root: &str,
    content: &'a MountContents,
    there: Option<&Vec<u8>>,
) -> (r: Result<(), ReconcileSeedlingError>)
    ensures
        ({
            let found = finding(
                root@,
                *content,
                match there {
                    Some(bytes) => Some(bytes@),
                    None => None,
                },
            );
            &&& r is Err == found.is_bad()
            &&& r matches Err(error) ==> found.gives(error)
            &&& r is Ok ==> string_texts(final(folders)@) == string_texts(old(folders)@) + found.folders()
            &&& r is Ok ==> file_views(final(files)@) == file_views(old(files)@) + found.files(
                *content,
            )
        }),
{
    match content {
        MountContents::FolderOnly(relative) => {
            if there.is_none() {
                folders.push(join(root, relative));
            }
        },
        MountContents::File(file) => {
            let path: String = join(root, &file.file_relative_path);
            match there {
                Some(bytes) => {
                    if !same_bytes(bytes, &file.contents) {
                        match (parent(&path), file_name(&path)) {
                            (Some(folder), Some(name)) => {
                                files.push(WriteFile::new(folder, name, &file.contents));
                            },
                            _ => return Err(
                                ReconcileSeedlingError::InvalidMountPath(
                                    file.file_relative_path.clone(),
                                ),
                            ),
                        }
                    }
                },
                None => match (parent(&path), file_name(&path)) {
                    (Some(folder), Some(name)) => {
                        folders.push(folder.clone());
                        files.push(WriteFile::new(folder, name, &file.contents));
                    },
                    (Some(_), None) => return Err(
                        ReconcileSeedlingError::InvalidMountPath(file.file_relative_path.clone()),
                    ),
                    (None, _) => return Err(ReconcileSeedlingError::InvalidPath(path)),
                },
            }
        },
    }
    proof {
        let found = finding(
            root@,
            *content,
            match there {
                Some(bytes) => Some(bytes@),
                None => None,
            },
        );
        assert(string_texts(folders@) =~= string_texts(old(folders)@) + found.folders());
        assert(file_views(files@) =~= file_views(old(files)@) + found.files(*content));
    }
    Ok(())
}

/// The name of the group that a mount's folder should belong to, where that group is there: the
/// group of the share, or the seedling's own.
pub open spec fn expected_group(
    kind: MountType,
    share_group: Option<Credential>,
    account: Option<ServiceAccount>,
) -> Option<Seq<char>> {
    match kind {
        MountType::PersistedShared(_) => match share_group {
            Some(credential) => Some(credential.system_name@),
            None => None,
        },
        MountType::Persisted | MountType::InMemory => match account {
            Some(account) => Some(account.group.system_name@),
            None => None,
        },
    }
}

/// The name of the group that a mount's folder should belong to, where that group is there.
pub fn expected_mount_group_name<'b>(
    kind: &MountType,
    share_group: &'b Option<Credential>,
    account: &'b Option<ServiceAccount>,
) -> (r: Option<&'b String>)
    ensures
        match r {
            Some(group) => expected_group(*kind, *share_group, *account) == Some(group@),
            None => expected_group(*kind, *share_group, *account) is None,
        },
{
    match kind {
        MountType::PersistedShared(_) => match share_group {
            Some(credential) => Some(&credential.system_name),
            None => None,
        },
        _ => match account {
            Some(account) => Some(&account.group.system_name),
            None => None,
        },
    }
}

/// The share group that a mount still needs.
pub open spec fn mount_share_groups<'a>(named: &'a NamedMount, seen: MountObservation) -> Seq<
    MissingShareGroup<'a>,
> {
    match named.mount.kind {
        MountType::PersistedShared(siblings) => if seen.share_group is None {
            seq![MissingShareGroup { mount_name: &named.name, siblings: &siblings }]
        } else {
            Seq::empty()
        },
        _ => Seq::empty(),
    }
}

/// The folders that a mount still needs: its own where it is not there, and those of its contents.
pub open spec fn mount_folders(
    root: Seq<char>,
    named: NamedMount,
    seen: MountObservation,
) -> Seq<Seq<char>> {
    (if seen.folder_exists {
        Seq::empty()
    } else {
        seq![root]
    }) + content_folders(
        root,
        named.mount.contents@,
        seen,
        named.mount.contents@.len(),
    )
}

/// Whether the owner of a mount's folder is to be set: where the folder is new, where the group
/// that it should belong to is not there yet, and where it belongs to another.
pub open spec fn needs_owner(
    named: NamedMount,
    seen: MountObservation,
    account: Option<ServiceAccount>,
) -> bool {
    !seen.folder_exists || expected_group(named.mount.kind, seen.share_group, account) != Some(
        seen.owning_group@,
    )
}

/// Whether the mode of a mount's folder is to be set.
pub open spec fn needs_mode(seen: MountObservation) -> bool {
    !seen.folder_exists || seen.mode != EXPECTED_MOUNT_MODE
}

/// The owners that are to be set, as they are written down.
pub open spec fn owner_views<'a>(owners: Seq<MountOwnership<'a>>) -> Seq<
    (Seq<char>, &'a Name, &'a MountType),
> {
    owners.map_values(|owner: MountOwnership<'a>| (owner.path@, owner.mount_name, owner.kind))
}

/// The modes that are to be set, as they are written down.
pub open spec fn mode_views(modes: Seq<MountMode>) -> Seq<(Seq<char>, Modes)> {
    modes.map_values(|mode: MountMode| (mode.path@, mode.mode))
}

/// The owner that a mount's folder still needs.
pub open spec fn mount_owners<'a>(
    root: Seq<char>,
    named: &'a NamedMount,
    seen: MountObservation,
    account: Option<ServiceAccount>,
) -> Seq<(Seq<char>, &'a Name, &'a MountType)> {
    if needs_owner(*named, seen, account) {
        seq![(root, &named.name, &named.mount.kind)]
    } else {
        Seq::empty()
    }
}

/// The mode that a mount's folder still needs.
pub open spec fn mount_modes(root: Seq<char>, seen: MountObservation) -> Seq<(Seq<char>, Modes)> {
    if needs_mode(seen) {
        seq![(root, EXPECTED_MOUNT_MODE)]
    } else {
        Seq::empty()
    }
}

/// Whether a content of a mount has a path that cannot be one, and is the first such.
pub open spec fn first_bad(
    root: Seq<char>,
    contents: Seq<MountContents>,
    seen: MountObservation,
    i: int,
) -> bool {
    &&& 0 <= i < contents.len()
    &&& content_finding(root, contents, seen, i).is_bad()
    &&& forall|j: int|
        0 <= j < i ==> !(#[trigger] content_finding(root, contents, seen, j)).is_bad()
}

/// Whether every content of a mount has a path.
pub open spec fn all_placed(
    root: Seq<char>,
    contents: Seq<MountContents>,
    seen: MountObservation,
) -> bool {
    forall|j: int|
        0 <= j < contents.len() ==> !(#[trigger] content_finding(root, contents, seen, j)).is_bad()
}

/// What of a mount is missing, gathered over the mounts of a seedling.
pub struct Gathered<'a> {
    pub share_groups: Vec<MissingShareGroup<'a>>,
    pub folders: Vec<String>,
    pub owners: Vec<MountOwnership<'a>>,
    pub modes: Vec<MountMode>,
    pub files: Vec<WriteFile<'a>>,
}

fn discover_missing_mount_contents<'a>(
    gathered: &mut Gathered<'a>,
    root: &str,
    contents: &'a Vec<MountContents>,
    seen: &MountObservation,
) -> (r: Result<(), ReconcileSeedlingError>)
    requires
        seen.folder_exists ==> seen.contents@.len() == contents@.len(),
    ensures
        r is Ok == all_placed(root@, contents@, *seen),
        r matches Err(error) ==> exists|i: int|
            #[trigger] first_bad(root@, contents@, *seen, i) && content_finding(
                root@,
                contents@,
                *seen,
                i,
            ).gives(error),
        r is Ok ==> string_texts(final(gathered).folders@) == string_texts(old(gathered).folders@)
            + content_folders(root@, contents@, *seen, contents@.len()),
        r is Ok ==> file_views(final(gathered).files@) == file_views(old(gathered).files@)
            + content_files(root@, contents@, *seen, contents@.len()),
        final(gathered).share_groups == old(gathered).share_groups,
        final(gathered).owners == old(gathered).owners,
        final(gathered).modes == old(gathered).modes,
{
    let ghost before = *gathered;
    let mut i: usize = 0;
    assert(string_texts(gathered.folders@) =~= string_texts(before.folders@) + content_folders(
        root@,
        contents@,
        *seen,
        0,
    ));
    assert(file_views(gathered.files@) =~= file_views(before.files@) + content_files(
        root@,
        contents@,
        *seen,
        0,
    ));
    while i < contents.len()
        invariant
            i <= contents@.len(),
            before == *old(gathered),
            seen.folder_exists ==> seen.contents@.len() == contents@.len(),
            forall|j: int|
                0 <= j < i ==> !(#[trigger] content_finding(
                    root@,
                    contents@,
                    *seen,
                    j,
                )).is_bad(),
            string_texts(gathered.folders@) == string_texts(before.folders@) + content_folders(
                root@,
                contents@,
                *seen,
                i as nat,
            ),
            file_views(gathered.files@) == file_views(before.files@) + content_files(
                root@,
                contents@,
                *seen,
                i as nat,
            ),
            gathered.share_groups == before.share_groups,
            gathered.owners == before.owners,
            gathered.modes == before.modes,
        decreases contents@.len() - i,
    {
        let there: Option<&Vec<u8>> = if seen.folder_exists {
            match &seen.contents[i] {
                ContentObservation::Absent => None,
                ContentObservation::There(bytes) => Some(bytes),
            }
        } else {
            None
        };
        let ghost folders_before = string_texts(gathered.folders@);
        let ghost files_before = file_views(gathered.files@);
        let ghost found = content_finding(root@, contents@, *seen, i as int);
        let added: Result<(), ReconcileSeedlingError> = add_content(
            &mut gathered.folders,
            &mut gathered.files,
            root,
            &contents[i],
            there,
        );
        if let Err(error) = added {
            assert(first_bad(root@, contents@, *seen, i as int));
            return Err(error);
        }
        assert(content_folders(root@, contents@, *seen, (i + 1) as nat) == content_folders(
            root@,
            contents@,
            *seen,
            i as nat,
        ) + found.folders());
        assert(string_texts(gathered.folders@) =~= string_texts(before.folders@) + content_folders(
            root@,
            contents@,
            *seen,
            (i + 1) as nat,
        ));
        assert(file_views(gathered.files@) =~= file_views(before.files@) + content_files(
            root@,
            contents@,
            *seen,
            (i + 1) as nat,
        ));
        i += 1;
    }
    Ok(())
}

/// The folder of a mount.
pub open spec fn mount_root(
    folders: DouglasFolders,
    seedling: Seq<char>,
    named: NamedMount,
) -> Seq<char> {
    mount_of(folders.seedlings_root@, seedling, named.name@)
}

/// Adds what is missing of one mount to what was gathered.
pub fn discover_missing_mount<'a>(
    gathered: &mut Gathered<'a>,
    folders: &DouglasFolders,
    seedling_name: &Name,
    named: &'a NamedMount,
    seen: &MountObservation,
    account: &Option<ServiceAccount>,
) -> (r: Result<(), ReconcileSeedlingError>)
    requires
        seen.folder_exists ==> seen.contents@.len() == named.mount.contents@.len(),
    ensures
        ({
            let root = mount_root(*folders, seedling_name@, *named);
            let contents = named.mount.contents@;
            &&& r is Ok == all_placed(root, contents, *seen)
            &&& r matches Err(error) ==> exists|i: int|
                #[trigger] first_bad(root, contents, *seen, i) && content_finding(
                    root,
                    contents,
                    *seen,
                    i,
                ).gives(error)
            &&& r is Ok ==> final(gathered).share_groups@ == old(gathered).share_groups@
                + mount_share_groups(named, *seen)
            &&& r is Ok ==> string_texts(final(gathered).folders@) == string_texts(old(gathered).folders@)
                + mount_folders(root, *named, *seen)
            &&& r is Ok ==> owner_views(final(gathered).owners@) == owner_views(
                old(gathered).owners@,
            ) + mount_owners(root, named, *seen, *account)
            &&& r is Ok ==> mode_views(final(gathered).modes@) == mode_views(old(gathered).modes@)
                + mount_modes(root, *seen)
            &&& r is Ok ==> file_views(final(gathered).files@) == file_views(old(gathered).files@)
                + content_files(root, contents, *seen, contents.len())
        }),
{
    let ghost before = *gathered;
    if let MountType::PersistedShared(siblings) = &named.mount.kind {
        if seen.share_group.is_none() {
            gathered.share_groups.push(MissingShareGroup { mount_name: &named.name, siblings });
        }
    }
    assert(gathered.share_groups@ =~= before.share_groups@ + mount_share_groups(named, *seen));
    let root: String = folders.seedling_mount(seedling_name.as_str(), named.name.as_str());
    if !seen.folder_exists {
        gathered.folders.push(root.clone());
    }
    let ghost folders_then = string_texts(gathered.folders@);
    assert(folders_then =~= string_texts(before.folders@) + (if seen.folder_exists {
        Seq::empty()
    } else {
        seq![root@]
    }));
    let owner_is_right: bool = match expected_mount_group_name(
        &named.mount.kind,
        &seen.share_group,
        account,
    ) {
        Some(expected) => same_text(expected, &seen.owning_group),
        None => false,
    };
    if !seen.folder_exists || !owner_is_right {
        gathered.owners.push(
            MountOwnership {
                path: root.clone(),
                mount_name: &named.name,
                kind: &named.mount.kind,
            },
        );
    }
    assert(owner_views(gathered.owners@) =~= owner_views(before.owners@) + mount_owners(
        root@,
        named,
        *seen,
        *account,
    ));
    if !seen.folder_exists || seen.mode != EXPECTED_MOUNT_MODE {
        gathered.modes.push(MountMode { path: root.clone(), mode: EXPECTED_MOUNT_MODE });
    }
    assert(mode_views(gathered.modes@) =~= mode_views(before.modes@) + mount_modes(root@, *seen));
    let r: Result<(), ReconcileSeedlingError> = discover_missing_mount_contents(
        gathered,
        &root,
        &named.mount.contents,
        seen,
    );
    assert(r is Ok ==> string_texts(gathered.folders@) =~= string_texts(before.folders@) + mount_folders(
        root@,
        *named,
        *seen,
    ));
    r
}

/// Everything that is looked at before a seedling is brought in line.
#[derive(Debug, PartialEq, Eq)]
pub struct Observations {
    pub agent_account_found: bool,
    pub agent_container_exists: bool,
    pub agent_status: Result<Status, DockerError>,
    pub seedbank: SeedlingStatus,
    pub image: ImageStatus,
    pub labels: Result<Vec<Label>, DockerError>,
    pub status: Result<Status, DockerError>,
    pub account: Option<ServiceAccount>,
    pub mounts: Vec<MountObservation>,
}

impl Observations {
    /// Whether there is one observation for each mount, and for each content of a mount whose
    /// folder is there.
    pub open spec fn covers(&self, definition: SeedlingDefinition) -> bool {
        &&& self.mounts@.len() == definition.mounts@.len()
        &&& forall|i: int|
            0 <= i < self.mounts@.len() && (#[trigger] self.mounts@[i]).folder_exists
                ==> self.mounts@[i].contents@.len() == definition.mounts@[i].mount.contents@.len()
    }
}

/// Whether a container runs, from what the engine says; an engine that fails otherwise than for
/// want of the container gives nothing.
pub open spec fn runs(status: Result<Status, DockerError>) -> Option<bool> {
    match status {
        Ok(status) => Some(status == Status::Running),
        Err(DockerError::ResourceNotFound) => Some(false),
        Err(DockerError::Other(_)) => None,
    }
}

/// How a container compares with the declared version; where that cannot be told, nothing.
pub open spec fn container_found(labels: Result<Vec<Label>, DockerError>, version: Version) -> Option<
    (VersionComparison, Option<Version>),
> {
    match labels {
        Ok(labels) => match version_in(labels@) {
            Some(actual) => Some((compared(actual, version), Some(actual))),
            None => None,
        },
        Err(DockerError::ResourceNotFound) => Some((VersionComparison::Missing, None)),
        Err(DockerError::Other(_)) => None,
    }
}

/// The share groups that the first `n` mounts still need.
pub open spec fn share_groups_upto<'a>(
    mounts: Seq<NamedMount>,
    seen: Seq<MountObservation>,
    n: nat,
) -> Seq<MissingShareGroup<'a>>
    decreases n,
{
    if n == 0 {
        Seq::empty()
    } else {
        share_groups_upto(mounts, seen, (n - 1) as nat) + mount_share_groups(
            &mounts[n - 1],
            seen[n - 1],
        )
    }
}

/// The folders that the first `n` mounts still need.
pub open spec fn folders_upto(
    folders: DouglasFolders,
    seedling: Seq<char>,
    mounts: Seq<NamedMount>,
    seen: Seq<MountObservation>,
    n: nat,
) -> Seq<Seq<char>>
    decreases n,
{
    if n == 0 {
        Seq::empty()
    } else {
        folders_upto(folders, seedling, mounts, seen, (n - 1) as nat) + mount_folders(
            mount_root(folders, seedling, mounts[n - 1]),
            mounts[n - 1],
            seen[n - 1],
        )
    }
}

/// The owners that the first `n` mounts still need.
pub open spec fn owners_upto<'a>(
    folders: DouglasFolders,
    seedling: Seq<char>,
    mounts: Seq<NamedMount>,
    seen: Seq<MountObservation>,
    account: Option<ServiceAccount>,
    n: nat,
) -> Seq<(Seq<char>, &'a Name, &'a MountType)>
    decreases n,
{
    if n == 0 {
        Seq::empty()
    } else {
        owners_upto(folders, seedling, mounts, seen, account, (n - 1) as nat) + mount_owners(
            mount_root(folders, seedling, mounts[n - 1]),
            &mounts[n - 1],
            seen[n - 1],
            account,
        )
    }
}

/// The modes that the first `n` mounts still need.
pub open spec fn modes_upto(
    folders: DouglasFolders,
    seedling: Seq<char>,
    mounts: Seq<NamedMount>,
    seen: Seq<MountObservation>,
    n: nat,
) -> Seq<(Seq<char>, Modes)>
    decreases n,
{
    if n == 0 {
        Seq::empty()
    } else {
        modes_upto(folders, seedling, mounts, seen, (n - 1) as nat) + mount_modes(
            mount_root(folders, seedling, mounts[n - 1]),
            seen[n - 1],
        )
    }
}

/// The files that the first `n` mounts still need.
pub open spec fn files_upto(
    folders: DouglasFolders,
    seedling: Seq<char>,
    mounts: Seq<NamedMount>,
    seen: Seq<MountObservation>,
    n: nat,
) -> Seq<(Seq<char>, Seq<char>, Seq<u8>)>
    decreases n,
{
    if n == 0 {
        Seq::empty()
    } else {
        files_upto(folders, seedling, mounts, seen, (n - 1) as nat) + content_files(
            mount_root(folders, seedling, mounts[n - 1]),
            mounts[n - 1].mount.contents@,
            seen[n - 1],
            mounts[n - 1].mount.contents@.len(),
        )
    }
}

/// Whether every content of a mount has a path.
pub open spec fn mount_placed(
    folders: DouglasFolders,
    seedling: Seq<char>,
    mounts: Seq<NamedMount>,
    seen: Seq<MountObservation>,
    i: int,
) -> bool {
    all_placed(mount_root(folders, seedling, mounts[i]), mounts[i].mount.contents@, seen[i])
}

/// Whether the search ends with this error at a content of a mount: the first content without a
/// path in the first mount that has one.
pub open spec fn ends_at(
    folders: DouglasFolders,
    seedling: Seq<char>,
    mounts: Seq<NamedMount>,
    seen: Seq<MountObservation>,
    mount: int,
    content: int,
    error: ReconcileSeedlingError,
) -> bool {
    let root = mount_root(folders, seedling, mounts[mount]);
    let contents = mounts[mount].mount.contents@;
    &&& 0 <= mount < mounts.len()
    &&& forall|i: int|
        0 <= i < mount ==> #[trigger] mount_placed(folders, seedling, mounts, seen, i)
    &&& first_bad(root, contents, seen[mount], content)
    &&& content_finding(root, contents, seen[mount], content).gives(error)
}

impl<'a> Gathered<'a> {
    /// Whether this is what the first `n` mounts still need.
    pub open spec fn holds(
        &self,
        folders: DouglasFolders,
        seedling: Seq<char>,
        mounts: Seq<NamedMount>,
        seen: Seq<MountObservation>,
        account: Option<ServiceAccount>,
        n: nat,
    ) -> bool {
        &&& self.share_groups@ == share_groups_upto::<'a>(mounts, seen, n)
        &&& string_texts(self.folders@) == folders_upto(folders, seedling, mounts, seen, n)
        &&& owner_views(self.owners@) == owners_upto::<'a>(
            folders,
            seedling,
            mounts,
            seen,
            account,
            n,
        )
        &&& mode_views(self.modes@) == modes_upto(folders, seedling, mounts, seen, n)
        &&& file_views(self.files@) == files_upto(folders, seedling, mounts, seen, n)
    }
}

/// Gathers what is missing of the mounts of a seedling. A content without a path ends the search.
pub fn discover_missing_mounts<'a>(
    folders: &DouglasFolders,
    seedling_name: &Name,
    definition: &'a SeedlingDefinition,
    seen: &Observations,
) -> (r: Result<Gathered<'a>, ReconcileSeedlingError>)
    requires
        seen.covers(*definition),
    ensures
        r is Ok == forall|i: int|
            0 <= i < definition.mounts@.len() ==> #[trigger] mount_placed(
                *folders,
                seedling_name@,
                definition.mounts@,
                seen.mounts@,
                i,
            ),
        r matches Err(error) ==> exists|mount: int, content: int| #[trigger]
            ends_at(
                *folders,
                seedling_name@,
                definition.mounts@,
                seen.mounts@,
                mount,
                content,
                error,
            ),
        r matches Ok(gathered) ==> gathered.holds(
            *folders,
            seedling_name@,
            definition.mounts@,
            seen.mounts@,
            seen.account,
            definition.mounts@.len(),
        ),
{
    let mut gathered: Gathered<'a> = Gathered {
        share_groups: Vec::new(),
        folders: Vec::new(),
        owners: Vec::new(),
        modes: Vec::new(),
        files: Vec::new(),
    };
    let mut i: usize = 0;
    let ghost mounts = definition.mounts@;
    let ghost saw = seen.mounts@;
    proof {
        assert(string_texts(gathered.folders@) =~= Seq::<Seq<char>>::empty());
        assert(owner_views(gathered.owners@) =~= Seq::<
            (Seq<char>, &'a Name, &'a MountType),
        >::empty());
        assert(mode_views(gathered.modes@) =~= Seq::<(Seq<char>, Modes)>::empty());
        assert(file_views(gathered.files@) =~= Seq::<(Seq<char>, Seq<char>, Seq<u8>)>::empty());
    }
    while i < definition.mounts.len()
        invariant
            i <= mounts.len(),
            mounts == definition.mounts@,
            saw == seen.mounts@,
            seen.covers(*definition),
            forall|j: int|
                0 <= j < i ==> #[trigger] mount_placed(*folders, seedling_name@, mounts, saw, j),
            gathered.holds(
                *folders,
                seedling_name@,
                mounts,
                saw,
                seen.account,
                i as nat,
            ),
        decreases mounts.len() - i,
    {
        let found: Result<(), ReconcileSeedlingError> = discover_missing_mount(
            &mut gathered,
            folders,
            seedling_name,
            &definition.mounts[i],
            &seen.mounts[i],
            &seen.account,
        );
        assert(found is Ok == mount_placed(*folders, seedling_name@, mounts, saw, i as int));
        if let Err(error) = found {
            proof {
                let root = mount_root(*folders, seedling_name@, mounts[i as int]);
                let contents = mounts[i as int].mount.contents@;
                let content = choose|j: int|
                    #[trigger] first_bad(root, contents, saw[i as int], j) && content_finding(
                        root,
                        contents,
                        saw[i as int],
                        j,
                    ).gives(error);
                assert(ends_at(
                    *folders,
                    seedling_name@,
                    mounts,
                    saw,
                    i as int,
                    content,
                    error,
                ));
            }
            return Err(error);
        }
        i += 1;
        proof {
            let n = i as nat;
            assert(gathered.share_groups@ == share_groups_upto::<'a>(mounts, saw, n));
            assert(string_texts(gathered.folders@) == folders_upto(
                *folders,
                seedling_name@,
                mounts,
                saw,
                n,
            ));
            assert(owner_views(gathered.owners@) == owners_upto::<'a>(
                *folders,
                seedling_name@,
                mounts,
                saw,
                seen.account,
                n,
            ));
        }
    }
    Ok(gathered)
}

/// What was found of a seedling, from everything that was looked at. The search fails where the
/// engine does, where the container has no version, and where a mount's content has no path, in
/// this order: the agent's container, the seedling's, the mounts.
pub fn discover<'a>(
    folders: &DouglasFolders,
    name: &Name,
    version: Version,
    definition: &'a SeedlingDefinition,
    agent_requested: bool,
    seen: Observations,
) -> (r: Result<State<'a>, ReconcileSeedlingError>)
    requires
        seen.covers(*definition),
    ensures
        ({
            let asks_agent = agent_requested && seen.agent_container_exists;
            if asks_agent && runs(seen.agent_status) is None {
                r matches Err(ReconcileSeedlingError::DockerError(error)) && seen.agent_status
                    == Err::<Status, _>(error)
            } else if container_found(seen.labels, version) is None {
                match seen.labels {
                    Ok(_) => r == Err::<State<'a>, _>(
                        ReconcileSeedlingError::LabelError(LabelError::MissingVersion),
                    ),
                    Err(error) => r == Err::<State<'a>, _>(
                        ReconcileSeedlingError::DockerError(error),
                    ),
                }
            } else if runs(seen.status) is None {
                r matches Err(ReconcileSeedlingError::DockerError(error)) && seen.status
                    == Err::<Status, _>(error)
            } else {
                &&& r is Ok == forall|i: int|
                    0 <= i < definition.mounts@.len() ==> #[trigger] mount_placed(
                        *folders,
                        name@,
                        definition.mounts@,
                        seen.mounts@,
                        i,
                    )
                &&& r matches Err(error) ==> exists|mount: int, content: int| #[trigger]
                    ends_at(
                        *folders,
                        name@,
                        definition.mounts@,
                        seen.mounts@,
                        mount,
                        content,
                        error,
                    )
            }
        }),
        r matches Ok(state) ==> {
            &&& state.seedling_version == (match seen.seedbank {
                SeedlingStatus::Defined(current) => compared(current, version),
                SeedlingStatus::Unknown => VersionComparison::Missing,
            })
            &&& state.container_name@ == container_name_of(name@)
            &&& state.image_status == seen.image
            &&& Some((state.container_status, state.container_version)) == container_found(
                seen.labels,
                version,
            )
            &&& Some(state.container_is_running) == runs(seen.status)
            &&& state.missing_service_credentials == (seen.account is None)
            &&& state.agent_missing_service_credentials == !(agent_requested
                && seen.agent_account_found)
            &&& state.agent_container_exists == (agent_requested && seen.agent_container_exists)
            &&& state.agent_container_is_running == (agent_requested && seen.agent_container_exists
                && runs(seen.agent_status) == Some(true))
            &&& state.missing_share_groups@ == share_groups_upto::<'a>(
                definition.mounts@,
                seen.mounts@,
                definition.mounts@.len(),
            )
            &&& string_texts(state.missing_mount_folders@) == folders_upto(
                *folders,
                name@,
                definition.mounts@,
                seen.mounts@,
                definition.mounts@.len(),
            )
            &&& owner_views(state.needs_mount_ownership@) == owners_upto::<'a>(
                *folders,
                name@,
                definition.mounts@,
                seen.mounts@,
                seen.account,
                definition.mounts@.len(),
            )
            &&& mode_views(state.missing_mount_mode@) == modes_upto(
                *folders,
                name@,
                definition.mounts@,
                seen.mounts@,
                definition.mounts@.len(),
            )
            &&& file_views(state.missing_mount_files@) == files_upto(
                *folders,
                name@,
                definition.mounts@,
                seen.mounts@,
                definition.mounts@.len(),
            )
            &&& state.container_status is Stale ==> state.container_version is Some
        },
{
    let gathered_result: Result<Gathered<'a>, ReconcileSeedlingError> = discover_missing_mounts(
        folders,
        name,
        definition,
        &seen,
    );
    let account_missing: bool = seen.account.is_none();
    let agent_exists: bool = agent_requested && seen.agent_container_exists;
    let agent_running: bool = if agent_exists {
        match discover_container_is_running(seen.agent_status) {
            Ok(running) => running,
            Err(error) => return Err(error),
        }
    } else {
        false
    };
    let (container_status, container_version) = match discover_container_status(
        seen.labels,
        version,
    ) {
        Ok(found) => found,
        Err(error) => return Err(error),
    };
    let container_is_running: bool = match discover_container_is_running(seen.status) {
        Ok(running) => running,
        Err(error) => return Err(error),
    };
    let gathered: Gathered<'a> = match gathered_result {
        Ok(gathered) => gathered,
        Err(error) => return Err(error),
    };
    Ok(
        State {
            seedling_version: discover_current_seedbank_version(seen.seedbank, version),
            container_name: container_name(name),
            image_status: seen.image,
            container_status,
            container_version,
            container_is_running,
            missing_service_credentials: account_missing,
            missing_share_groups: gathered.share_groups,
            missing_mount_folders: gathered.folders,
            needs_mount_ownership: gathered.owners,
            missing_mount_mode: gathered.modes,
            missing_mount_files: gathered.files,
            agent_missing_service_credentials: !(agent_requested && seen.agent_account_found),
            agent_container_exists: agent_exists,
            agent_container_is_running: agent_running,
        },
    )
}

/// A version is stale where it is older than the declared one, newer where it is later, and current
/// where it is the same.
pub proof fn law_versions_are_told_apart(there: Version, declared: Version)
    ensures
        compared(there, declared) == VersionComparison::Stale <==> there.0 < declared.0,
        compared(there, declared) == VersionComparison::Current <==> there.0 == declared.0,
        compared(there, declared) == VersionComparison::Newer <==> there.0 > declared.0,
{
}

/// What is found of a content follows from what is there: a folder is in place where there is
/// something, a file only where its very bytes are there. A file that is missing or differs is
/// found with the folder and the name of its path; where its path has none, that is said.
pub proof fn law_findings_follow_from_what_is_there(
    root: Seq<char>,
    content: MountContents,
    there: Option<Seq<u8>>,
)
    ensures
        match content {
            MountContents::FolderOnly(relative) => finding(root, content, there) == (if there
                is Some {
                Finding::InPlace
            } else {
                Finding::MissingFolder(joined(root, relative@))
            }),
            MountContents::File(file) => {
                let path = joined(root, file.file_relative_path@);
                let found = finding(root, content, there);
                &&& found is InPlace <==> there == Some(file.contents@)
                &&& !(found is MissingFolder)
                &&& found is MissingFile || found is InvalidPath ==> there is None
                &&& found is StaleFile ==> there is Some
                &&& (found matches Finding::MissingFile { parent, file_name } ==> parent_of(path)
                    == Some(parent) && file_name_of(path) == Some(file_name))
                &&& (found matches Finding::StaleFile { parent, file_name } ==> parent_of(path)
                    == Some(parent) && file_name_of(path) == Some(file_name))
                &&& (found matches Finding::InvalidPath(named) ==> named == path && parent_of(path)
                    is None)
                &&& (found matches Finding::InvalidMountPath(named) ==> named
                    == file.file_relative_path@ && (file_name_of(path) is None || (there is Some
                    && parent_of(path) is None)))
            },
        },
{
}

/// What a finding asks for: a missing folder is made, a missing file's folder is made and the file
/// written with the declared bytes, a stale file is written alone; what is in place asks for
/// nothing, and a bad path ends the search with an error that names it.
pub proof fn law_findings_are_acted_on(found: Finding, content: MountContents)
    ensures
        match found {
            Finding::InPlace => found.folders().len() == 0 && found.files(content).len() == 0
                && !found.is_bad(),
            Finding::MissingFolder(path) => found.folders() == seq![path] && found.files(
                content,
            ).len() == 0 && !found.is_bad(),
            Finding::MissingFile { parent, file_name } => found.folders() == seq![parent]
                && !found.is_bad() && (content matches MountContents::File(file) ==> found.files(
                content,
            ) == seq![(parent, file_name, file.contents@)]),
            Finding::StaleFile { parent, file_name } => found.folders().len() == 0
                && !found.is_bad() && (content matches MountContents::File(file) ==> found.files(
                content,
            ) == seq![(parent, file_name, file.contents@)]),
            Finding::InvalidPath(path) => found.is_bad() && forall|error: ReconcileSeedlingError|
                #[trigger] found.gives(error) ==> (error
                    matches ReconcileSeedlingError::InvalidPath(named) && named@ == path),
            Finding::InvalidMountPath(path) => found.is_bad() && forall|
                error: ReconcileSeedlingError,
            | #[trigger] found.gives(error) ==> (error
                matches ReconcileSeedlingError::InvalidMountPath(named) && named@ == path),
        },
{
}

/// The group that a mount's folder is to belong to is the one that shares it, or else the
/// seedling's own; nobody's where there is none yet.
pub proof fn law_mounts_belong_to_their_group(
    kind: MountType,
    share_group: Option<Credential>,
    account: Option<ServiceAccount>,
    group: Seq<char>,
)
    ensures
        expected_group(kind, share_group, account) == Some(group) <==> if kind is PersistedShared {
            share_group matches Some(credential) && credential.system_name@ == group
        } else {
            account matches Some(account) && account.group.system_name@ == group
        },
{
}

/// A share group is found missing exactly for the shared mounts that have none, with the mount's
/// name and all those that it is shared with.
pub proof fn law_share_groups_are_made_where_they_are_missing<'a>(
    mounts: Seq<NamedMount>,
    seen: Seq<MountObservation>,
    n: nat,
    wanted: MissingShareGroup<'a>,
)
    requires
        n <= mounts.len(),
    ensures
        share_groups_upto(mounts, seen, n).contains(wanted) == exists|i: int|
            0 <= i < n && (#[trigger] mounts[i]).mount.kind is PersistedShared && seen[i].share_group is None
                && *wanted.mount_name == mounts[i].name && *wanted.siblings
                == mounts[i].mount.kind->PersistedShared_0,
    decreases n,
{
    if n > 0 {
        let fewer = (n - 1) as nat;
        law_share_groups_are_made_where_they_are_missing(mounts, seen, fewer, wanted);
        let part = mount_share_groups(&mounts[n - 1], seen[n - 1]);
        lemma_join_contains(share_groups_upto(mounts, seen, fewer), part, wanted);
        assert(part.len() > 0 ==> part.contains(part[0]));
        if share_groups_upto(mounts, seen, fewer).contains(wanted) {
            let i = choose|i: int|
                0 <= i < fewer && (#[trigger] mounts[i]).mount.kind is PersistedShared && seen[i].share_group is None
                && *wanted.mount_name == mounts[i].name && *wanted.siblings
                == mounts[i].mount.kind->PersistedShared_0;
            assert(mounts[i] == mounts[i]);
        }
        if part.contains(wanted) {
            assert(mounts[n - 1] == mounts[n - 1]);
        }
        if exists|i: int| 0 <= i < n && (#[trigger] mounts[i]).mount.kind is PersistedShared && seen[i].share_group is None
                && *wanted.mount_name == mounts[i].name && *wanted.siblings
                == mounts[i].mount.kind->PersistedShared_0 {
            let i = choose|i: int| 0 <= i < n && (#[trigger] mounts[i]).mount.kind is PersistedShared && seen[i].share_group is None
                && *wanted.mount_name == mounts[i].name && *wanted.siblings
                == mounts[i].mount.kind->PersistedShared_0;
            if i < fewer {
                assert(mounts[i] == mounts[i]);
            }
        }
    }
}

/// The owner of a mount's folder is set exactly where the folder is not there yet, or does not
/// belong to the group that it should.
pub proof fn law_owners_are_set_where_they_differ<'a>(
    folders: DouglasFolders,
    seedling: Seq<char>,
    mounts: Seq<NamedMount>,
    seen: Seq<MountObservation>,
    account: Option<ServiceAccount>,
    n: nat,
    wanted: (Seq<char>, &'a Name, &'a MountType),
)
    requires
        n <= mounts.len(),
    ensures
        owners_upto(folders, seedling, mounts, seen, account, n).contains(wanted) == exists|i: int|
            0 <= i < n && (!seen[i].folder_exists || expected_group(
                (#[trigger] mounts[i]).mount.kind,
                seen[i].share_group,
                account,
            ) != Some(seen[i].owning_group@)) && wanted.0 == mount_of(
                folders.seedlings_root@,
                seedling,
                mounts[i].name@,
            ) && *wanted.1 == mounts[i].name && *wanted.2 == mounts[i].mount.kind,
    decreases n,
{
    if n > 0 {
        let fewer = (n - 1) as nat;
        law_owners_are_set_where_they_differ(folders, seedling, mounts, seen, account, fewer, wanted);
        let part = mount_owners(
            mount_root(folders, seedling, mounts[n - 1]),
            &mounts[n - 1],
            seen[n - 1],
            account,
        );
        lemma_join_contains(owners_upto(folders, seedling, mounts, seen, account, fewer), part, wanted);
        assert(part.len() > 0 ==> part.contains(part[0]));
        if owners_upto(folders, seedling, mounts, seen, account, fewer).contains(wanted) {
            let i = choose|i: int|
                0 <= i < fewer && (!seen[i].folder_exists || expected_group(
                (#[trigger] mounts[i]).mount.kind,
                seen[i].share_group,
                account,
            ) != Some(seen[i].owning_group@)) && wanted.0 == mount_of(
                folders.seedlings_root@,
                seedling,
                mounts[i].name@,
            ) && *wanted.1 == mounts[i].name && *wanted.2 == mounts[i].mount.kind;
            assert(mounts[i] == mounts[i]);
        }
        if part.contains(wanted) {
            assert(mounts[n - 1] == mounts[n - 1]);
        }
        if exists|i: int| 0 <= i < n && (!seen[i].folder_exists || expected_group(
                (#[trigger] mounts[i]).mount.kind,
                seen[i].share_group,
                account,
            ) != Some(seen[i].owning_group@)) && wanted.0 == mount_of(
                folders.seedlings_root@,
                seedling,
                mounts[i].name@,
            ) && *wanted.1 == mounts[i].name && *wanted.2 == mounts[i].mount.kind {
            let i = choose|i: int| 0 <= i < n && (!seen[i].folder_exists || expected_group(
                (#[trigger] mounts[i]).mount.kind,
                seen[i].share_group,
                account,
            ) != Some(seen[i].owning_group@)) && wanted.0 == mount_of(
                folders.seedlings_root@,
                seedling,
                mounts[i].name@,
            ) && *wanted.1 == mounts[i].name && *wanted.2 == mounts[i].mount.kind;
            if i < fewer {
                assert(mounts[i] == mounts[i]);
            }
        }
    }
}

/// The mode of a mount's folder is set exactly where the folder is not there yet, or has another
/// mode than mounts have.
pub proof fn law_modes_are_set_where_they_differ(
    folders: DouglasFolders,
    seedling: Seq<char>,
    mounts: Seq<NamedMount>,
    seen: Seq<MountObservation>,
    n: nat,
    wanted: (Seq<char>, Modes),
)
    requires
        n <= mounts.len(),
    ensures
        modes_upto(folders, seedling, mounts, seen, n).contains(wanted) == exists|i: int|
            0 <= i < n && (!seen[i].folder_exists || seen[i].mode != EXPECTED_MOUNT_MODE) && wanted.0
                == mount_of(folders.seedlings_root@, seedling, (#[trigger] mounts[i]).name@)
                && wanted.1 == EXPECTED_MOUNT_MODE,
    decreases n,
{
    if n > 0 {
        let fewer = (n - 1) as nat;
        law_modes_are_set_where_they_differ(folders, seedling, mounts, seen, fewer, wanted);
        let part = mount_modes(mount_root(folders, seedling, mounts[n - 1]), seen[n - 1]);
        lemma_join_contains(modes_upto(folders, seedling, mounts, seen, fewer), part, wanted);
        assert(part.len() > 0 ==> part.contains(part[0]));
        if modes_upto(folders, seedling, mounts, seen, fewer).contains(wanted) {
            let i = choose|i: int|
                0 <= i < fewer && (!seen[i].folder_exists || seen[i].mode != EXPECTED_MOUNT_MODE) && wanted.0
                == mount_of(folders.seedlings_root@, seedling, (#[trigger] mounts[i]).name@)
                && wanted.1 == EXPECTED_MOUNT_MODE;
            assert(mounts[i] == mounts[i]);
        }
        if part.contains(wanted) {
            assert(mounts[n - 1] == mounts[n - 1]);
        }
        if exists|i: int| 0 <= i < n && (!seen[i].folder_exists || seen[i].mode != EXPECTED_MOUNT_MODE) && wanted.0
                == mount_of(folders.seedlings_root@, seedling, (#[trigger] mounts[i]).name@)
                && wanted.1 == EXPECTED_MOUNT_MODE {
            let i = choose|i: int| 0 <= i < n && (!seen[i].folder_exists || seen[i].mode != EXPECTED_MOUNT_MODE) && wanted.0
                == mount_of(folders.seedlings_root@, seedling, (#[trigger] mounts[i]).name@)
                && wanted.1 == EXPECTED_MOUNT_MODE;
            if i < fewer {
                assert(mounts[i] == mounts[i]);
            }
        }
    }
}

/// The folders that a mount's contents still need are exactly those that some finding asks for.
pub proof fn law_contents_are_looked_at_one_by_one(
    root: Seq<char>,
    contents: Seq<MountContents>,
    seen: MountObservation,
    n: nat,
    folder: Seq<char>,
    file: (Seq<char>, Seq<char>, Seq<u8>),
)
    requires
        n <= contents.len(),
    ensures
        content_folders(root, contents, seen, n).contains(folder) == exists|i: int|
            0 <= i < n && finding(
                root,
                #[trigger] contents[i],
                if seen.folder_exists {
                    match seen.contents@[i] {
                        ContentObservation::Absent => None,
                        ContentObservation::There(bytes) => Some(bytes@),
                    }
                } else {
                    None
                },
            ).folders().contains(folder),
        content_files(root, contents, seen, n).contains(file) == exists|i: int|
            0 <= i < n && finding(
                root,
                #[trigger] contents[i],
                if seen.folder_exists {
                    match seen.contents@[i] {
                        ContentObservation::Absent => None,
                        ContentObservation::There(bytes) => Some(bytes@),
                    }
                } else {
                    None
                },
            ).files(contents[i]).contains(file),
    decreases n,
{
    if n > 0 {
        let fewer = (n - 1) as nat;
        law_contents_are_looked_at_one_by_one(root, contents, seen, fewer, folder, file);
        let found = content_finding(root, contents, seen, n - 1);
        lemma_join_contains(content_folders(root, contents, seen, fewer), found.folders(), folder);
        lemma_join_contains(
            content_files(root, contents, seen, fewer),
            found.files(contents[n - 1]),
            file,
        );
        assert forall|i: int| 0 <= i < n implies (#[trigger] content_finding(
            root,
            contents,
            seen,
            i,
        )) == finding(
            root,
            contents[i],
            if seen.folder_exists {
                match seen.contents@[i] {
                    ContentObservation::Absent => None,
                    ContentObservation::There(bytes) => Some(bytes@),
                }
            } else {
                None
            },
        ) by {}
        if content_folders(root, contents, seen, fewer).contains(folder) {
            let i = choose|i: int|
                0 <= i < fewer && finding(
                    root,
                    #[trigger] contents[i],
                    seen_content(seen, i),
                ).folders().contains(folder);
            assert(contents[i] == contents[i]);
        }
        if content_files(root, contents, seen, fewer).contains(file) {
            let i = choose|i: int|
                0 <= i < fewer && finding(
                    root,
                    #[trigger] contents[i],
                    seen_content(seen, i),
                ).files(contents[i]).contains(file);
            assert(contents[i] == contents[i]);
        }
        assert(contents[n - 1] == contents[n - 1]);
        if exists|i: int|
            0 <= i < n && finding(
                root,
                #[trigger] contents[i],
                seen_content(seen, i),
            ).folders().contains(folder) {
            let i = choose|i: int|
                0 <= i < n && finding(
                    root,
                    #[trigger] contents[i],
                    seen_content(seen, i),
                ).folders().contains(folder);
            if i < fewer {
                assert(contents[i] == contents[i]);
            }
        }
        if exists|i: int|
            0 <= i < n && finding(
                root,
                #[trigger] contents[i],
                seen_content(seen, i),
            ).files(contents[i]).contains(file) {
            let i = choose|i: int|
                0 <= i < n && finding(
                    root,
                    #[trigger] contents[i],
                    seen_content(seen, i),
                ).files(contents[i]).contains(file);
            if i < fewer {
                assert(contents[i] == contents[i]);
            }
        }
    }
}

/// A mount whose folder is not there gets that folder before anything in it.
pub proof fn law_mounts_are_made_before_their_contents(
    root: Seq<char>,
    named: NamedMount,
    seen: MountObservation,
    folder: Seq<char>,
)
    ensures
        !seen.folder_exists ==> mount_folders(root, named, seen).len() > 0 && mount_folders(
            root,
            named,
            seen,
        )[0] == root,
        mount_folders(root, named, seen).contains(folder) == ((!seen.folder_exists && folder
            == root) || content_folders(
            root,
            named.mount.contents@,
            seen,
            named.mount.contents@.len(),
        ).contains(folder)),
{
    let own = if seen.folder_exists {
        Seq::empty()
    } else {
        seq![root]
    };
    assert(own.len() > 0 ==> own.contains(own[0]));
    lemma_join_contains(
        own,
        content_folders(root, named.mount.contents@, seen, named.mount.contents@.len()),
        folder,
    );
}

/// The folders that are found missing are exactly those that some mount needs, below its own root.
pub proof fn law_every_mount_gets_its_folders(
    folders: DouglasFolders,
    seedling: Seq<char>,
    mounts: Seq<NamedMount>,
    seen: Seq<MountObservation>,
    n: nat,
    wanted: Seq<char>,
)
    requires
        n <= mounts.len(),
    ensures
        folders_upto(folders, seedling, mounts, seen, n).contains(wanted) == exists|i: int|
            0 <= i < n && mount_folders(
                mount_of(folders.seedlings_root@, seedling, (#[trigger] mounts[i]).name@),
                mounts[i],
                seen[i],
            ).contains(wanted),
    decreases n,
{
    if n > 0 {
        let fewer = (n - 1) as nat;
        law_every_mount_gets_its_folders(folders, seedling, mounts, seen, fewer, wanted);
        let part = mount_folders(
            mount_root(folders, seedling, mounts[n - 1]),
            mounts[n - 1],
            seen[n - 1],
        );
        lemma_join_contains(folders_upto(folders, seedling, mounts, seen, fewer), part, wanted);

        if folders_upto(folders, seedling, mounts, seen, fewer).contains(wanted) {
            let i = choose|i: int|
                0 <= i < fewer && mount_folders(
                mount_of(folders.seedlings_root@, seedling, (#[trigger] mounts[i]).name@),
                mounts[i],
                seen[i],
            ).contains(wanted);
            assert(mounts[i] == mounts[i]);
        }
        if part.contains(wanted) {
            assert(mounts[n - 1] == mounts[n - 1]);
        }
        if exists|i: int| 0 <= i < n && mount_folders(
                mount_of(folders.seedlings_root@, seedling, (#[trigger] mounts[i]).name@),
                mounts[i],
                seen[i],
            ).contains(wanted) {
            let i = choose|i: int| 0 <= i < n && mount_folders(
                mount_of(folders.seedlings_root@, seedling, (#[trigger] mounts[i]).name@),
                mounts[i],
                seen[i],
            ).contains(wanted);
            if i < fewer {
                assert(mounts[i] == mounts[i]);
            }
        }
    }
}

/// The files that are found missing or stale are exactly those that some mount needs, below its own
/// root.
pub proof fn law_every_mount_gets_its_files(
    folders: DouglasFolders,
    seedling: Seq<char>,
    mounts: Seq<NamedMount>,
    seen: Seq<MountObservation>,
    n: nat,
    wanted: (Seq<char>, Seq<char>, Seq<u8>),
)
    requires
        n <= mounts.len(),
    ensures
        files_upto(folders, seedling, mounts, seen, n).contains(wanted) == exists|i: int|
            0 <= i < n && content_files(
                mount_of(folders.seedlings_root@, seedling, (#[trigger] mounts[i]).name@),
                mounts[i].mount.contents@,
                seen[i],
                mounts[i].mount.contents@.len(),
            ).contains(wanted),
    decreases n,
{
    if n > 0 {
        let fewer = (n - 1) as nat;
        law_every_mount_gets_its_files(folders, seedling, mounts, seen, fewer, wanted);
        let part = content_files(
            mount_root(folders, seedling, mounts[n - 1]),
            mounts[n - 1].mount.contents@,
            seen[n - 1],
            mounts[n - 1].mount.contents@.len(),
        );
        lemma_join_contains(files_upto(folders, seedling, mounts, seen, fewer), part, wanted);

        if files_upto(folders, seedling, mounts, seen, fewer).contains(wanted) {
            let i = choose|i: int|
                0 <= i < fewer && content_files(
                mount_of(folders.seedlings_root@, seedling, (#[trigger] mounts[i]).name@),
                mounts[i].mount.contents@,
                seen[i],
                mounts[i].mount.contents@.len(),
            ).contains(wanted);
            assert(mounts[i] == mounts[i]);
        }
        if part.contains(wanted) {
            assert(mounts[n - 1] == mounts[n - 1]);
        }
        if exists|i: int| 0 <= i < n && content_files(
                mount_of(folders.seedlings_root@, seedling, (#[trigger] mounts[i]).name@),
                mounts[i].mount.contents@,
                seen[i],
                mounts[i].mount.contents@.len(),
            ).contains(wanted) {
            let i = choose|i: int| 0 <= i < n && content_files(
                mount_of(folders.seedlings_root@, seedling, (#[trigger] mounts[i]).name@),
                mounts[i].mount.contents@,
                seen[i],
                mounts[i].mount.contents@.len(),
            ).contains(wanted);
            if i < fewer {
                assert(mounts[i] == mounts[i]);
            }
        }
    }
}

/// A search that ends with an error ends at the first bad path: every content of every mount before
/// it, and every content before it in its own mount, has a good one.
pub proof fn law_searches_end_at_the_first_bad_path(
    folders: DouglasFolders,
    seedling: Seq<char>,
    mounts: Seq<NamedMount>,
    seen: Seq<MountObservation>,
    mount: int,
    content: int,
    error: ReconcileSeedlingError,
    i: int,
    j: int,
)
    requires
        ends_at(folders, seedling, mounts, seen, mount, content, error),
        0 <= i <= mount,
        0 <= j < mounts[i].mount.contents@.len(),
        i == mount ==> j <= content,
    ensures
        ({
            let root = mount_of(folders.seedlings_root@, seedling, mounts[i].name@);
            let found = finding(root, mounts[i].mount.contents@[j], seen_content(seen[i], j));
            found.is_bad() <==> i == mount && j == content
        }),
{
    if i < mount {
        assert(mount_placed(folders, seedling, mounts, seen, i));
        assert(!content_finding(
            mount_root(folders, seedling, mounts[i]),
            mounts[i].mount.contents@,
            seen[i],
            j,
        ).is_bad());
    } else if j < content {
        assert(!content_finding(
            mount_root(folders, seedling, mounts[i]),
            mounts[i].mount.contents@,
            seen[i],
            j,
        ).is_bad());
    }
}

/// What the engine says of a container is taken as it is: it runs only where it is said to, one
/// that is not there does not run and has no version, and any other failure is one. A version is
/// the container's own, compared with the declared one.
pub proof fn law_containers_are_taken_as_they_are(
    status: Result<Status, DockerError>,
    labels: Result<Vec<Label>, DockerError>,
    version: Version,
)
    ensures
        runs(status) == Some(true) <==> status == Ok::<Status, DockerError>(Status::Running),
        runs(status) is None <==> (status matches Err(DockerError::Other(_))),
        container_found(labels, version) is None <==> (labels matches Err(DockerError::Other(_)))
            || (labels matches Ok(labels) && version_in(labels@) is None),
        labels matches Ok(found) ==> (version_in(found@) matches Some(actual) ==> container_found(
            labels,
            version,
        ) == Some((compared(actual, version), Some(actual)))),
        container_found(Err(DockerError::ResourceNotFound), version) == Some(
            (VersionComparison::Missing, None::<Version>),
        ),
{
    if let Ok(found) = labels {
        if let Some(actual) = version_in(found@) {
            assert(version_in(found@) == Some(actual));
        }
    }
}

/// A search that ends early ends at a content that a mount of the seedling has, with the error that
/// was found there.
pub proof fn law_searches_end_at_a_content(
    folders: DouglasFolders,
    seedling: Seq<char>,
    mounts: Seq<NamedMount>,
    seen: Seq<MountObservation>,
    mount: int,
    content: int,
    error: ReconcileSeedlingError,
)
    requires
        ends_at(folders, seedling, mounts, seen, mount, content, error),
    ensures
        0 <= mount < mounts.len(),
        0 <= content < mounts[mount].mount.contents@.len(),
        finding(
            mount_of(folders.seedlings_root@, seedling, mounts[mount].name@),
            mounts[mount].mount.contents@[content],
            seen_content(seen[mount], content),
        ).gives(error),
{
}

/// The first content of the first mount is where a search ends if its path is a bad one.
pub proof fn law_a_bad_path_at_the_start_ends_the_search(
    folders: DouglasFolders,
    seedling: Seq<char>,
    mounts: Seq<NamedMount>,
    seen: Seq<MountObservation>,
    error: ReconcileSeedlingError,
)
    requires
        mounts.len() > 0,
        mounts[0].mount.contents@.len() > 0,
        ({
            let found = finding(
                mount_of(folders.seedlings_root@, seedling, mounts[0].name@),
                mounts[0].mount.contents@[0],
                seen_content(seen[0], 0),
            );
            found.is_bad() && found.gives(error)
        }),
    ensures
        ends_at(folders, seedling, mounts, seen, 0, 0, error),
{
}

} // verus!
