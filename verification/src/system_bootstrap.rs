//! Setting up the system's folders and the group of its administrators.

use crate::bootstrap::{docker_status, BootstrapError, DOUGLAS_ADMIN_GROUP, ROOT_USER_NAME};
use crate::commands::{
    AddUserToGroup, CreateFolder, CreateGroup, ServiceCommand, ServiceCommandView, SetMode,
    SetOwnership,
};
use crate::listener::{running_status_for_error_kind, status_of, ErrorKind, RunningStatus};
use crate::modes::Modes;
use crate::service::{
    absent_folders, belongs_to, has_mode, modes_missing, FolderModeRequirement,
    FolderOwnershipRequirement, FolderSight, GroupMembershipRequirement,
};
use crate::sequences::lemma_push_contains;
use crate::text::{cat3, cat5, cat7, has_text, lists, same_text};
use vstd::prelude::*;

verus! {

/// The folders that the system is set up with.
#[derive(Debug, PartialEq, Eq)]
pub struct SystemFolders {
    pub logs: String,
    pub transients: String,
    pub applications: String,
    pub application_services: String,
    pub application_mounts: String,
    pub configs: String,
}

/// The folders and the permission bits that they have.
pub open spec fn folder_modes(folders: SystemFolders) -> Seq<(String, Modes)> {
    seq![
        (folders.logs, Modes::InheritedOwnerReadWriteExecuteGroupReadWriteExecute),
        (folders.transients, Modes::OwnerReadWriteExecuteGroupReadWriteExecute),
        (folders.applications, Modes::OwnerReadWriteExecuteGroupReadWriteExecute),
        (folders.application_services, Modes::OwnerReadWriteExecuteGroupReadWriteExecute),
        (folders.application_mounts, Modes::OwnerReadWriteExecuteGroupReadWriteExecute),
        (folders.configs, Modes::InheritedOwnerReadWriteExecuteGroupReadWriteExecute),
    ]
}

/// The folders and the permission bits that they have.
pub fn system_folders(folders: &SystemFolders) -> (r: Vec<(String, Modes)>)
    ensures
        r@ == folder_modes(*folders),
{
    let r: Vec<(String, Modes)> = vec![
        (folders.logs.clone(), Modes::InheritedOwnerReadWriteExecuteGroupReadWriteExecute),
        (folders.transients.clone(), Modes::OwnerReadWriteExecuteGroupReadWriteExecute),
        (folders.applications.clone(), Modes::OwnerReadWriteExecuteGroupReadWriteExecute),
        (folders.application_services.clone(), Modes::OwnerReadWriteExecuteGroupReadWriteExecute),
        (folders.application_mounts.clone(), Modes::OwnerReadWriteExecuteGroupReadWriteExecute),
        (folders.configs.clone(), Modes::InheritedOwnerReadWriteExecuteGroupReadWriteExecute),
    ];
    assert(r@ =~= folder_modes(*folders));
    r
}

/// What the system lacks.
#[derive(Debug, PartialEq, Eq)]
pub struct State {
    pub is_root: bool,
    pub bract_running_status: RunningStatus,
    pub docker_running_status: RunningStatus,
    pub groups_missing: Vec<String>,
    pub group_members_missing: Vec<GroupMembershipRequirement>,
    pub folders_missing: Vec<String>,
    pub folders_missing_ownership: Vec<FolderOwnershipRequirement>,
    pub folders_missing_mode: Vec<FolderModeRequirement>,
}

impl Default for State {
    fn default() -> (r: Self)
        ensures
            !r.is_root,
            r.bract_running_status == RunningStatus::NotRunning,
            r.docker_running_status == RunningStatus::NotRunning,
            r.groups_missing@.len() == 0,
            r.group_members_missing@.len() == 0,
            r.folders_missing@.len() == 0,
            r.folders_missing_ownership@.len() == 0,
            r.folders_missing_mode@.len() == 0,
    {
        State {
            is_root: false,
            bract_running_status: RunningStatus::NotRunning,
            docker_running_status: RunningStatus::NotRunning,
            groups_missing: Vec::new(),
            group_members_missing: Vec::new(),
            folders_missing: Vec::new(),
            folders_missing_ownership: Vec::new(),
            folders_missing_mode: Vec::new(),
        }
    }
}

/// What the environment says of the user on whose behalf the superuser acts.
#[derive(Debug, PartialEq, Eq)]
pub enum SudoUser {
    Named(String),
    NotPresent,
    NotUnicode,
}

/// The user on whose behalf the superuser acts, and whether there is one that can be put into a
/// group.
pub fn get_non_sudoer(environment: &SudoUser) -> (r: (String, bool))
    ensures
        match environment {
            SudoUser::Named(name) => r.0 == *name && r.1 == (name@ != ROOT_USER_NAME@),
            _ => r.0@ == ROOT_USER_NAME@ && !r.1,
        },
{
    match environment {
        SudoUser::Named(name) => (name.clone(), !same_text(name, ROOT_USER_NAME)),
        SudoUser::NotPresent => (ROOT_USER_NAME.to_owned(), false),
        SudoUser::NotUnicode => (ROOT_USER_NAME.to_owned(), false),
    }
}

/// The user who has to be put into the group of administrators, if any: the one on whose behalf
/// the superuser acts, where they are not in it yet.
pub open spec fn joins_admins(
    environment: SudoUser,
    group_present: bool,
    members: Seq<String>,
) -> Option<String> {
    match environment {
        SudoUser::Named(name) => if name@ != ROOT_USER_NAME@ && !(group_present && lists(
            members,
            name@,
        )) {
            Some(name)
        } else {
            None
        },
        _ => None,
    }
}

/// Adds to what the system lacks the group of administrators and the membership in it.
pub fn check_admin_group_membership(
    state: &mut State,
    environment: &SudoUser,
    group_present: bool,
    members: &Vec<String>,
)
    ensures
        final(state).is_root == old(state).is_root,
        final(state).bract_running_status == old(state).bract_running_status,
        final(state).docker_running_status == old(state).docker_running_status,
        final(state).folders_missing == old(state).folders_missing,
        final(state).folders_missing_ownership == old(state).folders_missing_ownership,
        final(state).folders_missing_mode == old(state).folders_missing_mode,
        if group_present {
            final(state).groups_missing == old(state).groups_missing
        } else {
            &&& final(state).groups_missing@.len() == old(state).groups_missing@.len() + 1
            &&& final(state).groups_missing@.drop_last() == old(state).groups_missing@
            &&& final(state).groups_missing@.last()@ == DOUGLAS_ADMIN_GROUP@
        },
        match joins_admins(*environment, group_present, members@) {
            Some(name) => {
                let missing = final(state).group_members_missing@;
                &&& missing.len() == old(state).group_members_missing@.len() + 1
                &&& missing.drop_last() == old(state).group_members_missing@
                &&& missing.last().group_name@ == DOUGLAS_ADMIN_GROUP@
                &&& missing.last().user_name == name
            },
            None => final(state).group_members_missing == old(state).group_members_missing,
        },
{
    let (non_sudoer, valid_non_sudoer): (String, bool) = get_non_sudoer(environment);
    let member: bool = group_present && has_text(members, &non_sudoer);
    if !group_present {
        state.groups_missing.push(DOUGLAS_ADMIN_GROUP.to_owned());
        assert(state.groups_missing@.drop_last() =~= old(state).groups_missing@);
    }
    if valid_non_sudoer && !member {
        state.group_members_missing.push(
            GroupMembershipRequirement {
                group_name: DOUGLAS_ADMIN_GROUP.to_owned(),
                user_name: non_sudoer,
            },
        );
        assert(state.group_members_missing@.drop_last() =~= old(state).group_members_missing@);
    }
}

/// Whether a requirement gives a folder to the superuser and the administrators.
pub open spec fn gives_to_admins(requirement: FolderOwnershipRequirement, path: String) -> bool {
    &&& requirement.path == path
    &&& requirement.owning_user_name@ == ROOT_USER_NAME@
    &&& requirement.owning_group_name@ == DOUGLAS_ADMIN_GROUP@
}

/// The folders that do not belong to the superuser and the administrators, in order.
pub open spec fn foreign_folders(folders: Seq<(String, Modes)>, seen: Seq<FolderSight>) -> Seq<
    String,
>
    decreases folders.len(),
{
    if folders.len() == 0 {
        Seq::empty()
    } else {
        let before = foreign_folders(folders.drop_last(), seen);
        if belongs_to(seen[folders.len() - 1], ROOT_USER_NAME@, DOUGLAS_ADMIN_GROUP@) {
            before
        } else {
            before.push(folders.last().0)
        }
    }
}

/// Adds to what the system lacks what a folder lacks.
pub fn check_system_folder(
    state: &mut State,
    system_folder: &String,
    expected_mode: Modes,
    seen: &FolderSight,
)
    ensures
        final(state).is_root == old(state).is_root,
        final(state).bract_running_status == old(state).bract_running_status,
        final(state).docker_running_status == old(state).docker_running_status,
        final(state).groups_missing == old(state).groups_missing,
        final(state).group_members_missing == old(state).group_members_missing,
        final(state).folders_missing@ == (if *seen is Absent {
            old(state).folders_missing@.push(*system_folder)
        } else {
            old(state).folders_missing@
        }),
        if belongs_to(*seen, ROOT_USER_NAME@, DOUGLAS_ADMIN_GROUP@) {
            final(state).folders_missing_ownership@ == old(state).folders_missing_ownership@
        } else {
            &&& final(state).folders_missing_ownership@.len()
                == old(state).folders_missing_ownership@.len() + 1
            &&& final(state).folders_missing_ownership@.drop_last()
                == old(state).folders_missing_ownership@
            &&& gives_to_admins(final(state).folders_missing_ownership@.last(), *system_folder)
        },
        final(state).folders_missing_mode@ == (if has_mode(*seen, expected_mode) {
            old(state).folders_missing_mode@
        } else {
            old(state).folders_missing_mode@.push(
                FolderModeRequirement { path: *system_folder, mode: expected_mode },
            )
        }),
{
    let (owned, mode_right): (bool, bool) = match seen {
        FolderSight::Present { user, group, mode } => (
            same_text(user, ROOT_USER_NAME) && same_text(group, DOUGLAS_ADMIN_GROUP),
            *mode == expected_mode,
        ),
        FolderSight::Absent => {
            state.folders_missing.push(system_folder.clone());
            (false, false)
        },
    };
    if !owned {
        state.folders_missing_ownership.push(
            FolderOwnershipRequirement::new(
                system_folder.clone(),
                ROOT_USER_NAME,
                DOUGLAS_ADMIN_GROUP,
            ),
        );
        assert(state.folders_missing_ownership@.drop_last() =~= old(
            state,
        ).folders_missing_ownership@);
    }
    if !mode_right {
        state.folders_missing_mode.push(
            FolderModeRequirement { path: system_folder.clone(), mode: expected_mode },
        );
    }
}

/// Whether requirements are added that give the folders at these paths, in order, to the superuser
/// and the administrators.
pub open spec fn adds_to_admins(
    before: Seq<FolderOwnershipRequirement>,
    after: Seq<FolderOwnershipRequirement>,
    paths: Seq<String>,
) -> bool {
    &&& after.len() == before.len() + paths.len()
    &&& forall|i: int| 0 <= i < before.len() ==> #[trigger] after[i] == before[i]
    &&& forall|i: int|
        0 <= i < paths.len() ==> gives_to_admins(after[before.len() + i], #[trigger] paths[i])
}

/// Adds to what the system lacks what its folders lack.
pub fn check_system_folders(state: &mut State, folders: &SystemFolders, seen: &Vec<FolderSight>)
    requires
        seen@.len() == 6,
    ensures
        final(state).is_root == old(state).is_root,
        final(state).bract_running_status == old(state).bract_running_status,
        final(state).docker_running_status == old(state).docker_running_status,
        final(state).groups_missing == old(state).groups_missing,
        final(state).group_members_missing == old(state).group_members_missing,
        final(state).folders_missing@ == old(state).folders_missing@
            + absent_folders(folder_modes(*folders), seen@),
        adds_to_admins(
            old(state).folders_missing_ownership@,
            final(state).folders_missing_ownership@,
            foreign_folders(folder_modes(*folders), seen@),
        ),
        final(state).folders_missing_mode@ == old(state).folders_missing_mode@
            + modes_missing(folder_modes(*folders), seen@),
{
    let all: Vec<(String, Modes)> = system_folders(folders);
    let ghost begun = *state;
    let mut i: usize = 0;
    assert(all@.take(0) =~= Seq::<(String, Modes)>::empty());
    assert(state.folders_missing@ =~= begun.folders_missing@ + Seq::<String>::empty());
    assert(state.folders_missing_mode@ =~= begun.folders_missing_mode@ + Seq::<
        FolderModeRequirement,
    >::empty());
    while i < all.len()
        invariant
            i <= all@.len(),
            all@.len() == 6,
            seen@.len() == 6,
            state.is_root == begun.is_root,
            state.bract_running_status == begun.bract_running_status,
            state.docker_running_status == begun.docker_running_status,
            state.groups_missing == begun.groups_missing,
            state.group_members_missing == begun.group_members_missing,
            state.folders_missing@ == begun.folders_missing@ + absent_folders(
                all@.take(i as int),
                seen@,
            ),
            adds_to_admins(
                begun.folders_missing_ownership@,
                state.folders_missing_ownership@,
                foreign_folders(all@.take(i as int), seen@),
            ),
            state.folders_missing_mode@ == begun.folders_missing_mode@
                + modes_missing(all@.take(i as int), seen@),
        decreases all@.len() - i,
    {
        assert(all@.take(i as int + 1).drop_last() =~= all@.take(i as int));
        assert(all@.take(i as int + 1).last() == all@[i as int]);
        let ghost before = *state;
        check_system_folder(state, &all[i].0, all[i].1, &seen[i]);
        proof {
            let now = all@.take(i as int + 1);
            assert(state.folders_missing@ =~= begun.folders_missing@
                + absent_folders(now, seen@));
            assert(state.folders_missing_mode@ =~= begun.folders_missing_mode@
                + modes_missing(now, seen@));
            let start = begun.folders_missing_ownership@;
            let after = state.folders_missing_ownership@;
            let paths = foreign_folders(now, seen@);
            if !belongs_to(seen@[i as int], ROOT_USER_NAME@, DOUGLAS_ADMIN_GROUP@) {
                assert(after =~= before.folders_missing_ownership@.push(after.last()));
                assert forall|j: int| 0 <= j < paths.len() implies gives_to_admins(
                    after[start.len() + j],
                    #[trigger] paths[j],
                ) by {
                    if j < paths.len() - 1 {
                        assert(paths[j] == foreign_folders(all@.take(i as int), seen@)[j]);
                    }
                }
            }
            assert(adds_to_admins(start, after, paths));
        }
        i += 1;
    }
    assert(all@.take(all@.len() as int) =~= all@);
}

/// Whether a service runs, by its socket: not where there is none, nor where nothing answers.
pub fn check_socket(socket_exists: bool, connection: Result<(), ErrorKind>) -> (r: RunningStatus)
    ensures
        r == (if !socket_exists {
            RunningStatus::NotRunning
        } else {
            match connection {
                Ok(_) => RunningStatus::Running,
                Err(kind) => status_of(kind),
            }
        }),
{
    if !socket_exists {
        return RunningStatus::NotRunning;
    }
    match connection {
        Ok(_) => RunningStatus::Running,
        Err(kind) => running_status_for_error_kind(kind),
    }
}

/// What is warned of a socket: that its status could not be determined, where it is unknown.
pub fn socket_warning(path: &str, status: RunningStatus, error: &str) -> (r: Option<String>)
    ensures
        r is Some == (status == RunningStatus::Unknown),
        r matches Some(words) ==> words@ == "Could not determine status of socket '"@ + path@
            + "': '"@ + error@ + "'"@,
{
    match status {
        RunningStatus::Unknown => Some(
            cat5("Could not determine status of socket '", path, "': '", error, "'"),
        ),
        _ => None,
    }
}

/// The commands that set up the system, in texts.
pub open spec fn planned(state: State) -> Seq<ServiceCommandView> {
    Seq::new(
        state.groups_missing@.len(),
        |i: int| ServiceCommandView::CreateGroup { group_name: state.groups_missing@[i]@ },
    ) + Seq::new(
        state.group_members_missing@.len(),
        |i: int|
            ServiceCommandView::AddUserToGroup {
                user_name: state.group_members_missing@[i].user_name@,
                group_name: state.group_members_missing@[i].group_name@,
            },
    ) + Seq::new(
        state.folders_missing@.len(),
        |i: int| ServiceCommandView::CreateFolder { folder: state.folders_missing@[i]@ },
    ) + Seq::new(
        state.folders_missing_ownership@.len(),
        |i: int|
            ServiceCommandView::SetOwnership {
                path: state.folders_missing_ownership@[i].path@,
                user_name: state.folders_missing_ownership@[i].owning_user_name@,
                group_name: state.folders_missing_ownership@[i].owning_group_name@,
            },
    ) + Seq::new(
        state.folders_missing_mode@.len(),
        |i: int|
            ServiceCommandView::SetMode {
                path: state.folders_missing_mode@[i].path@,
                mode: state.folders_missing_mode@[i].mode,
            },
    )
}

/// Commands, in texts.
pub open spec fn shown(commands: Seq<ServiceCommand>) -> Seq<ServiceCommandView> {
    commands.map_values(|command: ServiceCommand| command@)
}

fn push_command(steps: &mut Vec<ServiceCommand>, command: ServiceCommand)
    ensures
        shown(final(steps)@) == shown(old(steps)@).push(command@),
{
    steps.push(command);
    assert(shown(steps@) =~= shown(old(steps)@).push(command@));
}

fn push_groups(steps: &mut Vec<ServiceCommand>, state: &State)
    ensures
        shown(final(steps)@) == shown(old(steps)@) + Seq::new(
            state.groups_missing@.len(),
            |i: int| ServiceCommandView::CreateGroup { group_name: state.groups_missing@[i]@ },
        ),
{
    let ghost start = shown(steps@);
    let mut i: usize = 0;
    while i < state.groups_missing.len()
        invariant
            i <= state.groups_missing@.len(),
            shown(steps@) =~= start + Seq::new(
                i as nat,
                |i: int| ServiceCommandView::CreateGroup { group_name: state.groups_missing@[i]@ },
            ),
        decreases state.groups_missing@.len() - i,
    {
        push_command(steps, ServiceCommand::CreateGroup(CreateGroup::new(&state.groups_missing[i])));
        i += 1;
    }
}

fn push_members(steps: &mut Vec<ServiceCommand>, state: &State)
    ensures
        shown(final(steps)@) == shown(old(steps)@) + Seq::new(
            state.group_members_missing@.len(),
            |i: int|
                ServiceCommandView::AddUserToGroup {
                    user_name: state.group_members_missing@[i].user_name@,
                    group_name: state.group_members_missing@[i].group_name@,
                },
        ),
{
    let ghost start = shown(steps@);
    let mut i: usize = 0;
    while i < state.group_members_missing.len()
        invariant
            i <= state.group_members_missing@.len(),
            shown(steps@) =~= start + Seq::new(
                i as nat,
                |i: int|
                    ServiceCommandView::AddUserToGroup {
                        user_name: state.group_members_missing@[i].user_name@,
                        group_name: state.group_members_missing@[i].group_name@,
                    },
            ),
        decreases state.group_members_missing@.len() - i,
    {
        let expected: &GroupMembershipRequirement = &state.group_members_missing[i];
        push_command(
            steps,
            ServiceCommand::AddUserToGroup(
                AddUserToGroup::new(&expected.user_name, &expected.group_name),
            ),
        );
        i += 1;
    }
}

fn push_folders(steps: &mut Vec<ServiceCommand>, state: &State)
    ensures
        shown(final(steps)@) == shown(old(steps)@) + Seq::new(
            state.folders_missing@.len(),
            |i: int| ServiceCommandView::CreateFolder { folder: state.folders_missing@[i]@ },
        ),
{
    let ghost start = shown(steps@);
    let mut i: usize = 0;
    while i < state.folders_missing.len()
        invariant
            i <= state.folders_missing@.len(),
            shown(steps@) =~= start + Seq::new(
                i as nat,
                |i: int| ServiceCommandView::CreateFolder { folder: state.folders_missing@[i]@ },
            ),
        decreases state.folders_missing@.len() - i,
    {
        push_command(
            steps,
            ServiceCommand::CreateFolder(CreateFolder::new(state.folders_missing[i].clone())),
        );
        i += 1;
    }
}

fn push_ownerships(steps: &mut Vec<ServiceCommand>, state: &State)
    ensures
        shown(final(steps)@) == shown(old(steps)@) + Seq::new(
            state.folders_missing_ownership@.len(),
            |i: int|
                ServiceCommandView::SetOwnership {
                    path: state.folders_missing_ownership@[i].path@,
                    user_name: state.folders_missing_ownership@[i].owning_user_name@,
                    group_name: state.folders_missing_ownership@[i].owning_group_name@,
                },
        ),
{
    let ghost start = shown(steps@);
    let mut i: usize = 0;
    while i < state.folders_missing_ownership.len()
        invariant
            i <= state.folders_missing_ownership@.len(),
            shown(steps@) =~= start + Seq::new(
                i as nat,
                |i: int|
                    ServiceCommandView::SetOwnership {
                        path: state.folders_missing_ownership@[i].path@,
                        user_name: state.folders_missing_ownership@[i].owning_user_name@,
                        group_name: state.folders_missing_ownership@[i].owning_group_name@,
                    },
            ),
        decreases state.folders_missing_ownership@.len() - i,
    {
        let expected: &FolderOwnershipRequirement = &state.folders_missing_ownership[i];
        push_command(
            steps,
            ServiceCommand::SetOwnership(
                SetOwnership::new(
                    expected.path.clone(),
                    &expected.owning_user_name,
                    &expected.owning_group_name,
                ),
            ),
        );
        i += 1;
    }
}

fn push_modes(steps: &mut Vec<ServiceCommand>, state: &State)
    ensures
        shown(final(steps)@) == shown(old(steps)@) + Seq::new(
            state.folders_missing_mode@.len(),
            |i: int|
                ServiceCommandView::SetMode {
                    path: state.folders_missing_mode@[i].path@,
                    mode: state.folders_missing_mode@[i].mode,
                },
        ),
{
    let ghost start = shown(steps@);
    let mut i: usize = 0;
    while i < state.folders_missing_mode.len()
        invariant
            i <= state.folders_missing_mode@.len(),
            shown(steps@) =~= start + Seq::new(
                i as nat,
                |i: int|
                    ServiceCommandView::SetMode {
                        path: state.folders_missing_mode@[i].path@,
                        mode: state.folders_missing_mode@[i].mode,
                    },
            ),
        decreases state.folders_missing_mode@.len() - i,
    {
        let expected: &FolderModeRequirement = &state.folders_missing_mode[i];
        push_command(
            steps,
            ServiceCommand::SetMode(SetMode::new(expected.path.clone(), expected.mode)),
        );
        i += 1;
    }
}

/// Plans the setting up of the system. Where the service runs there is nothing to do; without the
/// container engine, or without the superuser's rights, nothing can be done.
pub fn create_plan(state: &State) -> (r: Result<Vec<ServiceCommand>, BootstrapError>)
    ensures
        if state.bract_running_status == RunningStatus::Running {
            r matches Ok(steps) && steps@.len() == 0
        } else if state.docker_running_status != RunningStatus::Running {
            r == Err::<Vec<ServiceCommand>, BootstrapError>(BootstrapError::MustHaveRunningDocker)
        } else if !state.is_root {
            r == Err::<Vec<ServiceCommand>, BootstrapError>(BootstrapError::MustBeRoot)
        } else {
            r matches Ok(steps) && shown(steps@) == planned(*state)
        },
{
    let mut steps: Vec<ServiceCommand> = Vec::new();
    if state.bract_running_status == RunningStatus::Running {
        return Ok(steps);
    }
    if state.docker_running_status != RunningStatus::Running {
        return Err(BootstrapError::MustHaveRunningDocker);
    }
    if !state.is_root {
        return Err(BootstrapError::MustBeRoot);
    }
    assert(shown(steps@) =~= Seq::<ServiceCommandView>::empty());
    push_groups(&mut steps, state);
    let ghost groups = shown(steps@);
    assert(groups =~= Seq::new(
        state.groups_missing@.len(),
        |i: int| ServiceCommandView::CreateGroup { group_name: state.groups_missing@[i]@ },
    ));
    push_members(&mut steps, state);
    push_folders(&mut steps, state);
    push_ownerships(&mut steps, state);
    push_modes(&mut steps, state);
    Ok(steps)
}

/// What is seen of the group of administrators and of who may have to join it.
#[derive(Debug, PartialEq, Eq)]
pub struct AdminSight {
    pub environment: SudoUser,
    pub group_present: bool,
    pub members: Vec<String>,
}

/// What is known of the system so far.
#[derive(Debug, PartialEq, Eq)]
pub struct Knowledge<'a> {
    pub bract: Option<RunningStatus>,
    pub is_root: Option<bool>,
    pub admins: Option<&'a AdminSight>,
    /// The system's folders, in their order.
    pub folders: Option<&'a Vec<FolderSight>>,
    /// Whether the container engine answered.
    pub docker_answers: Option<bool>,
}

/// What has to be found out next.
#[derive(Debug, Clone, Copy, PartialEq, Eq, Structural)]
pub enum Question {
    BractSocket,
    IsRoot,
    Admins,
    Folders,
    PingDocker,
}

/// What follows from what is known.
#[derive(Debug, PartialEq, Eq)]
pub enum Discovery {
    Ask(Question),
    Known(State),
}

/// Whether the system is looked at any further: not where the service runs, nor by somebody who is
/// not the superuser.
pub open spec fn looks_on(knowledge: Knowledge) -> bool {
    knowledge.bract != Some(RunningStatus::Running) && knowledge.is_root == Some(true)
}

/// What is asked next.
pub open spec fn next_question(knowledge: Knowledge) -> Option<Question> {
    if knowledge.bract is None {
        Some(Question::BractSocket)
    } else if knowledge.bract == Some(RunningStatus::Running) {
        None
    } else if knowledge.is_root is None {
        Some(Question::IsRoot)
    } else if knowledge.is_root == Some(false) {
        None
    } else if knowledge.admins is None {
        Some(Question::Admins)
    } else if knowledge.folders is None {
        Some(Question::Folders)
    } else if knowledge.docker_answers is None {
        Some(Question::PingDocker)
    } else {
        None
    }
}

/// Whether a state lacks, of the administrators, what they were seen to lack.
pub open spec fn lacks_admins(admins: AdminSight, state: State) -> bool {
    &&& if admins.group_present {
        state.groups_missing@.len() == 0
    } else {
        state.groups_missing@.len() == 1 && state.groups_missing@[0]@ == DOUGLAS_ADMIN_GROUP@
    }
    &&& match joins_admins(admins.environment, admins.group_present, admins.members@) {
        Some(name) => {
            &&& state.group_members_missing@.len() == 1
            &&& state.group_members_missing@[0].group_name@ == DOUGLAS_ADMIN_GROUP@
            &&& state.group_members_missing@[0].user_name == name
        },
        None => state.group_members_missing@.len() == 0,
    }
}

/// Whether a state lacks, of the system's folders, what they were seen to lack.
pub open spec fn lacks_folders(
    folders: SystemFolders,
    seen: Seq<FolderSight>,
    state: State,
) -> bool {
    &&& state.folders_missing@ == absent_folders(folder_modes(folders), seen)
    &&& adds_to_admins(
        Seq::empty(),
        state.folders_missing_ownership@,
        foreign_folders(folder_modes(folders), seen),
    )
    &&& state.folders_missing_mode@ == modes_missing(folder_modes(folders), seen)
}

/// Whether this is what was found of the system.
pub open spec fn found(folders: SystemFolders, knowledge: Knowledge, state: State) -> bool {
    &&& Some(state.bract_running_status) == knowledge.bract
    &&& state.is_root == looks_on(knowledge)
    &&& state.docker_running_status == (if looks_on(knowledge) {
        docker_status(knowledge.docker_answers == Some(true))
    } else {
        RunningStatus::NotRunning
    })
    &&& if looks_on(knowledge) {
        &&& lacks_admins(*knowledge.admins->0, state)
        &&& lacks_folders(folders, knowledge.folders->0@, state)
    } else {
        &&& state.groups_missing@.len() == 0
        &&& state.group_members_missing@.len() == 0
        &&& state.folders_missing@.len() == 0
        &&& state.folders_missing_ownership@.len() == 0
        &&& state.folders_missing_mode@.len() == 0
    }
}

/// Finds out what the system lacks, one question at a time.
pub fn discover(folders: &SystemFolders, knowledge: &Knowledge<'_>) -> (r: Discovery)
    requires
        knowledge.folders matches Some(seen) ==> seen@.len() == 6,
    ensures
        match next_question(*knowledge) {
            Some(question) => r == Discovery::Ask(question),
            None => r matches Discovery::Known(state) && found(*folders, *knowledge, state),
        },
{
    let mut state: State = State::default();
    let bract: RunningStatus = match knowledge.bract {
        None => return Discovery::Ask(Question::BractSocket),
        Some(bract) => bract,
    };
    state.bract_running_status = bract;
    if bract == RunningStatus::Running {
        return Discovery::Known(state);
    }
    match knowledge.is_root {
        None => return Discovery::Ask(Question::IsRoot),
        Some(is_root) => {
            if !is_root {
                return Discovery::Known(state);
            }
        },
    }
    state.is_root = true;
    match knowledge.admins {
        None => return Discovery::Ask(Question::Admins),
        Some(admins) => check_admin_group_membership(
            &mut state,
            &admins.environment,
            admins.group_present,
            &admins.members,
        ),
    }
    match knowledge.folders {
        None => return Discovery::Ask(Question::Folders),
        Some(seen) => check_system_folders(&mut state, folders, seen),
    }
    match knowledge.docker_answers {
        None => return Discovery::Ask(Question::PingDocker),
        Some(answers) => {
            state.docker_running_status = if answers {
                RunningStatus::Running
            } else {
                RunningStatus::Unknown
            };
        },
    }
    Discovery::Known(state)
}

/// How far the setting up has come.
#[derive(Debug, PartialEq, Eq)]
pub struct Progress<'a> {
    pub connected: Option<bool>,
    pub state: Option<&'a State>,
    /// Whether carrying out the plan succeeded.
    pub executed: Option<bool>,
}

/// What is done next.
#[derive(Debug, Clone, Copy, PartialEq, Eq, Structural)]
pub enum Call {
    ConnectDocker,
    Discover,
    Execute,
    Succeed,
    MustBeRoot,
    MustHaveRunningDocker,
    Fail,
}

/// What is done next. A plan is made and carried out only where it can be.
pub open spec fn called(p: Progress) -> Call {
    if p.connected is None {
        Call::ConnectDocker
    } else if p.connected == Some(false) {
        Call::MustHaveRunningDocker
    } else {
        match p.state {
            None => Call::Discover,
            Some(state) => if !state.is_root {
                Call::MustBeRoot
            } else if state.docker_running_status == RunningStatus::NotRunning {
                Call::MustHaveRunningDocker
            } else if state.bract_running_status != RunningStatus::Running
                && state.docker_running_status != RunningStatus::Running {
                Call::MustHaveRunningDocker
            } else {
                match p.executed {
                    None => Call::Execute,
                    Some(true) => Call::Succeed,
                    Some(false) => Call::Fail,
                }
            },
        }
    }
}

/// What is done next in setting up the system.
pub fn bootstrap(p: &Progress<'_>) -> (r: Call)
    ensures
        r == called(*p),
{
    match p.connected {
        None => return Call::ConnectDocker,
        Some(connected) => {
            if !connected {
                return Call::MustHaveRunningDocker;
            }
        },
    }
    let state: &State = match p.state {
        None => return Call::Discover,
        Some(state) => state,
    };
    if !state.is_root {
        return Call::MustBeRoot;
    }
    if state.docker_running_status == RunningStatus::NotRunning {
        return Call::MustHaveRunningDocker;
    }
    if state.bract_running_status != RunningStatus::Running && state.docker_running_status
        != RunningStatus::Running {
        return Call::MustHaveRunningDocker;
    }
    match p.executed {
        None => Call::Execute,
        Some(success) => {
            if success {
                Call::Succeed
            } else {
                Call::Fail
            }
        },
    }
}

/// A plan is carried out only where making it succeeds.
pub proof fn law_only_plans_that_exist_are_carried_out(p: Progress)
    requires
        called(p) == Call::Execute,
    ensures
        p.state matches Some(state) && state.is_root && (state.bract_running_status
            == RunningStatus::Running || state.docker_running_status == RunningStatus::Running),
{
}

/// Nothing done yet.
pub open spec fn nothing_set_up<'a>() -> Progress<'a> {
    Progress { connected: None, state: None, executed: None }
}

/// What comes of what is done in setting up the system.
#[derive(Debug, PartialEq, Eq)]
pub enum SetupEvent<'a> {
    Connected(bool),
    Discovered(&'a State),
    /// Whether carrying out the plan succeeded.
    Executed(bool),
}

/// Whether this can come of what is done next.
pub open spec fn sets_up<'a>(p: Progress<'a>, event: SetupEvent<'a>) -> bool {
    match event {
        SetupEvent::Connected(_) => called(p) is ConnectDocker,
        SetupEvent::Discovered(_) => called(p) is Discover,
        SetupEvent::Executed(_) => called(p) is Execute,
    }
}

/// How far the setting up has come after what was done. What cannot come of it changes nothing.
pub open spec fn set_up<'a>(p: Progress<'a>, event: SetupEvent<'a>) -> Progress<'a> {
    if !sets_up(p, event) {
        p
    } else {
        match event {
            SetupEvent::Connected(success) => Progress { connected: Some(success), ..p },
            SetupEvent::Discovered(state) => Progress { state: Some(state), ..p },
            SetupEvent::Executed(success) => Progress { executed: Some(success), ..p },
        }
    }
}

impl<'a> Progress<'a> {
    /// Nothing done yet.
    pub fn start() -> (r: Self)
        ensures
            r == nothing_set_up::<'a>(),
    {
        Progress { connected: None, state: None, executed: None }
    }

    /// How far the setting up has come after what was done.
    pub fn after(self, event: SetupEvent<'a>) -> (r: Self)
        ensures
            r == set_up(self, event),
    {
        match (bootstrap(&self), event) {
            (Call::ConnectDocker, SetupEvent::Connected(success)) => Progress {
                connected: Some(success),
                ..self
            },
            (Call::Discover, SetupEvent::Discovered(state)) => Progress {
                state: Some(state),
                ..self
            },
            (Call::Execute, SetupEvent::Executed(success)) => Progress {
                executed: Some(success),
                ..self
            },
            _ => self,
        }
    }
}

/// How far the setting up has come after all that was done, from nothing done.
pub open spec fn set_up_by<'a>(events: Seq<SetupEvent<'a>>) -> Progress<'a>
    decreases events.len(),
{
    if events.len() == 0 {
        nothing_set_up()
    } else {
        set_up(set_up_by(events.drop_last()), events.last())
    }
}

/// Whether each of these, in order, came of what was done next.
pub open spec fn sets_up_in_turn<'a>(events: Seq<SetupEvent<'a>>) -> bool
    decreases events.len(),
{
    events.len() == 0 || (sets_up_in_turn(events.drop_last()) && sets_up(
        set_up_by(events.drop_last()),
        events.last(),
    ))
}

proof fn lemma_setting_up_tells_what_happened<'a>(events: Seq<SetupEvent<'a>>)
    requires
        sets_up_in_turn(events),
    ensures
        ({
            let p = set_up_by(events);
            &&& p.state is Some ==> p.connected == Some(true)
            &&& p.executed is Some ==> p.state is Some
            &&& events == (match p.connected {
                Some(success) => seq![SetupEvent::Connected(success)],
                None => Seq::empty(),
            }) + (match p.state {
                Some(state) => seq![SetupEvent::Discovered(state)],
                None => Seq::empty(),
            }) + (match p.executed {
                Some(success) => seq![SetupEvent::Executed(success)],
                None => Seq::empty(),
            })
        }),
    decreases events.len(),
{
    if events.len() > 0 {
        let rest = events.drop_last();
        lemma_setting_up_tells_what_happened(rest);
        let before = set_up_by(rest);
        assert(before.connected matches Some(success) ==> before.connected == Some(success));
        assert(events =~= rest.push(events.last()));
    }
}

/// The setting up succeeds only after the container engine was reached, the superuser looked at
/// the system, and the plan was carried out, in this order and with nothing else.
pub proof fn law_setting_up_succeeds_one_way<'a>(events: Seq<SetupEvent<'a>>)
    requires
        sets_up_in_turn(events),
        called(set_up_by(events)) is Succeed,
    ensures
        set_up_by(events).state matches Some(state) && state.is_root && events == seq![
            SetupEvent::Connected(true),
            SetupEvent::Discovered(state),
            SetupEvent::Executed(true),
        ],
{
    lemma_setting_up_tells_what_happened(events);
    let p = set_up_by(events);
    assert(p.executed == Some(true));
    assert(events =~= seq![
        SetupEvent::Connected(true),
        SetupEvent::Discovered(p.state->0),
        SetupEvent::Executed(true),
    ]);
}

/// A command in words, as it is announced before it is carried out.
pub open spec fn announced(command: ServiceCommandView) -> Seq<char> {
    match command {
        ServiceCommandView::CreateUser { user_name, primary_group_name } => "Create user '"@
            + user_name + "' with primary group '"@ + primary_group_name + "'"@,
        ServiceCommandView::CreateGroup { group_name } => "Create group '"@ + group_name + "'"@,
        ServiceCommandView::AddUserToGroup { user_name, group_name } => "Add user '"@ + user_name
            + "' to group '"@ + group_name + "'"@,
        ServiceCommandView::CreateFolder { folder } => "Create folder '"@ + folder + "'"@,
        ServiceCommandView::SetOwnership { path, user_name, group_name } => "Set ownership on '"@
            + path + "', to group '"@ + group_name + "' and user '"@ + user_name + "'"@,
        ServiceCommandView::SetMode { path, mode } => "Set mode on '"@ + path + "' to '"@
            + mode.text() + "'"@,
    }
}

/// A command in words, as it is announced before it is carried out.
pub fn announce(command: &ServiceCommand) -> (r: String)
    ensures
        r@ == announced(command@),
{
    match command {
        ServiceCommand::CreateUser(c) => cat5(
            "Create user '",
            &c.user_name,
            "' with primary group '",
            &c.primary_group_name,
            "'",
        ),
        ServiceCommand::CreateGroup(c) => cat3("Create group '", &c.group_name, "'"),
        ServiceCommand::AddUserToGroup(c) => cat5(
            "Add user '",
            &c.user_name,
            "' to group '",
            &c.group_name,
            "'",
        ),
        ServiceCommand::CreateFolder(c) => cat3("Create folder '", &c.folder, "'"),
        ServiceCommand::SetOwnership(c) => cat7(
            "Set ownership on '",
            &c.path,
            "', to group '",
            &c.group_name,
            "' and user '",
            &c.user_name,
            "'",
        ),
        ServiceCommand::SetMode(c) => cat5(
            "Set mode on '",
            &c.path,
            "' to '",
            &c.mode.to_text(),
            "'",
        ),
    }
}

/// A folder is found foreign exactly where it is wanted and does not belong to the superuser and
/// the group of administrators.
pub proof fn law_foreign_folders_are_found(
    folders: Seq<(String, Modes)>,
    seen: Seq<FolderSight>,
    wanted: String,
)
    ensures
        foreign_folders(folders, seen).contains(wanted) == exists|i: int|
            0 <= i < folders.len() && (#[trigger] folders[i]).0 == wanted && !(seen[i] matches FolderSight::Present {
                user,
                group,
                ..
            } && user@ == "root"@ && group@ == "douglas-admin"@),
    decreases folders.len(),
{
    if folders.len() > 0 {
        let rest = folders.drop_last();
        law_foreign_folders_are_found(rest, seen, wanted);
        let all = foreign_folders(folders, seen);
        let before = foreign_folders(rest, seen);
        if all.len() > before.len() {
            lemma_push_contains(before, all.last(), wanted);
            assert(all =~= before.push(all.last()));
        }
        if before.contains(wanted) {
            let i = choose|i: int| 0 <= i < rest.len() && (#[trigger] rest[i]).0 == wanted && !(seen[i] matches FolderSight::Present {
                user,
                group,
                ..
            } && user@ == "root"@ && group@ == "douglas-admin"@);
            assert(folders[i] == rest[i]);
        }
        assert(folders[folders.len() - 1] == folders.last());
        if exists|i: int| 0 <= i < folders.len() && (#[trigger] folders[i]).0 == wanted && !(seen[i] matches FolderSight::Present {
                user,
                group,
                ..
            } && user@ == "root"@ && group@ == "douglas-admin"@) {
            let i = choose|i: int| 0 <= i < folders.len() && (#[trigger] folders[i]).0 == wanted && !(seen[i] matches FolderSight::Present {
                user,
                group,
                ..
            } && user@ == "root"@ && group@ == "douglas-admin"@);
            if i < rest.len() {
                assert(folders[i] == rest[i]);
            }
        }
    }
}

/// Somebody is put into the group of administrators exactly where the superuser acts for them, they
/// are not the superuser, and they are not in it yet.
pub proof fn law_only_those_behind_sudo_become_administrators(
    environment: SudoUser,
    group_present: bool,
    members: Seq<String>,
    name: String,
)
    ensures
        joins_admins(environment, group_present, members) == Some(name) <==> environment
            == SudoUser::Named(name) && name@ != "root"@ && (!group_present || forall|i: int|
            0 <= i < members.len() ==> (#[trigger] members[i])@ != name@),
{
}

/// What the system lacks is made in order, each thing once: groups, memberships, folders, their
/// owners and their modes.
pub proof fn law_systems_get_what_they_lack(state: State, i: int)
    ensures
        ({
            let plan = planned(state);
            let memberships = state.groups_missing@.len() as int;
            let folders = memberships + state.group_members_missing@.len();
            let owners = folders + state.folders_missing@.len();
            let modes = owners + state.folders_missing_ownership@.len();
            &&& plan.len() == modes + state.folders_missing_mode@.len()
            &&& 0 <= i < state.groups_missing@.len() ==> plan[i]
                == (ServiceCommandView::CreateGroup { group_name: state.groups_missing@[i]@ })
            &&& 0 <= i < state.group_members_missing@.len() ==> plan[memberships + i] == (
            ServiceCommandView::AddUserToGroup {
                user_name: state.group_members_missing@[i].user_name@,
                group_name: state.group_members_missing@[i].group_name@,
            })
            &&& 0 <= i < state.folders_missing@.len() ==> plan[folders + i] == (
            ServiceCommandView::CreateFolder { folder: state.folders_missing@[i]@ })
            &&& 0 <= i < state.folders_missing_ownership@.len() ==> plan[owners + i] == (
            ServiceCommandView::SetOwnership {
                path: state.folders_missing_ownership@[i].path@,
                user_name: state.folders_missing_ownership@[i].owning_user_name@,
                group_name: state.folders_missing_ownership@[i].owning_group_name@,
            })
            &&& 0 <= i < state.folders_missing_mode@.len() ==> plan[modes + i] == (
            ServiceCommandView::SetMode {
                path: state.folders_missing_mode@[i].path@,
                mode: state.folders_missing_mode@[i].mode,
            })
        }),
{
}

/// What is looked at follows from what is known: nothing more where the service runs or one is not
/// the superuser; else the administrators, the folders, and then the container engine.
pub proof fn law_questions_stop_where_nothing_can_be_done(knowledge: Knowledge)
    ensures
        ({
            let down = knowledge.bract is Some && knowledge.bract != Some(RunningStatus::Running);
            let root = down && knowledge.is_root == Some(true);
            let question = next_question(knowledge);
            &&& question == Some(Question::BractSocket) <==> knowledge.bract is None
            &&& question == Some(Question::IsRoot) <==> down && knowledge.is_root is None
            &&& question == Some(Question::Admins) <==> root && knowledge.admins is None
            &&& question == Some(Question::Folders) <==> root && knowledge.admins is Some
                && knowledge.folders is None
            &&& question == Some(Question::PingDocker) <==> root && knowledge.admins is Some
                && knowledge.folders is Some && knowledge.docker_answers is None
        }),
{
    assert(knowledge.bract matches Some(b) ==> knowledge.bract == Some(b));
    assert(knowledge.is_root matches Some(b) ==> knowledge.is_root == Some(b));
}

/// What is found is what is known: who acts, whether the engine answered, whether the group of
/// administrators and a membership in it are missing, and what is missing of the folders, which are
/// to belong to the superuser and the administrators. What was not looked at lacks nothing.
pub proof fn law_what_is_found_is_what_is_known(
    folders: SystemFolders,
    knowledge: Knowledge,
    state: State,
    i: int,
)
    requires
        found(folders, knowledge, state),
    ensures
        ({
            let root = knowledge.bract != Some(RunningStatus::Running) && knowledge.is_root == Some(
                true,
            );
            let admins = *knowledge.admins->0;
            let wanted = folder_modes(folders);
            &&& Some(state.bract_running_status) == knowledge.bract
            &&& state.is_root == root
            &&& state.docker_running_status == (if !root {
                RunningStatus::NotRunning
            } else if knowledge.docker_answers == Some(true) {
                RunningStatus::Running
            } else {
                RunningStatus::Unknown
            })
            &&& !root ==> planned(state).len() == 0
            &&& root ==> {
                &&& state.groups_missing@.len() == (if admins.group_present {
                    0int
                } else {
                    1
                })
                &&& !admins.group_present ==> state.groups_missing@[0]@ == "douglas-admin"@
                &&& match joins_admins(admins.environment, admins.group_present, admins.members@) {
                    Some(name) => state.group_members_missing@.len() == 1
                        && state.group_members_missing@[0].user_name == name
                        && state.group_members_missing@[0].group_name@ == "douglas-admin"@,
                    None => state.group_members_missing@.len() == 0,
                }
                &&& state.folders_missing@ == absent_folders(wanted, knowledge.folders->0@)
                &&& state.folders_missing_mode@ == modes_missing(wanted, knowledge.folders->0@)
                &&& state.folders_missing_ownership@.len() == foreign_folders(
                    wanted,
                    knowledge.folders->0@,
                ).len()
                &&& 0 <= i < state.folders_missing_ownership@.len() ==> {
                    let owner = state.folders_missing_ownership@[i];
                    &&& owner.path == foreign_folders(wanted, knowledge.folders->0@)[i]
                    &&& owner.owning_user_name@ == "root"@
                    &&& owner.owning_group_name@ == "douglas-admin"@
                }
            }
        }),
{
    if knowledge.bract != Some(RunningStatus::Running) && knowledge.is_root == Some(true) {
        let foreign = foreign_folders(folder_modes(folders), knowledge.folders->0@);
        if 0 <= i < foreign.len() {
            assert(gives_to_admins(state.folders_missing_ownership@[i], foreign[i]));
        }
    }
}

/// What is done next follows from what was done: without the engine or the superuser's rights
/// nothing is carried out, and what was carried out decides the end.
pub proof fn law_calls_follow_from_what_was_done(p: Progress)
    ensures
        ({
            let connected = p.connected == Some(true);
            let state = *p.state->0;
            let seen = connected && p.state is Some;
            let fit = seen && state.is_root && (state.docker_running_status
                == RunningStatus::Running || (state.bract_running_status == RunningStatus::Running
                && state.docker_running_status != RunningStatus::NotRunning));
            &&& called(p) == Call::ConnectDocker <==> p.connected is None
            &&& called(p) == Call::Discover <==> connected && p.state is None
            &&& called(p) == Call::MustBeRoot <==> seen && !state.is_root
            &&& called(p) == Call::MustHaveRunningDocker <==> p.connected == Some(false) || (seen
                && state.is_root && !fit)
            &&& called(p) == Call::Execute <==> fit && p.executed is None
            &&& called(p) == Call::Succeed <==> fit && p.executed == Some(true)
            &&& called(p) == Call::Fail <==> fit && p.executed == Some(false)
        }),
{
    assert(p.connected matches Some(b) ==> p.connected == Some(b));
    assert(p.executed matches Some(b) ==> p.executed == Some(b));
}

/// For the superuser, and with a container engine, the setting up comes to its end.
pub proof fn law_setting_up_reaches_its_end<'a>(state: &'a State, success: bool)
    requires
        state.is_root,
        state.docker_running_status == RunningStatus::Running,
    ensures
        ({
            let events = seq![
                SetupEvent::Connected(true),
                SetupEvent::Discovered(state),
                SetupEvent::Executed(success),
            ];
            &&& sets_up_in_turn(events)
            &&& called(set_up_by(events)) == (if success {
                Call::Succeed
            } else {
                Call::Fail
            })
        }),
{
    reveal_with_fuel(set_up_by, 5);
    reveal_with_fuel(sets_up_in_turn, 5);
    let c = seq![
        SetupEvent::Connected(true),
        SetupEvent::Discovered(state),
        SetupEvent::Executed(success),
    ];
    let b = seq![SetupEvent::Connected(true), SetupEvent::Discovered(state)];
    let a = seq![SetupEvent::<'a>::Connected(true)];
    assert(c.drop_last() =~= b);
    assert(b.drop_last() =~= a);
    assert(a.drop_last() =~= Seq::empty());
}

/// The system's folders are open to their owner and their group and to nobody else; what is put
/// into those for logs and configurations belongs to their group too.
pub proof fn law_system_folders_are_open_to_their_group(folders: SystemFolders)
    ensures
        ({
            let all = folder_modes(folders);
            &&& all.len() == 6
            &&& forall|i: int|
                0 <= i < 6 ==> (#[trigger] all[i]).1.bits_of() % 0o1000 == 0o770
            &&& all[0].0@ == folders.logs@ && all[0].1.bits_of() / 0o1000 == 2
            &&& all[1].0@ == folders.transients@ && all[1].1.bits_of() / 0o1000 == 0
            &&& all[2].0@ == folders.applications@ && all[2].1.bits_of() / 0o1000 == 0
            &&& all[3].0@ == folders.application_services@ && all[3].1.bits_of() / 0o1000 == 0
            &&& all[4].0@ == folders.application_mounts@ && all[4].1.bits_of() / 0o1000 == 0
            &&& all[5].0@ == folders.configs@ && all[5].1.bits_of() / 0o1000 == 2
        }),
{
}

} // verus!
