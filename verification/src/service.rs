//! Services of the system: their users, groups and folders, and how they are set up.

use crate::commands::{
    AddUserToGroup, CreateFolder, CreateGroup, CreateUser, ServiceCommand, SetMode, SetOwnership,
};
use crate::listener::ListenerDefinition;
use crate::modes::Modes;
use crate::sequences::lemma_push_contains;
use crate::text::{has_text, lists, same_text};
use vstd::prelude::*;

verus! {

/// The user that a service runs as: one that douglas creates, or one that is there anyway.
#[derive(Debug, PartialEq, Eq)]
pub enum ServiceUser {
    Managed(String),
    System(String),
}

impl ServiceUser {
    pub fn create_managed(name: &str) -> (r: Self)
        ensures
            r matches ServiceUser::Managed(text) && text@ == name@,
    {
        ServiceUser::Managed(name.to_owned())
    }

    pub fn create_system(name: &str) -> (r: Self)
        ensures
            r matches ServiceUser::System(text) && text@ == name@,
    {
        ServiceUser::System(name.to_owned())
    }

    /// The user's name.
    pub open spec fn called(self) -> String {
        match self {
            ServiceUser::Managed(name) => name,
            ServiceUser::System(name) => name,
        }
    }

    /// The user's name.
    pub fn name(&self) -> (r: String)
        ensures
            r == self.called(),
    {
        match self {
            ServiceUser::Managed(name) => name.clone(),
            ServiceUser::System(name) => name.clone(),
        }
    }
}

/// How the setting up of a service is reported.
#[derive(Debug, Clone, Copy, PartialEq, Eq, Structural)]
pub enum BootstrapReporting {
    Silent,
    Pipe,
}

/// What a service is made of.
#[derive(Debug, PartialEq, Eq)]
pub struct ServiceDefinition {
    pub user: ServiceUser,
    pub group: String,
    pub owned_folders: Vec<(String, Modes)>,
    pub owned_sockets: Vec<ListenerDefinition>,
    pub additional_groups: Vec<String>,
    pub bootstrap_reporting: BootstrapReporting,
}

impl ServiceDefinition {
    pub fn with_sockets(
        user: ServiceUser,
        group: &str,
        owned_folders: Vec<(String, Modes)>,
        owned_sockets: Vec<ListenerDefinition>,
        additional_groups: Vec<String>,
        bootstrap_reporting: BootstrapReporting,
    ) -> (r: Self)
        ensures
            r.user == user,
            r.group@ == group@,
            r.owned_folders == owned_folders,
            r.owned_sockets == owned_sockets,
            r.additional_groups == additional_groups,
            r.bootstrap_reporting == bootstrap_reporting,
    {
        ServiceDefinition {
            user,
            group: group.to_owned(),
            owned_folders,
            owned_sockets,
            additional_groups,
            bootstrap_reporting,
        }
    }

    pub fn new(
        user: ServiceUser,
        group: &str,
        owned_folders: Vec<(String, Modes)>,
        bootstrap_reporting: BootstrapReporting,
    ) -> (r: Self)
        ensures
            r.user == user,
            r.group@ == group@,
            r.owned_folders == owned_folders,
            r.owned_sockets@.len() == 0,
            r.additional_groups@.len() == 0,
            r.bootstrap_reporting == bootstrap_reporting,
    {
        Self::with_sockets(
            user,
            group,
            owned_folders,
            Vec::new(),
            Vec::new(),
            bootstrap_reporting,
        )
    }
}

/// A user that has to be in a group.
#[derive(Debug, PartialEq, Eq)]
pub struct GroupMembershipRequirement {
    pub group_name: String,
    pub user_name: String,
}

impl GroupMembershipRequirement {
    pub fn new(group_name: &str, user_name: &str) -> (r: Self)
        ensures
            r.group_name@ == group_name@,
            r.user_name@ == user_name@,
    {
        GroupMembershipRequirement {
            group_name: group_name.to_owned(),
            user_name: user_name.to_owned(),
        }
    }
}

/// A folder that has to belong to a user and a group.
#[derive(Debug, PartialEq, Eq)]
pub struct FolderOwnershipRequirement {
    pub path: String,
    pub owning_user_name: String,
    pub owning_group_name: String,
}

impl FolderOwnershipRequirement {
    pub fn new(path: String, owning_user_name: &str, owning_group_name: &str) -> (r: Self)
        ensures
            r.path == path,
            r.owning_user_name@ == owning_user_name@,
            r.owning_group_name@ == owning_group_name@,
    {
        FolderOwnershipRequirement {
            path,
            owning_user_name: owning_user_name.to_owned(),
            owning_group_name: owning_group_name.to_owned(),
        }
    }
}

/// A folder that has to have certain permission bits.
#[derive(Debug, PartialEq, Eq)]
pub struct FolderModeRequirement {
    pub path: String,
    pub mode: Modes,
}

/// What a service lacks.
#[derive(Debug, PartialEq, Eq)]
pub struct ServiceState {
    pub group_missing: bool,
    pub user_missing: bool,
    pub group_membership_missing: bool,
    pub additional_groups_missing: Vec<String>,
    pub additional_group_memberships_missing: Vec<GroupMembershipRequirement>,
    pub folders_missing: Vec<String>,
    pub folders_missing_ownership: Vec<FolderOwnershipRequirement>,
    pub folders_missing_mode: Vec<FolderModeRequirement>,
}

impl Default for ServiceState {
    fn default() -> (r: Self)
        ensures
            !r.group_missing,
            !r.user_missing,
            !r.group_membership_missing,
            r.additional_groups_missing@ == Seq::<String>::empty(),
            r.additional_group_memberships_missing@ == Seq::<GroupMembershipRequirement>::empty(),
            r.folders_missing@ == Seq::<String>::empty(),
            r.folders_missing_ownership@ == Seq::<FolderOwnershipRequirement>::empty(),
            r.folders_missing_mode@ == Seq::<FolderModeRequirement>::empty(),
    {
        ServiceState {
            group_missing: false,
            user_missing: false,
            group_membership_missing: false,
            additional_groups_missing: Vec::new(),
            additional_group_memberships_missing: Vec::new(),
            folders_missing: Vec::new(),
            folders_missing_ownership: Vec::new(),
            folders_missing_mode: Vec::new(),
        }
    }
}

/// What the system says of a group.
#[derive(Debug, PartialEq, Eq)]
pub struct GroupSight {
    pub present: bool,
    pub id: Option<u32>,
    pub members: Vec<String>,
}

/// What the system says of a user.
#[derive(Debug, Clone, Copy, PartialEq, Eq, Structural)]
pub struct UserSight {
    pub present: bool,
    pub primary_group: Option<u32>,
}

/// What the system says of a folder.
#[derive(Debug, PartialEq, Eq)]
pub enum FolderSight {
    Absent,
    Present { user: String, group: String, mode: Modes },
}

/// Whether a user is in a group: it is listed there, or the group is its primary one.
pub open spec fn is_member(group: GroupSight, user: UserSight, user_name: Seq<char>) -> bool {
    lists(group.members@, user_name) || (group.id is Some && group.id == user.primary_group)
}

/// Whether a user is in a group.
pub fn user_is_in_group(group: &GroupSight, user: &UserSight, user_name: &str) -> (r: bool)
    ensures
        r == is_member(*group, *user, user_name@),
{
    if has_text(&group.members, user_name) {
        return true;
    }
    match (group.id, user.primary_group) {
        (Some(group_id), Some(primary_group_id)) => group_id == primary_group_id,
        _ => false,
    }
}

/// The groups that do not exist, in order.
pub open spec fn groups_missing(names: Seq<String>, seen: Seq<GroupSight>) -> Seq<String>
    decreases names.len(),
{
    if names.len() == 0 {
        Seq::empty()
    } else if seen[names.len() - 1].present {
        groups_missing(names.drop_last(), seen)
    } else {
        groups_missing(names.drop_last(), seen).push(names.last())
    }
}

/// The groups that a user is not in, in order. It is in none that does not exist.
pub open spec fn memberships_missing(
    names: Seq<String>,
    seen: Seq<GroupSight>,
    user: UserSight,
    user_name: String,
) -> Seq<GroupMembershipRequirement>
    decreases names.len(),
{
    if names.len() == 0 {
        Seq::empty()
    } else {
        let group = seen[names.len() - 1];
        let before = memberships_missing(names.drop_last(), seen, user, user_name);
        if group.present && is_member(group, user, user_name@) {
            before
        } else {
            before.push(GroupMembershipRequirement { group_name: names.last(), user_name })
        }
    }
}

/// The folders that are not there, in order.
pub open spec fn absent_folders(folders: Seq<(String, Modes)>, seen: Seq<FolderSight>) -> Seq<String>
    decreases folders.len(),
{
    if folders.len() == 0 {
        Seq::empty()
    } else if seen[folders.len() - 1] is Absent {
        absent_folders(folders.drop_last(), seen).push(folders.last().0)
    } else {
        absent_folders(folders.drop_last(), seen)
    }
}

/// Whether a folder belongs to a user and a group.
pub open spec fn belongs_to(folder: FolderSight, user: Seq<char>, group: Seq<char>) -> bool {
    folder matches FolderSight::Present { user: u, group: g, .. } && u@ == user && g@ == group
}

/// Whether a folder has these permission bits.
pub open spec fn has_mode(folder: FolderSight, expected: Modes) -> bool {
    folder matches FolderSight::Present { mode, .. } && mode == expected
}

/// The folders that do not belong to the service yet, in order.
pub open spec fn ownerships_missing(
    folders: Seq<(String, Modes)>,
    seen: Seq<FolderSight>,
    user: String,
    group: String,
) -> Seq<FolderOwnershipRequirement>
    decreases folders.len(),
{
    if folders.len() == 0 {
        Seq::empty()
    } else {
        let before = ownerships_missing(folders.drop_last(), seen, user, group);
        if belongs_to(seen[folders.len() - 1], user@, group@) {
            before
        } else {
            before.push(
                FolderOwnershipRequirement {
                    path: folders.last().0,
                    owning_user_name: user,
                    owning_group_name: group,
                },
            )
        }
    }
}

/// The folders whose permission bits are not right yet, in order.
pub open spec fn modes_missing(folders: Seq<(String, Modes)>, seen: Seq<FolderSight>) -> Seq<
    FolderModeRequirement,
>
    decreases folders.len(),
{
    if folders.len() == 0 {
        Seq::empty()
    } else {
        let before = modes_missing(folders.drop_last(), seen);
        if has_mode(seen[folders.len() - 1], folders.last().1) {
            before
        } else {
            before.push(FolderModeRequirement { path: folders.last().0, mode: folders.last().1 })
        }
    }
}

/// Adds what a folder lacks to what its service lacks.
fn discover_folder_state(
    state: &mut ServiceState,
    definition: &ServiceDefinition,
    path: &String,
    expected_mode: Modes,
    seen: &FolderSight,
)
    ensures
        final(state).group_missing == old(state).group_missing,
        final(state).user_missing == old(state).user_missing,
        final(state).group_membership_missing == old(state).group_membership_missing,
        final(state).additional_groups_missing == old(state).additional_groups_missing,
        final(state).additional_group_memberships_missing
            == old(state).additional_group_memberships_missing,
        final(state).folders_missing@ == (if *seen is Absent {
            old(state).folders_missing@.push(*path)
        } else {
            old(state).folders_missing@
        }),
        final(state).folders_missing_ownership@ == (if belongs_to(
            *seen,
            definition.user.called()@,
            definition.group@,
        ) {
            old(state).folders_missing_ownership@
        } else {
            old(state).folders_missing_ownership@.push(
                FolderOwnershipRequirement {
                    path: *path,
                    owning_user_name: definition.user.called(),
                    owning_group_name: definition.group,
                },
            )
        }),
        final(state).folders_missing_mode@ == (if has_mode(*seen, expected_mode) {
            old(state).folders_missing_mode@
        } else {
            old(state).folders_missing_mode@.push(
                FolderModeRequirement { path: *path, mode: expected_mode },
            )
        }),
{
    let (owned, mode_right): (bool, bool) = match seen {
        FolderSight::Absent => {
            state.folders_missing.push(path.clone());
            (false, false)
        },
        FolderSight::Present { user, group, mode } => (
            same_text(user, &definition.user.name()) && same_text(group, &definition.group),
            *mode == expected_mode,
        ),
    };
    if !owned {
        state.folders_missing_ownership.push(
            FolderOwnershipRequirement {
                path: path.clone(),
                owning_user_name: definition.user.name(),
                owning_group_name: definition.group.clone(),
            },
        );
    }
    if !mode_right {
        state.folders_missing_mode.push(
            FolderModeRequirement { path: path.clone(), mode: expected_mode },
        );
    }
}

/// What the system says of everything that a service is made of.
#[derive(Debug, PartialEq, Eq)]
pub struct ServiceSight {
    pub group: GroupSight,
    pub user: UserSight,
    pub additional_groups: Vec<GroupSight>,
    pub folders: Vec<FolderSight>,
}

impl ServiceSight {
    /// Whether everything was looked at that a service is made of.
    pub open spec fn covers(&self, definition: ServiceDefinition) -> bool {
        &&& self.additional_groups@.len() == definition.additional_groups@.len()
        &&& self.folders@.len() == definition.owned_folders@.len()
    }
}

/// Whether this is what a service lacks.
pub open spec fn lacks(
    definition: ServiceDefinition,
    seen: ServiceSight,
    state: ServiceState,
) -> bool {
    let managed = definition.user is Managed;
    let name = definition.user.called();
    &&& state.group_missing == !seen.group.present
    &&& state.user_missing == (managed && !seen.user.present)
    &&& state.group_membership_missing == (managed && seen.group.present && seen.user.present
        && !is_member(seen.group, seen.user, name@))
    &&& state.additional_groups_missing@ == (if managed {
        groups_missing(definition.additional_groups@, seen.additional_groups@)
    } else {
        Seq::empty()
    })
    &&& state.additional_group_memberships_missing@ == (if managed {
        memberships_missing(
            definition.additional_groups@,
            seen.additional_groups@,
            seen.user,
            name,
        )
    } else {
        Seq::empty()
    })
    &&& state.folders_missing@ == absent_folders(definition.owned_folders@, seen.folders@)
    &&& state.folders_missing_ownership@ == ownerships_missing(
        definition.owned_folders@,
        seen.folders@,
        name,
        definition.group,
    )
    &&& state.folders_missing_mode@ == modes_missing(definition.owned_folders@, seen.folders@)
}

/// What a service lacks. A user that is there anyway is neither created nor put into groups.
pub fn discover_service_state(definition: &ServiceDefinition, seen: &ServiceSight) -> (r:
    ServiceState)
    requires
        seen.covers(*definition),
    ensures
        lacks(*definition, *seen, r),
{
    let mut state: ServiceState = ServiceState::default();
    state.group_missing = !seen.group.present;
    if let ServiceUser::Managed(name) = &definition.user {
        state.user_missing = !seen.user.present;
        state.group_membership_missing = seen.group.present && seen.user.present
            && !user_is_in_group(&seen.group, &seen.user, name);
        discover_additional_groups(&mut state, definition, seen, name);
    }
    let folders: &Vec<(String, Modes)> = &definition.owned_folders;
    let ghost begun = state;
    let mut i: usize = 0;
    assert(folders@.take(0) =~= Seq::<(String, Modes)>::empty());
    while i < folders.len()
        invariant
            i <= folders@.len(),
            folders == &definition.owned_folders,
            seen.covers(*definition),
            state.group_missing == begun.group_missing,
            state.user_missing == begun.user_missing,
            state.group_membership_missing == begun.group_membership_missing,
            state.additional_groups_missing == begun.additional_groups_missing,
            state.additional_group_memberships_missing
                == begun.additional_group_memberships_missing,
            state.folders_missing@ == absent_folders(folders@.take(i as int), seen.folders@),
            state.folders_missing_ownership@ == ownerships_missing(
                folders@.take(i as int),
                seen.folders@,
                definition.user.called(),
                definition.group,
            ),
            state.folders_missing_mode@ == modes_missing(folders@.take(i as int), seen.folders@),
        decreases folders@.len() - i,
    {
        assert(folders@.take(i as int + 1).drop_last() =~= folders@.take(i as int));
        assert(folders@.take(i as int + 1).last() == folders@[i as int]);
        discover_folder_state(
            &mut state,
            definition,
            &folders[i].0,
            folders[i].1,
            &seen.folders[i],
        );
        i += 1;
    }
    assert(folders@.take(folders@.len() as int) =~= folders@);
    state
}

fn discover_additional_groups(
    state: &mut ServiceState,
    definition: &ServiceDefinition,
    seen: &ServiceSight,
    user_name: &String,
)
    requires
        seen.covers(*definition),
        old(state).additional_groups_missing@.len() == 0,
        old(state).additional_group_memberships_missing@.len() == 0,
    ensures
        final(state).additional_groups_missing@ == groups_missing(
            definition.additional_groups@,
            seen.additional_groups@,
        ),
        final(state).additional_group_memberships_missing@ == memberships_missing(
            definition.additional_groups@,
            seen.additional_groups@,
            seen.user,
            *user_name,
        ),
        final(state).group_missing == old(state).group_missing,
        final(state).user_missing == old(state).user_missing,
        final(state).group_membership_missing == old(state).group_membership_missing,
        final(state).folders_missing == old(state).folders_missing,
        final(state).folders_missing_ownership == old(state).folders_missing_ownership,
        final(state).folders_missing_mode == old(state).folders_missing_mode,
{
    let names: &Vec<String> = &definition.additional_groups;
    let ghost begun = *state;
    let mut i: usize = 0;
    assert(names@.take(0) =~= Seq::<String>::empty());
    while i < names.len()
        invariant
            i <= names@.len(),
            names == &definition.additional_groups,
            seen.covers(*definition),
            state.group_missing == begun.group_missing,
            state.user_missing == begun.user_missing,
            state.group_membership_missing == begun.group_membership_missing,
            state.folders_missing == begun.folders_missing,
            state.folders_missing_ownership == begun.folders_missing_ownership,
            state.folders_missing_mode == begun.folders_missing_mode,
            state.additional_groups_missing@ == groups_missing(
                names@.take(i as int),
                seen.additional_groups@,
            ),
            state.additional_group_memberships_missing@ == memberships_missing(
                names@.take(i as int),
                seen.additional_groups@,
                seen.user,
                *user_name,
            ),
        decreases names@.len() - i,
    {
        assert(names@.take(i as int + 1).drop_last() =~= names@.take(i as int));
        assert(names@.take(i as int + 1).last() == names@[i as int]);
        let group: &GroupSight = &seen.additional_groups[i];
        let member: bool = if group.present {
            user_is_in_group(group, &seen.user, user_name)
        } else {
            state.additional_groups_missing.push(names[i].clone());
            false
        };
        if !member {
            state.additional_group_memberships_missing.push(
                GroupMembershipRequirement {
                    group_name: names[i].clone(),
                    user_name: user_name.clone(),
                },
            );
        }
        i += 1;
    }
    assert(names@.take(names@.len() as int) =~= names@);
}

/// A command where it is needed.
pub open spec fn only_if(needed: bool, command: ServiceCommand) -> Seq<ServiceCommand> {
    if needed {
        seq![command]
    } else {
        Seq::empty()
    }
}

/// How a service's user comes to be in its group: a new user is created in it, and one that is
/// there is added.
pub open spec fn user_commands(definition: ServiceDefinition, state: ServiceState) -> Seq<
    ServiceCommand,
> {
    let user_name = definition.user.called();
    if state.user_missing {
        seq![
            ServiceCommand::CreateUser(
                CreateUser { user_name, primary_group_name: definition.group },
            ),
        ]
    } else {
        only_if(
            state.group_membership_missing,
            ServiceCommand::AddUserToGroup(
                AddUserToGroup { user_name, group_name: definition.group },
            ),
        )
    }
}

/// The commands that create groups.
pub open spec fn group_commands(names: Seq<String>) -> Seq<ServiceCommand> {
    names.map_values(|name: String| ServiceCommand::CreateGroup(CreateGroup { group_name: name }))
}

/// The commands that add users to groups.
pub open spec fn membership_commands(requirements: Seq<GroupMembershipRequirement>) -> Seq<
    ServiceCommand,
> {
    requirements.map_values(
        |requirement: GroupMembershipRequirement|
            ServiceCommand::AddUserToGroup(
                AddUserToGroup {
                    user_name: requirement.user_name,
                    group_name: requirement.group_name,
                },
            ),
    )
}

/// The commands that create folders.
pub open spec fn folder_commands(folders: Seq<String>) -> Seq<ServiceCommand> {
    folders.map_values(|folder: String| ServiceCommand::CreateFolder(CreateFolder { folder }))
}

/// The commands that give folders to their owners.
pub open spec fn ownership_commands(requirements: Seq<FolderOwnershipRequirement>) -> Seq<
    ServiceCommand,
> {
    requirements.map_values(
        |requirement: FolderOwnershipRequirement|
            ServiceCommand::SetOwnership(
                SetOwnership {
                    path: requirement.path,
                    user_name: requirement.owning_user_name,
                    group_name: requirement.owning_group_name,
                },
            ),
    )
}

/// The commands that set permission bits.
pub open spec fn mode_commands(requirements: Seq<FolderModeRequirement>) -> Seq<ServiceCommand> {
    requirements.map_values(
        |requirement: FolderModeRequirement|
            ServiceCommand::SetMode(SetMode { path: requirement.path, mode: requirement.mode }),
    )
}

/// The commands that set a service up: its groups before the memberships in them, and its folders
/// before their owners and permission bits.
pub open spec fn service_plan(definition: ServiceDefinition, state: ServiceState) -> Seq<
    ServiceCommand,
> {
    only_if(
        state.group_missing,
        ServiceCommand::CreateGroup(CreateGroup { group_name: definition.group }),
    ) + user_commands(definition, state) + group_commands(state.additional_groups_missing@)
        + membership_commands(state.additional_group_memberships_missing@) + folder_commands(
        state.folders_missing@,
    ) + ownership_commands(state.folders_missing_ownership@) + mode_commands(
        state.folders_missing_mode@,
    )
}

fn push_user(
    steps: &mut Vec<ServiceCommand>,
    definition: &ServiceDefinition,
    state: &ServiceState,
)
    ensures
        final(steps)@ == old(steps)@ + user_commands(*definition, *state),
{
    if state.user_missing {
        steps.push(
            ServiceCommand::CreateUser(
                CreateUser {
                    user_name: definition.user.name(),
                    primary_group_name: definition.group.clone(),
                },
            ),
        );
    } else if state.group_membership_missing {
        steps.push(
            ServiceCommand::AddUserToGroup(
                AddUserToGroup {
                    user_name: definition.user.name(),
                    group_name: definition.group.clone(),
                },
            ),
        );
    }
    assert(steps@ =~= old(steps)@ + user_commands(*definition, *state));
}

fn push_groups(steps: &mut Vec<ServiceCommand>, names: &Vec<String>)
    ensures
        final(steps)@ == old(steps)@ + group_commands(names@),
{
    let ghost start = steps@;
    let mut i: usize = 0;
    while i < names.len()
        invariant
            i <= names@.len(),
            steps@ =~= start + group_commands(names@.take(i as int)),
        decreases names@.len() - i,
    {
        steps.push(ServiceCommand::CreateGroup(CreateGroup { group_name: names[i].clone() }));
        i += 1;
    }
    assert(names@.take(names@.len() as int) =~= names@);
}

fn push_memberships(
    steps: &mut Vec<ServiceCommand>,
    requirements: &Vec<GroupMembershipRequirement>,
)
    ensures
        final(steps)@ == old(steps)@ + membership_commands(requirements@),
{
    let ghost start = steps@;
    let mut i: usize = 0;
    while i < requirements.len()
        invariant
            i <= requirements@.len(),
            steps@ =~= start + membership_commands(requirements@.take(i as int)),
        decreases requirements@.len() - i,
    {
        steps.push(
            ServiceCommand::AddUserToGroup(
                AddUserToGroup {
                    user_name: requirements[i].user_name.clone(),
                    group_name: requirements[i].group_name.clone(),
                },
            ),
        );
        i += 1;
    }
    assert(requirements@.take(requirements@.len() as int) =~= requirements@);
}

fn push_folders(steps: &mut Vec<ServiceCommand>, folders: &Vec<String>)
    ensures
        final(steps)@ == old(steps)@ + folder_commands(folders@),
{
    let ghost start = steps@;
    let mut i: usize = 0;
    while i < folders.len()
        invariant
            i <= folders@.len(),
            steps@ =~= start + folder_commands(folders@.take(i as int)),
        decreases folders@.len() - i,
    {
        steps.push(ServiceCommand::CreateFolder(CreateFolder::new(folders[i].clone())));
        i += 1;
    }
    assert(folders@.take(folders@.len() as int) =~= folders@);
}

fn push_ownerships(
    steps: &mut Vec<ServiceCommand>,
    requirements: &Vec<FolderOwnershipRequirement>,
)
    ensures
        final(steps)@ == old(steps)@ + ownership_commands(requirements@),
{
    let ghost start = steps@;
    let mut i: usize = 0;
    while i < requirements.len()
        invariant
            i <= requirements@.len(),
            steps@ =~= start + ownership_commands(requirements@.take(i as int)),
        decreases requirements@.len() - i,
    {
        steps.push(
            ServiceCommand::SetOwnership(
                SetOwnership {
                    path: requirements[i].path.clone(),
                    user_name: requirements[i].owning_user_name.clone(),
                    group_name: requirements[i].owning_group_name.clone(),
                },
            ),
        );
        i += 1;
    }
    assert(requirements@.take(requirements@.len() as int) =~= requirements@);
}

fn push_modes(steps: &mut Vec<ServiceCommand>, requirements: &Vec<FolderModeRequirement>)
    ensures
        final(steps)@ == old(steps)@ + mode_commands(requirements@),
{
    let ghost start = steps@;
    let mut i: usize = 0;
    while i < requirements.len()
        invariant
            i <= requirements@.len(),
            steps@ =~= start + mode_commands(requirements@.take(i as int)),
        decreases requirements@.len() - i,
    {
        steps.push(
            ServiceCommand::SetMode(
                SetMode::new(requirements[i].path.clone(), requirements[i].mode),
            ),
        );
        i += 1;
    }
    assert(requirements@.take(requirements@.len() as int) =~= requirements@);
}

/// Plans the setting up of a service from what it lacks.
pub fn plan_service_bootstrap(definition: &ServiceDefinition, state: &ServiceState) -> (r: Vec<
    ServiceCommand,
>)
    ensures
        r@ == service_plan(*definition, *state),
{
    let mut steps: Vec<ServiceCommand> = Vec::new();
    let ghost group_step = only_if(
        state.group_missing,
        ServiceCommand::CreateGroup(CreateGroup { group_name: definition.group }),
    );
    if state.group_missing {
        steps.push(
            ServiceCommand::CreateGroup(CreateGroup { group_name: definition.group.clone() }),
        );
    }
    assert(steps@ =~= group_step);
    push_user(&mut steps, definition, state);
    push_groups(&mut steps, &state.additional_groups_missing);
    push_memberships(&mut steps, &state.additional_group_memberships_missing);
    push_folders(&mut steps, &state.folders_missing);
    push_ownerships(&mut steps, &state.folders_missing_ownership);
    push_modes(&mut steps, &state.folders_missing_mode);
    steps
}

/// Whether everything is as a service wants it.
pub open spec fn in_order(definition: ServiceDefinition, seen: ServiceSight) -> bool {
    let name = definition.user.called()@;
    &&& seen.group.present
    &&& definition.user is Managed ==> {
        &&& seen.user.present
        &&& is_member(seen.group, seen.user, name)
        &&& forall|i: int|
            0 <= i < seen.additional_groups@.len() ==> (#[trigger] seen.additional_groups@[i]).present
                && is_member(seen.additional_groups@[i], seen.user, name)
    }
    &&& forall|i: int|
        0 <= i < seen.folders@.len() ==> belongs_to(
            #[trigger] seen.folders@[i],
            name,
            definition.group@,
        ) && has_mode(seen.folders@[i], definition.owned_folders@[i].1)
}

/// Where everything is as a service wants it, nothing is done.
pub proof fn law_services_in_order_are_left_alone(
    definition: ServiceDefinition,
    seen: ServiceSight,
    state: ServiceState,
)
    requires
        seen.covers(definition),
        in_order(definition, seen),
        lacks(definition, seen, state),
    ensures
        service_plan(definition, state).len() == 0,
{
    if definition.user is Managed {
        lemma_groups_in_order(
            definition.additional_groups@,
            seen.additional_groups@,
            seen.user,
            definition.user.called(),
        );
    }
    lemma_folders_in_order(
        definition.owned_folders@,
        seen.folders@,
        definition.user.called(),
        definition.group,
    );
}

proof fn lemma_groups_in_order(
    names: Seq<String>,
    seen: Seq<GroupSight>,
    user: UserSight,
    user_name: String,
)
    requires
        names.len() <= seen.len(),
        forall|i: int|
            0 <= i < names.len() ==> (#[trigger] seen[i]).present && is_member(
                seen[i],
                user,
                user_name@,
            ),
    ensures
        groups_missing(names, seen).len() == 0,
        memberships_missing(names, seen, user, user_name).len() == 0,
    decreases names.len(),
{
    if names.len() > 0 {
        assert(seen[names.len() - 1].present);
        lemma_groups_in_order(names.drop_last(), seen, user, user_name);
    }
}

proof fn lemma_folders_in_order(
    folders: Seq<(String, Modes)>,
    seen: Seq<FolderSight>,
    user: String,
    group: String,
)
    requires
        folders.len() <= seen.len(),
        forall|i: int|
            0 <= i < folders.len() ==> belongs_to(#[trigger] seen[i], user@, group@) && has_mode(
                seen[i],
                folders[i].1,
            ),
    ensures
        absent_folders(folders, seen).len() == 0,
        ownerships_missing(folders, seen, user, group).len() == 0,
        modes_missing(folders, seen).len() == 0,
    decreases folders.len(),
{
    if folders.len() > 0 {
        let last = folders.len() - 1;
        assert(belongs_to(seen[last], user@, group@));
        assert(folders.last() == folders[last]);
        assert forall|i: int| 0 <= i < folders.drop_last().len() implies belongs_to(
            #[trigger] seen[i],
            user@,
            group@,
        ) && has_mode(seen[i], folders.drop_last()[i].1) by {
            assert(folders.drop_last()[i] == folders[i]);
        }
        lemma_folders_in_order(folders.drop_last(), seen, user, group);
    }
}

/// A folder that is created is also given to its owner and gets its permission bits.
pub proof fn law_created_folders_are_set_up(
    folders: Seq<(String, Modes)>,
    seen: Seq<FolderSight>,
    user: String,
    group: String,
    i: int,
)
    requires
        0 <= i < absent_folders(folders, seen).len(),
    ensures
        exists|j: int|
            0 <= j < ownerships_missing(folders, seen, user, group).len()
                && (#[trigger] ownerships_missing(folders, seen, user, group)[j]).path
                == absent_folders(folders, seen)[i],
        exists|j: int|
            0 <= j < modes_missing(folders, seen).len()
                && (#[trigger] modes_missing(folders, seen)[j]).path == absent_folders(
                folders,
                seen,
            )[i],
    decreases folders.len(),
{
    if folders.len() > 0 {
        let rest = folders.drop_last();
        let owners = ownerships_missing(folders, seen, user, group);
        let owners_before = ownerships_missing(rest, seen, user, group);
        let modes = modes_missing(folders, seen);
        let modes_before = modes_missing(rest, seen);
        if i == absent_folders(rest, seen).len() {
            assert(owners[owners_before.len() as int].path == absent_folders(folders, seen)[i]);
            assert(modes[modes_before.len() as int].path == absent_folders(folders, seen)[i]);
        } else {
            law_created_folders_are_set_up(rest, seen, user, group, i);
            let j = choose|j: int|
                0 <= j < owners_before.len() && (#[trigger] owners_before[j]).path
                    == absent_folders(rest, seen)[i];
            assert(owners[j] == owners_before[j]);
            let k = choose|k: int|
                0 <= k < modes_before.len() && (#[trigger] modes_before[k]).path == absent_folders(
                    rest,
                    seen,
                )[i];
            assert(modes[k] == modes_before[k]);
        }
    }
}

/// A user is in a group exactly where it is listed among the members, or where the group is its
/// primary one.
pub proof fn law_members_are_listed_or_primary(
    group: GroupSight,
    user: UserSight,
    user_name: Seq<char>,
)
    ensures
        is_member(group, user, user_name) <==> (exists|i: int|
            0 <= i < group.members@.len() && (#[trigger] group.members@[i])@ == user_name) || (
        group.id matches Some(id) && user.primary_group == Some(id)),
{
    if let Some(id) = group.id {
        assert(group.id == Some(id));
    }
}

/// A group is found missing exactly where it is wanted and does not exist.
pub proof fn law_missing_groups_are_found(
    names: Seq<String>,
    seen: Seq<GroupSight>,
    wanted: String,
)
    ensures
        groups_missing(names, seen).contains(wanted) == exists|i: int|
            0 <= i < names.len() && #[trigger] names[i] == wanted && !seen[i].present,
    decreases names.len(),
{
    if names.len() > 0 {
        let rest = names.drop_last();
        law_missing_groups_are_found(rest, seen, wanted);
        let all = groups_missing(names, seen);
        let before = groups_missing(rest, seen);
        if all.len() > before.len() {
            lemma_push_contains(before, all.last(), wanted);
            assert(all =~= before.push(all.last()));
        }
        if before.contains(wanted) {
            let i = choose|i: int| 0 <= i < rest.len() && #[trigger] rest[i] == wanted && !seen[i].present;
            assert(names[i] == rest[i]);
        }
        assert(names[names.len() - 1] == names.last());
        if exists|i: int| 0 <= i < names.len() && #[trigger] names[i] == wanted && !seen[i].present {
            let i = choose|i: int| 0 <= i < names.len() && #[trigger] names[i] == wanted && !seen[i].present;
            if i < rest.len() {
                assert(names[i] == rest[i]);
            }
        }
    }
}

/// A membership is found missing exactly where the group is wanted, and does not exist or does not
/// have the user.
pub proof fn law_missing_memberships_are_found(
    names: Seq<String>,
    seen: Seq<GroupSight>,
    user: UserSight,
    user_name: String,
    wanted: GroupMembershipRequirement,
)
    ensures
        memberships_missing(names, seen, user, user_name).contains(wanted) == exists|i: int|
            0 <= i < names.len() && #[trigger] names[i] == wanted.group_name && wanted.user_name == user_name && !(
            seen[i].present && is_member(seen[i], user, user_name@)),
    decreases names.len(),
{
    if names.len() > 0 {
        let rest = names.drop_last();
        law_missing_memberships_are_found(rest, seen, user, user_name, wanted);
        let all = memberships_missing(names, seen, user, user_name);
        let before = memberships_missing(rest, seen, user, user_name);
        if all.len() > before.len() {
            lemma_push_contains(before, all.last(), wanted);
            assert(all =~= before.push(all.last()));
        }
        if before.contains(wanted) {
            let i = choose|i: int| 0 <= i < rest.len() && #[trigger] rest[i] == wanted.group_name && wanted.user_name == user_name && !(
            seen[i].present && is_member(seen[i], user, user_name@));
            assert(names[i] == rest[i]);
        }
        assert(names[names.len() - 1] == names.last());
        if exists|i: int| 0 <= i < names.len() && #[trigger] names[i] == wanted.group_name && wanted.user_name == user_name && !(
            seen[i].present && is_member(seen[i], user, user_name@)) {
            let i = choose|i: int| 0 <= i < names.len() && #[trigger] names[i] == wanted.group_name && wanted.user_name == user_name && !(
            seen[i].present && is_member(seen[i], user, user_name@));
            if i < rest.len() {
                assert(names[i] == rest[i]);
            }
        }
    }
}

/// A folder is found missing exactly where it is wanted and is not there.
pub proof fn law_missing_folders_are_found(
    folders: Seq<(String, Modes)>,
    seen: Seq<FolderSight>,
    wanted: String,
)
    ensures
        absent_folders(folders, seen).contains(wanted) == exists|i: int|
            0 <= i < folders.len() && (#[trigger] folders[i]).0 == wanted && seen[i] is Absent,
    decreases folders.len(),
{
    if folders.len() > 0 {
        let rest = folders.drop_last();
        law_missing_folders_are_found(rest, seen, wanted);
        let all = absent_folders(folders, seen);
        let before = absent_folders(rest, seen);
        if all.len() > before.len() {
            lemma_push_contains(before, all.last(), wanted);
            assert(all =~= before.push(all.last()));
        }
        if before.contains(wanted) {
            let i = choose|i: int| 0 <= i < rest.len() && (#[trigger] rest[i]).0 == wanted && seen[i] is Absent;
            assert(folders[i] == rest[i]);
        }
        assert(folders[folders.len() - 1] == folders.last());
        if exists|i: int| 0 <= i < folders.len() && (#[trigger] folders[i]).0 == wanted && seen[i] is Absent {
            let i = choose|i: int| 0 <= i < folders.len() && (#[trigger] folders[i]).0 == wanted && seen[i] is Absent;
            if i < rest.len() {
                assert(folders[i] == rest[i]);
            }
        }
    }
}

/// An owner is found missing exactly where the folder is wanted, and is not there or belongs to
/// another user or another group.
pub proof fn law_missing_owners_are_found(
    folders: Seq<(String, Modes)>,
    seen: Seq<FolderSight>,
    user: String,
    group: String,
    wanted: FolderOwnershipRequirement,
)
    ensures
        ownerships_missing(folders, seen, user, group).contains(wanted) == exists|i: int|
            0 <= i < folders.len() && (#[trigger] folders[i]).0 == wanted.path && wanted.owning_user_name == user
                && wanted.owning_group_name == group && !(seen[i] matches FolderSight::Present {
                user: u,
                group: g,
                ..
            } && u@ == user@ && g@ == group@),
    decreases folders.len(),
{
    if folders.len() > 0 {
        let rest = folders.drop_last();
        law_missing_owners_are_found(rest, seen, user, group, wanted);
        let all = ownerships_missing(folders, seen, user, group);
        let before = ownerships_missing(rest, seen, user, group);
        if all.len() > before.len() {
            lemma_push_contains(before, all.last(), wanted);
            assert(all =~= before.push(all.last()));
        }
        if before.contains(wanted) {
            let i = choose|i: int| 0 <= i < rest.len() && (#[trigger] rest[i]).0 == wanted.path && wanted.owning_user_name == user
                && wanted.owning_group_name == group && !(seen[i] matches FolderSight::Present {
                user: u,
                group: g,
                ..
            } && u@ == user@ && g@ == group@);
            assert(folders[i] == rest[i]);
        }
        assert(folders[folders.len() - 1] == folders.last());
        if exists|i: int| 0 <= i < folders.len() && (#[trigger] folders[i]).0 == wanted.path && wanted.owning_user_name == user
                && wanted.owning_group_name == group && !(seen[i] matches FolderSight::Present {
                user: u,
                group: g,
                ..
            } && u@ == user@ && g@ == group@) {
            let i = choose|i: int| 0 <= i < folders.len() && (#[trigger] folders[i]).0 == wanted.path && wanted.owning_user_name == user
                && wanted.owning_group_name == group && !(seen[i] matches FolderSight::Present {
                user: u,
                group: g,
                ..
            } && u@ == user@ && g@ == group@);
            if i < rest.len() {
                assert(folders[i] == rest[i]);
            }
        }
    }
}

/// A mode is found missing exactly where the folder is wanted, and is not there or has another
/// mode; the mode to be set is the one that is wanted of this folder.
pub proof fn law_missing_modes_are_found(
    folders: Seq<(String, Modes)>,
    seen: Seq<FolderSight>,
    wanted: FolderModeRequirement,
)
    ensures
        modes_missing(folders, seen).contains(wanted) == exists|i: int|
            0 <= i < folders.len() && (#[trigger] folders[i]).0 == wanted.path && folders[i].1 == wanted.mode && !(
            seen[i] matches FolderSight::Present { mode, .. } && mode == folders[i].1),
    decreases folders.len(),
{
    if folders.len() > 0 {
        let rest = folders.drop_last();
        law_missing_modes_are_found(rest, seen, wanted);
        let all = modes_missing(folders, seen);
        let before = modes_missing(rest, seen);
        if all.len() > before.len() {
            lemma_push_contains(before, all.last(), wanted);
            assert(all =~= before.push(all.last()));
        }
        if before.contains(wanted) {
            let i = choose|i: int| 0 <= i < rest.len() && (#[trigger] rest[i]).0 == wanted.path && rest[i].1 == wanted.mode && !(
            seen[i] matches FolderSight::Present { mode, .. } && mode == rest[i].1);
            assert(folders[i] == rest[i]);
        }
        assert(folders[folders.len() - 1] == folders.last());
        if exists|i: int| 0 <= i < folders.len() && (#[trigger] folders[i]).0 == wanted.path && folders[i].1 == wanted.mode && !(
            seen[i] matches FolderSight::Present { mode, .. } && mode == folders[i].1) {
            let i = choose|i: int| 0 <= i < folders.len() && (#[trigger] folders[i]).0 == wanted.path && folders[i].1 == wanted.mode && !(
            seen[i] matches FolderSight::Present { mode, .. } && mode == folders[i].1);
            if i < rest.len() {
                assert(folders[i] == rest[i]);
            }
        }
    }
}

/// What a service lacks follows from what was seen: its group, and where its user is managed, the
/// user, the user's membership in the group, and its further groups and memberships; and in any
/// case its folders, their owners and their modes. A system's user and its groups are left alone.
pub proof fn law_services_lack_what_was_not_seen(
    definition: ServiceDefinition,
    seen: ServiceSight,
    state: ServiceState,
)
    requires
        lacks(definition, seen, state),
    ensures
        state.group_missing == !seen.group.present,
        definition.user matches ServiceUser::Managed(name) ==> {
            &&& state.user_missing == !seen.user.present
            &&& state.group_membership_missing == (seen.group.present && seen.user.present
                && !is_member(seen.group, seen.user, name@))
            &&& state.additional_groups_missing@ == groups_missing(
                definition.additional_groups@,
                seen.additional_groups@,
            )
            &&& state.additional_group_memberships_missing@ == memberships_missing(
                definition.additional_groups@,
                seen.additional_groups@,
                seen.user,
                name,
            )
            &&& state.folders_missing_ownership@ == ownerships_missing(
                definition.owned_folders@,
                seen.folders@,
                name,
                definition.group,
            )
        },
        definition.user matches ServiceUser::System(name) ==> {
            &&& !state.user_missing
            &&& !state.group_membership_missing
            &&& state.additional_groups_missing@.len() == 0
            &&& state.additional_group_memberships_missing@.len() == 0
            &&& state.folders_missing_ownership@ == ownerships_missing(
                definition.owned_folders@,
                seen.folders@,
                name,
                definition.group,
            )
        },
        state.folders_missing@ == absent_folders(definition.owned_folders@, seen.folders@),
        state.folders_missing_mode@ == modes_missing(definition.owned_folders@, seen.folders@),
{
}

/// A service gets everything that it lacks, each once and in order: its group, its user or the
/// user's membership, its further groups, the memberships in them, its folders, their owners and
/// their modes. A user that is made is made with the service's group as its primary one.
pub proof fn law_services_get_what_they_lack(
    definition: ServiceDefinition,
    state: ServiceState,
    i: int,
)
    ensures
        ({
            let plan = service_plan(definition, state);
            let user_name = match definition.user {
                ServiceUser::Managed(name) => name,
                ServiceUser::System(name) => name,
            };
            let users = if state.group_missing {
                1int
            } else {
                0
            };
            let groups = users + (if state.user_missing || state.group_membership_missing {
                1int
            } else {
                0
            });
            let memberships = groups + state.additional_groups_missing@.len();
            let folders = memberships + state.additional_group_memberships_missing@.len();
            let owners = folders + state.folders_missing@.len();
            let modes = owners + state.folders_missing_ownership@.len();
            &&& plan.len() == modes + state.folders_missing_mode@.len()
            &&& state.group_missing ==> plan[0] == ServiceCommand::CreateGroup(
                CreateGroup { group_name: definition.group },
            )
            &&& state.user_missing ==> plan[users] == ServiceCommand::CreateUser(
                CreateUser { user_name, primary_group_name: definition.group },
            )
            &&& !state.user_missing && state.group_membership_missing ==> plan[users]
                == ServiceCommand::AddUserToGroup(
                AddUserToGroup { user_name, group_name: definition.group },
            )
            &&& 0 <= i < state.additional_groups_missing@.len() ==> plan[groups + i]
                == ServiceCommand::CreateGroup(
                CreateGroup { group_name: state.additional_groups_missing@[i] },
            )
            &&& 0 <= i < state.additional_group_memberships_missing@.len() ==> plan[memberships + i]
                == ServiceCommand::AddUserToGroup(
                AddUserToGroup {
                    user_name: state.additional_group_memberships_missing@[i].user_name,
                    group_name: state.additional_group_memberships_missing@[i].group_name,
                },
            )
            &&& 0 <= i < state.folders_missing@.len() ==> plan[folders + i]
                == ServiceCommand::CreateFolder(
                CreateFolder { folder: state.folders_missing@[i] },
            )
            &&& 0 <= i < state.folders_missing_ownership@.len() ==> plan[owners + i]
                == ServiceCommand::SetOwnership(
                SetOwnership {
                    path: state.folders_missing_ownership@[i].path,
                    user_name: state.folders_missing_ownership@[i].owning_user_name,
                    group_name: state.folders_missing_ownership@[i].owning_group_name,
                },
            )
            &&& 0 <= i < state.folders_missing_mode@.len() ==> plan[modes + i]
                == ServiceCommand::SetMode(
                SetMode {
                    path: state.folders_missing_mode@[i].path,
                    mode: state.folders_missing_mode@[i].mode,
                },
            )
        }),
{
}

} // verus!
