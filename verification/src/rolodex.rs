//! Which system user or group stands for which full name.
//!
//! Each name that is taken is kept as a record: the system name, and the full name that it was
//! given to. Where a system name is taken by another full name, the next attempt tries another
//! one.

use crate::naming::{derive_system_name, portable, salted, salted_of, system_name_of};
use crate::text::{cat3, same_text};
use vstd::prelude::*;

verus! {

/// How many system names are tried for a full name.
pub const MAX_ATTEMPTS: u32 = 16;

/// Whether something is meant for a user or for a group.
#[derive(Debug, Clone, Copy, PartialEq, Eq, Structural)]
pub enum Kind {
    User,
    Group,
}

/// Why a name could not be looked up or given away.
#[derive(Debug, PartialEq, Eq)]
pub enum RolodexError {
    NotFound { kind: Kind, system_name: String },
    ExhaustedNameSpace(String),
    UnknownGuest(String),
}

impl Clone for RolodexError {
    fn clone(&self) -> (r: Self)
        ensures
            r == *self,
    {
        match self {
            RolodexError::NotFound { kind, system_name } => RolodexError::NotFound {
                kind: *kind,
                system_name: system_name.clone(),
            },
            RolodexError::ExhaustedNameSpace(name) => RolodexError::ExhaustedNameSpace(
                name.clone(),
            ),
            RolodexError::UnknownGuest(name) => RolodexError::UnknownGuest(name.clone()),
        }
    }
}

impl RolodexError {
    /// The error in words.
    pub open spec fn text(&self) -> Seq<char> {
        match self {
            RolodexError::NotFound { kind: Kind::User, system_name } => "Credentials error: user '"@
                + system_name@ + "' not found"@,
            RolodexError::NotFound { kind: Kind::Group, system_name } =>
                "Credentials error: group '"@ + system_name@ + "' not found"@,
            RolodexError::ExhaustedNameSpace(name) => "Could not find a free system name for '"@
                + name@ + "'"@,
            RolodexError::UnknownGuest(name) => "Unknown guest '"@ + name@
                + "': it has no reserved user yet"@,
        }
    }

    /// The error in words.
    pub fn describe(&self) -> (r: String)
        ensures
            r@ == self.text(),
    {
        match self {
            RolodexError::NotFound { kind: Kind::User, system_name } => cat3(
                "Credentials error: user '",
                system_name,
                "' not found",
            ),
            RolodexError::NotFound { kind: Kind::Group, system_name } => cat3(
                "Credentials error: group '",
                system_name,
                "' not found",
            ),
            RolodexError::ExhaustedNameSpace(name) => cat3(
                "Could not find a free system name for '",
                name,
                "'",
            ),
            RolodexError::UnknownGuest(name) => cat3(
                "Unknown guest '",
                name,
                "': it has no reserved user yet",
            ),
        }
    }
}

/// A user or a group of the system.
#[derive(Debug, PartialEq, Eq)]
pub struct Credential {
    pub id: u32,
    pub full_name: String,
    pub system_name: String,
}

impl Clone for Credential {
    fn clone(&self) -> (r: Self)
        ensures
            r == *self,
    {
        Credential {
            id: self.id,
            full_name: self.full_name.clone(),
            system_name: self.system_name.clone(),
        }
    }
}

/// The user and the group that a seedling runs as.
#[derive(Debug, PartialEq, Eq)]
pub struct ServiceAccount {
    pub user: Credential,
    pub group: Credential,
}

/// A system name and the full name that it was given to.
#[derive(Debug, PartialEq, Eq)]
pub struct Record {
    pub system_name: String,
    pub full_name: String,
}

/// The full name that a system name was given to.
pub open spec fn recorded(records: Seq<Record>, system_name: Seq<char>) -> Option<Seq<char>>
    decreases records.len(),
{
    if records.len() == 0 {
        None
    } else if records[0].system_name@ == system_name {
        Some(records[0].full_name@)
    } else {
        recorded(records.skip(1), system_name)
    }
}

fn find_record<'a>(records: &'a Vec<Record>, system_name: &str) -> (r: Option<&'a String>)
    ensures
        match r {
            Some(full_name) => recorded(records@, system_name@) == Some(full_name@),
            None => recorded(records@, system_name@) is None,
        },
{
    let mut i: usize = 0;
    assert(records@.skip(0) =~= records@);
    while i < records.len()
        invariant
            i <= records@.len(),
            recorded(records@, system_name@) == recorded(records@.skip(i as int), system_name@),
        decreases records@.len() - i,
    {
        assert(records@.skip(i as int)[0] == records@[i as int]);
        assert(records@.skip(i as int).skip(1) =~= records@.skip(i as int + 1));
        if same_text(&records[i].system_name, system_name) {
            return Some(&records[i].full_name);
        }
        i += 1;
    }
    None
}

/// The system name that is tried for a full name at an attempt.
pub open spec fn candidate(full_name: Seq<char>, attempt: nat) -> Seq<char> {
    system_name_of(salted_of(full_name, attempt))
}

/// What the search for a system name came to.
#[derive(Debug, PartialEq, Eq)]
pub enum Located {
    /// The name that was given to the full name before.
    Found(String),
    /// A free name, which is to be recorded for the full name.
    Reserved(String),
    /// No name was given to the full name, and none was to be given.
    Nothing,
    /// Every name that may be tried is taken by others.
    Exhausted,
}

/// What the search for a system name comes to.
pub enum LocatedView {
    Found(Seq<char>),
    Reserved(Seq<char>),
    Nothing,
    Exhausted,
}

impl View for Located {
    type V = LocatedView;

    open spec fn view(&self) -> LocatedView {
        match self {
            Located::Found(name) => LocatedView::Found(name@),
            Located::Reserved(name) => LocatedView::Reserved(name@),
            Located::Nothing => LocatedView::Nothing,
            Located::Exhausted => LocatedView::Exhausted,
        }
    }
}

/// The search from an attempt on: a name that is recorded for the full name is taken, one that is
/// recorded for another is passed over, and at a free one the search ends.
pub open spec fn located_from(
    records: Seq<Record>,
    full_name: Seq<char>,
    create_if_missing: bool,
    attempt: nat,
) -> LocatedView
    decreases MAX_ATTEMPTS - attempt,
{
    if attempt >= MAX_ATTEMPTS {
        LocatedView::Exhausted
    } else {
        let name = candidate(full_name, attempt);
        match recorded(records, name) {
            Some(owner) => if owner == full_name {
                LocatedView::Found(name)
            } else {
                located_from(records, full_name, create_if_missing, attempt + 1)
            },
            None => if create_if_missing {
                LocatedView::Reserved(name)
            } else {
                LocatedView::Nothing
            },
        }
    }
}

/// The search for the system name of a full name.
pub open spec fn located(
    records: Seq<Record>,
    full_name: Seq<char>,
    create_if_missing: bool,
) -> LocatedView {
    located_from(records, full_name, create_if_missing, 0)
}

/// Looks for the system name of a full name among the records.
pub fn locate(records: &Vec<Record>, full_name: &str, create_if_missing: bool) -> (r: Located)
    ensures
        r@ == located(records@, full_name@, create_if_missing),
        r matches Located::Found(name) ==> portable(name@),
        r matches Located::Reserved(name) ==> portable(name@),
{
    let mut attempt: u32 = 0;
    while attempt < MAX_ATTEMPTS
        invariant
            attempt <= MAX_ATTEMPTS,
            located(records@, full_name@, create_if_missing) == located_from(
                records@,
                full_name@,
                create_if_missing,
                attempt as nat,
            ),
        decreases MAX_ATTEMPTS - attempt,
    {
        let system_name: String = derive_system_name(&salted(full_name, attempt));
        match find_record(records, &system_name) {
            Some(owner) => {
                if same_text(owner, full_name) {
                    return Located::Found(system_name);
                }
            },
            None => {
                if create_if_missing {
                    return Located::Reserved(system_name);
                }
                return Located::Nothing;
            },
        }
        attempt += 1;
    }
    Located::Exhausted
}

proof fn lemma_recorded_after(records: Seq<Record>, record: Record, name: Seq<char>)
    ensures
        recorded(records.push(record), name) == (match recorded(records, name) {
            Some(owner) => Some(owner),
            None => if record.system_name@ == name {
                Some(record.full_name@)
            } else {
                None
            },
        }),
    decreases records.len(),
{
    reveal_with_fuel(recorded, 2);
    if records.len() == 0 {
        assert(records.push(record).skip(1) =~= Seq::<Record>::empty());
    } else {
        assert(records.push(record)[0] == records[0]);
        assert(records.push(record).skip(1) =~= records.skip(1).push(record));
        lemma_recorded_after(records.skip(1), record, name);
    }
}

proof fn lemma_reserved_is_found(
    records: Seq<Record>,
    record: Record,
    create_if_missing: bool,
    attempt: nat,
)
    requires
        located_from(records, record.full_name@, true, attempt) == LocatedView::Reserved(
            record.system_name@,
        ),
    ensures
        located_from(records.push(record), record.full_name@, create_if_missing, attempt)
            == LocatedView::Found(record.system_name@),
    decreases MAX_ATTEMPTS - attempt,
{
    let name = candidate(record.full_name@, attempt);
    lemma_recorded_after(records, record, name);
    if recorded(records, name) is Some {
        lemma_reserved_is_found(records, record, create_if_missing, attempt + 1);
    }
}

/// Once the name that a search reserved is recorded, every later search for the same full name
/// finds that name, whether or not it may reserve one.
pub proof fn law_reserved_names_are_found_again(
    records: Seq<Record>,
    record: Record,
    create_if_missing: bool,
)
    requires
        located(records, record.full_name@, true) == LocatedView::Reserved(record.system_name@),
    ensures
        located(records.push(record), record.full_name@, create_if_missing) == LocatedView::Found(
            record.system_name@,
        ),
{
    lemma_reserved_is_found(records, record, create_if_missing, 0);
}

proof fn lemma_found_is_recorded(
    records: Seq<Record>,
    full_name: Seq<char>,
    create_if_missing: bool,
    attempt: nat,
    name: Seq<char>,
)
    requires
        located_from(records, full_name, create_if_missing, attempt) == LocatedView::Found(name),
    ensures
        recorded(records, name) == Some(full_name),
    decreases MAX_ATTEMPTS - attempt,
{
    let tried = candidate(full_name, attempt);
    if recorded(records, tried) != Some(full_name) {
        lemma_found_is_recorded(records, full_name, create_if_missing, attempt + 1, name);
    }
}

/// No two full names share a system name.
pub proof fn law_system_names_are_not_shared(
    records: Seq<Record>,
    a: Seq<char>,
    b: Seq<char>,
    a_creates: bool,
    b_creates: bool,
    name: Seq<char>,
)
    requires
        located(records, a, a_creates) == LocatedView::Found(name),
        located(records, b, b_creates) == LocatedView::Found(name),
    ensures
        a == b,
{
    lemma_found_is_recorded(records, a, a_creates, 0, name);
    lemma_found_is_recorded(records, b, b_creates, 0, name);
}

proof fn lemma_reserved_is_free(
    records: Seq<Record>,
    full_name: Seq<char>,
    attempt: nat,
    name: Seq<char>,
)
    requires
        located_from(records, full_name, true, attempt) == LocatedView::Reserved(name),
    ensures
        recorded(records, name) is None,
    decreases MAX_ATTEMPTS - attempt,
{
    let tried = candidate(full_name, attempt);
    if recorded(records, tried) is Some {
        lemma_reserved_is_free(records, full_name, attempt + 1, name);
    }
}

/// A name that is reserved was free.
pub proof fn law_reserved_names_were_free(
    records: Seq<Record>,
    full_name: Seq<char>,
    name: Seq<char>,
)
    requires
        located(records, full_name, true) == LocatedView::Reserved(name),
    ensures
        recorded(records, name) is None,
{
    lemma_reserved_is_free(records, full_name, 0, name);
}

/// Recording a reserved name takes no name away from anyone who has one.
pub proof fn law_reserving_keeps_what_others_have(
    records: Seq<Record>,
    record: Record,
    other: Seq<char>,
)
    requires
        located(records, record.full_name@, true) == LocatedView::Reserved(record.system_name@),
        recorded(records, other) is Some,
    ensures
        recorded(records.push(record), other) == recorded(records, other),
{
    lemma_recorded_after(records, record, other);
}

/// A search that may reserve a name never comes back with nothing.
pub proof fn law_reserving_never_comes_back_empty(records: Seq<Record>, full_name: Seq<char>)
    ensures
        located(records, full_name, true) !is Nothing,
{
    lemma_reserving_from(records, full_name, 0);
}

proof fn lemma_reserving_from(records: Seq<Record>, full_name: Seq<char>, attempt: nat)
    ensures
        located_from(records, full_name, true, attempt) !is Nothing,
    decreases MAX_ATTEMPTS - attempt,
{
    if attempt < MAX_ATTEMPTS {
        lemma_reserving_from(records, full_name, attempt + 1);
    }
}

/// The credential for a full name whose system name was searched for, given what the system says
/// of that name: whether there is such a user or group, and its id.
pub fn find_credential(
    full_name: &str,
    found: Located,
    kind: Kind,
    there: bool,
    id: Option<u32>,
) -> (r: Result<Option<Credential>, RolodexError>)
    ensures
        match found {
            Located::Exhausted => r matches Err(RolodexError::ExhaustedNameSpace(name)) && name@
                == full_name@,
            Located::Nothing => r matches Ok(None),
            Located::Found(system_name) | Located::Reserved(system_name) => if !there {
                r matches Ok(None)
            } else {
                match id {
                    None => r == Err::<Option<Credential>, RolodexError>(
                        RolodexError::NotFound { kind, system_name },
                    ),
                    Some(id) => r matches Ok(Some(credential)) && credential.id == id
                        && credential.full_name@ == full_name@ && credential.system_name
                        == system_name,
                }
            },
        },
{
    let system_name: String = match found {
        Located::Exhausted => return Err(
            RolodexError::ExhaustedNameSpace(full_name.to_owned()),
        ),
        Located::Nothing => return Ok(None),
        Located::Found(system_name) => system_name,
        Located::Reserved(system_name) => system_name,
    };
    if !there {
        return Ok(None);
    }
    match id {
        None => Err(RolodexError::NotFound { kind, system_name }),
        Some(id) => Ok(Some(Credential { id, full_name: full_name.to_owned(), system_name })),
    }
}

/// The account whose group and user were looked up: there is one only where both are there.
pub fn find_service_account(group: Option<Credential>, user: Option<Credential>) -> (r: Option<
    ServiceAccount,
>)
    ensures
        r == (match (group, user) {
            (Some(group), Some(user)) => Some(ServiceAccount { user, group }),
            _ => None,
        }),
{
    match (group, user) {
        (Some(group), Some(user)) => Some(ServiceAccount { user, group }),
        _ => None,
    }
}

/// The full name of the group that shares a mount.
pub open spec fn share_full_name_of(owner: Seq<char>, share: Seq<char>) -> Seq<char> {
    owner + ":"@ + share
}

/// The full name of the group that shares a mount.
pub fn share_full_name(owner_full_name: &str, share_name: &str) -> (r: String)
    ensures
        r@ == share_full_name_of(owner_full_name@, share_name@),
{
    cat3(owner_full_name, ":", share_name)
}

/// What is to be done so that a user or group with a reserved system name is there.
#[derive(Debug, PartialEq, Eq)]
pub enum AccountAction<'a> {
    /// Make the group.
    CreateGroup { system_name: &'a String },
    /// Make the user with its primary group and further groups.
    CreateUser { system_name: &'a String, primary_group: &'a String, groups: &'a Vec<String> },
    /// Ask for the id of what is there already.
    GetId { kind: Kind, system_name: &'a String },
    /// Give the user its primary group.
    SetPrimaryGroup { system_name: &'a String, group: &'a String },
    /// Add the user to a group.
    JoinGroup { system_name: &'a String, group: &'a String },
    /// Keep a record that the system name is given to the full name.
    Record { kind: Kind, system_name: &'a String, full_name: &'a String },
}

/// What is to be done so that a group is there.
pub fn get_or_create_group<'a>(system_name: &'a String, there: bool) -> (r: AccountAction<'a>)
    ensures
        r == (if there {
            AccountAction::GetId { kind: Kind::Group, system_name }
        } else {
            AccountAction::CreateGroup { system_name }
        }),
{
    if there {
        AccountAction::GetId { kind: Kind::Group, system_name }
    } else {
        AccountAction::CreateGroup { system_name }
    }
}

/// What is to be done, in this order, so that a user is there with its groups: a user that is
/// there keeps its id and gets its primary group again and then each further group.
pub open spec fn user_actions<'a>(
    system_name: &'a String,
    there: bool,
    primary_group: &'a String,
    groups: &'a Vec<String>,
) -> Seq<AccountAction<'a>> {
    if there {
        seq![
            AccountAction::GetId { kind: Kind::User, system_name },
            AccountAction::SetPrimaryGroup { system_name, group: primary_group },
        ] + Seq::new(
            groups@.len(),
            |i: int| AccountAction::JoinGroup { system_name, group: &groups@[i] },
        )
    } else {
        seq![AccountAction::CreateUser { system_name, primary_group, groups }]
    }
}

/// What is to be done, in order, so that a user is there with its groups.
pub fn get_or_create_user<'a>(
    system_name: &'a String,
    there: bool,
    primary_group: &'a String,
    groups: &'a Vec<String>,
) -> (r: Vec<AccountAction<'a>>)
    ensures
        r@ == user_actions(system_name, there, primary_group, groups),
{
    let mut actions: Vec<AccountAction<'a>> = Vec::new();
    if !there {
        actions.push(AccountAction::CreateUser { system_name, primary_group, groups });
        return actions;
    }
    actions.push(AccountAction::GetId { kind: Kind::User, system_name });
    actions.push(AccountAction::SetPrimaryGroup { system_name, group: primary_group });
    let ghost head = actions@;
    let mut i: usize = 0;
    while i < groups.len()
        invariant
            i <= groups@.len(),
            head.len() == 2,
            actions@ == head + Seq::new(
                i as nat,
                |j: int| AccountAction::JoinGroup { system_name, group: &groups@[j] },
            ),
        decreases groups@.len() - i,
    {
        actions.push(AccountAction::JoinGroup { system_name, group: &groups[i] });
        i += 1;
        assert(actions@ =~= head + Seq::new(
            i as nat,
            |j: int| AccountAction::JoinGroup { system_name, group: &groups@[j] },
        ));
    }
    assert(actions@ =~= user_actions(system_name, there, primary_group, groups));
    actions
}

/// The users that join the group of a share, in the order of the guests, up to the first guest
/// that has none; and that guest's error, if there is one.
#[derive(Debug, PartialEq, Eq)]
pub struct GuestJoins {
    pub system_names: Vec<String>,
    pub error: Option<RolodexError>,
}

/// Whether a guest has a system name, and which.
pub open spec fn guest_user(users: Seq<Record>, guest: Seq<char>) -> LocatedView {
    located(users, guest, false)
}

/// Looks up the users of the guests of a share. The guests before the first one without a user
/// join; that one ends the search.
pub fn guest_joins(users: &Vec<Record>, guest_full_names: &Vec<String>) -> (r: GuestJoins)
    ensures
        r.system_names@.len() <= guest_full_names@.len(),
        forall|i: int|
            0 <= i < r.system_names@.len() ==> guest_user(
                users@,
                (#[trigger] guest_full_names@[i])@,
            ) == LocatedView::Found(r.system_names@[i]@),
        r.error is None == (r.system_names@.len() == guest_full_names@.len()),
        r.error matches Some(error) ==> {
            let guest = guest_full_names@[r.system_names@.len() as int];
            match guest_user(users@, guest@) {
                LocatedView::Exhausted => error matches RolodexError::ExhaustedNameSpace(name)
                    && name@ == guest@,
                _ => guest_user(users@, guest@) is Nothing && error == RolodexError::UnknownGuest(
                    guest,
                ),
            }
        },
{
    let mut system_names: Vec<String> = Vec::new();
    let mut i: usize = 0;
    while i < guest_full_names.len()
        invariant
            i <= guest_full_names@.len(),
            system_names@.len() == i,
            forall|j: int|
                0 <= j < i ==> guest_user(users@, (#[trigger] guest_full_names@[j])@)
                    == LocatedView::Found(system_names@[j]@),
        decreases guest_full_names@.len() - i,
    {
        let guest: &String = &guest_full_names[i];
        match locate(users, guest, false) {
            Located::Found(name) => {
                system_names.push(name);
            },
            Located::Reserved(_) => {
                proof {
                    lemma_finding_never_reserves(users@, guest@, 0);
                }
                return GuestJoins {
                    system_names,
                    error: Some(RolodexError::UnknownGuest(guest.clone())),
                };
            },
            Located::Nothing => {
                return GuestJoins {
                    system_names,
                    error: Some(RolodexError::UnknownGuest(guest.clone())),
                };
            },
            Located::Exhausted => {
                return GuestJoins {
                    system_names,
                    error: Some(RolodexError::ExhaustedNameSpace(guest.clone())),
                };
            },
        }
        i += 1;
    }
    GuestJoins { system_names, error: None }
}

/// What is done, in this order, to give somebody a user or a group; and the error that ends it, if
/// there is one.
#[derive(Debug, PartialEq, Eq)]
pub struct AccountPlan<'a> {
    pub actions: Vec<AccountAction<'a>>,
    pub error: Option<RolodexError>,
}

/// The system name that a search came to.
pub open spec fn name_in(found: Located) -> Option<String> {
    match found {
        Located::Found(name) | Located::Reserved(name) => Some(name),
        _ => None,
    }
}

/// The record that is kept of what a search came to: one of a name that was free.
pub open spec fn recording<'a>(kind: Kind, full_name: &'a String, found: &'a Located) -> Seq<
    AccountAction<'a>,
> {
    match found {
        Located::Reserved(system_name) => seq![
            AccountAction::Record { kind, system_name, full_name },
        ],
        _ => Seq::empty(),
    }
}

/// What is done to give somebody a group: a free name is recorded before the group is made.
pub open spec fn group_actions<'a>(full_name: &'a String, found: &'a Located, there: bool) -> Seq<
    AccountAction<'a>,
> {
    match name_in(*found) {
        None => Seq::empty(),
        Some(system_name) => recording(Kind::Group, full_name, found).push(
            if there {
                AccountAction::GetId { kind: Kind::Group, system_name: &system_name }
            } else {
                AccountAction::CreateGroup { system_name: &system_name }
            },
        ),
    }
}

fn name_of<'a>(found: &'a Located) -> (r: Option<&'a String>)
    ensures
        match r {
            Some(name) => name_in(*found) == Some(*name),
            None => name_in(*found) is None,
        },
{
    match found {
        Located::Found(name) => Some(name),
        Located::Reserved(name) => Some(name),
        _ => None,
    }
}

fn push_recording<'a>(
    actions: &mut Vec<AccountAction<'a>>,
    kind: Kind,
    full_name: &'a String,
    found: &'a Located,
)
    ensures
        final(actions)@ == old(actions)@ + recording(kind, full_name, found),
{
    let ghost before = actions@;
    if let Located::Reserved(system_name) = found {
        actions.push(AccountAction::Record { kind, system_name, full_name });
    }
    assert(actions@ =~= before + recording(kind, full_name, found));
}

/// Gives somebody a group and then a user with that group as its primary one and the further groups
/// beside it. The names of both were searched for, and the system was asked whether they are
/// there. Where every name for the group, or for the user, is taken by others, nothing is done from
/// there on.
pub fn create_service_account<'a>(
    full_name: &'a String,
    group: &'a Located,
    group_there: bool,
    user: &'a Located,
    user_there: bool,
    further_groups: &'a Vec<String>,
) -> (r: AccountPlan<'a>)
    ensures
        r.error is None <==> name_in(*group) is Some && name_in(*user) is Some,
        r.error matches Some(error) ==> error == RolodexError::ExhaustedNameSpace(*full_name),
        r.actions@ == group_actions(full_name, group, group_there) + (match (
            name_in(*group),
            name_in(*user),
        ) {
            (Some(group_name), Some(user_name)) => recording(Kind::User, full_name, user)
                + user_actions(&user_name, user_there, &group_name, further_groups),
            _ => Seq::empty(),
        }),
{
    let mut actions: Vec<AccountAction<'a>> = Vec::new();
    let group_name: &'a String = match name_of(group) {
        None => {
            assert(actions@ =~= group_actions(full_name, group, group_there) + Seq::empty());
            return AccountPlan {
                actions,
                error: Some(RolodexError::ExhaustedNameSpace(full_name.clone())),
            };
        },
        Some(name) => name,
    };
    push_recording(&mut actions, Kind::Group, full_name, group);
    actions.push(get_or_create_group(group_name, group_there));
    assert(actions@ =~= group_actions(full_name, group, group_there));
    let user_name: &'a String = match name_of(user) {
        None => {
            assert(actions@ =~= group_actions(full_name, group, group_there) + Seq::empty());
            return AccountPlan {
                actions,
                error: Some(RolodexError::ExhaustedNameSpace(full_name.clone())),
            };
        },
        Some(name) => name,
    };
    push_recording(&mut actions, Kind::User, full_name, user);
    let mut of_user: Vec<AccountAction<'a>> = get_or_create_user(
        user_name,
        user_there,
        group_name,
        further_groups,
    );
    actions.append(&mut of_user);
    assert(actions@ =~= group_actions(full_name, group, group_there) + (recording(
        Kind::User,
        full_name,
        user,
    ) + user_actions(user_name, user_there, group_name, further_groups)));
    AccountPlan { actions, error: None }
}

/// Gives a share its group and lets the guests join it. The guests before the first one without a
/// user join; that one's error ends it.
pub fn create_share_group<'a>(
    share_full_name: &'a String,
    group: &'a Located,
    group_there: bool,
    guests: &'a GuestJoins,
) -> (r: AccountPlan<'a>)
    ensures
        match name_in(*group) {
            None => r.actions@.len() == 0 && r.error == Some(
                RolodexError::ExhaustedNameSpace(*share_full_name),
            ),
            Some(group_name) => r.error == guests.error && r.actions@ == group_actions(
                share_full_name,
                group,
                group_there,
            ) + Seq::new(
                guests.system_names@.len(),
                |i: int|
                    AccountAction::JoinGroup {
                        system_name: &guests.system_names@[i],
                        group: &group_name,
                    },
            ),
        },
{
    let mut actions: Vec<AccountAction<'a>> = Vec::new();
    let group_name: &'a String = match name_of(group) {
        None => {
            return AccountPlan {
                actions,
                error: Some(RolodexError::ExhaustedNameSpace(share_full_name.clone())),
            };
        },
        Some(name) => name,
    };
    push_recording(&mut actions, Kind::Group, share_full_name, group);
    actions.push(get_or_create_group(group_name, group_there));
    let ghost head = actions@;
    assert(head =~= group_actions(share_full_name, group, group_there));
    let mut i: usize = 0;
    while i < guests.system_names.len()
        invariant
            i <= guests.system_names@.len(),
            actions@ == head + Seq::new(
                i as nat,
                |j: int|
                    AccountAction::JoinGroup {
                        system_name: &guests.system_names@[j],
                        group: group_name,
                    },
            ),
        decreases guests.system_names@.len() - i,
    {
        actions.push(
            AccountAction::JoinGroup { system_name: &guests.system_names[i], group: group_name },
        );
        i += 1;
        assert(actions@ =~= head + Seq::new(
            i as nat,
            |j: int|
                AccountAction::JoinGroup {
                    system_name: &guests.system_names@[j],
                    group: group_name,
                },
        ));
    }
    let error: Option<RolodexError> = match &guests.error {
        Some(error) => Some(error.clone()),
        None => None,
    };
    AccountPlan { actions, error }
}

/// A name that was free is recorded before anything else is done with it, be it for a group or for
/// a user.
pub proof fn law_names_are_recorded_before_use<'a>(
    full_name: &'a String,
    found: &'a Located,
    there: bool,
    system_name: &'a String,
    primary_group: &'a String,
    groups: &'a Vec<String>,
)
    requires
        *found == Located::Reserved(*system_name),
    ensures
        group_actions(full_name, found, there)[0] == (AccountAction::Record {
            kind: Kind::Group,
            system_name,
            full_name,
        }),
        (recording(Kind::User, full_name, found) + user_actions(
            system_name,
            there,
            primary_group,
            groups,
        ))[0] == (AccountAction::Record { kind: Kind::User, system_name, full_name }),
{
}

proof fn lemma_finding_never_reserves(records: Seq<Record>, full_name: Seq<char>, attempt: nat)
    ensures
        located_from(records, full_name, false, attempt) !is Reserved,
    decreases MAX_ATTEMPTS - attempt,
{
    if attempt < MAX_ATTEMPTS {
        lemma_finding_never_reserves(records, full_name, attempt + 1);
    }
}

/// Looking a name up reserves nothing.
pub proof fn law_finding_reserves_nothing(records: Seq<Record>, full_name: Seq<char>)
    ensures
        located(records, full_name, false) !is Reserved,
{
    lemma_finding_never_reserves(records, full_name, 0);
}

/// A system name belongs to the full name of the first record of it.
pub proof fn law_the_first_record_counts(records: Seq<Record>, system_name: Seq<char>, i: int)
    requires
        0 <= i < records.len(),
        forall|j: int| 0 <= j < i ==> (#[trigger] records[j]).system_name@ != system_name,
    ensures
        records[i].system_name@ == system_name ==> recorded(records, system_name) == Some(
            records[i].full_name@,
        ),
        i == records.len() - 1 && records[i].system_name@ != system_name ==> recorded(
            records,
            system_name,
        ) is None,
    decreases i,
{
    if i > 0 {
        assert(records[0].system_name@ != system_name);
        let rest = records.skip(1);
        assert forall|j: int| 0 <= j < i - 1 implies (#[trigger] rest[j]).system_name@
            != system_name by {
            assert(rest[j] == records[j + 1]);
        }
        assert(rest[i - 1] == records[i]);
        law_the_first_record_counts(rest, system_name, i - 1);
    } else {
        reveal_with_fuel(recorded, 2);
    }
}

/// A search takes the first name that is not somebody else's: all names before it are recorded for
/// others. Where it is recorded for the full name it was found; where it is free it is reserved, or
/// nothing comes of a search that may not reserve; and where every name is somebody else's, the
/// search is exhausted.
pub proof fn law_searches_take_the_first_name_that_is_not_anothers(
    records: Seq<Record>,
    full_name: Seq<char>,
    create_if_missing: bool,
) -> (at: nat)
    ensures
        at <= MAX_ATTEMPTS,
        forall|k: nat|
            k < at ==> (recorded(records, #[trigger] candidate(full_name, k)) matches Some(owner)
                && owner != full_name),
        match located(records, full_name, create_if_missing) {
            LocatedView::Found(name) => at < MAX_ATTEMPTS && name == candidate(full_name, at)
                && recorded(records, name) == Some(full_name),
            LocatedView::Reserved(name) => at < MAX_ATTEMPTS && create_if_missing && name
                == candidate(full_name, at) && recorded(records, name) is None,
            LocatedView::Nothing => at < MAX_ATTEMPTS && !create_if_missing && recorded(
                records,
                candidate(full_name, at),
            ) is None,
            LocatedView::Exhausted => at == MAX_ATTEMPTS,
        },
{
    lemma_search_from(records, full_name, create_if_missing, 0)
}

proof fn lemma_search_from(
    records: Seq<Record>,
    full_name: Seq<char>,
    create_if_missing: bool,
    attempt: nat,
) -> (at: nat)
    requires
        attempt <= MAX_ATTEMPTS,
        forall|k: nat|
            k < attempt ==> (recorded(records, #[trigger] candidate(full_name, k)) matches Some(
                owner,
            ) && owner != full_name),
    ensures
        attempt <= at <= MAX_ATTEMPTS,
        forall|k: nat|
            k < at ==> (recorded(records, #[trigger] candidate(full_name, k)) matches Some(owner)
                && owner != full_name),
        match located_from(records, full_name, create_if_missing, attempt) {
            LocatedView::Found(name) => at < MAX_ATTEMPTS && name == candidate(full_name, at)
                && recorded(records, name) == Some(full_name),
            LocatedView::Reserved(name) => at < MAX_ATTEMPTS && create_if_missing && name
                == candidate(full_name, at) && recorded(records, name) is None,
            LocatedView::Nothing => at < MAX_ATTEMPTS && !create_if_missing && recorded(
                records,
                candidate(full_name, at),
            ) is None,
            LocatedView::Exhausted => at == MAX_ATTEMPTS,
        },
    decreases MAX_ATTEMPTS - attempt,
{
    if attempt >= MAX_ATTEMPTS {
        attempt
    } else {
        match recorded(records, candidate(full_name, attempt)) {
            Some(owner) => if owner == full_name {
                attempt
            } else {
                lemma_search_from(records, full_name, create_if_missing, attempt + 1)
            },
            None => attempt,
        }
    }
}

/// A user that is not there is made with all its groups at once; one that is there keeps its id,
/// gets its primary group, and joins each further group, in order.
pub proof fn law_users_get_all_their_groups<'a>(
    system_name: &'a String,
    there: bool,
    primary_group: &'a String,
    groups: &'a Vec<String>,
    i: int,
)
    ensures
        ({
            let actions = user_actions(system_name, there, primary_group, groups);
            &&& !there ==> actions == seq![
                AccountAction::CreateUser { system_name, primary_group, groups },
            ]
            &&& there ==> {
                &&& actions.len() == 2 + groups@.len()
                &&& actions[0] == (AccountAction::GetId { kind: Kind::User, system_name })
                &&& actions[1] == (AccountAction::SetPrimaryGroup {
                    system_name,
                    group: primary_group,
                })
                &&& 0 <= i < groups@.len() ==> actions[2 + i] == (AccountAction::JoinGroup {
                    system_name,
                    group: &groups@[i],
                })
            }
        }),
{
}

/// A group is made where it is not there, under the name that the search came to, and a name is
/// recorded exactly where it was free. Where the search came to no name, nothing is done.
pub proof fn law_groups_are_made_once<'a>(full_name: &'a String, found: &'a Located, there: bool)
    ensures
        ({
            let actions = group_actions(full_name, found, there);
            match *found {
                Located::Found(name) => actions == seq![
                    if there {
                        AccountAction::GetId { kind: Kind::Group, system_name: &name }
                    } else {
                        AccountAction::CreateGroup { system_name: &name }
                    },
                ],
                Located::Reserved(name) => actions == seq![
                    AccountAction::Record { kind: Kind::Group, system_name: &name, full_name },
                    if there {
                        AccountAction::GetId { kind: Kind::Group, system_name: &name }
                    } else {
                        AccountAction::CreateGroup { system_name: &name }
                    },
                ],
                Located::Nothing | Located::Exhausted => actions.len() == 0,
            }
        }),
        recording(Kind::User, full_name, found) == (match *found {
            Located::Reserved(name) => seq![
                AccountAction::Record { kind: Kind::User, system_name: &name, full_name },
            ],
            _ => Seq::empty(),
        }),
{
}

/// The groups of different shares have different full names, and none has that of its owner.
pub proof fn law_shares_are_told_apart(
    owner: Seq<char>,
    share: Seq<char>,
    other_owner: Seq<char>,
    other_share: Seq<char>,
)
    requires
        !owner.contains(':'),
        !other_owner.contains(':'),
        share_full_name_of(owner, share) == share_full_name_of(other_owner, other_share),
    ensures
        owner == other_owner,
        share == other_share,
        share_full_name_of(owner, share) != owner,
{
    reveal_strlit(":");
    let s = share_full_name_of(owner, share);
    let t = share_full_name_of(other_owner, other_share);
    assert(s[owner.len() as int] == ':');
    assert(t[other_owner.len() as int] == ':');
    if owner.len() < other_owner.len() {
        assert(t[owner.len() as int] == other_owner[owner.len() as int]);
    }
    if other_owner.len() < owner.len() {
        assert(s[other_owner.len() as int] == owner[other_owner.len() as int]);
    }
    assert(owner =~= s.take(owner.len() as int));
    assert(other_owner =~= t.take(owner.len() as int));
    assert(share =~= s.skip(owner.len() as int + 1));
    assert(other_share =~= t.skip(owner.len() as int + 1));
}

} // verus!
