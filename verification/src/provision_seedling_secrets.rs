//! Giving a seedling access to its own secrets, and taking it away.
//!
//! A seedling that asks for secrets gets a policy and a role in OpenBao, and an agent beside it
//! that logs in with the role's credentials and answers on a private network.

use crate::docker::{Ipv4, Ipv4Subnet};
use crate::document::{
    field, flag, json_of, lemma_entry_at, list1, record1, record2, record3, record5, text, to_json, well_keyed, Document,
    DocumentView,
};
use crate::names::{
    container_name, container_name_of, is_name_char, name_behind, name_from_prefixed, openbao,
    valid_name, ContainerName, Name, OPENBAO,
};
use crate::paths::{
    join, joined, law_seedlings_have_their_places, mount_of, DouglasFolders,
};
use crate::seedling::{Id, SecretsAccess, SeedlingDefinition};
use crate::text::{
    all_digits, cat2, cat3, cat4, cat5, decimal, decimal_text, is_digit, law_decimal_is_injective,
    lemma_decimal_is_digits,
};
use vstd::prelude::*;

verus! {

pub const AGENT_MOUNT_NAME: &'static str = "openbao-agent";

pub const AGENT_CONTAINER_MOUNT_PATH: &'static str = "/etc/openbao-agent";

pub const ROLE_ID_FILE_NAME: &'static str = "role_id";

pub const SECRET_ID_FILE_NAME: &'static str = "secret_id";

pub const AGENT_CONFIG_FILE_NAME: &'static str = "agent.json";

pub const SEEDLING_APPROLE_PREFIX: &'static str = "seedling.";

/// The port on which OpenBao answers.
pub const API_PORT: u16 = 8201;

/// The port on which a seedling's agent answers.
pub const AGENT_LOCAL_PROXY_PORT: u16 = 8100;

/// Why a seedling could not be given its secrets.
#[derive(Debug)]
pub enum ProvisionSeedlingSecretsError {
    Serialization(serde_json::Error),
    MissingSeedlingId,
}

/// What a seedling's agent logs in with.
#[derive(Debug, PartialEq, Eq)]
pub struct SeedlingCredentials {
    pub role_id: String,
    pub secret_id: String,
}

/// What a policy allows to be done with a secret.
#[derive(Debug, Clone, Copy, PartialEq, Eq, Structural)]
pub enum Capability {
    Create,
    Read,
    Update,
    Delete,
    List,
}

/// The full name of the account that a seedling's agent runs as.
pub fn agent_account_full_name(seedling_name: &Name) -> (r: String)
    ensures
        r@ == seedling_name@ + "-openbao-agent"@,
{
    cat2(seedling_name.as_str(), "-openbao-agent")
}

/// The name of a seedling's role and of its policy.
pub open spec fn approle_name_of(seedling: Seq<char>) -> Seq<char> {
    SEEDLING_APPROLE_PREFIX@ + seedling
}

/// The name of a seedling's role and of its policy.
pub fn approle_name(seedling_name: &Name) -> (r: String)
    ensures
        r@ == approle_name_of(seedling_name@),
{
    cat2(SEEDLING_APPROLE_PREFIX, seedling_name.as_str())
}

/// The seedling that a role belongs to, if any.
pub fn seedling_name_from_approle(role_name: &str) -> (r: Option<Name>)
    ensures
        r is Some == name_behind(role_name@, SEEDLING_APPROLE_PREFIX@) is Some,
        r matches Some(name) ==> Some(name@) == name_behind(role_name@, SEEDLING_APPROLE_PREFIX@),
{
    name_from_prefixed(role_name, SEEDLING_APPROLE_PREFIX)
}

/// The role of a seedling leads back to it.
pub proof fn law_approle_names_lead_back(seedling: Seq<char>)
    requires
        valid_name(seedling),
    ensures
        name_behind(approle_name_of(seedling), SEEDLING_APPROLE_PREFIX@) == Some(seedling),
{
    let s = approle_name_of(seedling);
    let n = SEEDLING_APPROLE_PREFIX@.len() as int;
    assert(s.subrange(0, n) =~= SEEDLING_APPROLE_PREFIX@);
    assert(s.skip(n) =~= seedling);
}

/// What may be done with the secrets themselves.
pub open spec fn data_rights(access: SecretsAccess) -> Seq<Capability> {
    (if access.read {
        seq![Capability::Read, Capability::List]
    } else {
        Seq::empty()
    }) + (if access.write {
        seq![Capability::Create, Capability::Update, Capability::Delete]
    } else {
        Seq::empty()
    })
}

/// What may be done with the secrets' descriptions.
pub open spec fn metadata_rights(access: SecretsAccess) -> Seq<Capability> {
    (if access.read {
        seq![Capability::Read, Capability::List]
    } else {
        Seq::empty()
    }) + (if access.write {
        seq![Capability::Delete]
    } else {
        Seq::empty()
    })
}

/// What may be done with the secrets themselves.
pub fn data_capabilities(access: SecretsAccess) -> (r: Vec<Capability>)
    ensures
        r@ == data_rights(access),
{
    let mut result: Vec<Capability> = Vec::new();
    if access.read {
        result.push(Capability::Read);
        result.push(Capability::List);
    }
    if access.write {
        result.push(Capability::Create);
        result.push(Capability::Update);
        result.push(Capability::Delete);
    }
    assert(result@ =~= data_rights(access));
    result
}

/// What may be done with the secrets' descriptions.
pub fn metadata_capabilities(access: SecretsAccess) -> (r: Vec<Capability>)
    ensures
        r@ == metadata_rights(access),
{
    let mut result: Vec<Capability> = Vec::new();
    if access.read {
        result.push(Capability::Read);
        result.push(Capability::List);
    }
    if access.write {
        result.push(Capability::Delete);
    }
    assert(result@ =~= metadata_rights(access));
    result
}

/// A seedling without write access can change nothing, and none has more rights over the
/// descriptions than over the secrets.
pub proof fn law_capabilities_keep_to_the_access(access: SecretsAccess, c: Capability)
    ensures
        !access.write ==> !data_rights(access).contains(Capability::Create)
            && !data_rights(access).contains(Capability::Update) && !data_rights(access).contains(
            Capability::Delete,
        ),
        !access.read ==> !data_rights(access).contains(Capability::Read) && !data_rights(
            access,
        ).contains(Capability::List),
        metadata_rights(access).contains(c) ==> data_rights(access).contains(c),
{
    let data = data_rights(access);
    let metadata = metadata_rights(access);
    if metadata.contains(c) {
        let i = choose|i: int| 0 <= i < metadata.len() && metadata[i] == c;
        if access.read && i < 2 {
            assert(data[i] == c);
        } else {
            assert(data.last() == c);
        }
    }
}

/// The rules of a policy: each path and what may be done below it.
#[derive(Debug, PartialEq, Eq)]
pub struct PolicyRule {
    pub path: String,
    pub capabilities: Vec<Capability>,
}

/// The folder that holds a seedling's secrets.
pub open spec fn data_folder(seedling: Seq<char>) -> Seq<char> {
    "kv/data/"@ + seedling + "/"@
}

/// The folder that holds what describes a seedling's secrets.
pub open spec fn metadata_folder(seedling: Seq<char>) -> Seq<char> {
    "kv/metadata/"@ + seedling + "/"@
}

/// The rules that keep a seedling to its own secrets: what it may do with everything in the two
/// folders that are its own.
pub fn policy_document(seedling_name: &Name, access: SecretsAccess) -> (r: Vec<PolicyRule>)
    ensures
        r@.len() == 2,
        r@[0].path@ == data_folder(seedling_name@) + "*"@,
        r@[0].capabilities@ == data_rights(access),
        r@[1].path@ == metadata_folder(seedling_name@) + "*"@,
        r@[1].capabilities@ == metadata_rights(access),
{
    vec![
        PolicyRule {
            path: cat4("kv/data/", seedling_name.as_str(), "/", "*"),
            capabilities: data_capabilities(access),
        },
        PolicyRule {
            path: cat4("kv/metadata/", seedling_name.as_str(), "/", "*"),
            capabilities: metadata_capabilities(access),
        },
    ]
}

proof fn lemma_folders_are_apart(prefix: Seq<char>, a: Seq<char>, b: Seq<char>, rest: Seq<char>)
    requires
        valid_name(a),
        valid_name(b),
        a != b,
    ensures
        !(prefix + a + "/"@).is_prefix_of(prefix + b + "/"@ + rest),
{
    reveal_strlit("/");
    let folder = prefix + a + "/"@;
    let path = prefix + b + "/"@ + rest;
    if folder.is_prefix_of(path) {
        assert(folder =~= path.subrange(0, folder.len() as int));
        let n = prefix.len() as int;
        if a.len() < b.len() {
            assert(folder[n + a.len()] == '/');
            assert(path[n + a.len()] == b[a.len() as int]);
            assert(is_name_char(b[a.len() as int]));
        } else if b.len() < a.len() {
            assert(path[n + b.len()] == '/');
            assert(folder[n + b.len()] == a[b.len() as int]);
            assert(is_name_char(a[b.len() as int]));
        } else {
            assert forall|i: int| 0 <= i < a.len() implies a[i] == b[i] by {
                assert(folder[n + i] == a[i]);
                assert(path[n + i] == b[i]);
            }
            assert(a =~= b);
        }
    }
}

/// What lies in the folders of one seedling does not lie in those of another, so that no
/// seedling's rules reach what belongs to another.
pub proof fn law_policies_keep_seedlings_apart(a: Seq<char>, b: Seq<char>, rest: Seq<char>)
    requires
        valid_name(a),
        valid_name(b),
        a != b,
    ensures
        !data_folder(a).is_prefix_of(data_folder(b) + rest),
        !data_folder(a).is_prefix_of(metadata_folder(b) + rest),
        !metadata_folder(a).is_prefix_of(metadata_folder(b) + rest),
        !metadata_folder(a).is_prefix_of(data_folder(b) + rest),
{
    reveal_strlit("kv/data/");
    reveal_strlit("kv/metadata/");
    reveal_strlit("/");
    lemma_folders_are_apart("kv/data/"@, a, b, rest);
    lemma_folders_are_apart("kv/metadata/"@, a, b, rest);
    assert(data_folder(a)[3] == 'd' && (data_folder(b) + rest)[3] == 'd');
    assert(metadata_folder(a)[3] == 'm' && (metadata_folder(b) + rest)[3] == 'm');
    assert((metadata_folder(b) + rest).subrange(0, data_folder(a).len() as int)[3] == 'm'
        || data_folder(a).len() > (metadata_folder(b) + rest).len());
    assert((data_folder(b) + rest).subrange(0, metadata_folder(a).len() as int)[3] == 'd'
        || metadata_folder(a).len() > (data_folder(b) + rest).len());
}

/// How far the granting of a role has come.
#[derive(Debug, PartialEq, Eq)]
pub struct ProvisionProgress {
    pub policy_created: bool,
    pub role_exists: Option<bool>,
    pub role_created: bool,
    pub accessors: Option<Vec<String>>,
    pub destroyed: usize,
    pub role_id: Option<String>,
    pub secret_id: Option<String>,
}

/// What OpenBao is to be told or asked next.
#[derive(Debug, PartialEq, Eq)]
pub enum ProvisionCall<'a> {
    CreatePolicy,
    AskRoleExists,
    CreateRole,
    ListAccessors,
    DestroyAccessor(&'a String),
    GetRoleId,
    CreateSecretId,
    Finished { role_id: &'a String, secret_id: &'a String },
}

/// The next call: the policy comes first, then the role unless it is there, then every secret that
/// was issued before is destroyed, and only then the role's id is read and a new secret made.
pub open spec fn provision_call(p: ProvisionProgress) -> ProvisionCall<'static> {
    if !p.policy_created {
        ProvisionCall::CreatePolicy
    } else if p.role_exists is None {
        ProvisionCall::AskRoleExists
    } else if p.role_exists == Some(false) && !p.role_created {
        ProvisionCall::CreateRole
    } else if p.accessors is None {
        ProvisionCall::ListAccessors
    } else if p.destroyed < p.accessors->0@.len() {
        ProvisionCall::DestroyAccessor(&p.accessors->0@[p.destroyed as int])
    } else if p.role_id is None {
        ProvisionCall::GetRoleId
    } else if p.secret_id is None {
        ProvisionCall::CreateSecretId
    } else {
        ProvisionCall::Finished { role_id: &p.role_id->0, secret_id: &p.secret_id->0 }
    }
}

/// Nothing done yet.
pub open spec fn nothing_granted() -> ProvisionProgress {
    ProvisionProgress {
        policy_created: false,
        role_exists: None,
        role_created: false,
        accessors: None,
        destroyed: 0,
        role_id: None,
        secret_id: None,
    }
}

/// What OpenBao answers while a role is granted.
#[derive(Debug, PartialEq, Eq)]
pub enum ProvisionEvent {
    PolicyCreated,
    RoleExists(bool),
    RoleCreated,
    Accessors(Vec<String>),
    AccessorDestroyed,
    RoleId(String),
    SecretId(String),
}

/// Whether this is an answer to the next call.
pub open spec fn grants(p: ProvisionProgress, event: ProvisionEvent) -> bool {
    match event {
        ProvisionEvent::PolicyCreated => provision_call(p) is CreatePolicy,
        ProvisionEvent::RoleExists(_) => provision_call(p) is AskRoleExists,
        ProvisionEvent::RoleCreated => provision_call(p) is CreateRole,
        ProvisionEvent::Accessors(_) => provision_call(p) is ListAccessors,
        ProvisionEvent::AccessorDestroyed => provision_call(p) is DestroyAccessor,
        ProvisionEvent::RoleId(_) => provision_call(p) is GetRoleId,
        ProvisionEvent::SecretId(_) => provision_call(p) is CreateSecretId,
    }
}

/// How far the granting has come after an answer. What is no answer to the next call changes
/// nothing.
pub open spec fn granted(p: ProvisionProgress, event: ProvisionEvent) -> ProvisionProgress {
    if !grants(p, event) {
        p
    } else {
        match event {
            ProvisionEvent::PolicyCreated => ProvisionProgress { policy_created: true, ..p },
            ProvisionEvent::RoleExists(there) => ProvisionProgress {
                role_exists: Some(there),
                ..p
            },
            ProvisionEvent::RoleCreated => ProvisionProgress { role_created: true, ..p },
            ProvisionEvent::Accessors(accessors) => ProvisionProgress {
                accessors: Some(accessors),
                ..p
            },
            ProvisionEvent::AccessorDestroyed => ProvisionProgress {
                destroyed: (p.destroyed + 1) as usize,
                ..p
            },
            ProvisionEvent::RoleId(role_id) => ProvisionProgress { role_id: Some(role_id), ..p },
            ProvisionEvent::SecretId(secret_id) => ProvisionProgress {
                secret_id: Some(secret_id),
                ..p
            },
        }
    }
}

impl ProvisionProgress {
    /// Nothing done yet.
    pub fn start() -> (r: Self)
        ensures
            r == nothing_granted(),
    {
        ProvisionProgress {
            policy_created: false,
            role_exists: None,
            role_created: false,
            accessors: None,
            destroyed: 0,
            role_id: None,
            secret_id: None,
        }
    }

    /// The next call to OpenBao.
    pub fn next<'a>(&'a self) -> (r: ProvisionCall<'a>)
        ensures
            r == provision_call(*self),
    {
        if !self.policy_created {
            return ProvisionCall::CreatePolicy;
        }
        match self.role_exists {
            None => return ProvisionCall::AskRoleExists,
            Some(there) => {
                if !there && !self.role_created {
                    return ProvisionCall::CreateRole;
                }
            },
        }
        match &self.accessors {
            None => return ProvisionCall::ListAccessors,
            Some(accessors) => {
                if self.destroyed < accessors.len() {
                    return ProvisionCall::DestroyAccessor(&accessors[self.destroyed]);
                }
            },
        }
        match (&self.role_id, &self.secret_id) {
            (None, _) => ProvisionCall::GetRoleId,
            (Some(_), None) => ProvisionCall::CreateSecretId,
            (Some(role_id), Some(secret_id)) => ProvisionCall::Finished { role_id, secret_id },
        }
    }

    fn is_granted_by(&self, event: &ProvisionEvent) -> (r: bool)
        ensures
            r == grants(*self, *event),
    {
        match (self.next(), event) {
            (ProvisionCall::CreatePolicy, ProvisionEvent::PolicyCreated) => true,
            (ProvisionCall::AskRoleExists, ProvisionEvent::RoleExists(_)) => true,
            (ProvisionCall::CreateRole, ProvisionEvent::RoleCreated) => true,
            (ProvisionCall::ListAccessors, ProvisionEvent::Accessors(_)) => true,
            (ProvisionCall::DestroyAccessor(_), ProvisionEvent::AccessorDestroyed) => true,
            (ProvisionCall::GetRoleId, ProvisionEvent::RoleId(_)) => true,
            (ProvisionCall::CreateSecretId, ProvisionEvent::SecretId(_)) => true,
            _ => false,
        }
    }

    /// How far the granting has come after an answer of OpenBao.
    pub fn after(self, event: ProvisionEvent) -> (r: Self)
        ensures
            r == granted(self, event),
    {
        let mut progress: Self = self;
        if !progress.is_granted_by(&event) {
            return progress;
        }
        match event {
            ProvisionEvent::PolicyCreated => progress.policy_created = true,
            ProvisionEvent::RoleExists(there) => progress.role_exists = Some(there),
            ProvisionEvent::RoleCreated => progress.role_created = true,
            ProvisionEvent::Accessors(accessors) => progress.accessors = Some(accessors),
            ProvisionEvent::AccessorDestroyed => {
                assert(progress.destroyed < usize::MAX) by {
                    assert(progress.destroyed < progress.accessors->0@.len());
                    assert(progress.accessors->0.len() == progress.accessors->0@.len());
                }
                progress.destroyed = progress.destroyed + 1;
            },
            ProvisionEvent::RoleId(role_id) => progress.role_id = Some(role_id),
            ProvisionEvent::SecretId(secret_id) => progress.secret_id = Some(secret_id),
        }
        progress
    }
}

/// How far the granting has come after answers, from nothing done.
pub open spec fn granted_by(events: Seq<ProvisionEvent>) -> ProvisionProgress
    decreases events.len(),
{
    if events.len() == 0 {
        nothing_granted()
    } else {
        granted(granted_by(events.drop_last()), events.last())
    }
}

/// Whether each of these, in order, is an answer to the call that comes next.
pub open spec fn answers_in_turn(events: Seq<ProvisionEvent>) -> bool
    decreases events.len(),
{
    events.len() == 0 || (answers_in_turn(events.drop_last()) && grants(
        granted_by(events.drop_last()),
        events.last(),
    ))
}

/// What OpenBao has answered when a new secret is about to be made: the policy is there, so is the
/// role, and as many of the secrets that were issued before are destroyed as there were.
pub open spec fn cleared(
    there: bool,
    accessors: Vec<String>,
    role_id: String,
) -> Seq<ProvisionEvent> {
    seq![ProvisionEvent::PolicyCreated, ProvisionEvent::RoleExists(there)] + (if there {
        Seq::empty()
    } else {
        seq![ProvisionEvent::RoleCreated]
    }) + seq![ProvisionEvent::Accessors(accessors)] + Seq::new(
        accessors@.len(),
        |i: int| ProvisionEvent::AccessorDestroyed,
    ) + seq![ProvisionEvent::RoleId(role_id)]
}

/// No new secret is made while one that was issued before may still be in use, and none before the
/// role is there with its policy.
pub proof fn law_old_secrets_go_before_a_new_one(p: ProvisionProgress)
    requires
        provision_call(p) is CreateSecretId || provision_call(p) is Finished,
    ensures
        p.policy_created,
        p.role_exists == Some(true) || p.role_created,
        p.accessors is Some,
        p.destroyed >= p.accessors->0@.len(),
{
}

/// What OpenBao must have answered for the granting to have come this far.
spec fn told(p: ProvisionProgress) -> Seq<ProvisionEvent> {
    (if p.policy_created {
        seq![ProvisionEvent::PolicyCreated]
    } else {
        Seq::empty()
    }) + (match p.role_exists {
        Some(there) => seq![ProvisionEvent::RoleExists(there)],
        None => Seq::empty(),
    }) + (if p.role_created {
        seq![ProvisionEvent::RoleCreated]
    } else {
        Seq::empty()
    }) + (match p.accessors {
        Some(accessors) => seq![ProvisionEvent::Accessors(accessors)],
        None => Seq::empty(),
    }) + Seq::new(p.destroyed as nat, |i: int| ProvisionEvent::AccessorDestroyed) + (
    match p.role_id {
        Some(role_id) => seq![ProvisionEvent::RoleId(role_id)],
        None => Seq::empty(),
    }) + (match p.secret_id {
        Some(secret_id) => seq![ProvisionEvent::SecretId(secret_id)],
        None => Seq::empty(),
    })
}

/// Whether nothing was done before what has to come first.
spec fn orderly(p: ProvisionProgress) -> bool {
    &&& p.role_exists is Some ==> p.policy_created
    &&& p.role_created ==> p.role_exists == Some(false)
    &&& p.accessors is Some ==> p.role_exists == Some(true) || (p.role_exists == Some(false)
        && p.role_created)
    &&& p.accessors is None ==> p.destroyed == 0
    &&& p.accessors is Some ==> p.destroyed <= p.accessors->0@.len()
    &&& p.role_id is Some ==> p.accessors is Some && p.destroyed == p.accessors->0@.len()
    &&& p.secret_id is Some ==> p.role_id is Some
}

proof fn lemma_progress_tells_what_happened(events: Seq<ProvisionEvent>)
    requires
        answers_in_turn(events),
    ensures
        orderly(granted_by(events)),
        events == told(granted_by(events)),
    decreases events.len(),
{
    if events.len() == 0 {
        assert(events =~= told(nothing_granted()));
    } else {
        let rest = events.drop_last();
        lemma_progress_tells_what_happened(rest);
        let before = granted_by(rest);
        assert(before.role_exists matches Some(there) ==> before.role_exists == Some(there));
        if before.accessors is Some {
            assert(before.accessors->0.len() == before.accessors->0@.len());
        }
        let now = granted(before, events.last());
        match events.last() {
            ProvisionEvent::PolicyCreated => {
                assert(told(now) =~= told(before).push(events.last()));
            },
            ProvisionEvent::RoleExists(_) => {
                assert(told(now) =~= told(before).push(events.last()));
            },
            ProvisionEvent::RoleCreated => {
                assert(told(now) =~= told(before).push(events.last()));
            },
            ProvisionEvent::Accessors(_) => {
                assert(told(now) =~= told(before).push(events.last()));
            },
            ProvisionEvent::AccessorDestroyed => {
                assert(now.destroyed == before.destroyed + 1);
                assert(told(now) =~= told(before).push(events.last()));
            },
            ProvisionEvent::RoleId(_) => {
                assert(told(now) =~= told(before).push(events.last()));
            },
            ProvisionEvent::SecretId(_) => {
                assert(told(now) =~= told(before).push(events.last()));
            },
        }
        assert(events =~= rest.push(events.last()));
    }
}

/// A new secret is made only once everything was answered that [`cleared`] lists, so that of the
/// secrets that were issued before none is left; and the granting ends with that secret.
pub proof fn law_granting_clears_before_it_issues(events: Seq<ProvisionEvent>)
    requires
        answers_in_turn(events),
    ensures
        provision_call(granted_by(events)) is CreateSecretId ==> exists|
            there: bool,
            accessors: Vec<String>,
            role_id: String,
        | events == #[trigger] cleared(there, accessors, role_id),
        provision_call(granted_by(events)) is Finished ==> events.len() > 0 && events.last()
            is SecretId && exists|there: bool, accessors: Vec<String>, role_id: String|
            events.drop_last() == #[trigger] cleared(there, accessors, role_id),
{
    lemma_progress_tells_what_happened(events);
    let p = granted_by(events);
    if provision_call(p) is CreateSecretId || provision_call(p) is Finished {
        let there = p.role_exists->0;
        let cleared_by = cleared(there, p.accessors->0, p.role_id->0);
        assert(p.role_exists == Some(there));
        if provision_call(p) is CreateSecretId {
            assert(events =~= cleared_by);
        } else {
            assert(events =~= cleared_by.push(ProvisionEvent::SecretId(p.secret_id->0)));
            assert(events.drop_last() =~= cleared_by);
        }
    }
}

/// A role that is already there is not made again.
pub proof fn law_an_existing_role_is_kept(p: ProvisionProgress)
    requires
        p.role_exists == Some(true),
    ensures
        provision_call(p) !is CreateRole,
{
}

/// How far the taking away of a role has come.
#[derive(Debug, Clone, Copy, PartialEq, Eq, Structural)]
pub struct RevokeProgress {
    pub role_exists: Option<bool>,
    pub role_deleted: bool,
    pub policy_deleted: bool,
}

/// What OpenBao is to be told or asked next while a role is taken away.
#[derive(Debug, Clone, Copy, PartialEq, Eq, Structural)]
pub enum RevokeCall {
    AskRoleExists,
    DeleteRole,
    DeletePolicy,
    Finished,
}

/// The next call: the role goes where there is one, and the policy in any case.
pub open spec fn revoke_call(p: RevokeProgress) -> RevokeCall {
    if p.role_exists is None {
        RevokeCall::AskRoleExists
    } else if p.role_exists == Some(true) && !p.role_deleted {
        RevokeCall::DeleteRole
    } else if !p.policy_deleted {
        RevokeCall::DeletePolicy
    } else {
        RevokeCall::Finished
    }
}

/// The next call while a seedling's role and policy are taken away.
pub fn revoke(p: RevokeProgress) -> (r: RevokeCall)
    ensures
        r == revoke_call(p),
{
    match p.role_exists {
        None => RevokeCall::AskRoleExists,
        Some(there) => {
            if there && !p.role_deleted {
                RevokeCall::DeleteRole
            } else if !p.policy_deleted {
                RevokeCall::DeletePolicy
            } else {
                RevokeCall::Finished
            }
        },
    }
}

/// Nothing taken away yet.
pub open spec fn nothing_revoked() -> RevokeProgress {
    RevokeProgress { role_exists: None, role_deleted: false, policy_deleted: false }
}

/// What OpenBao answers while a role is taken away.
#[derive(Debug, Clone, Copy, PartialEq, Eq, Structural)]
pub enum RevokeEvent {
    RoleExists(bool),
    RoleDeleted,
    PolicyDeleted,
}

/// Whether this is an answer to the next call.
pub open spec fn revokes(p: RevokeProgress, event: RevokeEvent) -> bool {
    match event {
        RevokeEvent::RoleExists(_) => revoke_call(p) is AskRoleExists,
        RevokeEvent::RoleDeleted => revoke_call(p) is DeleteRole,
        RevokeEvent::PolicyDeleted => revoke_call(p) is DeletePolicy,
    }
}

/// How far the taking away has come after an answer. What is no answer to the next call changes
/// nothing.
pub open spec fn revoked(p: RevokeProgress, event: RevokeEvent) -> RevokeProgress {
    if !revokes(p, event) {
        p
    } else {
        match event {
            RevokeEvent::RoleExists(there) => RevokeProgress { role_exists: Some(there), ..p },
            RevokeEvent::RoleDeleted => RevokeProgress { role_deleted: true, ..p },
            RevokeEvent::PolicyDeleted => RevokeProgress { policy_deleted: true, ..p },
        }
    }
}

impl RevokeProgress {
    /// Nothing taken away yet.
    pub fn start() -> (r: Self)
        ensures
            r == nothing_revoked(),
    {
        RevokeProgress { role_exists: None, role_deleted: false, policy_deleted: false }
    }

    /// How far the taking away has come after an answer of OpenBao.
    pub fn after(self, event: RevokeEvent) -> (r: Self)
        ensures
            r == revoked(self, event),
    {
        let mut progress: Self = self;
        match (revoke(self), event) {
            (RevokeCall::AskRoleExists, RevokeEvent::RoleExists(there)) => {
                progress.role_exists = Some(there);
            },
            (RevokeCall::DeleteRole, RevokeEvent::RoleDeleted) => progress.role_deleted = true,
            (RevokeCall::DeletePolicy, RevokeEvent::PolicyDeleted) => {
                progress.policy_deleted = true;
            },
            _ => {},
        }
        progress
    }
}

/// How far the taking away has come after answers, from nothing taken away.
pub open spec fn revoked_by(events: Seq<RevokeEvent>) -> RevokeProgress
    decreases events.len(),
{
    if events.len() == 0 {
        nothing_revoked()
    } else {
        revoked(revoked_by(events.drop_last()), events.last())
    }
}

/// Whether each of these, in order, is an answer to the call that comes next.
pub open spec fn revokes_in_turn(events: Seq<RevokeEvent>) -> bool
    decreases events.len(),
{
    events.len() == 0 || (revokes_in_turn(events.drop_last()) && revokes(
        revoked_by(events.drop_last()),
        events.last(),
    ))
}

proof fn lemma_revoking_tells_what_happened(events: Seq<RevokeEvent>)
    requires
        revokes_in_turn(events),
    ensures
        ({
            let p = revoked_by(events);
            &&& p.role_exists is None ==> !p.role_deleted && !p.policy_deleted
            &&& p.role_deleted ==> p.role_exists == Some(true)
            &&& p.policy_deleted ==> p.role_exists == Some(false) || p.role_deleted
            &&& events == (match p.role_exists {
                Some(there) => seq![RevokeEvent::RoleExists(there)],
                None => Seq::empty(),
            }) + (if p.role_deleted {
                seq![RevokeEvent::RoleDeleted]
            } else {
                Seq::empty()
            }) + (if p.policy_deleted {
                seq![RevokeEvent::PolicyDeleted]
            } else {
                Seq::empty()
            })
        }),
    decreases events.len(),
{
    if events.len() > 0 {
        let rest = events.drop_last();
        lemma_revoking_tells_what_happened(rest);
        let before = revoked_by(rest);
        assert(before.role_exists matches Some(there) ==> before.role_exists == Some(there));
        assert(events =~= rest.push(events.last()));
    }
}

/// The taking away ends after exactly these answers: whether there is a role, where there is one
/// that it is gone, and that the policy is gone.
pub proof fn law_revoking_takes_role_and_policy(events: Seq<RevokeEvent>)
    requires
        revokes_in_turn(events),
        revoke_call(revoked_by(events)) is Finished,
    ensures
        events == seq![RevokeEvent::RoleExists(false), RevokeEvent::PolicyDeleted] || events
            == seq![
            RevokeEvent::RoleExists(true),
            RevokeEvent::RoleDeleted,
            RevokeEvent::PolicyDeleted,
        ],
{
    lemma_revoking_tells_what_happened(events);
    let p = revoked_by(events);
    assert(p.role_exists == Some(p.role_exists->0));
    if p.role_exists->0 {
        assert(events =~= seq![
            RevokeEvent::RoleExists(true),
            RevokeEvent::RoleDeleted,
            RevokeEvent::PolicyDeleted,
        ]);
    } else {
        assert(events =~= seq![RevokeEvent::RoleExists(false), RevokeEvent::PolicyDeleted]);
    }
}

/// A role that is not there is not deleted, and the policy is deleted before the end whether or
/// not there was a role.
pub proof fn law_revoking_always_deletes_the_policy(p: RevokeProgress)
    ensures
        p.role_exists == Some(false) ==> revoke_call(p) !is DeleteRole,
        revoke_call(p) is Finished ==> p.policy_deleted,
{
}

/// Whether there is anything to take away: only a seedling that asked for secrets has a role.
pub fn revoke_if_provisioned(definition: &SeedlingDefinition) -> (r: bool)
    ensures
        r == definition.secrets is Some,
{
    definition.secrets.is_some()
}

/// The folder from which a seedling's agent reads its configuration.
pub fn agent_mount_dir(folders: &DouglasFolders, seedling_name: &Name) -> (r: String)
    ensures
        r@ == mount_of(folders.seedlings_root@, seedling_name@, AGENT_MOUNT_NAME@),
{
    folders.seedling_mount(seedling_name.as_str(), AGENT_MOUNT_NAME)
}

/// Where containers reach OpenBao.
pub open spec fn openbao_address() -> Seq<char> {
    "http://"@ + container_name_of(OPENBAO@) + ":"@ + decimal(API_PORT as nat)
}

/// Where containers reach OpenBao.
pub fn openbao_container_address() -> (r: String)
    ensures
        r@ == openbao_address(),
{
    let name: Name = openbao();
    let container: ContainerName = container_name(&name);
    let port: String = decimal_text(API_PORT as u64);
    cat4("http://", container.as_str(), ":", &port)
}

/// The range of addresses that an id gives a seedling.
pub open spec fn private_cidr(id: Id) -> Seq<char> {
    "10."@ + decimal((id.value / 256) as nat) + "."@ + decimal((id.value % 256) as nat) + ".0/24"@
}

/// An address in the range that an id gives a seedling.
pub open spec fn private_address(id: Id, last: u8) -> Ipv4 {
    Ipv4 { a: 10, b: (id.value / 256) as u8, c: (id.value % 256) as u8, d: last }
}

/// The private network that an id gives a seedling, and its agent's address there.
pub fn agent_private_network(id: &Id) -> (r: (Ipv4Subnet, Ipv4))
    ensures
        r.0.cidr@ == private_cidr(*id),
        r.0.gateway == private_address(*id, 1),
        r.1 == private_address(*id, 2),
{
    let high: u8 = (id.value / 256) as u8;
    let low: u8 = (id.value % 256) as u8;
    let cidr: String = cat5(
        "10.",
        &decimal_text(high as u64),
        ".",
        &decimal_text(low as u64),
        ".0/24",
    );
    (
        Ipv4Subnet { cidr, gateway: Ipv4 { a: 10, b: high, c: low, d: 1 } },
        Ipv4 { a: 10, b: high, c: low, d: 2 },
    )
}

proof fn lemma_first_stop(a: Seq<char>, b: Seq<char>, rest_a: Seq<char>, rest_b: Seq<char>)
    requires
        all_digits(a),
        all_digits(b),
        a + seq!['.'] + rest_a == b + seq!['.'] + rest_b,
    ensures
        a == b,
        rest_a == rest_b,
{
    let s = a + seq!['.'] + rest_a;
    let t = b + seq!['.'] + rest_b;
    if a.len() < b.len() {
        assert(s[a.len() as int] == '.');
        assert(t[a.len() as int] == b[a.len() as int]);
        assert(is_digit(b[a.len() as int]));
        assert(false);
    }
    if b.len() < a.len() {
        assert(t[b.len() as int] == '.');
        assert(s[b.len() as int] == a[b.len() as int]);
        assert(is_digit(a[b.len() as int]));
        assert(false);
    }
    assert(a =~= s.take(a.len() as int));
    assert(b =~= t.take(a.len() as int));
    assert(rest_a =~= s.skip(a.len() as int + 1));
    assert(rest_b =~= t.skip(a.len() as int + 1));
}

/// Two seedlings have different private networks and their agents different addresses.
pub proof fn law_private_networks_are_distinct(a: Id, b: Id)
    requires
        private_cidr(a) == private_cidr(b) || private_address(a, 2) == private_address(b, 2),
    ensures
        a == b,
{
    let (ah, al) = ((a.value / 256) as nat, (a.value % 256) as nat);
    let (bh, bl) = ((b.value / 256) as nat, (b.value % 256) as nat);
    if private_cidr(a) == private_cidr(b) {
        reveal_strlit("10.");
        reveal_strlit(".");
        reveal_strlit(".0/24");
        lemma_decimal_is_digits(ah);
        lemma_decimal_is_digits(al);
        lemma_decimal_is_digits(bh);
        lemma_decimal_is_digits(bl);
        let tail = "0/24"@;
        reveal_strlit("0/24");
        let head = "10."@;
        let in_a = decimal(ah) + seq!['.'] + (decimal(al) + seq!['.'] + tail);
        let in_b = decimal(bh) + seq!['.'] + (decimal(bl) + seq!['.'] + tail);
        assert(private_cidr(a) =~= head + in_a);
        assert(private_cidr(b) =~= head + in_b);
        assert(in_a =~= private_cidr(a).skip(3));
        assert(in_b =~= private_cidr(b).skip(3));
        lemma_first_stop(
            decimal(ah),
            decimal(bh),
            decimal(al) + seq!['.'] + tail,
            decimal(bl) + seq!['.'] + tail,
        );
        lemma_first_stop(decimal(al), decimal(bl), tail, tail);
        law_decimal_is_injective(ah, bh);
        law_decimal_is_injective(al, bl);
    }
}

/// The configuration of the agent that answers at an address.
pub open spec fn agent_config(agent_ip: Ipv4) -> DocumentView {
    DocumentView::Record(
        seq![
            ("pid_file"@, DocumentView::Text("/tmp/openbao-agent.pid"@)),
            (
                "vault"@,
                DocumentView::Record(seq![("address"@, DocumentView::Text(openbao_address()))]),
            ),
            (
                "auto_auth"@,
                DocumentView::Record(
                    seq![
                        ("method"@, DocumentView::List(seq![agent_login()])),
                        (
                            "sink"@,
                            DocumentView::List(
                                seq![
                                    DocumentView::Record(
                                        seq![
                                            ("type"@, DocumentView::Text("file"@)),
                                            (
                                                "config"@,
                                                DocumentView::Record(
                                                    seq![
                                                        (
                                                            "path"@,
                                                            DocumentView::Text(
                                                                "/tmp/openbao-agent-token"@,
                                                            ),
                                                        ),
                                                    ],
                                                ),
                                            ),
                                        ],
                                    ),
                                ],
                            ),
                        ),
                    ],
                ),
            ),
            (
                "api_proxy"@,
                DocumentView::Record(seq![("use_auto_auth_token"@, DocumentView::Flag(true))]),
            ),
            ("listener"@, DocumentView::List(seq![agent_listener(agent_ip)])),
        ],
    )
}

/// How an agent logs in: with the credentials in its mount, of which it removes the secret one
/// once it has read it.
pub open spec fn agent_login() -> DocumentView {
    DocumentView::Record(
        seq![
            ("type"@, DocumentView::Text("approle"@)),
            (
                "config"@,
                DocumentView::Record(
                    seq![
                        (
                            "role_id_file_path"@,
                            DocumentView::Text(
                                AGENT_CONTAINER_MOUNT_PATH@ + "/"@ + ROLE_ID_FILE_NAME@,
                            ),
                        ),
                        (
                            "secret_id_file_path"@,
                            DocumentView::Text(
                                AGENT_CONTAINER_MOUNT_PATH@ + "/"@ + SECRET_ID_FILE_NAME@,
                            ),
                        ),
                        ("remove_secret_id_file_after_reading"@, DocumentView::Flag(true)),
                    ],
                ),
            ),
        ],
    )
}

/// Where an agent listens.
pub open spec fn agent_listener(agent_ip: Ipv4) -> DocumentView {
    DocumentView::Record(
        seq![
            (
                "tcp"@,
                DocumentView::Record(
                    seq![
                        (
                            "address"@,
                            DocumentView::Text(
                                agent_ip.text() + ":"@ + decimal(AGENT_LOCAL_PROXY_PORT as nat),
                            ),
                        ),
                        ("tls_disable"@, DocumentView::Flag(true)),
                    ],
                ),
            ),
        ],
    )
}

/// The configuration of the agent that answers at an address.
pub fn agent_config_document(agent_ip: Ipv4) -> (r: Document)
    ensures
        r@ == agent_config(agent_ip),
        well_keyed(r@),
{
    proof {
        reveal_strlit("type");
        reveal_strlit("config");
        reveal_strlit("role_id_file_path");
        reveal_strlit("secret_id_file_path");
        reveal_strlit("remove_secret_id_file_after_reading");
        reveal_strlit("address");
        reveal_strlit("tls_disable");
        reveal_strlit("method");
        reveal_strlit("sink");
        reveal_strlit("pid_file");
        reveal_strlit("vault");
        reveal_strlit("auto_auth");
        reveal_strlit("api_proxy");
        reveal_strlit("listener");
        assert("type"@.len() == 4 && "config"@.len() == 6 && "method"@.len() == 6);
        assert("sink"@.len() == 4 && "address"@.len() == 7 && "tls_disable"@.len() == 11);
        assert("role_id_file_path"@.len() == 17 && "secret_id_file_path"@.len() == 19);
        assert("remove_secret_id_file_after_reading"@.len() == 35);
        assert("pid_file"@.len() == 8 && "vault"@.len() == 5 && "auto_auth"@.len() == 9);
        assert("api_proxy"@.len() == 9 && "listener"@.len() == 8);
        assert("pid_file"@[0] != "listener"@[0]);
        assert("auto_auth"@[1] != "api_proxy"@[1]);
    }
    let role_id_path: String = cat3(AGENT_CONTAINER_MOUNT_PATH, "/", ROLE_ID_FILE_NAME);
    let secret_id_path: String = cat3(AGENT_CONTAINER_MOUNT_PATH, "/", SECRET_ID_FILE_NAME);
    let listener_address: String = cat3(
        &agent_ip.to_text(),
        ":",
        &decimal_text(AGENT_LOCAL_PROXY_PORT as u64),
    );
    let login: Document = record2(
        "type",
        text("approle"),
        "config",
        record3(
            "role_id_file_path",
            text(&role_id_path),
            "secret_id_file_path",
            text(&secret_id_path),
            "remove_secret_id_file_after_reading",
            flag(true),
        ),
    );
    let sink: Document = record2(
        "type",
        text("file"),
        "config",
        record1("path", text("/tmp/openbao-agent-token")),
    );
    let listener: Document = record1(
        "tcp",
        record2("address", text(&listener_address), "tls_disable", flag(true)),
    );
    record5(
        "pid_file",
        text("/tmp/openbao-agent.pid"),
        "vault",
        record1("address", text(&openbao_container_address())),
        "auto_auth",
        record2("method", list1(login), "sink", list1(sink)),
        "api_proxy",
        record1("use_auto_auth_token", flag(true)),
        "listener",
        list1(listener),
    )
}

/// The configuration file of the agent that answers at an address.
pub fn render_agent_config(agent_ip: Ipv4) -> (r: Result<Vec<u8>, serde_json::Error>)
    ensures
        r matches Ok(bytes) && bytes@ == json_of(agent_config(agent_ip)),
{
    let document: Document = agent_config_document(agent_ip);
    to_json(&document)
}

/// Everything that a seedling's agent needs.
#[derive(Debug)]
pub struct AgentProvisioning {
    pub mount_dir: String,
    pub role_id_path: String,
    pub secret_id_path: String,
    pub agent_config_path: String,
    pub role_id: String,
    pub secret_id: String,
    pub agent_config: Vec<u8>,
    pub private_subnet: Ipv4Subnet,
    pub agent_private_ip: Ipv4,
}

/// Where a seedling's agent keeps its files, and its place in the private network.
#[derive(Debug, PartialEq, Eq)]
pub struct AgentPlacement {
    pub mount_dir: String,
    pub role_id_path: String,
    pub secret_id_path: String,
    pub agent_config_path: String,
    pub private_subnet: Ipv4Subnet,
    pub agent_private_ip: Ipv4,
}

impl AgentPlacement {
    /// Whether this is the place of the agent of the seedling with this name and id.
    pub open spec fn belongs_to(&self, root: Seq<char>, seedling: Seq<char>, id: Id) -> bool {
        let dir = mount_of(root, seedling, AGENT_MOUNT_NAME@);
        &&& self.mount_dir@ == dir
        &&& self.role_id_path@ == joined(dir, ROLE_ID_FILE_NAME@)
        &&& self.secret_id_path@ == joined(dir, SECRET_ID_FILE_NAME@)
        &&& self.agent_config_path@ == joined(dir, AGENT_CONFIG_FILE_NAME@)
        &&& self.private_subnet.cidr@ == private_cidr(id)
        &&& self.private_subnet.gateway == private_address(id, 1)
        &&& self.agent_private_ip == private_address(id, 2)
    }
}

/// Where the agent goes, if the seedling asks for secrets at all.
pub fn place_agent_if_requested(
    folders: &DouglasFolders,
    seedling_name: &Name,
    seedling_id: Option<Id>,
    definition: &SeedlingDefinition,
) -> (r: Result<Option<AgentPlacement>, ProvisionSeedlingSecretsError>)
    ensures
        definition.secrets is None ==> r matches Ok(None),
        definition.secrets is Some && seedling_id is None ==> r matches Err(
            ProvisionSeedlingSecretsError::MissingSeedlingId,
        ),
        definition.secrets is Some && seedling_id is Some ==> (r matches Ok(Some(placement))
            && placement.belongs_to(folders.seedlings_root@, seedling_name@, seedling_id->0)),
{
    if definition.secrets.is_none() {
        return Ok(None);
    }
    let id: Id = match seedling_id {
        Some(id) => id,
        None => return Err(ProvisionSeedlingSecretsError::MissingSeedlingId),
    };
    let (private_subnet, agent_private_ip) = agent_private_network(&id);
    let mount_dir: String = agent_mount_dir(folders, seedling_name);
    let role_id_path: String = join(&mount_dir, ROLE_ID_FILE_NAME);
    let secret_id_path: String = join(&mount_dir, SECRET_ID_FILE_NAME);
    let agent_config_path: String = join(&mount_dir, AGENT_CONFIG_FILE_NAME);
    Ok(
        Some(
            AgentPlacement {
                mount_dir,
                role_id_path,
                secret_id_path,
                agent_config_path,
                private_subnet,
                agent_private_ip,
            },
        ),
    )
}

/// Where the credentials of an agent come from.
#[derive(Debug, Clone, Copy, PartialEq, Eq, Structural)]
pub enum CredentialsSource {
    Stored,
    Issued,
}

/// Credentials are read from disk where both of them are there, else they are issued anew.
pub fn credentials_source(role_id_stored: bool, secret_id_stored: bool) -> (r: CredentialsSource)
    ensures
        r == (if role_id_stored && secret_id_stored {
            CredentialsSource::Stored
        } else {
            CredentialsSource::Issued
        }),
{
    if role_id_stored && secret_id_stored {
        CredentialsSource::Stored
    } else {
        CredentialsSource::Issued
    }
}

/// What a seedling's agent needs, once it has a place and credentials.
pub fn provision_agent(placement: AgentPlacement, credentials: SeedlingCredentials) -> (r: Result<
    AgentProvisioning,
    ProvisionSeedlingSecretsError,
>)
    ensures
        r matches Ok(agent) && {
            &&& agent.mount_dir == placement.mount_dir
            &&& agent.role_id_path == placement.role_id_path
            &&& agent.secret_id_path == placement.secret_id_path
            &&& agent.agent_config_path == placement.agent_config_path
            &&& agent.role_id == credentials.role_id
            &&& agent.secret_id == credentials.secret_id
            &&& agent.agent_config@ == json_of(agent_config(placement.agent_private_ip))
            &&& agent.private_subnet == placement.private_subnet
            &&& agent.agent_private_ip == placement.agent_private_ip
        },
{
    let agent_config: Vec<u8> = match render_agent_config(placement.agent_private_ip) {
        Ok(bytes) => bytes,
        Err(error) => return Err(ProvisionSeedlingSecretsError::Serialization(error)),
    };
    Ok(
        AgentProvisioning {
            mount_dir: placement.mount_dir,
            role_id_path: placement.role_id_path,
            secret_id_path: placement.secret_id_path,
            agent_config_path: placement.agent_config_path,
            role_id: credentials.role_id,
            secret_id: credentials.secret_id,
            agent_config,
            private_subnet: placement.private_subnet,
            agent_private_ip: placement.agent_private_ip,
        },
    )
}

/// Rights follow from the access and from nothing else: who may read may read and list secrets and
/// their descriptions; who may write may create, update and delete secrets, and delete their
/// descriptions. One does not take anything from the other, and no right is given twice.
pub proof fn law_rights_follow_from_the_access(access: SecretsAccess, c: Capability)
    ensures
        data_rights(access).contains(c) == (match c {
            Capability::Read | Capability::List => access.read,
            Capability::Create | Capability::Update | Capability::Delete => access.write,
        }),
        metadata_rights(access).contains(c) == (match c {
            Capability::Read | Capability::List => access.read,
            Capability::Delete => access.write,
            Capability::Create | Capability::Update => false,
        }),
        data_rights(access).no_duplicates(),
        metadata_rights(access).no_duplicates(),
{
    let data = data_rights(access);
    let metadata = metadata_rights(access);
    assert(data.len() > 0 ==> data.contains(data[0]));
    assert(data.len() > 1 ==> data.contains(data[1]));
    assert(data.len() > 2 ==> data.contains(data[2]));
    assert(data.len() > 3 ==> data.contains(data[3]));
    assert(data.len() > 4 ==> data.contains(data[4]));
    assert(metadata.len() > 0 ==> metadata.contains(metadata[0]));
    assert(metadata.len() > 1 ==> metadata.contains(metadata[1]));
    assert(metadata.len() > 2 ==> metadata.contains(metadata[2]));
}

proof fn lemma_next_answer(events: Seq<ProvisionEvent>, event: ProvisionEvent)
    requires
        answers_in_turn(events),
        grants(granted_by(events), event),
    ensures
        answers_in_turn(events.push(event)),
        granted_by(events.push(event)) == granted(granted_by(events), event),
{
    assert(events.push(event).drop_last() =~= events);
}

proof fn lemma_destroying(start: Seq<ProvisionEvent>, accessors: Vec<String>, n: nat)
    requires
        answers_in_turn(start),
        provision_call(granted_by(start)) is DestroyAccessor || accessors@.len() == 0,
        granted_by(start).policy_created,
        granted_by(start).role_exists == Some(true) || (granted_by(start).role_exists == Some(false)
            && granted_by(start).role_created),
        granted_by(start).accessors == Some(accessors),
        granted_by(start).destroyed == 0,
        n <= accessors@.len(),
    ensures
        ({
            let events = start + Seq::new(n, |i: int| ProvisionEvent::AccessorDestroyed);
            &&& answers_in_turn(events)
            &&& granted_by(events) == (ProvisionProgress {
                destroyed: n as usize,
                ..granted_by(start)
            })
        }),
    decreases n,
{
    assert(accessors.len() == accessors@.len());
    let events = start + Seq::new(n, |i: int| ProvisionEvent::AccessorDestroyed);
    if n == 0 {
        assert(events =~= start);
    } else {
        let fewer = (n - 1) as nat;
        lemma_destroying(start, accessors, fewer);
        let before = start + Seq::new(fewer, |i: int| ProvisionEvent::AccessorDestroyed);
        lemma_next_answer(before, ProvisionEvent::AccessorDestroyed);
        assert(before.push(ProvisionEvent::AccessorDestroyed) =~= events);
    }
}

/// Whatever OpenBao holds of a seedling, granting it access comes to its end: answered in turn,
/// every call leads to the next, all secrets that were issued before are destroyed on the way, and
/// the end hands on the role's id and the new secret as they were answered.
pub proof fn law_granting_reaches_its_end(
    there: bool,
    accessors: Vec<String>,
    role_id: String,
    secret_id: String,
)
    ensures
        ({
            let events = cleared(there, accessors, role_id).push(
                ProvisionEvent::SecretId(secret_id),
            );
            &&& answers_in_turn(events)
            &&& provision_call(granted_by(events)) == (ProvisionCall::Finished {
                role_id: &role_id,
                secret_id: &secret_id,
            })
        }),
{
    assert(accessors.len() == accessors@.len());
    let none = Seq::<ProvisionEvent>::empty();
    lemma_next_answer(none, ProvisionEvent::PolicyCreated);
    let s = none.push(ProvisionEvent::PolicyCreated);
    lemma_next_answer(s, ProvisionEvent::RoleExists(there));
    let s = s.push(ProvisionEvent::RoleExists(there));
    let t = if there {
        s
    } else {
        s.push(ProvisionEvent::RoleCreated)
    };
    if !there {
        lemma_next_answer(s, ProvisionEvent::RoleCreated);
    }
    lemma_next_answer(t, ProvisionEvent::Accessors(accessors));
    let t = t.push(ProvisionEvent::Accessors(accessors));
    lemma_destroying(t, accessors, accessors@.len());
    let u = t + Seq::new(accessors@.len(), |i: int| ProvisionEvent::AccessorDestroyed);
    lemma_next_answer(u, ProvisionEvent::RoleId(role_id));
    let u = u.push(ProvisionEvent::RoleId(role_id));
    lemma_next_answer(u, ProvisionEvent::SecretId(secret_id));
    assert(u =~= cleared(there, accessors, role_id));
}

/// The secrets that were issued before are destroyed one after another, each of them: once `n` are
/// gone, the next to go is the one behind them in the list.
pub proof fn law_every_old_secret_is_destroyed(
    there: bool,
    accessors: Vec<String>,
    role_id: String,
    n: nat,
)
    requires
        n < accessors@.len(),
    ensures
        ({
            let listed = cleared(there, accessors, role_id).len() - 1 - accessors@.len();
            let events = cleared(there, accessors, role_id).take(listed + n);
            &&& answers_in_turn(events)
            &&& events.last() == (if n == 0 {
                ProvisionEvent::Accessors(accessors)
            } else {
                ProvisionEvent::AccessorDestroyed
            })
            &&& provision_call(granted_by(events)) == ProvisionCall::DestroyAccessor(
                &accessors@[n as int],
            )
        }),
{
    assert(accessors.len() == accessors@.len());
    let none = Seq::<ProvisionEvent>::empty();
    lemma_next_answer(none, ProvisionEvent::PolicyCreated);
    let s = none.push(ProvisionEvent::PolicyCreated);
    lemma_next_answer(s, ProvisionEvent::RoleExists(there));
    let s = s.push(ProvisionEvent::RoleExists(there));
    let t = if there {
        s
    } else {
        s.push(ProvisionEvent::RoleCreated)
    };
    if !there {
        lemma_next_answer(s, ProvisionEvent::RoleCreated);
    }
    lemma_next_answer(t, ProvisionEvent::Accessors(accessors));
    let t = t.push(ProvisionEvent::Accessors(accessors));
    lemma_destroying(t, accessors, n);
    let u = t + Seq::new(n, |i: int| ProvisionEvent::AccessorDestroyed);
    let all = cleared(there, accessors, role_id);
    assert(u =~= all.take(all.len() - 1 - accessors@.len() + n));
}

/// Taking access away comes to its end both where there is a role and where there is none.
pub proof fn law_revoking_reaches_its_end()
    ensures
        ({
            let without = seq![RevokeEvent::RoleExists(false), RevokeEvent::PolicyDeleted];
            let with = seq![
                RevokeEvent::RoleExists(true),
                RevokeEvent::RoleDeleted,
                RevokeEvent::PolicyDeleted,
            ];
            &&& revokes_in_turn(without)
            &&& revoke_call(revoked_by(without)) is Finished
            &&& revokes_in_turn(with)
            &&& revoke_call(revoked_by(with)) is Finished
        }),
{
    reveal_with_fuel(revoked_by, 5);
    reveal_with_fuel(revokes_in_turn, 5);
    let a = seq![RevokeEvent::RoleExists(false), RevokeEvent::PolicyDeleted];
    assert(a.drop_last() =~= seq![RevokeEvent::RoleExists(false)]);
    assert(seq![RevokeEvent::RoleExists(false)].drop_last() =~= Seq::empty());
    let b = seq![
        RevokeEvent::RoleExists(true),
        RevokeEvent::RoleDeleted,
        RevokeEvent::PolicyDeleted,
    ];
    assert(b.drop_last() =~= seq![RevokeEvent::RoleExists(true), RevokeEvent::RoleDeleted]);
    assert(seq![RevokeEvent::RoleExists(true), RevokeEvent::RoleDeleted].drop_last() =~= seq![
        RevokeEvent::RoleExists(true),
    ]);
    assert(seq![RevokeEvent::RoleExists(true)].drop_last() =~= Seq::empty());
}

/// The addresses that an id gives a seedling lie in its range, which is written as the range of its
/// lowest address, and the id can be read from them.
pub proof fn law_private_addresses_lie_in_their_range(id: Id, last: u8)
    ensures
        private_cidr(id) == private_address(id, 0).text() + "/24"@,
        private_address(id, last).a == 10,
        private_address(id, last).b * 256 + private_address(id, last).c == id.value,
        private_address(id, last).d == last,
{
    reveal_strlit("10.");
    reveal_strlit("10");
    reveal_strlit(".");
    reveal_strlit(".0/24");
    reveal_strlit("/24");
    reveal_with_fuel(decimal, 3);
    let address = private_address(id, 0);
    assert(address.b == id.value / 256 && address.c == id.value % 256);
    assert(decimal(10) =~= seq!['1', '0']);
    assert(decimal(0) =~= seq!['0']);
    assert(private_cidr(id) =~= address.text() + "/24"@);
}

/// Containers reach OpenBao under its container's name, at its port.
pub proof fn law_openbao_is_reached_by_its_container()
    ensures
        openbao_address() == "http://doug.openbao:"@ + decimal(8201),
{
    reveal_strlit("http://doug.openbao:");
    reveal_strlit("http://");
    reveal_strlit("doug.");
    reveal_strlit("openbao");
    reveal_strlit(":");
    assert(openbao_address() =~= "http://doug.openbao:"@ + decimal(8201));
}

proof fn lemma_keys_of_agents_differ()
    ensures
        "pid_file"@ != "vault"@,
        "pid_file"@ != "auto_auth"@,
        "pid_file"@ != "api_proxy"@,
        "pid_file"@ != "listener"@,
        "vault"@ != "auto_auth"@,
        "vault"@ != "api_proxy"@,
        "vault"@ != "listener"@,
        "auto_auth"@ != "api_proxy"@,
        "auto_auth"@ != "listener"@,
        "api_proxy"@ != "listener"@,
        "type"@ != "config"@,
        "method"@ != "sink"@,
        "address"@ != "tls_disable"@,
        "role_id_file_path"@ != "secret_id_file_path"@,
        "role_id_file_path"@ != "remove_secret_id_file_after_reading"@,
        "secret_id_file_path"@ != "remove_secret_id_file_after_reading"@,
{
    reveal_strlit("pid_file");
    reveal_strlit("vault");
    reveal_strlit("auto_auth");
    reveal_strlit("api_proxy");
    reveal_strlit("listener");
    reveal_strlit("type");
    reveal_strlit("config");
    reveal_strlit("method");
    reveal_strlit("sink");
    reveal_strlit("address");
    reveal_strlit("tls_disable");
    reveal_strlit("role_id_file_path");
    reveal_strlit("secret_id_file_path");
    reveal_strlit("remove_secret_id_file_after_reading");
    assert("pid_file"@[0] == 'p');
    assert("vault"@[0] == 'v');
    assert("listener"@[0] == 'l');
    assert("auto_auth"@[1] == 'u');
    assert("api_proxy"@[1] == 'p');
    assert("type"@.len() != "config"@.len());
    assert("method"@.len() != "sink"@.len());
    assert("address"@.len() != "tls_disable"@.len());
    assert("role_id_file_path"@[1] == 'o');
    assert("secret_id_file_path"@[0] == 's');
    assert("remove_secret_id_file_after_reading"@[1] == 'e');
    assert("remove_secret_id_file_after_reading"@[0] == 'r');
}

/// An agent listens at its own address, talks to OpenBao, and lends those who ask it the token that
/// it got by logging in.
pub proof fn law_agents_stand_between_their_seedling_and_openbao(agent_ip: Ipv4)
    ensures
        ({
            let config = agent_config(agent_ip);
            &&& field(config, "vault"@) matches Some(vault) && field(vault, "address"@) == Some(
                DocumentView::Text("http://doug.openbao:"@ + decimal(8201)),
            )
            &&& field(config, "api_proxy"@) matches Some(proxy) && field(
                proxy,
                "use_auto_auth_token"@,
            ) == Some(DocumentView::Flag(true))
            &&& field(config, "listener"@) matches Some(DocumentView::List(listeners))
                && listeners.len() == 1 && (field(listeners[0], "tcp"@) matches Some(tcp) && field(
                tcp,
                "address"@,
            ) == Some(DocumentView::Text(agent_ip.text() + ":"@ + decimal(8100))) && field(
                tcp,
                "tls_disable"@,
            ) == Some(DocumentView::Flag(true)))
        }),
{
    lemma_keys_of_agents_differ();
    law_openbao_is_reached_by_its_container();
    let fields = agent_config(agent_ip)->Record_0;
    lemma_entry_at(fields, 1);
    lemma_entry_at(fields, 3);
    lemma_entry_at(fields, 4);
    lemma_entry_at(fields[1].1->Record_0, 0);
    lemma_entry_at(fields[3].1->Record_0, 0);
    let listener = agent_listener(agent_ip)->Record_0;
    lemma_entry_at(listener, 0);
    lemma_entry_at(listener[0].1->Record_0, 0);
    lemma_entry_at(listener[0].1->Record_0, 1);
}

/// An agent logs in by its role, with the two files in its mount, removes the secret one once it
/// has read it, and keeps its token to itself in a file.
pub proof fn law_agents_log_in_with_their_files(agent_ip: Ipv4)
    ensures
        ({
            let config = agent_config(agent_ip);
            &&& field(config, "pid_file"@) == Some(DocumentView::Text("/tmp/openbao-agent.pid"@))
            &&& field(config, "auto_auth"@) matches Some(auth) && (field(auth, "method"@) matches
                Some(DocumentView::List(methods)) && methods.len() == 1 && field(
                methods[0],
                "type"@,
            ) == Some(DocumentView::Text("approle"@)) && (field(methods[0], "config"@) matches Some(
                how,
            ) && field(how, "role_id_file_path"@) == Some(
                DocumentView::Text("/etc/openbao-agent/role_id"@),
            ) && field(how, "secret_id_file_path"@) == Some(
                DocumentView::Text("/etc/openbao-agent/secret_id"@),
            ) && field(how, "remove_secret_id_file_after_reading"@) == Some(
                DocumentView::Flag(true),
            ))) && (field(auth, "sink"@) matches Some(DocumentView::List(sinks)) && sinks.len() == 1
                && field(sinks[0], "type"@) == Some(DocumentView::Text("file"@)) && (field(
                sinks[0],
                "config"@,
            ) matches Some(place) && field(place, "path"@) == Some(
                DocumentView::Text("/tmp/openbao-agent-token"@),
            )))
        }),
{
    lemma_keys_of_agents_differ();
    reveal_strlit("/etc/openbao-agent");
    reveal_strlit("/");
    reveal_strlit("role_id");
    reveal_strlit("secret_id");
    reveal_strlit("/etc/openbao-agent/role_id");
    reveal_strlit("/etc/openbao-agent/secret_id");
    assert(AGENT_CONTAINER_MOUNT_PATH@ + "/"@ + ROLE_ID_FILE_NAME@
        =~= "/etc/openbao-agent/role_id"@);
    assert(AGENT_CONTAINER_MOUNT_PATH@ + "/"@ + SECRET_ID_FILE_NAME@
        =~= "/etc/openbao-agent/secret_id"@);
    let fields = agent_config(agent_ip)->Record_0;
    lemma_entry_at(fields, 0);
    lemma_entry_at(fields, 2);
    let auth = fields[2].1->Record_0;
    lemma_entry_at(auth, 0);
    lemma_entry_at(auth, 1);
    let login = agent_login()->Record_0;
    lemma_entry_at(login, 0);
    lemma_entry_at(login, 1);
    lemma_entry_at(login[1].1->Record_0, 0);
    lemma_entry_at(login[1].1->Record_0, 1);
    lemma_entry_at(login[1].1->Record_0, 2);
    let sink = auth[1].1->List_0[0]->Record_0;
    lemma_entry_at(sink, 0);
    lemma_entry_at(sink, 1);
    lemma_entry_at(sink[1].1->Record_0, 0);
}

/// An agent keeps its files in its own mount, below the folder of its seedling, and has the second
/// address of the range that begins with the seedling's own gateway.
pub proof fn law_agents_have_their_place(
    placement: AgentPlacement,
    root: Seq<char>,
    seedling: Seq<char>,
    id: Id,
)
    requires
        placement.belongs_to(root, seedling, id),
        root.len() > 0,
        root.last() != '/',
        seedling.len() > 0,
        !seedling.contains('/'),
    ensures
        placement.mount_dir@ == root + "/mounts/"@ + seedling + "/openbao-agent"@,
        placement.role_id_path@ == placement.mount_dir@ + "/role_id"@,
        placement.secret_id_path@ == placement.mount_dir@ + "/secret_id"@,
        placement.agent_config_path@ == placement.mount_dir@ + "/agent.json"@,
        placement.private_subnet.cidr@ == (Ipv4 {
            d: 0,
            ..placement.private_subnet.gateway
        }).text() + "/24"@,
        placement.private_subnet.gateway.a == 10,
        placement.private_subnet.gateway.b * 256 + placement.private_subnet.gateway.c == id.value,
        placement.private_subnet.gateway.d == 1,
        placement.agent_private_ip.a == 10,
        placement.agent_private_ip.b == placement.private_subnet.gateway.b,
        placement.agent_private_ip.c == placement.private_subnet.gateway.c,
        placement.agent_private_ip.d == 2,
{
    reveal_strlit("/");
    reveal_strlit("openbao-agent");
    reveal_strlit("/openbao-agent");
    reveal_strlit("role_id");
    reveal_strlit("/role_id");
    reveal_strlit("secret_id");
    reveal_strlit("/secret_id");
    reveal_strlit("agent.json");
    reveal_strlit("/agent.json");
    law_private_addresses_lie_in_their_range(id, 0);
    law_seedlings_have_their_places(root, seedling, AGENT_MOUNT_NAME@);
    let dir = placement.mount_dir@;
    assert(dir =~= root + "/mounts/"@ + seedling + "/openbao-agent"@);
    assert(dir.last() == 't');
    assert(placement.role_id_path@ =~= dir + "/role_id"@);
    assert(placement.secret_id_path@ =~= dir + "/secret_id"@);
    assert(placement.agent_config_path@ =~= dir + "/agent.json"@);
}

} // verus!
