//! Registering a new seedling.

use crate::docker::VersionedImageName;
use crate::executor::{describe_failed, failed_words, only_reason};
use crate::names::{valid_docker_name, ContainerName, Name};
use crate::seedling::{
    ImageSource, MountType, NamedMount, Origin, RouteSpec, Routing, SeedlingDefinition,
    UserSeedlingDefinition, Version,
};
use crate::sequences::{lemma_join_contains, lemma_push_contains};
use crate::text::{cat2, cat3, cat7, debug_texts, debug_texts_of, has_text, lists, string_texts};
use vstd::prelude::*;

verus! {

/// Why a seedling could not be registered.
#[derive(Debug, PartialEq, Eq)]
pub enum NewSeedlingError {
    DockerNameError(String),
    SeedlingAlreadyExists,
    SeedlingOrphaned,
    ReservedName(String),
    MissingMountSiblings(Vec<String>),
    FailedBoostrap(Vec<String>),
}

impl NewSeedlingError {
    /// The error for a plan that could not be carried out for a reason.
    pub fn failed(reason: String) -> (r: Self)
        ensures
            r matches NewSeedlingError::FailedBoostrap(reasons) && reasons@ == seq![reason],
    {
        NewSeedlingError::FailedBoostrap(only_reason(reason))
    }

    /// The error in words.
    pub open spec fn text(&self) -> Seq<char> {
        match self {
            NewSeedlingError::DockerNameError(name) => "Docker name error "@ + name@,
            NewSeedlingError::SeedlingAlreadyExists => "Seedling already exists"@,
            NewSeedlingError::SeedlingOrphaned =>
                "Seedling is in an orphaned state.  Delete first before creating"@,
            NewSeedlingError::ReservedName(name) => "'"@ + name@
                + "' is a reserved name managed by douglas"@,
            NewSeedlingError::MissingMountSiblings(names) =>
                "Mount references unregistered sibling seedlings: "@ + debug_texts_of(
                string_texts(names@),
            ),
            NewSeedlingError::FailedBoostrap(reasons) => failed_words(reasons@),
        }
    }

    /// The error in words.
    pub fn describe(&self) -> (r: String)
        ensures
            r@ == self.text(),
    {
        match self {
            NewSeedlingError::DockerNameError(name) => cat2("Docker name error ", name),
            NewSeedlingError::SeedlingAlreadyExists => "Seedling already exists".to_owned(),
            NewSeedlingError::SeedlingOrphaned =>
                "Seedling is in an orphaned state.  Delete first before creating".to_owned(),
            NewSeedlingError::ReservedName(name) => cat3(
                "'",
                name,
                "' is a reserved name managed by douglas",
            ),
            NewSeedlingError::MissingMountSiblings(names) => cat2(
                "Mount references unregistered sibling seedlings: ",
                &debug_texts(names),
            ),
            NewSeedlingError::FailedBoostrap(reasons) => describe_failed(reasons),
        }
    }
}

/// What was found under a new seedling's name.
#[derive(Debug, PartialEq, Eq)]
pub struct State {
    pub seedling_exists: bool,
    pub container_exists: bool,
    pub image_exists: bool,
    pub registered: bool,
    pub missing_mount_siblings: Vec<String>,
}

/// Refuses the names that douglas keeps for itself.
pub fn check_reserved(name: &Name, reserved: &Vec<String>) -> (r: Result<(), NewSeedlingError>)
    ensures
        if lists(reserved@, name@) {
            r matches Err(NewSeedlingError::ReservedName(text)) && text@ == name@
        } else {
            r is Ok
        },
{
    if has_text(reserved, name.as_str()) {
        Err(NewSeedlingError::ReservedName(name.to_text()))
    } else {
        Ok(())
    }
}

/// What is known so far of a new seedling's name.
#[derive(Debug, PartialEq, Eq)]
pub struct Knowledge {
    pub seedling_exists: Option<bool>,
    pub container_exists: Option<bool>,
    pub image_exists: Option<bool>,
    pub registered: Option<bool>,
    /// Whether the first of those that its mounts are shared with are there, in order.
    pub siblings: Vec<bool>,
}

/// What is to be found out next, or what is known.
#[derive(Debug, PartialEq, Eq)]
pub enum Discovery<'a> {
    AskSeedlingExists,
    AskContainerExists(ContainerName),
    AskImageExists,
    AskRegistered,
    AskSiblingExists(&'a Name),
    Known(State),
}

/// Those that the first `n` mounts are shared with, mount by mount.
pub open spec fn siblings_upto(mounts: Seq<NamedMount>, n: nat) -> Seq<Name>
    decreases n,
{
    if n == 0 {
        Seq::empty()
    } else {
        siblings_upto(mounts, (n - 1) as nat) + match mounts[n - 1].mount.kind {
            MountType::PersistedShared(siblings) => siblings@,
            _ => Seq::empty(),
        }
    }
}

/// Those that the mounts of a seedling are shared with.
pub open spec fn siblings_of(definition: UserSeedlingDefinition) -> Seq<Name> {
    siblings_upto(definition.mounts@, definition.mounts@.len())
}

fn list_siblings<'a>(definition: &'a UserSeedlingDefinition) -> (r: Vec<&'a Name>)
    ensures
        r@.len() == siblings_of(*definition).len(),
        forall|i: int| 0 <= i < r@.len() ==> *(#[trigger] r@[i]) == siblings_of(*definition)[i],
{
    let mut list: Vec<&'a Name> = Vec::new();
    let ghost mounts = definition.mounts@;
    let mut i: usize = 0;
    while i < definition.mounts.len()
        invariant
            i <= mounts.len(),
            mounts == definition.mounts@,
            list@.len() == siblings_upto(mounts, i as nat).len(),
            forall|k: int|
                0 <= k < list@.len() ==> *(#[trigger] list@[k]) == siblings_upto(
                    mounts,
                    i as nat,
                )[k],
        decreases mounts.len() - i,
    {
        let ghost before = siblings_upto(mounts, i as nat);
        if let MountType::PersistedShared(siblings) = &definition.mounts[i].mount.kind {
            let mut j: usize = 0;
            while j < siblings.len()
                invariant
                    j <= siblings@.len(),
                    list@.len() == before.len() + j,
                    forall|k: int|
                        0 <= k < before.len() ==> *(#[trigger] list@[k]) == before[k],
                    forall|k: int|
                        before.len() <= k < list@.len() ==> *(#[trigger] list@[k])
                            == siblings@[k - before.len()],
                decreases siblings@.len() - j,
            {
                list.push(&siblings[j]);
                j += 1;
            }
        }
        i += 1;
    }
    list
}

/// The names of those that are not there.
pub open spec fn missing_of(siblings: Seq<Name>, there: Seq<bool>, n: nat) -> Seq<Seq<char>>
    decreases n,
{
    if n == 0 {
        Seq::empty()
    } else if there[n - 1] {
        missing_of(siblings, there, (n - 1) as nat)
    } else {
        missing_of(siblings, there, (n - 1) as nat).push(siblings[n - 1]@)
    }
}

fn list_missing(siblings: &Vec<&Name>, there: &Vec<bool>) -> (r: Vec<String>)
    requires
        there@.len() >= siblings@.len(),
    ensures
        string_texts(r@) == missing_of(
            siblings@.map_values(|name: &Name| *name),
            there@,
            siblings@.len(),
        ),
{
    let ghost all = siblings@.map_values(|name: &Name| *name);
    let mut missing: Vec<String> = Vec::new();
    let mut i: usize = 0;
    assert(string_texts(missing@) =~= Seq::<Seq<char>>::empty());
    while i < siblings.len()
        invariant
            i <= siblings@.len() <= there@.len(),
            all == siblings@.map_values(|name: &Name| *name),
            string_texts(missing@) == missing_of(all, there@, i as nat),
        decreases siblings@.len() - i,
    {
        if !there[i] {
            let ghost before = string_texts(missing@);
            missing.push(siblings[i].to_text());
            assert(string_texts(missing@) =~= before.push(siblings@[i as int]@));
        }
        i += 1;
    }
    missing
}

/// What stands in the way of a new seedling: an image that is here already counts only where the
/// image is to be a local one.
pub open spec fn local_image_in_the_way(image: ImageSource, image_exists: Option<bool>) -> bool {
    image is Local && image_exists == Some(true)
}

/// Whether a state says nothing but that the name is taken.
pub open spec fn is_taken(state: State, seedling_exists: bool, container_exists: bool) -> bool {
    &&& state.seedling_exists == seedling_exists
    &&& state.container_exists == container_exists
    &&& !state.image_exists
    &&& !state.registered
    &&& state.missing_mount_siblings@.len() == 0
}

fn taken(seedling_exists: bool, container_exists: bool) -> (r: State)
    ensures
        is_taken(r, seedling_exists, container_exists),
{
    State {
        seedling_exists,
        container_exists,
        image_exists: false,
        registered: false,
        missing_mount_siblings: Vec::new(),
    }
}

/// What is to be found out next about a new seedling's name, or what is known of it.
pub open spec fn follows(
    name: Seq<char>,
    definition: UserSeedlingDefinition,
    k: Knowledge,
    found: Discovery,
) -> bool {
    let siblings = siblings_of(definition);
    let asked = k.siblings@.len();
    if k.seedling_exists is None {
        found is AskSeedlingExists
    } else if k.seedling_exists == Some(true) {
        found matches Discovery::Known(state) && is_taken(state, true, false)
    } else if k.container_exists is None {
        found matches Discovery::AskContainerExists(container) && container@ == name
    } else if k.container_exists == Some(true) {
        found matches Discovery::Known(state) && is_taken(state, false, true)
    } else if definition.image is Local && k.image_exists is None {
        found is AskImageExists
    } else if local_image_in_the_way(definition.image, k.image_exists) {
        found matches Discovery::Known(state) && is_taken(state, false, true)
    } else if k.registered is None {
        found is AskRegistered
    } else if asked < siblings.len() {
        found matches Discovery::AskSiblingExists(sibling) && *sibling == siblings[asked as int]
    } else {
        &&& found matches Discovery::Known(state)
        &&& !state.seedling_exists
        &&& !state.container_exists
        &&& !state.image_exists
        &&& Some(state.registered) == k.registered
        &&& string_texts(state.missing_mount_siblings@) == missing_of(
            siblings,
            k.siblings@,
            siblings.len(),
        )
    }
}

/// What is to be found out next about a new seedling's name, or what is known of it. The search
/// ends as soon as something is found in the way; an image is asked about only where it is to be a
/// local one, and counts as a container that is in the way.
pub fn discover<'a>(
    name: &Name,
    definition: &'a UserSeedlingDefinition,
    k: &Knowledge,
) -> (r: Result<Discovery<'a>, NewSeedlingError>)
    ensures
        !valid_docker_name(name@) ==> (r matches Err(NewSeedlingError::DockerNameError(text))
            && text@ == name@),
        valid_docker_name(name@) ==> (r matches Ok(found) && follows(
            name@,
            *definition,
            *k,
            found,
        )),
{
    let container: ContainerName = match ContainerName::parse(name.as_str()) {
        Some(container) => container,
        None => return Err(NewSeedlingError::DockerNameError(name.to_text())),
    };
    match k.seedling_exists {
        None => return Ok(Discovery::AskSeedlingExists),
        Some(there) => {
            if there {
                return Ok(Discovery::Known(taken(true, false)));
            }
        },
    }
    match k.container_exists {
        None => return Ok(Discovery::AskContainerExists(container)),
        Some(there) => {
            if there {
                return Ok(Discovery::Known(taken(false, true)));
            }
        },
    }
    if let ImageSource::Local = &definition.image {
        match k.image_exists {
            None => return Ok(Discovery::AskImageExists),
            Some(there) => {
                if there {
                    return Ok(Discovery::Known(taken(false, true)));
                }
            },
        }
    }
    let registered: bool = match k.registered {
        None => return Ok(Discovery::AskRegistered),
        Some(registered) => registered,
    };
    let siblings: Vec<&'a Name> = list_siblings(definition);
    let asked: usize = k.siblings.len();
    if asked < siblings.len() {
        return Ok(Discovery::AskSiblingExists(siblings[asked]));
    }
    assert(siblings@.map_values(|name: &Name| *name) =~= siblings_of(*definition));
    Ok(
        Discovery::Known(
            State {
                seedling_exists: false,
                container_exists: false,
                image_exists: false,
                registered,
                missing_mount_siblings: list_missing(&siblings, &k.siblings),
            },
        ),
    )
}

/// One step of a registration.
#[derive(Debug, PartialEq, Eq)]
pub enum Step<'a> {
    NewSeedlingFromSpec { seedling_name: &'a Name, definition: &'a UserSeedlingDefinition },
    ClaimDefault { seedling_name: &'a Name },
}

impl<'a> Step<'a> {
    /// What the step does, in words.
    pub open spec fn described(&self) -> Seq<char> {
        match self {
            Step::NewSeedlingFromSpec { seedling_name, .. } => "Creating seedling for '"@
                + seedling_name@ + "'"@,
            Step::ClaimDefault { seedling_name } => "Claiming default for '"@ + seedling_name@
                + "'"@,
        }
    }

    /// What the step does, in words.
    pub fn describe(&self) -> (r: String)
        ensures
            r@ == self.described(),
    {
        match self {
            Step::NewSeedlingFromSpec { seedling_name, .. } => cat3(
                "Creating seedling for '",
                seedling_name.as_str(),
                "'",
            ),
            Step::ClaimDefault { seedling_name } => cat3(
                "Claiming default for '",
                seedling_name.as_str(),
                "'",
            ),
        }
    }

    /// The step's name.
    pub fn name(&self) -> (r: String)
        ensures
            r@ == (match self {
                Step::NewSeedlingFromSpec { .. } => "Creating seedling"@,
                Step::ClaimDefault { .. } => "Claiming default"@,
            }),
    {
        match self {
            Step::NewSeedlingFromSpec { .. } => "Creating seedling".to_owned(),
            Step::ClaimDefault { .. } => "Claiming default".to_owned(),
        }
    }

    /// The seedling that is to be deleted again where the step is undone: the one that it made.
    pub fn rollback(&self) -> (r: Option<&'a Name>)
        ensures
            r == (match *self {
                Step::NewSeedlingFromSpec { seedling_name, .. } => Some(seedling_name),
                Step::ClaimDefault { .. } => None,
            }),
    {
        match self {
            Step::NewSeedlingFromSpec { seedling_name, .. } => Some(*seedling_name),
            Step::ClaimDefault { .. } => None,
        }
    }
}

/// The steps of a registration: the default host is claimed by a seedling at the root.
pub open spec fn planned<'a>(name: &'a Name, definition: &'a UserSeedlingDefinition) -> Seq<
    Step<'a>,
> {
    seq![Step::NewSeedlingFromSpec { seedling_name: name, definition }] + (if definition.route
        == RouteSpec::Root {
        seq![Step::ClaimDefault { seedling_name: name }]
    } else {
        Seq::empty()
    })
}

/// Why a registration is refused, if it is.
pub open spec fn refusal(state: State) -> Option<NewSeedlingError> {
    if state.seedling_exists {
        Some(NewSeedlingError::SeedlingAlreadyExists)
    } else if state.container_exists || state.image_exists || state.registered {
        Some(NewSeedlingError::SeedlingOrphaned)
    } else if state.missing_mount_siblings@.len() > 0 {
        Some(NewSeedlingError::MissingMountSiblings(state.missing_mount_siblings))
    } else {
        None
    }
}

/// Plans the registration of a seedling. A name that is taken, or of which something is left over,
/// and mounts that are shared with seedlings that are not there, are refused.
pub fn create_plan<'a>(
    name: &'a Name,
    definition: &'a UserSeedlingDefinition,
    state: State,
) -> (r: Result<Vec<Step<'a>>, NewSeedlingError>)
    ensures
        match refusal(state) {
            Some(error) => r == Err::<Vec<Step<'a>>, _>(error),
            None => r matches Ok(steps) && steps@ == planned(name, definition),
        },
{
    if state.seedling_exists {
        return Err(NewSeedlingError::SeedlingAlreadyExists);
    }
    if state.container_exists || state.image_exists || state.registered {
        return Err(NewSeedlingError::SeedlingOrphaned);
    }
    if state.missing_mount_siblings.len() > 0 {
        return Err(NewSeedlingError::MissingMountSiblings(state.missing_mount_siblings));
    }
    let mut steps: Vec<Step<'a>> = Vec::new();
    steps.push(Step::NewSeedlingFromSpec { seedling_name: name, definition });
    if definition.route == RouteSpec::Root {
        steps.push(Step::ClaimDefault { seedling_name: name });
    }
    assert(steps@ =~= planned(name, definition));
    Ok(steps)
}

/// Whether nothing stands in a new seedling's way, as far as is known: nothing has its name, and
/// everyone with whom its mounts are shared is there.
pub open spec fn is_free(definition: UserSeedlingDefinition, k: Knowledge) -> bool {
    &&& k.seedling_exists == Some(false)
    &&& k.container_exists == Some(false)
    &&& !local_image_in_the_way(definition.image, k.image_exists)
    &&& k.registered == Some(false)
    &&& forall|i: int| 0 <= i < siblings_of(definition).len() ==> #[trigger] k.siblings@[i]
}

proof fn lemma_nobody_is_missing(siblings: Seq<Name>, there: Seq<bool>, n: nat)
    ensures
        missing_of(siblings, there, n).len() == 0 <==> (forall|i: int|
            0 <= i < n ==> #[trigger] there[i]),
    decreases n,
{
    if n > 0 {
        lemma_nobody_is_missing(siblings, there, (n - 1) as nat);
    }
}

/// Once the search has ended, a seedling is registered exactly where nothing stands in its way.
pub proof fn law_only_free_names_are_registered(
    name: Seq<char>,
    definition: UserSeedlingDefinition,
    k: Knowledge,
    state: State,
)
    requires
        follows(name, definition, k, Discovery::Known(state)),
    ensures
        refusal(state) is None <==> is_free(definition, k),
{
    let siblings = siblings_of(definition);
    lemma_nobody_is_missing(siblings, k.siblings@, siblings.len());
    assert(string_texts(state.missing_mount_siblings@).len() == state.missing_mount_siblings@.len());
    assert(k.seedling_exists matches Some(there) ==> k.seedling_exists == Some(there));
    assert(k.container_exists matches Some(there) ==> k.container_exists == Some(there));
    assert(k.registered matches Some(there) ==> k.registered == Some(there));
}

/// The version that a new seedling starts at.
pub fn first_version() -> (r: Version)
    ensures
        r == Version(1),
{
    Version(1)
}

/// The declaration that a user's becomes: a routed seedling of a user, with nothing beyond what
/// the user asked for.
pub fn seedling_definition(definition: UserSeedlingDefinition, image: VersionedImageName) -> (r:
    SeedlingDefinition)
    ensures
        r.image == image,
        r.mounts == definition.mounts,
        r.routing == (Routing::Routed { route: definition.route, ports: definition.ports }),
        r.health_check == definition.health_check,
        r.secrets == definition.secrets,
        r.origin == Origin::User,
        r.published_ports@.len() == 0,
        r.command is None,
        r.added_capabilities@.len() == 0,
{
    SeedlingDefinition {
        image,
        mounts: definition.mounts,
        routing: Routing::Routed { route: definition.route, ports: definition.ports },
        health_check: definition.health_check,
        secrets: definition.secrets,
        origin: Origin::User,
        published_ports: Vec::new(),
        command: None,
        added_capabilities: Vec::new(),
    }
}

/// Tells the user how to go on once the seedling is registered.
pub fn ready_message(name: &Name, registry: &str) -> (r: String)
    ensures
        r@
            == "Ready. If your image isn't already named for this registry, tag it first: `docker tag "@
            + name@ + " "@ + registry@ + "/"@ + name@ + "`. Then push it to "@ + registry@ + "/"@
            + name@ + " to deploy it."@,
{
    let mut s: String = cat7(
        "Ready. If your image isn't already named for this registry, tag it first: `docker tag ",
        name.as_str(),
        " ",
        registry,
        "/",
        name.as_str(),
        "`. Then push it to ",
    );
    s.append(registry);
    s.append("/");
    s.append(name.as_str());
    s.append(" to deploy it.");
    s
}

/// Those that a seedling's mounts are shared with are exactly those that some shared mount names.
pub proof fn law_siblings_are_those_that_mounts_name(mounts: Seq<NamedMount>, n: nat, name: Name)
    requires
        n <= mounts.len(),
    ensures
        siblings_upto(mounts, n).contains(name) == exists|i: int|
            0 <= i < n && ((#[trigger] mounts[i]).mount.kind matches MountType::PersistedShared(
                siblings,
            ) && siblings@.contains(name)),
    decreases n,
{
    if n > 0 {
        let fewer = (n - 1) as nat;
        law_siblings_are_those_that_mounts_name(mounts, fewer, name);
        let own = match mounts[n - 1].mount.kind {
            MountType::PersistedShared(siblings) => siblings@,
            _ => Seq::empty(),
        };
        lemma_join_contains(siblings_upto(mounts, fewer), own, name);
        if siblings_upto(mounts, fewer).contains(name) {
            let i = choose|i: int|
                0 <= i < fewer && ((#[trigger] mounts[i]).mount.kind
                    matches MountType::PersistedShared(siblings) && siblings@.contains(name));
            assert(mounts[i] == mounts[i]);
        }
        if own.contains(name) {
            assert(mounts[n - 1].mount.kind is PersistedShared);
        }
        if exists|i: int|
            0 <= i < n && ((#[trigger] mounts[i]).mount.kind matches MountType::PersistedShared(
                siblings,
            ) && siblings@.contains(name)) {
            let i = choose|i: int|
                0 <= i < n && ((#[trigger] mounts[i]).mount.kind
                    matches MountType::PersistedShared(siblings) && siblings@.contains(name));
            if i < fewer {
                assert(mounts[i].mount.kind is PersistedShared);
            }
        }
    }
}

/// A sibling is reported missing exactly where it was asked about and is not there.
pub proof fn law_missing_siblings_are_reported(
    siblings: Seq<Name>,
    there: Seq<bool>,
    n: nat,
    name: Seq<char>,
)
    requires
        n <= siblings.len(),
    ensures
        missing_of(siblings, there, n).contains(name) == exists|i: int|
            0 <= i < n && (#[trigger] siblings[i])@ == name && !there[i],
    decreases n,
{
    if n > 0 {
        let fewer = (n - 1) as nat;
        law_missing_siblings_are_reported(siblings, there, fewer, name);
        lemma_push_contains(missing_of(siblings, there, fewer), siblings[n - 1]@, name);
        if missing_of(siblings, there, fewer).contains(name) {
            let i = choose|i: int|
                0 <= i < fewer && (#[trigger] siblings[i])@ == name && !there[i];
            assert(siblings[i] == siblings[i]);
        }
        if siblings[n - 1]@ == name && !there[n - 1] {
            assert(siblings[n - 1] == siblings[n - 1]);
        }
        if exists|i: int| 0 <= i < n && (#[trigger] siblings[i])@ == name && !there[i] {
            let i = choose|i: int|
                0 <= i < n && (#[trigger] siblings[i])@ == name && !there[i];
            if i < fewer {
                assert(siblings[i] == siblings[i]);
            }
        }
    }
}

/// What is found out about a new seedling's name goes step by step: the seedbank, the containers,
/// for a local image the images, the registry, and then the siblings one by one. What is found in
/// the way is reported as it was found.
pub proof fn law_names_are_looked_into_step_by_step(
    name: Seq<char>,
    definition: UserSeedlingDefinition,
    k: Knowledge,
    found: Discovery,
)
    requires
        follows(name, definition, k, found),
    ensures
        ({
            let unseen = k.seedling_exists == Some(false);
            let free = unseen && k.container_exists == Some(false) && !(definition.image is Local
                && k.image_exists != Some(false));
            match found {
                Discovery::AskSeedlingExists => k.seedling_exists is None,
                Discovery::AskContainerExists(container) => unseen && k.container_exists is None
                    && container@ == name,
                Discovery::AskImageExists => unseen && k.container_exists == Some(false)
                    && definition.image is Local && k.image_exists is None,
                Discovery::AskRegistered => free && k.registered is None,
                Discovery::AskSiblingExists(sibling) => free && k.registered is Some
                    && k.siblings@.len() < siblings_of(definition).len() && *sibling
                    == siblings_of(definition)[k.siblings@.len() as int],
                Discovery::Known(state) => {
                    &&& state.seedling_exists == (k.seedling_exists == Some(true))
                    &&& state.container_exists == (unseen && (k.container_exists == Some(true) || (
                    k.container_exists == Some(false) && definition.image is Local
                        && k.image_exists == Some(true))))
                    &&& !state.image_exists
                    &&& state.registered == (free && k.registered == Some(true))
                    &&& state.seedling_exists || state.container_exists || (free && k.registered
                        is Some && k.siblings@.len() >= siblings_of(definition).len())
                    &&& state.seedling_exists || state.container_exists
                        ==> state.missing_mount_siblings@.len() == 0
                    &&& free ==> string_texts(state.missing_mount_siblings@) == missing_of(
                        siblings_of(definition),
                        k.siblings@,
                        siblings_of(definition).len(),
                    )
                },
            }
        }),
{
    assert(k.seedling_exists matches Some(b) ==> k.seedling_exists == Some(b));
    assert(k.container_exists matches Some(b) ==> k.container_exists == Some(b));
    assert(k.image_exists matches Some(b) ==> k.image_exists == Some(b));
    assert(k.registered matches Some(b) ==> k.registered == Some(b));
}

/// A registration is refused where the seedling is there, where something of it is left over, and
/// where somebody that its mounts are shared with is missing, and only there; who is missing is
/// said.
pub proof fn law_registrations_are_refused_for_a_reason(state: State)
    ensures
        match refusal(state) {
            Some(NewSeedlingError::SeedlingAlreadyExists) => state.seedling_exists,
            Some(NewSeedlingError::SeedlingOrphaned) => !state.seedling_exists && (
            state.container_exists || state.image_exists || state.registered),
            Some(NewSeedlingError::MissingMountSiblings(names)) => !state.seedling_exists
                && !state.container_exists && !state.image_exists && !state.registered && names
                == state.missing_mount_siblings && names@.len() > 0,
            Some(_) => false,
            None => !state.seedling_exists && !state.container_exists && !state.image_exists
                && !state.registered && state.missing_mount_siblings@.len() == 0,
        },
{
}

/// Registering makes the seedling as the user declared it, and claims the default host exactly for
/// a seedling at the root, once the seedling is there.
pub proof fn law_only_the_root_claims_the_default<'a>(
    name: &'a Name,
    definition: &'a UserSeedlingDefinition,
)
    ensures
        ({
            let plan = planned(name, definition);
            &&& plan.len() == (if definition.route is Root {
                2int
            } else {
                1
            })
            &&& plan[0] == (Step::NewSeedlingFromSpec { seedling_name: name, definition })
            &&& definition.route is Root ==> plan[1] == (Step::ClaimDefault { seedling_name: name })
        }),
{
}

} // verus!
