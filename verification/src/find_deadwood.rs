//! Finding what was left behind by seedlings that are no longer declared.

use crate::names::{
    law_names_stand_behind_their_prefix, name_behind, name_from_prefixed, names, valid_name, ContainerName, Name, AGENT_CONTAINER_PREFIX,
    CONTAINER_PREFIX, OPENBAO, TRAEFIK,
};
use crate::provision_seedling_secrets::SEEDLING_APPROLE_PREFIX;
use crate::sequences::lemma_push_contains;
use crate::text::{has_text, lists, string_texts, strip_suffix};
use vstd::prelude::*;

verus! {

/// What is left of seedlings that are no longer declared.
#[derive(Debug, PartialEq, Eq)]
pub struct Deadwood {
    pub containers: Vec<Name>,
    pub networks: Vec<Name>,
    pub route_files: Vec<Name>,
    pub resin_repositories: Vec<String>,
    pub mounts: Vec<Name>,
    pub openbao_secrets: Vec<Name>,
}

impl Default for Deadwood {
    fn default() -> (r: Self)
        ensures
            r.nothing_left(),
    {
        Deadwood {
            containers: Vec::new(),
            networks: Vec::new(),
            route_files: Vec::new(),
            resin_repositories: Vec::new(),
            mounts: Vec::new(),
            openbao_secrets: Vec::new(),
        }
    }
}

impl Deadwood {
    /// Whether nothing is left.
    pub open spec fn nothing_left(&self) -> bool {
        &&& self.containers@.len() == 0
        &&& self.networks@.len() == 0
        &&& self.route_files@.len() == 0
        &&& self.resin_repositories@.len() == 0
        &&& self.mounts@.len() == 0
        &&& self.openbao_secrets@.len() == 0
    }

    /// Whether nothing is left.
    pub fn is_empty(&self) -> (r: bool)
        ensures
            r == self.nothing_left(),
    {
        self.containers.len() == 0 && self.networks.len() == 0 && self.route_files.len() == 0
            && self.resin_repositories.len() == 0 && self.mounts.len() == 0
            && self.openbao_secrets.len() == 0
    }
}

/// Which seedlings are declared, and which repositories hold their images.
#[derive(Debug, PartialEq, Eq)]
pub struct Known<'a> {
    pub seedbank_names: &'a Vec<String>,
    pub image_repositories: &'a Vec<String>,
}

/// What was seen.
#[derive(Debug, PartialEq, Eq)]
pub struct Observed<'a> {
    pub containers: &'a Vec<Name>,
    pub networks: &'a Vec<Name>,
    pub route_files: &'a Vec<Name>,
    pub resin_repositories: &'a Vec<String>,
    pub mounts: &'a Vec<Name>,
    pub openbao_secrets: &'a Vec<Name>,
}

/// Whether a list has the declared names, those of douglas's own seedlings, and no others.
pub open spec fn protects(protected: Seq<String>, declared: Seq<String>) -> bool {
    forall|wanted: Seq<char>| #[trigger]
        lists(protected, wanted) == (lists(declared, wanted) || wanted == TRAEFIK@ || wanted
            == OPENBAO@)
}

/// The declared names with those of douglas's own seedlings, which are never left behind.
pub fn protect_core_seedling_names(names: Vec<String>) -> (r: Vec<String>)
    ensures
        protects(r@, names@),
{
    let ghost given = names@;
    let mut protected: Vec<String> = names;
    protected.push(TRAEFIK.to_owned());
    protected.push(OPENBAO.to_owned());
    assert forall|wanted: Seq<char>| #[trigger] lists(protected@, wanted) == (lists(given, wanted)
        || wanted == TRAEFIK@ || wanted == OPENBAO@) by {
        let n = given.len() as int;
        assert(protected@[n]@ == TRAEFIK@);
        assert(protected@[n + 1]@ == OPENBAO@);
        if lists(given, wanted) {
            let i = choose|i: int| 0 <= i < given.len() && (#[trigger] given[i])@ == wanted;
            assert(protected@[i]@ == wanted);
        }
        if lists(protected@, wanted) {
            let i = choose|i: int|
                0 <= i < protected@.len() && (#[trigger] protected@[i])@ == wanted;
            if i < n {
                assert(given[i]@ == wanted);
            }
        }
    }
    protected
}

fn add_name(list: &mut Vec<Name>, name: Name)
    requires
        distinct(old(list)@),
    ensures
        distinct(final(list)@),
        forall|wanted: Seq<char>| #[trigger]
            names(final(list)@, wanted) == (names(old(list)@, wanted) || wanted == name@),
{
    let ghost before = list@;
    if !crate::names::has_name(list, &name) {
        list.push(name);
        assert(distinct(list@)) by {
            assert forall|i: int, j: int| 0 <= i < j < list@.len() implies (#[trigger] list@[i])@
                != (#[trigger] list@[j])@ by {
                if j == before.len() {
                    assert(before[i]@ != name@);
                }
            }
        }
        assert(list@[before.len() as int]@ == name@);
        assert forall|wanted: Seq<char>| #[trigger] names(list@, wanted) == (names(before, wanted)
            || wanted == name@) by {
            if names(before, wanted) {
                let i = choose|i: int| 0 <= i < before.len() && (#[trigger] before[i])@ == wanted;
                assert(list@[i]@ == wanted);
            }
            if names(list@, wanted) {
                let i = choose|i: int| 0 <= i < list@.len() && (#[trigger] list@[i])@ == wanted;
                if i < before.len() {
                    assert(before[i]@ == wanted);
                }
            }
        }
    }
}

/// Whether no name occurs twice.
pub open spec fn distinct(list: Seq<Name>) -> bool {
    forall|i: int, j: int|
        0 <= i < j < list.len() ==> (#[trigger] list[i])@ != (#[trigger] list[j])@
}

/// Whether some text among the first `n` has a seedling's name behind a prefix.
pub open spec fn some_behind(
    texts: Seq<Seq<char>>,
    prefix: Seq<char>,
    wanted: Seq<char>,
    n: int,
) -> bool {
    exists|i: int|
        0 <= i < n && name_behind(#[trigger] texts[i], prefix) == Some(wanted)
}

/// The texts of container names.
pub open spec fn container_texts(containers: Seq<ContainerName>) -> Seq<Seq<char>> {
    containers.map_values(|c: ContainerName| c@)
}

fn add_prefixed(list: &mut Vec<Name>, text: &str, prefix: &str)
    requires
        distinct(old(list)@),
    ensures
        distinct(final(list)@),
        forall|wanted: Seq<char>| #[trigger]
            names(final(list)@, wanted) == (names(old(list)@, wanted) || name_behind(
                text@,
                prefix@,
            ) == Some(wanted)),
{
    if let Some(name) = name_from_prefixed(text, prefix) {
        add_name(list, name);
    }
}

/// The seedlings that have a container or an agent's container, each once.
pub fn seedling_names_from_live_containers(live_containers: &Vec<ContainerName>) -> (r: Vec<Name>)
    ensures
        distinct(r@),
        forall|wanted: Seq<char>| #[trigger]
            names(r@, wanted) == (some_behind(
                container_texts(live_containers@),
                CONTAINER_PREFIX@,
                wanted,
                live_containers@.len() as int,
            ) || some_behind(
                container_texts(live_containers@),
                AGENT_CONTAINER_PREFIX@,
                wanted,
                live_containers@.len() as int,
            )),
{
    let ghost all = container_texts(live_containers@);
    let mut list: Vec<Name> = Vec::new();
    let mut i: usize = 0;
    while i < live_containers.len()
        invariant
            i <= live_containers@.len(),
            all == container_texts(live_containers@),
            distinct(list@),
            forall|wanted: Seq<char>| #[trigger]
                names(list@, wanted) == (some_behind(all, CONTAINER_PREFIX@, wanted, i as int)
                    || some_behind(all, AGENT_CONTAINER_PREFIX@, wanted, i as int)),
        decreases live_containers@.len() - i,
    {
        let ghost before = list@;
        let text: &str = live_containers[i].as_str();
        add_prefixed(&mut list, text, CONTAINER_PREFIX);
        add_prefixed(&mut list, text, AGENT_CONTAINER_PREFIX);
        assert(all[i as int] == text@);
        assert forall|wanted: Seq<char>| #[trigger] names(list@, wanted) == (some_behind(
            all,
            CONTAINER_PREFIX@,
            wanted,
            i as int + 1,
        ) || some_behind(all, AGENT_CONTAINER_PREFIX@, wanted, i as int + 1)) by {
            lemma_some_behind_next(all, CONTAINER_PREFIX@, wanted, i as int);
            lemma_some_behind_next(all, AGENT_CONTAINER_PREFIX@, wanted, i as int);
            assert(names(before, wanted) == (some_behind(all, CONTAINER_PREFIX@, wanted, i as int)
                || some_behind(all, AGENT_CONTAINER_PREFIX@, wanted, i as int)));
        }
        i += 1;
    }
    list
}

proof fn lemma_some_behind_next(
    texts: Seq<Seq<char>>,
    prefix: Seq<char>,
    wanted: Seq<char>,
    n: int,
)
    requires
        0 <= n < texts.len(),
    ensures
        some_behind(texts, prefix, wanted, n + 1) == (some_behind(texts, prefix, wanted, n)
            || name_behind(texts[n], prefix) == Some(wanted)),
{
    if some_behind(texts, prefix, wanted, n) {
        let i = choose|i: int|
            0 <= i < n && name_behind(#[trigger] texts[i], prefix) == Some(wanted);
        assert(name_behind(texts[i], prefix) == Some(wanted));
    }
    if some_behind(texts, prefix, wanted, n + 1) {
        let i = choose|i: int|
            0 <= i < n + 1 && name_behind(#[trigger] texts[i], prefix) == Some(wanted);
        if i < n {
            assert(name_behind(texts[i], prefix) == Some(wanted));
        }
    }
}

/// The seedlings that have a role or a policy, each once.
pub fn names_from_roles_and_policies(role_names: &Vec<String>, policy_names: &Vec<String>) -> (r:
    Vec<Name>)
    ensures
        distinct(r@),
        forall|wanted: Seq<char>| #[trigger]
            names(r@, wanted) == (some_behind(
                string_texts(role_names@),
                SEEDLING_APPROLE_PREFIX@,
                wanted,
                role_names@.len() as int,
            ) || some_behind(
                string_texts(policy_names@),
                SEEDLING_APPROLE_PREFIX@,
                wanted,
                policy_names@.len() as int,
            )),
{
    let mut list: Vec<Name> = Vec::new();
    assert forall|wanted: Seq<char>| !#[trigger] names(list@, wanted) by {}
    add_all_prefixed(&mut list, role_names, SEEDLING_APPROLE_PREFIX);
    add_all_prefixed(&mut list, policy_names, SEEDLING_APPROLE_PREFIX);
    list
}

fn add_all_prefixed(list: &mut Vec<Name>, texts: &Vec<String>, prefix: &str)
    requires
        distinct(old(list)@),
    ensures
        distinct(final(list)@),
        forall|wanted: Seq<char>| #[trigger]
            names(final(list)@, wanted) == (names(old(list)@, wanted) || some_behind(
                string_texts(texts@),
                prefix@,
                wanted,
                texts@.len() as int,
            )),
{
    let ghost start = list@;
    let ghost all = string_texts(texts@);
    let mut i: usize = 0;
    while i < texts.len()
        invariant
            i <= texts@.len(),
            all == string_texts(texts@),
            distinct(list@),
            forall|wanted: Seq<char>| #[trigger]
                names(list@, wanted) == (names(start, wanted) || some_behind(
                    all,
                    prefix@,
                    wanted,
                    i as int,
                )),
        decreases texts@.len() - i,
    {
        let ghost before = list@;
        add_prefixed(list, &texts[i], prefix);
        assert(all[i as int] == texts@[i as int]@);
        assert forall|wanted: Seq<char>| #[trigger] names(list@, wanted) == (names(start, wanted)
            || some_behind(all, prefix@, wanted, i as int + 1)) by {
            lemma_some_behind_next(all, prefix@, wanted, i as int);
            assert(names(before, wanted) == (names(start, wanted) || some_behind(
                all,
                prefix@,
                wanted,
                i as int,
            )));
        }
        i += 1;
    }
}

/// The networks' names that belong to seedlings, in order.
pub open spec fn behind_all(texts: Seq<Seq<char>>, prefix: Seq<char>) -> Seq<Seq<char>>
    decreases texts.len(),
{
    if texts.len() == 0 {
        Seq::empty()
    } else {
        match name_behind(texts.last(), prefix) {
            Some(name) => behind_all(texts.drop_last(), prefix).push(name),
            None => behind_all(texts.drop_last(), prefix),
        }
    }
}

/// The texts of names.
pub open spec fn name_texts(list: Seq<Name>) -> Seq<Seq<char>> {
    list.map_values(|name: Name| name@)
}

/// The seedlings that networks belong to, in order.
pub fn seedling_names_from_networks(networks: &Vec<ContainerName>) -> (r: Vec<Name>)
    ensures
        name_texts(r@) == behind_all(container_texts(networks@), CONTAINER_PREFIX@),
{
    let ghost all = container_texts(networks@);
    let mut list: Vec<Name> = Vec::new();
    let mut i: usize = 0;
    assert(all.take(0) =~= Seq::<Seq<char>>::empty());
    assert(name_texts(list@) =~= Seq::<Seq<char>>::empty());
    while i < networks.len()
        invariant
            i <= networks@.len(),
            all == container_texts(networks@),
            name_texts(list@) == behind_all(all.take(i as int), CONTAINER_PREFIX@),
        decreases networks@.len() - i,
    {
        let ghost before = name_texts(list@);
        assert(all.take(i as int + 1).drop_last() =~= all.take(i as int));
        assert(all.take(i as int + 1).last() == networks@[i as int]@);
        if let Some(name) = name_from_prefixed(networks[i].as_str(), CONTAINER_PREFIX) {
            list.push(name);
            assert(name_texts(list@) =~= before.push(name@));
        }
        i += 1;
    }
    assert(all.take(all.len() as int) =~= all);
    list
}

/// The seedling's name that a folder's entry has once a suffix is taken off, if it is one.
pub open spec fn entry_name(entry: Seq<char>, suffix: Seq<char>) -> Option<Seq<char>> {
    if suffix.is_suffix_of(entry) && valid_name(entry.take(entry.len() - suffix.len())) {
        Some(entry.take(entry.len() - suffix.len()))
    } else {
        None
    }
}

/// The seedlings' names that the entries of a folder have, in order.
pub open spec fn entry_names(entries: Seq<Seq<char>>, suffix: Seq<char>) -> Seq<Seq<char>>
    decreases entries.len(),
{
    if entries.len() == 0 {
        Seq::empty()
    } else {
        match entry_name(entries.last(), suffix) {
            Some(name) => entry_names(entries.drop_last(), suffix).push(name),
            None => entry_names(entries.drop_last(), suffix),
        }
    }
}

fn names_of_entries(entries: &Vec<String>, suffix: &str) -> (r: Vec<Name>)
    ensures
        name_texts(r@) == entry_names(string_texts(entries@), suffix@),
{
    let ghost all = string_texts(entries@);
    let mut list: Vec<Name> = Vec::new();
    let mut i: usize = 0;
    assert(all.take(0) =~= Seq::<Seq<char>>::empty());
    assert(name_texts(list@) =~= Seq::<Seq<char>>::empty());
    while i < entries.len()
        invariant
            i <= entries@.len(),
            all == string_texts(entries@),
            name_texts(list@) == entry_names(all.take(i as int), suffix@),
        decreases entries@.len() - i,
    {
        let ghost before = name_texts(list@);
        let ghost entry = entries@[i as int]@;
        assert(all.take(i as int + 1).drop_last() =~= all.take(i as int));
        assert(all.take(i as int + 1).last() == entry);
        if let Some(rest) = strip_suffix(&entries[i], suffix) {
            assert(rest@ =~= entry.take(entry.len() - suffix@.len()));
            if let Some(name) = Name::parse(&rest) {
                list.push(name);
                assert(name_texts(list@) =~= before.push(name@));
            }
        }
        i += 1;
    }
    assert(all.take(all.len() as int) =~= all);
    list
}

/// The seedlings that have a folder of mounts. Without a mounts folder there are none.
pub fn list_mount_names(entries: &Option<Vec<String>>) -> (r: Vec<Name>)
    ensures
        name_texts(r@) == (match *entries {
            Some(entries) => entry_names(string_texts(entries@), Seq::empty()),
            None => Seq::empty(),
        }),
{
    match entries {
        Some(entries) => {
            proof {
                reveal_strlit("");
                assert(""@ =~= Seq::<char>::empty());
            }
            names_of_entries(entries, "")
        },
        None => {
            let none: Vec<Name> = Vec::new();
            assert(name_texts(none@) =~= Seq::<Seq<char>>::empty());
            none
        },
    }
}

/// The seedlings that have a route file. Without a folder of route files there are none.
pub fn list_route_file_names(entries: &Option<Vec<String>>) -> (r: Vec<Name>)
    ensures
        name_texts(r@) == (match *entries {
            Some(entries) => entry_names(string_texts(entries@), ".yml"@),
            None => Seq::empty(),
        }),
{
    match entries {
        Some(entries) => names_of_entries(entries, ".yml"),
        None => {
            let none: Vec<Name> = Vec::new();
            assert(name_texts(none@) =~= Seq::<Seq<char>>::empty());
            none
        },
    }
}

/// The candidates that are not declared, in order.
pub open spec fn undeclared(declared: Seq<String>, candidates: Seq<Name>) -> Seq<Name>
    decreases candidates.len(),
{
    if candidates.len() == 0 {
        Seq::empty()
    } else if lists(declared, candidates.last()@) {
        undeclared(declared, candidates.drop_last())
    } else {
        undeclared(declared, candidates.drop_last()).push(candidates.last())
    }
}

/// The repositories that hold no declared image, in order.
pub open spec fn unknown(known: Seq<String>, candidates: Seq<String>) -> Seq<String>
    decreases candidates.len(),
{
    if candidates.len() == 0 {
        Seq::empty()
    } else if lists(known, candidates.last()@) {
        unknown(known, candidates.drop_last())
    } else {
        unknown(known, candidates.drop_last()).push(candidates.last())
    }
}

/// The candidates that are not declared, in order.
pub fn not_in(seedbank_names: &Vec<String>, candidates: &Vec<Name>) -> (r: Vec<Name>)
    ensures
        r@ == undeclared(seedbank_names@, candidates@),
{
    let mut list: Vec<Name> = Vec::new();
    let mut i: usize = 0;
    assert(candidates@.take(0) =~= Seq::<Name>::empty());
    while i < candidates.len()
        invariant
            i <= candidates@.len(),
            list@ == undeclared(seedbank_names@, candidates@.take(i as int)),
        decreases candidates@.len() - i,
    {
        assert(candidates@.take(i as int + 1).drop_last() =~= candidates@.take(i as int));
        if !has_text(seedbank_names, candidates[i].as_str()) {
            list.push(candidates[i].clone());
        }
        i += 1;
    }
    assert(candidates@.take(candidates@.len() as int) =~= candidates@);
    list
}

/// The repositories that hold no declared image, in order.
pub fn unknown_repositories(known: &Vec<String>, candidates: &Vec<String>) -> (r: Vec<String>)
    ensures
        r@ == unknown(known@, candidates@),
{
    let mut list: Vec<String> = Vec::new();
    let mut i: usize = 0;
    assert(candidates@.take(0) =~= Seq::<String>::empty());
    while i < candidates.len()
        invariant
            i <= candidates@.len(),
            list@ == unknown(known@, candidates@.take(i as int)),
        decreases candidates@.len() - i,
    {
        assert(candidates@.take(i as int + 1).drop_last() =~= candidates@.take(i as int));
        if !has_text(known, &candidates[i]) {
            list.push(candidates[i].clone());
        }
        i += 1;
    }
    assert(candidates@.take(candidates@.len() as int) =~= candidates@);
    list
}

/// What is left of seedlings that are no longer declared.
pub fn compute_deadwood(known: Known<'_>, observed: Observed<'_>) -> (r: Deadwood)
    ensures
        r.containers@ == undeclared(known.seedbank_names@, observed.containers@),
        r.networks@ == undeclared(known.seedbank_names@, observed.networks@),
        r.route_files@ == undeclared(known.seedbank_names@, observed.route_files@),
        r.resin_repositories@ == unknown(known.image_repositories@, observed.resin_repositories@),
        r.mounts@ == undeclared(known.seedbank_names@, observed.mounts@),
        r.openbao_secrets@ == undeclared(known.seedbank_names@, observed.openbao_secrets@),
{
    Deadwood {
        containers: not_in(known.seedbank_names, observed.containers),
        networks: not_in(known.seedbank_names, observed.networks),
        route_files: not_in(known.seedbank_names, observed.route_files),
        resin_repositories: unknown_repositories(
            known.image_repositories,
            observed.resin_repositories,
        ),
        mounts: not_in(known.seedbank_names, observed.mounts),
        openbao_secrets: not_in(known.seedbank_names, observed.openbao_secrets),
    }
}

/// What counts as left behind was seen and is not declared, and everything that was seen and is not
/// declared counts.
pub proof fn law_deadwood_is_what_is_not_declared(
    declared: Seq<String>,
    candidates: Seq<Name>,
    name: Name,
)
    ensures
        undeclared(declared, candidates).contains(name) == (candidates.contains(name) && !lists(
            declared,
            name@,
        )),
    decreases candidates.len(),
{
    if candidates.len() > 0 {
        let rest = candidates.drop_last();
        let last = candidates.last();
        law_deadwood_is_what_is_not_declared(declared, rest, name);
        assert(candidates =~= rest.push(last));
        assert(candidates.contains(name) == (rest.contains(name) || name == last)) by {
            if rest.contains(name) {
                let i = choose|i: int| 0 <= i < rest.len() && rest[i] == name;
                assert(candidates[i] == name);
            }
            if name == last {
                assert(candidates[candidates.len() - 1] == name);
            }
        }
        let kept = undeclared(declared, rest);
        if !lists(declared, last@) {
            assert(kept.push(last).contains(name) == (kept.contains(name) || name == last)) by {
                if kept.contains(name) {
                    let i = choose|i: int| 0 <= i < kept.len() && kept[i] == name;
                    assert(kept.push(last)[i] == name);
                }
                if name == last {
                    assert(kept.push(last)[kept.len() as int] == name);
                }
            }
        }
    }
}

/// Nothing of douglas's own seedlings ever counts as left behind, once their names are protected.
pub proof fn law_core_seedlings_are_never_deadwood(
    declared: Seq<String>,
    protected: Seq<String>,
    candidates: Seq<Name>,
    name: Name,
)
    requires
        protects(protected, declared),
        name@ == TRAEFIK@ || name@ == OPENBAO@,
    ensures
        !undeclared(protected, candidates).contains(name),
{
    law_deadwood_is_what_is_not_declared(protected, candidates, name);
}

/// Where everything that was seen is declared, nothing is left behind.
pub proof fn law_nothing_is_left_where_all_is_declared(
    declared: Seq<String>,
    candidates: Seq<Name>,
)
    requires
        forall|i: int| 0 <= i < candidates.len() ==> lists(declared, (#[trigger] candidates[i])@),
    ensures
        undeclared(declared, candidates).len() == 0,
    decreases candidates.len(),
{
    if candidates.len() > 0 {
        let rest = candidates.drop_last();
        assert forall|i: int| 0 <= i < rest.len() implies lists(declared, (#[trigger] rest[i])@) by {
            assert(rest[i] == candidates[i]);
        }
        law_nothing_is_left_where_all_is_declared(declared, rest);
    }
}

/// A repository counts as left behind exactly where it was seen and none of the known repositories,
/// at whatever place, has the same text.
pub proof fn law_unknown_repositories_are_those_nobody_uses(
    known: Seq<String>,
    candidates: Seq<String>,
    repository: String,
)
    ensures
        unknown(known, candidates).contains(repository) == (candidates.contains(repository)
            && forall|i: int| 0 <= i < known.len() ==> (#[trigger] known[i])@ != repository@),
    decreases candidates.len(),
{
    if candidates.len() > 0 {
        let rest = candidates.drop_last();
        let last = candidates.last();
        law_unknown_repositories_are_those_nobody_uses(known, rest, repository);
        assert(candidates =~= rest.push(last));
        lemma_push_contains(rest, last, repository);
        lemma_push_contains(unknown(known, rest), last, repository);
    }
}

/// What is left behind is found piece by piece: of two lists seen one after the other, that of the
/// first comes first, then that of the second, and a second sighting counts again.
pub proof fn law_deadwood_is_found_piece_by_piece(
    declared: Seq<String>,
    first: Seq<Name>,
    second: Seq<Name>,
)
    ensures
        undeclared(declared, first + second) == undeclared(declared, first) + undeclared(
            declared,
            second,
        ),
    decreases second.len(),
{
    if second.len() == 0 {
        assert(first + second =~= first);
        assert(undeclared(declared, first) + undeclared(declared, second) =~= undeclared(
            declared,
            first,
        ));
    } else {
        let rest = second.drop_last();
        law_deadwood_is_found_piece_by_piece(declared, first, rest);
        assert((first + second).drop_last() =~= first + rest);
        assert((first + second).last() == second.last());
    }
}

/// Repositories that are left behind are found piece by piece, in the order in which they were
/// seen.
pub proof fn law_unknown_repositories_are_found_piece_by_piece(
    known: Seq<String>,
    first: Seq<String>,
    second: Seq<String>,
)
    ensures
        unknown(known, first + second) == unknown(known, first) + unknown(known, second),
    decreases second.len(),
{
    if second.len() == 0 {
        assert(first + second =~= first);
        assert(unknown(known, first) + unknown(known, second) =~= unknown(known, first));
    } else {
        let rest = second.drop_last();
        law_unknown_repositories_are_found_piece_by_piece(known, first, rest);
        assert((first + second).drop_last() =~= first + rest);
        assert((first + second).last() == second.last());
    }
}

/// The seedlings that networks belong to are those whose container prefix and name is a network's
/// name: no network is passed over, and no other seedling is found.
pub proof fn law_networks_lead_to_their_seedlings(
    texts: Seq<Seq<char>>,
    prefix: Seq<char>,
    name: Seq<char>,
)
    ensures
        behind_all(texts, prefix).contains(name) == (valid_name(name) && texts.contains(
            prefix + name,
        )),
    decreases texts.len(),
{
    if texts.len() > 0 {
        let rest = texts.drop_last();
        let last = texts.last();
        law_networks_lead_to_their_seedlings(rest, prefix, name);
        law_names_stand_behind_their_prefix(last, prefix, name);
        assert(texts =~= rest.push(last));
        lemma_push_contains(rest, last, prefix + name);
        if let Some(found) = name_behind(last, prefix) {
            lemma_push_contains(behind_all(rest, prefix), found, name);
        }
    }
}

/// The seedlings that a folder's entries belong to are those whose name and suffix is an entry: no
/// entry is passed over, and no other seedling is found.
pub proof fn law_entries_lead_to_their_seedlings(
    entries: Seq<Seq<char>>,
    suffix: Seq<char>,
    name: Seq<char>,
)
    ensures
        entry_names(entries, suffix).contains(name) == (valid_name(name) && entries.contains(
            name + suffix,
        )),
    decreases entries.len(),
{
    if entries.len() > 0 {
        let rest = entries.drop_last();
        let last = entries.last();
        law_entries_lead_to_their_seedlings(rest, suffix, name);
        assert(entries =~= rest.push(last));
        lemma_push_contains(rest, last, name + suffix);
        assert((entry_name(last, suffix) == Some(name)) == (valid_name(name) && last == name
            + suffix)) by {
            if last == name + suffix {
                assert(last.take(last.len() - suffix.len()) =~= name);
                assert(suffix =~= last.subrange(last.len() - suffix.len(), last.len() as int));
            }
            if suffix.is_suffix_of(last) {
                assert(last =~= last.take(last.len() - suffix.len()) + suffix);
            }
        }
        if let Some(found) = entry_name(last, suffix) {
            lemma_push_contains(entry_names(rest, suffix), found, name);
        }
    }
}

} // verus!
