//! Removing what seedlings left behind.

use crate::find_deadwood::{name_texts, Deadwood};
use crate::find_orphans::Orphans;
use crate::names::{
    agent_container_name, agent_container_name_of, container_name, container_name_of,
    seedling_network_name, traefik, valid_name, ContainerName, Name, TRAEFIK,
};
use crate::paths::{mounts_dir_of, route_file, route_file_of, DouglasFolders};
use crate::script::Instruction;
use crate::sequences::lemma_join_contains;
use crate::text::string_texts;
use vstd::prelude::*;

verus! {

/// What is done to what was left behind.
#[derive(Debug, PartialEq, Eq)]
pub enum PruneAction {
    StopContainer(ContainerName),
    DeleteContainer(ContainerName),
    DisconnectNetwork { network: ContainerName, container: ContainerName },
    DeleteNetwork(ContainerName),
    DeleteFile(String),
    DeleteRepository(Name),
    DeleteFolder(String),
    /// Logs in to OpenBao, as the revocations that follow need it.
    LogIn,
    Revoke(Name),
}

/// What is done, in texts.
pub enum PruneActionView {
    StopContainer(Seq<char>),
    DeleteContainer(Seq<char>),
    DisconnectNetwork { network: Seq<char>, container: Seq<char> },
    DeleteNetwork(Seq<char>),
    DeleteFile(Seq<char>),
    DeleteRepository(Seq<char>),
    DeleteFolder(Seq<char>),
    LogIn,
    Revoke(Seq<char>),
}

impl View for PruneAction {
    type V = PruneActionView;

    open spec fn view(&self) -> PruneActionView {
        match self {
            PruneAction::StopContainer(name) => PruneActionView::StopContainer(name@),
            PruneAction::DeleteContainer(name) => PruneActionView::DeleteContainer(name@),
            PruneAction::DisconnectNetwork { network, container } =>
                PruneActionView::DisconnectNetwork { network: network@, container: container@ },
            PruneAction::DeleteNetwork(name) => PruneActionView::DeleteNetwork(name@),
            PruneAction::DeleteFile(path) => PruneActionView::DeleteFile(path@),
            PruneAction::DeleteRepository(name) => PruneActionView::DeleteRepository(name@),
            PruneAction::DeleteFolder(path) => PruneActionView::DeleteFolder(path@),
            PruneAction::LogIn => PruneActionView::LogIn,
            PruneAction::Revoke(name) => PruneActionView::Revoke(name@),
        }
    }
}

/// A line of a pruning script.
pub type PruneLine = Instruction<(), PruneAction>;

/// A line of a pruning script, in texts.
pub type PruneLineView = Instruction<(), PruneActionView>;

/// A line of a pruning script, in texts.
pub open spec fn shown(line: PruneLine) -> PruneLineView {
    match line {
        Instruction::Do(action) => Instruction::Do(action@),
        Instruction::Attempt(action) => Instruction::Attempt(action@),
        Instruction::Settle(action) => Instruction::Settle(action@),
        Instruction::Unless { question, action } => Instruction::Unless {
            question,
            action: action@,
        },
    }
}

/// A pruning script, in texts.
pub open spec fn shown_all(script: Seq<PruneLine>) -> Seq<PruneLineView> {
    script.map_values(|line: PruneLine| shown(line))
}

/// The lines for each of a list of names, one name after another.
pub open spec fn spread(
    names: Seq<Seq<char>>,
    lines: spec_fn(Seq<char>) -> Seq<PruneLineView>,
) -> Seq<PruneLineView>
    decreases names.len(),
{
    if names.len() == 0 {
        Seq::empty()
    } else {
        spread(names.drop_last(), lines) + lines(names.last())
    }
}

/// How a seedling's containers are removed: each is stopped if it can be, and then deleted if it is
/// there.
pub open spec fn container_lines(name: Seq<char>) -> Seq<PruneLineView> {
    seq![
        Instruction::Attempt(PruneActionView::StopContainer(container_name_of(name))),
        Instruction::Settle(PruneActionView::DeleteContainer(container_name_of(name))),
        Instruction::Attempt(PruneActionView::StopContainer(agent_container_name_of(name))),
        Instruction::Settle(PruneActionView::DeleteContainer(agent_container_name_of(name))),
    ]
}

/// How traefik leaves a seedling's network. Where `lenient`, that it was not in it is no failure.
pub open spec fn disconnect_line(name: Seq<char>, lenient: bool) -> PruneLineView {
    let action = PruneActionView::DisconnectNetwork {
        network: container_name_of(name),
        container: container_name_of(TRAEFIK@),
    };
    if lenient {
        Instruction::Settle(action)
    } else {
        Instruction::Do(action)
    }
}

/// How a seedling's network is removed.
pub open spec fn network_lines(name: Seq<char>, lenient: bool) -> Seq<PruneLineView> {
    seq![
        disconnect_line(name, lenient),
        Instruction::Do(PruneActionView::DeleteNetwork(container_name_of(name))),
    ]
}

/// How a seedling's route file is removed.
pub open spec fn route_lines(root: Seq<char>, name: Seq<char>, lenient: bool) -> Seq<PruneLineView> {
    seq![
        disconnect_line(name, lenient),
        Instruction::Do(PruneActionView::DeleteFile(route_file_of(root, name))),
    ]
}

/// How a repository is removed. One whose name is not that of a seedling is left alone.
pub open spec fn repository_lines(repository: Seq<char>) -> Seq<PruneLineView> {
    if valid_name(repository) {
        seq![Instruction::Do(PruneActionView::DeleteRepository(repository))]
    } else {
        Seq::empty()
    }
}

/// How a seedling's mounts are removed.
pub open spec fn mount_lines(root: Seq<char>, name: Seq<char>) -> Seq<PruneLineView> {
    seq![Instruction::Do(PruneActionView::DeleteFolder(mounts_dir_of(root, name)))]
}

/// How a seedling's secrets are removed.
pub open spec fn secret_lines(name: Seq<char>) -> Seq<PruneLineView> {
    seq![Instruction::Do(PruneActionView::Revoke(name))]
}

/// The login, where there are secrets to revoke.
pub open spec fn login_lines(secrets: Seq<Seq<char>>) -> Seq<PruneLineView> {
    if secrets.len() == 0 {
        Seq::empty()
    } else {
        seq![Instruction::Do(PruneActionView::LogIn)]
    }
}

/// The script that removes everything that was left behind.
pub open spec fn prune_lines(
    root: Seq<char>,
    containers: Seq<Seq<char>>,
    networks: Seq<Seq<char>>,
    route_files: Seq<Seq<char>>,
    repositories: Seq<Seq<char>>,
    mounts: Seq<Seq<char>>,
    secrets: Seq<Seq<char>>,
    lenient: bool,
) -> Seq<PruneLineView> {
    spread(containers, |name: Seq<char>| container_lines(name)) + spread(
        networks,
        |name: Seq<char>| network_lines(name, lenient),
    ) + spread(route_files, |name: Seq<char>| route_lines(root, name, lenient)) + spread(
        repositories,
        |name: Seq<char>| repository_lines(name),
    ) + spread(mounts, |name: Seq<char>| mount_lines(root, name)) + login_lines(secrets) + spread(
        secrets,
        |name: Seq<char>| secret_lines(name),
    )
}

proof fn lemma_spread_next(
    names: Seq<Seq<char>>,
    n: int,
    lines: spec_fn(Seq<char>) -> Seq<PruneLineView>,
)
    requires
        0 <= n < names.len(),
    ensures
        spread(names.take(n + 1), lines) == spread(names.take(n), lines) + lines(names[n]),
{
    assert(names.take(n + 1).drop_last() =~= names.take(n));
}

fn push_line(script: &mut Vec<PruneLine>, line: PruneLine)
    ensures
        shown_all(final(script)@) == shown_all(old(script)@).push(shown(line)),
{
    script.push(line);
    assert(shown_all(script@) =~= shown_all(old(script)@).push(shown(line)));
}

fn disconnect(name: &Name, lenient: bool) -> (r: PruneLine)
    ensures
        shown(r) == disconnect_line(name@, lenient),
{
    let action: PruneAction = PruneAction::DisconnectNetwork {
        network: seedling_network_name(name),
        container: container_name(&traefik()),
    };
    if lenient {
        Instruction::Settle(action)
    } else {
        Instruction::Do(action)
    }
}

fn push_containers(script: &mut Vec<PruneLine>, names: &Vec<Name>)
    ensures
        shown_all(final(script)@) == shown_all(old(script)@) + spread(
            name_texts(names@),
            |name: Seq<char>| container_lines(name),
        ),
{
    let ghost start = shown_all(script@);
    let ghost texts = name_texts(names@);
    let ghost lines = |name: Seq<char>| container_lines(name);
    let mut i: usize = 0;
    assert(texts.take(0) =~= Seq::<Seq<char>>::empty());
    assert(start + Seq::<PruneLineView>::empty() =~= start);
    while i < names.len()
        invariant
            i <= names@.len(),
            texts == name_texts(names@),
            lines == (|name: Seq<char>| container_lines(name)),
            shown_all(script@) == start + spread(texts.take(i as int), lines),
        decreases names@.len() - i,
    {
        let ghost before = shown_all(script@);
        let name: &Name = &names[i];
        push_line(script, Instruction::Attempt(PruneAction::StopContainer(container_name(name))));
        push_line(script, Instruction::Settle(PruneAction::DeleteContainer(container_name(name))));
        push_line(
            script,
            Instruction::Attempt(PruneAction::StopContainer(agent_container_name(name))),
        );
        push_line(
            script,
            Instruction::Settle(PruneAction::DeleteContainer(agent_container_name(name))),
        );
        proof {
            assert(shown_all(script@) =~= before + container_lines(name@));
            assert(texts[i as int] == name@);
            lemma_spread_next(texts, i as int, lines);
            assert(shown_all(script@) =~= start + spread(texts.take(i as int + 1), lines));
        }
        i += 1;
    }
    assert(texts.take(texts.len() as int) =~= texts);
}

fn push_networks(script: &mut Vec<PruneLine>, names: &Vec<Name>, lenient: bool)
    ensures
        shown_all(final(script)@) == shown_all(old(script)@) + spread(
            name_texts(names@),
            |name: Seq<char>| network_lines(name, lenient),
        ),
{
    let ghost start = shown_all(script@);
    let ghost texts = name_texts(names@);
    let ghost lines = |name: Seq<char>| network_lines(name, lenient);
    let mut i: usize = 0;
    assert(texts.take(0) =~= Seq::<Seq<char>>::empty());
    assert(start + Seq::<PruneLineView>::empty() =~= start);
    while i < names.len()
        invariant
            i <= names@.len(),
            texts == name_texts(names@),
            lines == (|name: Seq<char>| network_lines(name, lenient)),
            shown_all(script@) == start + spread(texts.take(i as int), lines),
        decreases names@.len() - i,
    {
        let ghost before = shown_all(script@);
        let name: &Name = &names[i];
        push_line(script, disconnect(name, lenient));
        push_line(
            script,
            Instruction::Do(PruneAction::DeleteNetwork(seedling_network_name(name))),
        );
        proof {
            assert(shown_all(script@) =~= before + network_lines(name@, lenient));
            assert(texts[i as int] == name@);
            lemma_spread_next(texts, i as int, lines);
            assert(shown_all(script@) =~= start + spread(texts.take(i as int + 1), lines));
        }
        i += 1;
    }
    assert(texts.take(texts.len() as int) =~= texts);
}

fn push_route_files(
    script: &mut Vec<PruneLine>,
    folders: &DouglasFolders,
    names: &Vec<Name>,
    lenient: bool,
)
    ensures
        shown_all(final(script)@) == shown_all(old(script)@) + spread(
            name_texts(names@),
            |name: Seq<char>| route_lines(folders.seedlings_root@, name, lenient),
        ),
{
    let ghost start = shown_all(script@);
    let ghost texts = name_texts(names@);
    let ghost lines = |name: Seq<char>| route_lines(folders.seedlings_root@, name, lenient);
    let mut i: usize = 0;
    assert(texts.take(0) =~= Seq::<Seq<char>>::empty());
    assert(start + Seq::<PruneLineView>::empty() =~= start);
    while i < names.len()
        invariant
            i <= names@.len(),
            texts == name_texts(names@),
            lines == (|name: Seq<char>| route_lines(folders.seedlings_root@, name, lenient)),
            shown_all(script@) == start + spread(texts.take(i as int), lines),
        decreases names@.len() - i,
    {
        let ghost before = shown_all(script@);
        let name: &Name = &names[i];
        push_line(script, disconnect(name, lenient));
        push_line(script, Instruction::Do(PruneAction::DeleteFile(route_file(folders, name))));
        proof {
            assert(shown_all(script@) =~= before + route_lines(
                folders.seedlings_root@,
                name@,
                lenient,
            ));
            assert(texts[i as int] == name@);
            lemma_spread_next(texts, i as int, lines);
            assert(shown_all(script@) =~= start + spread(texts.take(i as int + 1), lines));
        }
        i += 1;
    }
    assert(texts.take(texts.len() as int) =~= texts);
}

fn push_repositories(script: &mut Vec<PruneLine>, repositories: &Vec<String>)
    ensures
        shown_all(final(script)@) == shown_all(old(script)@) + spread(
            string_texts(repositories@),
            |name: Seq<char>| repository_lines(name),
        ),
{
    let ghost start = shown_all(script@);
    let ghost texts = string_texts(repositories@);
    let ghost lines = |name: Seq<char>| repository_lines(name);
    let mut i: usize = 0;
    assert(texts.take(0) =~= Seq::<Seq<char>>::empty());
    assert(start + Seq::<PruneLineView>::empty() =~= start);
    while i < repositories.len()
        invariant
            i <= repositories@.len(),
            texts == string_texts(repositories@),
            lines == (|name: Seq<char>| repository_lines(name)),
            shown_all(script@) == start + spread(texts.take(i as int), lines),
        decreases repositories@.len() - i,
    {
        let ghost before = shown_all(script@);
        let ghost repository = repositories@[i as int]@;
        if let Some(name) = Name::parse(&repositories[i]) {
            push_line(script, Instruction::Do(PruneAction::DeleteRepository(name)));
        }
        proof {
            assert(shown_all(script@) =~= before + repository_lines(repository));
            assert(texts[i as int] == repository);
            lemma_spread_next(texts, i as int, lines);
            assert(shown_all(script@) =~= start + spread(texts.take(i as int + 1), lines));
        }
        i += 1;
    }
    assert(texts.take(texts.len() as int) =~= texts);
}

fn push_mounts(script: &mut Vec<PruneLine>, folders: &DouglasFolders, names: &Vec<Name>)
    ensures
        shown_all(final(script)@) == shown_all(old(script)@) + spread(
            name_texts(names@),
            |name: Seq<char>| mount_lines(folders.seedlings_root@, name),
        ),
{
    let ghost start = shown_all(script@);
    let ghost texts = name_texts(names@);
    let ghost lines = |name: Seq<char>| mount_lines(folders.seedlings_root@, name);
    let mut i: usize = 0;
    assert(texts.take(0) =~= Seq::<Seq<char>>::empty());
    assert(start + Seq::<PruneLineView>::empty() =~= start);
    while i < names.len()
        invariant
            i <= names@.len(),
            texts == name_texts(names@),
            lines == (|name: Seq<char>| mount_lines(folders.seedlings_root@, name)),
            shown_all(script@) == start + spread(texts.take(i as int), lines),
        decreases names@.len() - i,
    {
        let ghost before = shown_all(script@);
        let name: &Name = &names[i];
        push_line(
            script,
            Instruction::Do(PruneAction::DeleteFolder(folders.seedling_mounts_dir(name.as_str()))),
        );
        proof {
            assert(shown_all(script@) =~= before + mount_lines(folders.seedlings_root@, name@));
            assert(texts[i as int] == name@);
            lemma_spread_next(texts, i as int, lines);
            assert(shown_all(script@) =~= start + spread(texts.take(i as int + 1), lines));
        }
        i += 1;
    }
    assert(texts.take(texts.len() as int) =~= texts);
}

fn push_secrets(script: &mut Vec<PruneLine>, names: &Vec<Name>)
    ensures
        shown_all(final(script)@) == shown_all(old(script)@) + login_lines(name_texts(names@))
            + spread(name_texts(names@), |name: Seq<char>| secret_lines(name)),
{
    let ghost given = shown_all(script@);
    let ghost texts = name_texts(names@);
    let ghost lines = |name: Seq<char>| secret_lines(name);
    if names.len() > 0 {
        push_line(script, Instruction::Do(PruneAction::LogIn));
    }
    let ghost start = shown_all(script@);
    assert(start =~= given + login_lines(texts));
    let mut i: usize = 0;
    assert(texts.take(0) =~= Seq::<Seq<char>>::empty());
    assert(start + Seq::<PruneLineView>::empty() =~= start);
    while i < names.len()
        invariant
            i <= names@.len(),
            texts == name_texts(names@),
            lines == (|name: Seq<char>| secret_lines(name)),
            shown_all(script@) == start + spread(texts.take(i as int), lines),
        decreases names@.len() - i,
    {
        let ghost before = shown_all(script@);
        let name: &Name = &names[i];
        push_line(script, Instruction::Do(PruneAction::Revoke(name.clone())));
        proof {
            assert(shown_all(script@) =~= before + secret_lines(name@));
            assert(texts[i as int] == name@);
            lemma_spread_next(texts, i as int, lines);
            assert(shown_all(script@) =~= start + spread(texts.take(i as int + 1), lines));
        }
        i += 1;
    }
    assert(texts.take(texts.len() as int) =~= texts);
}

/// The script that removes deadwood. That traefik is not in a network any more is no failure.
pub fn prune_deadwood(folders: &DouglasFolders, deadwood: &Deadwood) -> (r: Vec<PruneLine>)
    ensures
        shown_all(r@) == prune_lines(
            folders.seedlings_root@,
            name_texts(deadwood.containers@),
            name_texts(deadwood.networks@),
            name_texts(deadwood.route_files@),
            string_texts(deadwood.resin_repositories@),
            name_texts(deadwood.mounts@),
            name_texts(deadwood.openbao_secrets@),
            true,
        ),
{
    let mut script: Vec<PruneLine> = Vec::new();
    assert(shown_all(script@) =~= Seq::<PruneLineView>::empty());
    push_containers(&mut script, &deadwood.containers);
    assert(shown_all(script@) =~= spread(
        name_texts(deadwood.containers@),
        |name: Seq<char>| container_lines(name),
    ));
    push_networks(&mut script, &deadwood.networks, true);
    push_route_files(&mut script, folders, &deadwood.route_files, true);
    push_repositories(&mut script, &deadwood.resin_repositories);
    push_mounts(&mut script, folders, &deadwood.mounts);
    push_secrets(&mut script, &deadwood.openbao_secrets);
    script
}

/// The script that removes orphans. That traefik is not in a network any more is a failure.
pub fn prune_orphans(folders: &DouglasFolders, orphans: &Orphans) -> (r: Vec<PruneLine>)
    ensures
        shown_all(r@) == prune_lines(
            folders.seedlings_root@,
            name_texts(orphans.containers@),
            name_texts(orphans.networks@),
            name_texts(orphans.route_files@),
            string_texts(orphans.resin_repositories@),
            name_texts(orphans.mounts@),
            name_texts(orphans.openbao_secrets@),
            false,
        ),
{
    let mut script: Vec<PruneLine> = Vec::new();
    assert(shown_all(script@) =~= Seq::<PruneLineView>::empty());
    push_containers(&mut script, &orphans.containers);
    assert(shown_all(script@) =~= spread(
        name_texts(orphans.containers@),
        |name: Seq<char>| container_lines(name),
    ));
    push_networks(&mut script, &orphans.networks, false);
    push_route_files(&mut script, folders, &orphans.route_files, false);
    push_repositories(&mut script, &orphans.resin_repositories);
    push_mounts(&mut script, folders, &orphans.mounts);
    push_secrets(&mut script, &orphans.openbao_secrets);
    script
}

/// Where nothing was left behind, nothing is done.
pub proof fn law_nothing_left_means_nothing_pruned(root: Seq<char>, lenient: bool)
    ensures
        prune_lines(
            root,
            Seq::empty(),
            Seq::empty(),
            Seq::empty(),
            Seq::empty(),
            Seq::empty(),
            Seq::empty(),
            lenient,
        ).len() == 0,
{
}

/// Whether a line revokes secrets.
pub open spec fn revokes(line: PruneLineView) -> bool {
    line matches Instruction::Do(PruneActionView::Revoke(_))
}

/// Whether a line logs in to OpenBao.
pub open spec fn logs_in(line: PruneLineView) -> bool {
    line == Instruction::<(), PruneActionView>::Do(PruneActionView::LogIn)
}

/// Whether no line has to do with OpenBao.
pub open spec fn leaves_openbao_alone(lines: Seq<PruneLineView>) -> bool {
    forall|i: int|
        0 <= i < lines.len() ==> !revokes(#[trigger] lines[i]) && !logs_in(lines[i])
}

proof fn lemma_join_leaves_openbao_alone(a: Seq<PruneLineView>, b: Seq<PruneLineView>)
    requires
        leaves_openbao_alone(a),
        leaves_openbao_alone(b),
    ensures
        leaves_openbao_alone(a + b),
{
    assert forall|i: int| 0 <= i < (a + b).len() implies !revokes(#[trigger] (a + b)[i])
        && !logs_in((a + b)[i]) by {
        if i < a.len() {
            assert((a + b)[i] == a[i]);
        } else {
            assert((a + b)[i] == b[i - a.len()]);
        }
    }
}

proof fn lemma_spread_leaves_openbao_alone(
    names: Seq<Seq<char>>,
    lines: spec_fn(Seq<char>) -> Seq<PruneLineView>,
)
    requires
        forall|name: Seq<char>| leaves_openbao_alone(#[trigger] lines(name)),
    ensures
        leaves_openbao_alone(spread(names, lines)),
    decreases names.len(),
{
    if names.len() > 0 {
        lemma_spread_leaves_openbao_alone(names.drop_last(), lines);
        lemma_join_leaves_openbao_alone(spread(names.drop_last(), lines), lines(names.last()));
    }
}

/// Nothing is revoked before OpenBao was logged in to, and it is logged in to only where something
/// is to be revoked.
pub proof fn law_revoking_needs_a_login(
    root: Seq<char>,
    containers: Seq<Seq<char>>,
    networks: Seq<Seq<char>>,
    route_files: Seq<Seq<char>>,
    repositories: Seq<Seq<char>>,
    mounts: Seq<Seq<char>>,
    secrets: Seq<Seq<char>>,
    lenient: bool,
    i: int,
)
    requires
        ({
            let script = prune_lines(
                root,
                containers,
                networks,
                route_files,
                repositories,
                mounts,
                secrets,
                lenient,
            );
            0 <= i < script.len() && (revokes(script[i]) || logs_in(script[i]))
        }),
    ensures
        secrets.len() > 0,
        ({
            let script = prune_lines(
                root,
                containers,
                networks,
                route_files,
                repositories,
                mounts,
                secrets,
                lenient,
            );
            revokes(script[i]) ==> exists|j: int| 0 <= j < i && logs_in(#[trigger] script[j])
        }),
{
    let of_containers = |name: Seq<char>| container_lines(name);
    let of_networks = |name: Seq<char>| network_lines(name, lenient);
    let of_routes = |name: Seq<char>| route_lines(root, name, lenient);
    let of_repositories = |name: Seq<char>| repository_lines(name);
    let of_mounts = |name: Seq<char>| mount_lines(root, name);
    lemma_spread_leaves_openbao_alone(containers, of_containers);
    lemma_spread_leaves_openbao_alone(networks, of_networks);
    lemma_spread_leaves_openbao_alone(route_files, of_routes);
    lemma_spread_leaves_openbao_alone(repositories, of_repositories);
    lemma_spread_leaves_openbao_alone(mounts, of_mounts);
    let head = spread(containers, of_containers);
    lemma_join_leaves_openbao_alone(head, spread(networks, of_networks));
    let head = head + spread(networks, of_networks);
    lemma_join_leaves_openbao_alone(head, spread(route_files, of_routes));
    let head = head + spread(route_files, of_routes);
    lemma_join_leaves_openbao_alone(head, spread(repositories, of_repositories));
    let head = head + spread(repositories, of_repositories);
    lemma_join_leaves_openbao_alone(head, spread(mounts, of_mounts));
    let head = head + spread(mounts, of_mounts);
    let script = prune_lines(
        root,
        containers,
        networks,
        route_files,
        repositories,
        mounts,
        secrets,
        lenient,
    );
    let revocations = spread(secrets, |name: Seq<char>| secret_lines(name));
    assert(script == head + login_lines(secrets) + revocations);
    if i < head.len() {
        assert(script[i] == head[i]);
    }
    if secrets.len() > 0 {
        assert(logs_in(script[head.len() as int]));
    }
}

proof fn lemma_spread_contains(
    names: Seq<Seq<char>>,
    lines: spec_fn(Seq<char>) -> Seq<PruneLineView>,
    line: PruneLineView,
)
    ensures
        spread(names, lines).contains(line) == exists|i: int|
            0 <= i < names.len() && lines(#[trigger] names[i]).contains(line),
    decreases names.len(),
{
    if names.len() > 0 {
        let rest = names.drop_last();
        lemma_spread_contains(rest, lines, line);
        lemma_join_contains(spread(rest, lines), lines(names.last()), line);
        if spread(rest, lines).contains(line) {
            let i = choose|i: int|
                0 <= i < rest.len() && lines(#[trigger] rest[i]).contains(line);
            assert(names[i] == rest[i]);
        }
        if lines(names.last()).contains(line) {
            assert(names[names.len() - 1] == names.last());
        }
        if exists|i: int| 0 <= i < names.len() && lines(#[trigger] names[i]).contains(line) {
            let i = choose|i: int|
                0 <= i < names.len() && lines(#[trigger] names[i]).contains(line);
            if i < rest.len() {
                assert(names[i] == rest[i]);
            }
        }
    }
}

proof fn lemma_lines_contain(root: Seq<char>, name: Seq<char>, lenient: bool, line: PruneLineView)
    ensures
        container_lines(name).contains(line) == (line == Instruction::<(), PruneActionView>::Attempt(
            PruneActionView::StopContainer("doug."@ + name),
        ) || line == Instruction::<(), PruneActionView>::Settle(
            PruneActionView::DeleteContainer("doug."@ + name),
        ) || line == Instruction::<(), PruneActionView>::Attempt(
            PruneActionView::StopContainer("doug-agent."@ + name),
        ) || line == Instruction::<(), PruneActionView>::Settle(
            PruneActionView::DeleteContainer("doug-agent."@ + name),
        )),
        network_lines(name, lenient).contains(line) == (line == disconnect_line(name, lenient)
            || line == Instruction::<(), PruneActionView>::Do(
            PruneActionView::DeleteNetwork("doug."@ + name),
        )),
        route_lines(root, name, lenient).contains(line) == (line == disconnect_line(name, lenient)
            || line == Instruction::<(), PruneActionView>::Do(
            PruneActionView::DeleteFile(route_file_of(root, name)),
        )),
        repository_lines(name).contains(line) == (valid_name(name) && line == Instruction::<
            (),
            PruneActionView,
        >::Do(PruneActionView::DeleteRepository(name))),
        mount_lines(root, name).contains(line) == (line == Instruction::<(), PruneActionView>::Do(
            PruneActionView::DeleteFolder(mounts_dir_of(root, name)),
        )),
        secret_lines(name).contains(line) == (line == Instruction::<(), PruneActionView>::Do(
            PruneActionView::Revoke(name),
        )),
{
    let c = container_lines(name);
    assert(c.contains(c[0]) && c.contains(c[1]) && c.contains(c[2]) && c.contains(c[3]));
    let n = network_lines(name, lenient);
    assert(n.contains(n[0]) && n.contains(n[1]));
    let r = route_lines(root, name, lenient);
    assert(r.contains(r[0]) && r.contains(r[1]));
    let m = mount_lines(root, name);
    assert(m.contains(m[0]));
    let s = secret_lines(name);
    assert(s.contains(s[0]));
    if valid_name(name) {
        let p = repository_lines(name);
        assert(p.contains(p[0]));
    }
}

/// Pruning removes what was left behind, and nothing else. Both containers of every name are
/// stopped if they can be, and deleted; traefik leaves every network and every routed network; every
/// network, route file and folder of mounts is deleted, and so is every repository with a
/// seedling's name; the secrets of every name are revoked. Only that traefik had left already is
/// treated differently by a lenient pruning.
#[verifier::spinoff_prover]
pub proof fn law_pruning_removes_what_was_left_behind(
    root: Seq<char>,
    containers: Seq<Seq<char>>,
    networks: Seq<Seq<char>>,
    route_files: Seq<Seq<char>>,
    repositories: Seq<Seq<char>>,
    mounts: Seq<Seq<char>>,
    secrets: Seq<Seq<char>>,
    lenient: bool,
    line: PruneLineView,
)
    ensures
        prune_lines(
            root,
            containers,
            networks,
            route_files,
            repositories,
            mounts,
            secrets,
            lenient,
        ).contains(line) == (match line {
            Instruction::Attempt(PruneActionView::StopContainer(container)) => exists|i: int|
                0 <= i < containers.len() && (container == "doug."@ + #[trigger] containers[i]
                    || container == "doug-agent."@ + containers[i]),
            Instruction::Settle(PruneActionView::DeleteContainer(container)) => exists|i: int|
                0 <= i < containers.len() && (container == "doug."@ + #[trigger] containers[i]
                    || container == "doug-agent."@ + containers[i]),
            Instruction::Settle(PruneActionView::DisconnectNetwork { network, container }) => {
                &&& lenient
                &&& container == "doug."@ + "traefik"@
                &&& (exists|i: int|
                    0 <= i < networks.len() && network == "doug."@ + #[trigger] networks[i])
                    || (exists|i: int|
                    0 <= i < route_files.len() && network == "doug."@ + #[trigger] route_files[i])
            },
            Instruction::Do(PruneActionView::DisconnectNetwork { network, container }) => {
                &&& !lenient
                &&& container == "doug."@ + "traefik"@
                &&& (exists|i: int|
                    0 <= i < networks.len() && network == "doug."@ + #[trigger] networks[i])
                    || (exists|i: int|
                    0 <= i < route_files.len() && network == "doug."@ + #[trigger] route_files[i])
            },
            Instruction::Do(PruneActionView::DeleteNetwork(network)) => exists|i: int|
                0 <= i < networks.len() && network == "doug."@ + #[trigger] networks[i],
            Instruction::Do(PruneActionView::DeleteFile(path)) => exists|i: int|
                0 <= i < route_files.len() && path == route_file_of(
                    root,
                    #[trigger] route_files[i],
                ),
            Instruction::Do(PruneActionView::DeleteRepository(repository)) => valid_name(
                repository,
            ) && exists|i: int|
                0 <= i < repositories.len() && repository == #[trigger] repositories[i],
            Instruction::Do(PruneActionView::DeleteFolder(path)) => exists|i: int|
                0 <= i < mounts.len() && path == mounts_dir_of(root, #[trigger] mounts[i]),
            Instruction::Do(PruneActionView::LogIn) => secrets.len() > 0,
            Instruction::Do(PruneActionView::Revoke(name)) => exists|i: int|
                0 <= i < secrets.len() && name == #[trigger] secrets[i],
            _ => false,
        }),
{
    let of_containers = |name: Seq<char>| container_lines(name);
    let of_networks = |name: Seq<char>| network_lines(name, lenient);
    let of_routes = |name: Seq<char>| route_lines(root, name, lenient);
    let of_repositories = |name: Seq<char>| repository_lines(name);
    let of_mounts = |name: Seq<char>| mount_lines(root, name);
    let of_secrets = |name: Seq<char>| secret_lines(name);
    lemma_spread_contains(containers, of_containers, line);
    lemma_spread_contains(networks, of_networks, line);
    lemma_spread_contains(route_files, of_routes, line);
    lemma_spread_contains(repositories, of_repositories, line);
    lemma_spread_contains(mounts, of_mounts, line);
    lemma_spread_contains(secrets, of_secrets, line);
    let login = login_lines(secrets);
    assert(login.contains(line) == (secrets.len() > 0 && line == Instruction::<
        (),
        PruneActionView,
    >::Do(PruneActionView::LogIn))) by {
        assert(login.len() > 0 ==> login.contains(login[0]));
    }
    let s = spread(containers, of_containers);
    lemma_join_contains(s, spread(networks, of_networks), line);
    let s = s + spread(networks, of_networks);
    lemma_join_contains(s, spread(route_files, of_routes), line);
    let s = s + spread(route_files, of_routes);
    lemma_join_contains(s, spread(repositories, of_repositories), line);
    let s = s + spread(repositories, of_repositories);
    lemma_join_contains(s, spread(mounts, of_mounts), line);
    let s = s + spread(mounts, of_mounts);
    lemma_join_contains(s, login, line);
    let s = s + login;
    lemma_join_contains(s, spread(secrets, of_secrets), line);
    assert forall|i: int|
        0 <= i < containers.len() implies of_containers(#[trigger] containers[i]).contains(line) == (
    line == Instruction::<(), PruneActionView>::Attempt(
        PruneActionView::StopContainer("doug."@ + containers[i]),
    ) || line == Instruction::<(), PruneActionView>::Settle(
        PruneActionView::DeleteContainer("doug."@ + containers[i]),
    ) || line == Instruction::<(), PruneActionView>::Attempt(
        PruneActionView::StopContainer("doug-agent."@ + containers[i]),
    ) || line == Instruction::<(), PruneActionView>::Settle(
        PruneActionView::DeleteContainer("doug-agent."@ + containers[i]),
    )) by {
        lemma_lines_contain(root, containers[i], lenient, line);
    }
    assert forall|i: int|
        0 <= i < networks.len() implies of_networks(#[trigger] networks[i]).contains(line) == (line
        == disconnect_line(networks[i], lenient) || line == Instruction::<(), PruneActionView>::Do(
        PruneActionView::DeleteNetwork("doug."@ + networks[i]),
    )) by {
        lemma_lines_contain(root, networks[i], lenient, line);
    }
    assert forall|i: int|
        0 <= i < route_files.len() implies of_routes(#[trigger] route_files[i]).contains(line) == (
    line == disconnect_line(route_files[i], lenient) || line == Instruction::<
        (),
        PruneActionView,
    >::Do(PruneActionView::DeleteFile(route_file_of(root, route_files[i])))) by {
        lemma_lines_contain(root, route_files[i], lenient, line);
    }
    assert forall|i: int|
        0 <= i < repositories.len() implies of_repositories(#[trigger] repositories[i]).contains(
        line,
    ) == (valid_name(repositories[i]) && line == Instruction::<(), PruneActionView>::Do(
        PruneActionView::DeleteRepository(repositories[i]),
    )) by {
        lemma_lines_contain(root, repositories[i], lenient, line);
    }
    assert forall|i: int|
        0 <= i < mounts.len() implies of_mounts(#[trigger] mounts[i]).contains(line) == (line
        == Instruction::<(), PruneActionView>::Do(
        PruneActionView::DeleteFolder(mounts_dir_of(root, mounts[i])),
    )) by {
        lemma_lines_contain(root, mounts[i], lenient, line);
    }
    assert forall|i: int|
        0 <= i < secrets.len() implies of_secrets(#[trigger] secrets[i]).contains(line) == (line
        == Instruction::<(), PruneActionView>::Do(PruneActionView::Revoke(secrets[i]))) by {
        lemma_lines_contain(root, secrets[i], lenient, line);
    }
}

proof fn lemma_spread_at(
    names: Seq<Seq<char>>,
    lines: spec_fn(Seq<char>) -> Seq<PruneLineView>,
    width: int,
    i: int,
    j: int,
)
    requires
        width > 0,
        forall|name: Seq<char>| (#[trigger] lines(name)).len() == width,
    ensures
        spread(names, lines).len() == width * names.len(),
        0 <= i < names.len() && 0 <= j < width ==> 0 <= width * i + j < width * names.len()
            && spread(names, lines)[width * i + j] == lines(names[i])[j],
    decreases names.len(),
{
    if names.len() == 0 {
        assert(width * 0 == 0);
    } else {
        let rest = names.drop_last();
        let n = rest.len() as int;
        lemma_spread_at(rest, lines, width, i, j);
        assert(width * (n + 1) == width * n + width) by (nonlinear_arith);
        if 0 <= i < names.len() && 0 <= j < width {
            assert(0 <= width * i) by (nonlinear_arith)
                requires
                    0 <= i,
                    0 < width,
            ;
            if i == n {
                assert(width * i == width * n);
            }
        }
    }
}

/// Of everything that was left behind, the containers go first, each stopped before it is deleted
/// and a seedling's own before its agent's. Then traefik leaves each network right before it is
/// deleted, and each routed network right before the route file is. The folders of mounts go
/// before the secrets, and these go last, in the order in which they were found.
#[verifier::spinoff_prover]
pub proof fn law_pruning_goes_in_order(
    root: Seq<char>,
    containers: Seq<Seq<char>>,
    networks: Seq<Seq<char>>,
    route_files: Seq<Seq<char>>,
    repositories: Seq<Seq<char>>,
    mounts: Seq<Seq<char>>,
    secrets: Seq<Seq<char>>,
    lenient: bool,
    i: int,
)
    ensures
        ({
            let script = prune_lines(
                root,
                containers,
                networks,
                route_files,
                repositories,
                mounts,
                secrets,
                lenient,
            );
            let n = script.len();
            let routes_from = 4 * containers.len() + 2 * networks.len();
            let secrets_from = n - secrets.len();
            let mounts_from = secrets_from - mounts.len() - (if secrets.len() > 0 {
                1int
            } else {
                0
            });
            &&& routes_from + 2 * route_files.len() <= mounts_from
            &&& 0 <= i < containers.len() ==> {
                &&& script[4 * i] == Instruction::<(), PruneActionView>::Attempt(
                    PruneActionView::StopContainer("doug."@ + containers[i]),
                )
                &&& script[4 * i + 1] == Instruction::<(), PruneActionView>::Settle(
                    PruneActionView::DeleteContainer("doug."@ + containers[i]),
                )
                &&& script[4 * i + 2] == Instruction::<(), PruneActionView>::Attempt(
                    PruneActionView::StopContainer("doug-agent."@ + containers[i]),
                )
                &&& script[4 * i + 3] == Instruction::<(), PruneActionView>::Settle(
                    PruneActionView::DeleteContainer("doug-agent."@ + containers[i]),
                )
            }
            &&& 0 <= i < networks.len() ==> {
                &&& script[4 * containers.len() + 2 * i] == disconnect_line(networks[i], lenient)
                &&& script[4 * containers.len() + 2 * i + 1] == Instruction::<
                    (),
                    PruneActionView,
                >::Do(PruneActionView::DeleteNetwork("doug."@ + networks[i]))
            }
            &&& 0 <= i < route_files.len() ==> {
                &&& script[routes_from + 2 * i] == disconnect_line(route_files[i], lenient)
                &&& script[routes_from + 2 * i + 1] == Instruction::<(), PruneActionView>::Do(
                    PruneActionView::DeleteFile(route_file_of(root, route_files[i])),
                )
            }
            &&& 0 <= i < mounts.len() ==> script[mounts_from + i] == Instruction::<
                (),
                PruneActionView,
            >::Do(PruneActionView::DeleteFolder(mounts_dir_of(root, mounts[i])))
            &&& secrets.len() > 0 ==> script[secrets_from - 1] == Instruction::<
                (),
                PruneActionView,
            >::Do(PruneActionView::LogIn)
            &&& 0 <= i < secrets.len() ==> script[secrets_from + i] == Instruction::<
                (),
                PruneActionView,
            >::Do(PruneActionView::Revoke(secrets[i]))
        }),
{
    let of_containers = |name: Seq<char>| container_lines(name);
    let of_networks = |name: Seq<char>| network_lines(name, lenient);
    let of_routes = |name: Seq<char>| route_lines(root, name, lenient);
    let of_mounts = |name: Seq<char>| mount_lines(root, name);
    let of_secrets = |name: Seq<char>| secret_lines(name);
    lemma_spread_at(containers, of_containers, 4, i, 0);
    lemma_spread_at(containers, of_containers, 4, i, 1);
    lemma_spread_at(containers, of_containers, 4, i, 2);
    lemma_spread_at(containers, of_containers, 4, i, 3);
    lemma_spread_at(networks, of_networks, 2, i, 0);
    lemma_spread_at(networks, of_networks, 2, i, 1);
    lemma_spread_at(route_files, of_routes, 2, i, 0);
    lemma_spread_at(route_files, of_routes, 2, i, 1);
    lemma_spread_at(mounts, of_mounts, 1, i, 0);
    lemma_spread_at(secrets, of_secrets, 1, i, 0);
}

/// Repositories are deleted in the order in which they were found.
pub proof fn law_lists_are_spread_piece_by_piece(
    first: Seq<Seq<char>>,
    second: Seq<Seq<char>>,
    lines: spec_fn(Seq<char>) -> Seq<PruneLineView>,
)
    ensures
        spread(first + second, lines) == spread(first, lines) + spread(second, lines),
    decreases second.len(),
{
    if second.len() == 0 {
        assert(first + second =~= first);
        assert(spread(first, lines) + spread(second, lines) =~= spread(first, lines));
    } else {
        let rest = second.drop_last();
        law_lists_are_spread_piece_by_piece(first, rest, lines);
        assert((first + second).drop_last() =~= first + rest);
        assert((first + second).last() == second.last());
        assert(spread(first, lines) + spread(rest, lines) + lines(second.last()) =~= spread(
            first,
            lines,
        ) + spread(second, lines));
    }
}

} // verus!
