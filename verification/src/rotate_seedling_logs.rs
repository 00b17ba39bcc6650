//! Rotating the log files that seedlings write to their mounts.

use crate::paths::{file_name_of, is_already_rotated, mount_of, numbered, DouglasFolders};
use crate::seedling::{Mount, MountType, NamedMount, Seedling};
use crate::sequences::lemma_push_contains;
use vstd::prelude::*;

verus! {

/// From this size on, a log file is rotated.
pub const MAX_LOG_BYTES: u64 = 10485760;

/// How many rotated files are kept of each log.
pub const MAX_ROTATED_FILES: u32 = 5;

/// What a folder holds under a name.
#[derive(Debug, Clone, Copy, PartialEq, Eq, Structural)]
pub enum EntryKind {
    File,
    Folder,
    Other,
}

/// An entry of a folder.
#[derive(Debug, PartialEq, Eq)]
pub struct Entry {
    pub path: String,
    pub kind: EntryKind,
    pub size: u64,
}

/// Whether the logs of a mount can be rotated: not where the mount is shared.
pub fn supports_rotation(mount: &Mount) -> (r: bool)
    ensures
        r == !(mount.kind is PersistedShared),
{
    match mount.kind {
        MountType::PersistedShared(_) => false,
        MountType::Persisted => true,
        MountType::InMemory => true,
    }
}

/// What is done about a mount whose seedling wants its logs rotated.
#[derive(Debug, PartialEq, Eq)]
pub enum Sweep<'a> {
    /// The folder is searched for log files that have grown too large.
    Search { folder: String },
    /// The mount is passed over with a warning.
    Unsupported { mount: &'a NamedMount },
}

/// Whether this is what is done about a mount.
pub open spec fn swept(sweep: Sweep, root: Seq<char>, seedling: Seq<char>, mount: NamedMount) -> bool {
    if mount.mount.kind is PersistedShared {
        sweep matches Sweep::Unsupported { mount: passed_over } && *passed_over == mount
    } else {
        sweep matches Sweep::Search { folder } && folder@ == mount_of(root, seedling, mount.name@)
    }
}

/// The mounts whose logs are to be rotated, in order.
pub open spec fn rotating(mounts: Seq<NamedMount>) -> Seq<NamedMount>
    decreases mounts.len(),
{
    if mounts.len() == 0 {
        Seq::empty()
    } else if mounts.last().mount.rotate_logs {
        rotating(mounts.drop_last()).push(mounts.last())
    } else {
        rotating(mounts.drop_last())
    }
}

/// What is done about a seedling's mounts: one thing for each whose logs are to be rotated.
pub fn mounts_to_sweep<'a>(folders: &DouglasFolders, seedling: &'a Seedling) -> (r: Vec<Sweep<'a>>)
    ensures
        r@.len() == rotating(seedling.definition.mounts@).len(),
        forall|i: int|
            0 <= i < r@.len() ==> swept(
                #[trigger] r@[i],
                folders.seedlings_root@,
                seedling.name@,
                rotating(seedling.definition.mounts@)[i],
            ),
{
    let mounts: &'a Vec<NamedMount> = &seedling.definition.mounts;
    let mut sweeps: Vec<Sweep<'a>> = Vec::new();
    let mut n: usize = 0;
    assert(mounts@.take(0) =~= Seq::<NamedMount>::empty());
    while n < mounts.len()
        invariant
            n <= mounts@.len(),
            sweeps@.len() == rotating(mounts@.take(n as int)).len(),
            forall|i: int|
                0 <= i < sweeps@.len() ==> swept(
                    #[trigger] sweeps@[i],
                    folders.seedlings_root@,
                    seedling.name@,
                    rotating(mounts@.take(n as int))[i],
                ),
        decreases mounts@.len() - n,
    {
        assert(mounts@.take(n as int + 1).drop_last() =~= mounts@.take(n as int));
        let mount: &'a NamedMount = &mounts[n];
        if mount.mount.rotate_logs {
            if supports_rotation(&mount.mount) {
                let folder: String = folders.seedling_mount(
                    seedling.name.as_str(),
                    mount.name.as_str(),
                );
                sweeps.push(Sweep::Search { folder });
            } else {
                sweeps.push(Sweep::Unsupported { mount });
            }
        }
        n += 1;
    }
    assert(mounts@.take(mounts@.len() as int) =~= mounts@);
    sweeps
}

/// Whether an entry is a log file that is rotated now.
pub open spec fn is_oversized(entry: Entry) -> bool {
    &&& entry.kind == EntryKind::File
    &&& !(file_name_of(entry.path@) matches Some(name) && numbered(name))
    &&& entry.size >= MAX_LOG_BYTES
}

/// The entries that are rotated now, in order.
pub open spec fn oversized(entries: Seq<Entry>) -> Seq<Entry>
    decreases entries.len(),
{
    if entries.len() == 0 {
        Seq::empty()
    } else if is_oversized(entries.last()) {
        oversized(entries.drop_last()).push(entries.last())
    } else {
        oversized(entries.drop_last())
    }
}

/// The files of a folder that are rotated now, keeping [`MAX_ROTATED_FILES`] of each.
pub fn oversized_files<'a>(entries: &'a Vec<Entry>) -> (r: Vec<&'a Entry>)
    ensures
        r@.map_values(|entry: &'a Entry| *entry) == oversized(entries@),
{
    let mut files: Vec<&'a Entry> = Vec::new();
    let mut i: usize = 0;
    assert(entries@.take(0) =~= Seq::<Entry>::empty());
    assert(files@.map_values(|entry: &'a Entry| *entry) =~= Seq::<Entry>::empty());
    while i < entries.len()
        invariant
            i <= entries@.len(),
            files@.map_values(|entry: &'a Entry| *entry) == oversized(entries@.take(i as int)),
        decreases entries@.len() - i,
    {
        assert(entries@.take(i as int + 1).drop_last() =~= entries@.take(i as int));
        let ghost before = files@.map_values(|entry: &'a Entry| *entry);
        let entry: &'a Entry = &entries[i];
        if entry.kind == EntryKind::File && !is_already_rotated(&entry.path) && entry.size
            >= MAX_LOG_BYTES {
            files.push(entry);
            assert(files@.map_values(|entry: &'a Entry| *entry) =~= before.push(*entry));
        }
        i += 1;
    }
    assert(entries@.take(entries@.len() as int) =~= entries@);
    files
}

/// What a rotation has numbered is not rotated again.
pub proof fn law_rotated_files_stay(entries: Seq<Entry>, i: int)
    requires
        0 <= i < oversized(entries).len(),
    ensures
        entries.contains(oversized(entries)[i]),
        is_oversized(oversized(entries)[i]),
        !(file_name_of(oversized(entries)[i].path@) matches Some(name) && numbered(name)),
    decreases entries.len(),
{
    if entries.len() > 0 {
        let rest = entries.drop_last();
        if is_oversized(entries.last()) && i == oversized(rest).len() {
            assert(entries[entries.len() - 1] == entries.last());
        } else {
            law_rotated_files_stay(rest, i);
            let at = choose|at: int| 0 <= at < rest.len() && rest[at] == oversized(rest)[i];
            assert(entries[at] == rest[at]);
        }
    }
}

/// The mounts whose logs are rotated are exactly those that ask for it.
pub proof fn law_logs_are_rotated_where_that_is_asked_for(
    mounts: Seq<NamedMount>,
    wanted: NamedMount,
)
    ensures
        rotating(mounts).contains(wanted) == exists|i: int|
            0 <= i < mounts.len() && #[trigger] mounts[i] == wanted && wanted.mount.rotate_logs,
    decreases mounts.len(),
{
    if mounts.len() > 0 {
        let rest = mounts.drop_last();
        law_logs_are_rotated_where_that_is_asked_for(rest, wanted);
        let all = rotating(mounts);
        let before = rotating(rest);
        if all.len() > before.len() {
            lemma_push_contains(before, all.last(), wanted);
            assert(all =~= before.push(all.last()));
        }
        if before.contains(wanted) {
            let i = choose|i: int| 0 <= i < rest.len() && #[trigger] rest[i] == wanted && wanted.mount.rotate_logs;
            assert(mounts[i] == rest[i]);
        }
        assert(mounts[mounts.len() - 1] == mounts.last());
        if exists|i: int| 0 <= i < mounts.len() && #[trigger] mounts[i] == wanted && wanted.mount.rotate_logs {
            let i = choose|i: int| 0 <= i < mounts.len() && #[trigger] mounts[i] == wanted && wanted.mount.rotate_logs;
            if i < rest.len() {
                assert(mounts[i] == rest[i]);
            }
        }
    }
}

/// A file is rotated exactly where it is one of the folder, is a file, does not end in a number
/// already, and has ten megabytes or more.
pub proof fn law_every_large_log_is_rotated(
    entries: Seq<Entry>,
    wanted: Entry,
)
    ensures
        oversized(entries).contains(wanted) == exists|i: int|
            0 <= i < entries.len() && #[trigger] entries[i] == wanted && wanted.kind == EntryKind::File && wanted.size
                >= 10 * 1024 * 1024 && !(file_name_of(wanted.path@) matches Some(name) && numbered(
                name,
            )),
    decreases entries.len(),
{
    if entries.len() > 0 {
        let rest = entries.drop_last();
        law_every_large_log_is_rotated(rest, wanted);
        let all = oversized(entries);
        let before = oversized(rest);
        if all.len() > before.len() {
            lemma_push_contains(before, all.last(), wanted);
            assert(all =~= before.push(all.last()));
        }
        if before.contains(wanted) {
            let i = choose|i: int| 0 <= i < rest.len() && #[trigger] rest[i] == wanted && wanted.kind == EntryKind::File && wanted.size
                >= 10 * 1024 * 1024 && !(file_name_of(wanted.path@) matches Some(name) && numbered(
                name,
            ));
            assert(entries[i] == rest[i]);
        }
        assert(entries[entries.len() - 1] == entries.last());
        if exists|i: int| 0 <= i < entries.len() && #[trigger] entries[i] == wanted && wanted.kind == EntryKind::File && wanted.size
                >= 10 * 1024 * 1024 && !(file_name_of(wanted.path@) matches Some(name) && numbered(
                name,
            )) {
            let i = choose|i: int| 0 <= i < entries.len() && #[trigger] entries[i] == wanted && wanted.kind == EntryKind::File && wanted.size
                >= 10 * 1024 * 1024 && !(file_name_of(wanted.path@) matches Some(name) && numbered(
                name,
            ));
            if i < rest.len() {
                assert(entries[i] == rest[i]);
            }
        }
    }
}

/// Mounts and files are gone through in order: of two lists one after the other, what comes of the
/// first comes first.
pub proof fn law_rotation_keeps_the_order(
    mounts: Seq<NamedMount>,
    more_mounts: Seq<NamedMount>,
    entries: Seq<Entry>,
    more_entries: Seq<Entry>,
)
    ensures
        rotating(mounts + more_mounts) == rotating(mounts) + rotating(more_mounts),
        oversized(entries + more_entries) == oversized(entries) + oversized(more_entries),
    decreases more_mounts.len() + more_entries.len(),
{
    if more_mounts.len() > 0 {
        let rest = more_mounts.drop_last();
        law_rotation_keeps_the_order(mounts, rest, entries, more_entries);
        assert((mounts + more_mounts).drop_last() =~= mounts + rest);
        assert((mounts + more_mounts).last() == more_mounts.last());
    } else {
        assert(mounts + more_mounts =~= mounts);
        assert(rotating(mounts) + rotating(more_mounts) =~= rotating(mounts));
    }
    if more_entries.len() > 0 {
        let rest = more_entries.drop_last();
        law_rotation_keeps_the_order(mounts, more_mounts, entries, rest);
        assert((entries + more_entries).drop_last() =~= entries + rest);
        assert((entries + more_entries).last() == more_entries.last());
    } else {
        assert(entries + more_entries =~= entries);
        assert(oversized(entries) + oversized(more_entries) =~= oversized(entries));
    }
}

/// A mount that is shared is passed over; any other is searched at its own place.
pub proof fn law_shared_mounts_are_passed_over(
    sweep: Sweep,
    root: Seq<char>,
    seedling: Seq<char>,
    mount: NamedMount,
)
    requires
        swept(sweep, root, seedling, mount),
    ensures
        match sweep {
            Sweep::Unsupported { mount: passed_over } => mount.mount.kind is PersistedShared
                && *passed_over == mount,
            Sweep::Search { folder } => !(mount.mount.kind is PersistedShared) && folder@
                == mount_of(root, seedling, mount.name@),
        },
{
}

} // verus!
