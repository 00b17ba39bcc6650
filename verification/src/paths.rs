//! File system paths, written as text with `/` between their parts.

use crate::names::{Name, TRAEFIK};
use crate::text::{
    all_digits, cat2, cat3, chars_of, is_digit, same_text, string_texts, text_of,
};
use vstd::prelude::*;

verus! {

/// The path that `part` names when it is read from `base`: `part` itself where it is absolute,
/// else `part` behind `base` and one `/`.
pub open spec fn joined(base: Seq<char>, part: Seq<char>) -> Seq<char> {
    if part.len() > 0 && part[0] == '/' {
        part
    } else if base.len() == 0 || base.last() == '/' {
        base + part
    } else {
        base + "/"@ + part
    }
}

/// Joins a path and a part.
pub fn join(base: &str, part: &str) -> (r: String)
    ensures
        r@ == joined(base@, part@),
{
    let base_chars: Vec<char> = chars_of(base);
    let part_chars: Vec<char> = chars_of(part);
    if part_chars.len() > 0 && part_chars[0] == '/' {
        part.to_owned()
    } else if base_chars.len() == 0 || base_chars[base_chars.len() - 1] == '/' {
        cat2(base, part)
    } else {
        cat3(base, "/", part)
    }
}

/// Whether `i` is where the last `/` of `s` stands.
pub open spec fn last_slash(s: Seq<char>, i: int) -> bool {
    &&& 0 <= i < s.len()
    &&& s[i] == '/'
    &&& forall|j: int| i < j < s.len() ==> s[j] != '/'
}

/// Whether a path ends in something that leads nowhere: a `/`, or a `.` behind one.
pub open spec fn trails_off(s: Seq<char>) -> bool {
    s.len() > 1 && (s.last() == '/' || (s.last() == '.' && s[s.len() - 2] == '/'))
}

/// A path without what leads nowhere at its end.
pub open spec fn trimmed_path(s: Seq<char>) -> Seq<char>
    decreases s.len(),
{
    if trails_off(s) {
        trimmed_path(s.drop_last())
    } else {
        s
    }
}

/// The folder that a path stands in: the path without its last part. The root stands in none, and
/// neither does the empty path.
pub open spec fn parent_of(s: Seq<char>) -> Option<Seq<char>> {
    let t = trimmed_path(s);
    if t.len() == 0 || t == "/"@ {
        None
    } else if exists|i: int| last_slash(t, i) {
        let i = choose|i: int| last_slash(t, i);
        Some(if i == 0 {
            "/"@
        } else {
            trimmed_path(t.take(i))
        })
    } else {
        Some(Seq::empty())
    }
}

proof fn lemma_last_slash_unique(s: Seq<char>, i: int, j: int)
    requires
        last_slash(s, i),
        last_slash(s, j),
    ensures
        i == j,
{
}

fn trim_path(chars: &Vec<char>, len: usize) -> (r: usize)
    requires
        len <= chars@.len(),
    ensures
        r <= len,
        chars@.take(r as int) == trimmed_path(chars@.take(len as int)),
        len > 0 ==> r > 0,
{
    let mut end: usize = len;
    while end > 1 && (chars[end - 1] == '/' || (chars[end - 1] == '.' && chars[end - 2] == '/'))
        invariant
            end <= len <= chars@.len(),
            len > 0 ==> end > 0,
            trimmed_path(chars@.take(end as int)) == trimmed_path(chars@.take(len as int)),
        decreases end,
    {
        assert(chars@.take(end as int).drop_last() =~= chars@.take(end as int - 1));
        end -= 1;
    }
    end
}

/// The folder that a path stands in.
pub fn parent(path: &str) -> (r: Option<String>)
    ensures
        r is Some == parent_of(path@) is Some,
        r matches Some(folder) ==> parent_of(path@) == Some(folder@),
{
    let chars: Vec<char> = chars_of(path);
    assert(chars@.take(chars@.len() as int) =~= path@);
    let len: usize = trim_path(&chars, chars.len());
    let ghost t = trimmed_path(path@);
    assert(t =~= chars@.take(len as int));
    proof {
        reveal_strlit("/");
        if t.len() == 1 && t[0] == '/' {
            assert(t =~= "/"@);
        }
    }
    if len == 0 || (len == 1 && chars[0] == '/') {
        return None;
    }
    let mut end: usize = len;
    while end > 0
        invariant
            end <= len <= chars@.len(),
            t == chars@.take(len as int),
            t == trimmed_path(path@),
            t.len() > 0,
            t != "/"@,
            forall|j: int| end <= j < t.len() ==> t[j] != '/',
        decreases end,
    {
        let at: usize = end - 1;
        if chars[at] == '/' {
            assert(last_slash(t, at as int));
            proof {
                let i = choose|i: int| last_slash(t, i);
                lemma_last_slash_unique(t, i, at as int);
            }
            if at == 0 {
                return Some("/".to_owned());
            }
            let stop: usize = trim_path(&chars, at);
            assert(t.take(at as int) =~= chars@.take(at as int));
            let folder: String = text_of(&chars, 0, stop);
            assert(folder@ =~= chars@.take(stop as int));
            return Some(folder);
        }
        end -= 1;
    }
    assert(forall|i: int| !last_slash(t, i));
    let none: String = String::new();
    assert(none@ =~= Seq::<char>::empty());
    Some(none)
}

/// The parts of a path between its `/`, from the first to the last.
pub open spec fn pieces(s: Seq<char>) -> Seq<Seq<char>>
    decreases s.len(),
{
    if s.len() == 0 {
        seq![Seq::empty()]
    } else {
        let before = pieces(s.drop_last());
        if s.last() == '/' {
            before.push(Seq::empty())
        } else {
            before.drop_last().push(before.last().push(s.last()))
        }
    }
}

/// Whether a part of a path leads anywhere: empty parts and `.` do not.
pub open spec fn leads_on(piece: Seq<char>) -> bool {
    piece.len() > 0 && piece != "."@
}

/// The last part that leads anywhere.
pub open spec fn last_leading(all: Seq<Seq<char>>) -> Option<Seq<char>>
    decreases all.len(),
{
    if all.len() == 0 {
        None
    } else if leads_on(all.last()) {
        Some(all.last())
    } else {
        last_leading(all.drop_last())
    }
}

/// The name of the file that a path leads to, where it ends in one.
pub open spec fn file_name_of(s: Seq<char>) -> Option<Seq<char>> {
    match last_leading(pieces(s)) {
        Some(piece) => if piece == ".."@ {
            None
        } else {
            Some(piece)
        },
        None => None,
    }
}

/// Whether `i` is where the last `.` of `s` stands.
pub open spec fn last_dot(s: Seq<char>, i: int) -> bool {
    &&& 0 <= i < s.len()
    &&& s[i] == '.'
    &&& forall|j: int| i < j < s.len() ==> s[j] != '.'
}

/// The parts of a path that lead anywhere, from the first to the last.
pub open spec fn leading(all: Seq<Seq<char>>) -> Seq<Seq<char>>
    decreases all.len(),
{
    if all.len() == 0 {
        Seq::empty()
    } else if leads_on(all.last()) {
        leading(all.drop_last()).push(all.last())
    } else {
        leading(all.drop_last())
    }
}

/// Whether a path starts at the root.
pub open spec fn absolute(s: Seq<char>) -> bool {
    s.len() > 0 && s[0] == '/'
}

/// Whether a path says of itself that it starts where it is read from: its first part is `.`.
pub open spec fn starts_here(s: Seq<char>) -> bool {
    pieces(s)[0] == "."@
}

/// Whether two paths are the same part by part: both start in the same way, and the same parts of
/// them lead on. Repeated `/`, a `/` at the end and a `.` behind the start make no difference.
pub open spec fn same_parts(a: Seq<char>, b: Seq<char>) -> bool {
    &&& absolute(a) == absolute(b)
    &&& starts_here(a) == starts_here(b)
    &&& leading(pieces(a)) == leading(pieces(b))
}

/// A `/` at the end of a path makes no difference to where it leads.
pub proof fn law_a_slash_at_the_end_makes_no_difference(s: Seq<char>)
    requires
        s.len() > 0,
    ensures
        same_parts(s.push('/'), s),
{
    assert(s.push('/').drop_last() =~= s);
    lemma_pieces_not_empty(s);
    assert(pieces(s.push('/')) == pieces(s).push(Seq::empty()));
    assert(pieces(s).push(Seq::<char>::empty()).drop_last() =~= pieces(s));
}

fn pieces_of(path: &str) -> (r: Vec<String>)
    ensures
        r@.len() == pieces(path@).len(),
        r@.len() > 0,
        forall|j: int| 0 <= j < r@.len() ==> (#[trigger] r@[j])@ == pieces(path@)[j],
{
    let chars: Vec<char> = chars_of(path);
    let mut all: Vec<String> = Vec::new();
    let mut current: String = String::new();
    let mut i: usize = 0;
    assert(path@.take(0) =~= Seq::<char>::empty());
    while i < chars.len()
        invariant
            i <= chars@.len(),
            chars@ == path@,
            pieces(path@.take(i as int)).len() == all@.len() + 1,
            pieces(path@.take(i as int)).last() == current@,
            forall|j: int|
                0 <= j < all@.len() ==> (#[trigger] all@[j])@ == pieces(path@.take(i as int))[j],
        decreases chars@.len() - i,
    {
        let c: char = chars[i];
        assert(path@.take(i as int + 1).drop_last() =~= path@.take(i as int));
        assert(path@.take(i as int + 1).last() == c);
        if c == '/' {
            all.push(current);
            current = String::new();
        } else {
            current.push(c);
        }
        i += 1;
    }
    assert(path@.take(path@.len() as int) =~= path@);
    all.push(current);
    all
}

fn leads(piece: &str) -> (r: bool)
    ensures
        r == leads_on(piece@),
{
    !piece.is_empty() && !same_text(piece, ".")
}

fn leading_of(all: &Vec<String>) -> (r: Vec<String>)
    ensures
        string_texts(r@) == leading(string_texts(all@)),
{
    let ghost whole = string_texts(all@);
    let mut found: Vec<String> = Vec::new();
    let mut i: usize = 0;
    assert(string_texts(found@) =~= Seq::<Seq<char>>::empty());
    while i < all.len()
        invariant
            i <= all@.len(),
            whole == string_texts(all@),
            string_texts(found@) == leading(whole.take(i as int)),
        decreases all@.len() - i,
    {
        let ghost before = string_texts(found@);
        assert(whole.take(i as int + 1).drop_last() =~= whole.take(i as int));
        assert(whole.take(i as int + 1).last() == all@[i as int]@);
        if leads(&all[i]) {
            found.push(all[i].clone());
            assert(string_texts(found@) =~= before.push(all@[i as int]@));
        }
        i += 1;
    }
    assert(whole.take(whole.len() as int) =~= whole);
    found
}

fn same_row(a: &Vec<String>, b: &Vec<String>) -> (r: bool)
    ensures
        r == (string_texts(a@) == string_texts(b@)),
{
    if a.len() != b.len() {
        assert(string_texts(a@).len() != string_texts(b@).len());
        return false;
    }
    let mut i: usize = 0;
    while i < a.len()
        invariant
            i <= a@.len(),
            a@.len() == b@.len(),
            forall|j: int| 0 <= j < i ==> (#[trigger] a@[j])@ == b@[j]@,
        decreases a@.len() - i,
    {
        if !same_text(&a[i], &b[i]) {
            assert(string_texts(a@)[i as int] != string_texts(b@)[i as int]);
            return false;
        }
        i += 1;
    }
    assert(string_texts(a@) =~= string_texts(b@));
    true
}

fn is_absolute(path: &str) -> (r: bool)
    ensures
        r == absolute(path@),
{
    let chars: Vec<char> = chars_of(path);
    chars.len() > 0 && chars[0] == '/'
}

/// Whether two paths are the same part by part.
pub fn same_path(a: &str, b: &str) -> (r: bool)
    ensures
        r == same_parts(a@, b@),
{
    let left: Vec<String> = pieces_of(a);
    let right: Vec<String> = pieces_of(b);
    assert(string_texts(left@) =~= pieces(a@));
    assert(string_texts(right@) =~= pieces(b@));
    is_absolute(a) == is_absolute(b) && same_text(&left[0], ".") == same_text(&right[0], ".")
        && same_row(&leading_of(&left), &leading_of(&right))
}

/// The name of the file that a path leads to.
pub fn file_name(path: &str) -> (r: Option<String>)
    ensures
        r is Some == file_name_of(path@) is Some,
        r matches Some(name) ==> file_name_of(path@) == Some(name@),
{
    let all: Vec<String> = pieces_of(path);
    let ghost whole = pieces(path@);
    let mut n: usize = all.len();
    assert(whole.take(whole.len() as int) =~= whole);
    while n > 0
        invariant
            n <= all@.len(),
            all@.len() == whole.len(),
            whole == pieces(path@),
            forall|j: int| 0 <= j < all@.len() ==> (#[trigger] all@[j])@ == whole[j],
            last_leading(whole) == last_leading(whole.take(n as int)),
        decreases n,
    {
        let piece: &String = &all[n - 1];
        assert(whole.take(n as int).last() == piece@);
        assert(whole.take(n as int).drop_last() =~= whole.take(n as int - 1));
        assert(all@[n - 1]@ == whole[n - 1]);
        if leads(piece) {
            if same_text(piece, "..") {
                return None;
            }
            return Some(piece.clone());
        }
        n -= 1;
    }
    None
}

/// Whether a file name ends in a dot and a row of digits, with something before the dot.
pub open spec fn numbered(name: Seq<char>) -> bool {
    exists|i: int| #[trigger] last_dot(name, i) && 0 < i && all_digits(name.skip(i + 1))
}

/// Whether a log file was rotated already: its name ends in a numeric extension.
pub fn is_already_rotated(path: &str) -> (r: bool)
    ensures
        r == match file_name_of(path@) {
            Some(name) => numbered(name),
            None => false,
        },
{
    let name: String = match file_name(path) {
        Some(name) => name,
        None => return false,
    };
    let chars: Vec<char> = chars_of(&name);
    let mut end: usize = chars.len();
    while end > 0
        invariant
            end <= chars@.len(),
            chars@ == name@,
            file_name_of(path@) == Some(name@),
            forall|j: int| end <= j < name@.len() ==> is_digit(#[trigger] name@[j]),
        decreases end,
    {
        let c: char = chars[end - 1];
        if c == '.' {
            assert(last_dot(name@, end - 1));
            assert(forall|i: int| #[trigger] last_dot(name@, i) ==> i == end - 1);
            assert forall|j: int| 0 <= j < name@.skip(end as int).len() implies is_digit(
                #[trigger] name@.skip(end as int)[j],
            ) by {
                assert(is_digit(name@[end + j]));
            }
            return end > 1 && end < chars.len();
        }
        if c < '0' || c > '9' {
            assert forall|i: int| #[trigger] last_dot(name@, i) implies !all_digits(
                name@.skip(i + 1),
            ) by {
                assert(i < end - 1);
                assert(name@.skip(i + 1)[end - 1 - (i + 1)] == c);
            }
            return false;
        }
        end -= 1;
    }
    false
}

/// The folders that douglas keeps its files in.
#[derive(Debug, PartialEq, Eq)]
pub struct DouglasFolders {
    pub logs: String,
    pub transients: String,
    pub configs: String,
    pub seedlings_root: String,
    pub identity: String,
}

/// The folder below the seedlings' root that holds their mounts.
pub const MOUNTS_DIR: &'static str = "mounts";

/// The folder that holds the mounts of a seedling.
pub open spec fn mounts_dir_of(root: Seq<char>, seedling: Seq<char>) -> Seq<char> {
    joined(joined(root, MOUNTS_DIR@), seedling)
}

/// The folder of one mount of a seedling.
pub open spec fn mount_of(root: Seq<char>, seedling: Seq<char>, mount: Seq<char>) -> Seq<char> {
    joined(mounts_dir_of(root, seedling), mount)
}

/// The folder of traefik's route files.
pub open spec fn dynamic_dir_of(root: Seq<char>) -> Seq<char> {
    joined(mount_of(root, TRAEFIK@, "config"@), "dynamic"@)
}

impl DouglasFolders {
    /// The folder that holds the mounts of a seedling.
    pub fn seedling_mounts_dir(&self, seedling: &str) -> (r: String)
        ensures
            r@ == mounts_dir_of(self.seedlings_root@, seedling@),
    {
        let mounts: String = join(&self.seedlings_root, MOUNTS_DIR);
        join(&mounts, seedling)
    }

    /// The folder of one mount of a seedling.
    pub fn seedling_mount(&self, seedling: &str, mount: &str) -> (r: String)
        ensures
            r@ == mount_of(self.seedlings_root@, seedling@, mount@),
    {
        let dir: String = self.seedling_mounts_dir(seedling);
        join(&dir, mount)
    }
}

/// The folder that traefik watches for route files.
pub fn traefik_dynamic_dir(folders: &DouglasFolders) -> (r: String)
    ensures
        r@ == dynamic_dir_of(folders.seedlings_root@),
{
    let mount: String = folders.seedling_mount(TRAEFIK, "config");
    join(&mount, "dynamic")
}

/// The route file of a seedling.
pub open spec fn route_file_of(root: Seq<char>, seedling: Seq<char>) -> Seq<char> {
    joined(dynamic_dir_of(root), seedling + ".yml"@)
}

/// The route file of a seedling.
pub fn route_file(folders: &DouglasFolders, name: &Name) -> (r: String)
    ensures
        r@ == route_file_of(folders.seedlings_root@, name@),
{
    let dir: String = traefik_dynamic_dir(folders);
    let file: String = cat2(name.as_str(), ".yml");
    join(&dir, &file)
}

proof fn lemma_plain_pieces(base: Seq<char>, name: Seq<char>)
    requires
        !name.contains('/'),
        pieces(base).len() > 0,
    ensures
        pieces(base + name) == pieces(base).drop_last().push(pieces(base).last() + name),
    decreases name.len(),
{
    let before = pieces(base);
    if name.len() == 0 {
        assert(base + name =~= base);
        assert(before.last() + name =~= before.last());
        assert(before =~= before.drop_last().push(before.last()));
    } else {
        let rest = name.drop_last();
        assert(!rest.contains('/')) by {
            assert forall|i: int| 0 <= i < rest.len() implies rest[i] != '/' by {
                assert(rest[i] == name[i]);
            }
        }
        assert(name[name.len() - 1] != '/');
        lemma_plain_pieces(base, rest);
        assert((base + name).drop_last() =~= base + rest);
        let then = pieces(base + rest);
        assert(then.last() == before.last() + rest);
        assert((before.last() + rest).push(name.last()) =~= before.last() + name);
        assert(then.drop_last() =~= before.drop_last());
    }
}

proof fn lemma_pieces_not_empty(s: Seq<char>)
    ensures
        pieces(s).len() > 0,
    decreases s.len(),
{
    if s.len() > 0 {
        lemma_pieces_not_empty(s.drop_last());
    }
}

/// A path that was joined from a folder and a plain name stands in that folder and has that name.
pub proof fn law_joined_paths_come_apart(base: Seq<char>, name: Seq<char>)
    requires
        base.len() > 0,
        !trails_off(base),
        leads_on(name),
        name != ".."@,
        !name.contains('/'),
    ensures
        parent_of(joined(base, name)) == Some(base),
        file_name_of(joined(base, name)) == Some(name),
{
    reveal_strlit("/");
    reveal_strlit(".");
    let s = joined(base, name);
    let folder = if base.last() == '/' {
        base
    } else {
        base.push('/')
    };
    assert(name[0] != '/');
    assert(s =~= folder + name);
    let at = folder.len() - 1;
    assert(folder[at] == '/');
    assert forall|j: int| at < j < s.len() implies s[j] != '/' by {
        assert(s[j] == name[j - at - 1]);
    }
    assert(s[at] == '/');
    assert(!trails_off(s)) by {
        if s.last() == '.' && s[s.len() - 2] == '/' {
            assert(s.len() - 2 == at);
            assert(name =~= "."@);
        }
    }
    assert(last_slash(s, at));
    let i = choose|i: int| last_slash(s, i);
    lemma_last_slash_unique(s, i, at);
    if base.last() == '/' {
        assert(base =~= "/"@);
    } else {
        assert(s.take(at) =~= base);
    }
    lemma_pieces_not_empty(folder.drop_last());
    let before = pieces(folder.drop_last());
    assert(pieces(folder) == before.push(Seq::empty()));
    lemma_plain_pieces(folder, name);
    assert(Seq::<char>::empty() + name =~= name);
    assert(pieces(s).last() == name);
}

/// Everything of a seedling has its place below the root: its mounts in `mounts` and its own name,
/// and its route file in the folder that traefik watches.
pub proof fn law_seedlings_have_their_places(
    root: Seq<char>,
    seedling: Seq<char>,
    mount: Seq<char>,
)
    requires
        root.len() > 0,
        root.last() != '/',
        seedling.len() > 0,
        !seedling.contains('/'),
        mount.len() > 0,
        !mount.contains('/'),
    ensures
        mounts_dir_of(root, seedling) == root + "/mounts/"@ + seedling,
        mount_of(root, seedling, mount) == root + "/mounts/"@ + seedling + "/"@ + mount,
        route_file_of(root, seedling) == root + "/mounts/traefik/config/dynamic/"@ + seedling
            + ".yml"@,
{
    reveal_strlit("/");
    reveal_strlit("/mounts/");
    reveal_strlit("mounts");
    reveal_strlit("traefik");
    reveal_strlit("config");
    reveal_strlit("dynamic");
    reveal_strlit(".yml");
    reveal_strlit("/mounts/traefik/config/dynamic/");
    assert(seedling[0] != '/' && seedling.last() != '/');
    assert(mount[0] != '/');
    let all = joined(root, MOUNTS_DIR@);
    assert(all =~= root + "/"@ + "mounts"@);
    assert(all.last() == 's');
    assert(mounts_dir_of(root, seedling) =~= root + "/mounts/"@ + seedling);
    assert(mounts_dir_of(root, seedling).last() == seedling.last());
    assert(mount_of(root, seedling, mount) =~= root + "/mounts/"@ + seedling + "/"@ + mount);
    let own = mounts_dir_of(root, TRAEFIK@);
    assert(own =~= root + "/mounts/"@ + "traefik"@);
    assert(own.last() == 'k');
    let config = mount_of(root, TRAEFIK@, "config"@);
    assert(config =~= root + "/mounts/"@ + "traefik"@ + "/"@ + "config"@);
    assert(config.last() == 'g');
    let dynamic = dynamic_dir_of(root);
    assert(dynamic =~= root + "/mounts/"@ + "traefik"@ + "/"@ + "config"@ + "/"@ + "dynamic"@);
    assert(dynamic.last() == 'c');
    assert((seedling + ".yml"@)[0] == seedling[0]);
    assert(route_file_of(root, seedling) =~= root + "/mounts/traefik/config/dynamic/"@ + seedling
        + ".yml"@);
}

/// An absolute path stays what it is wherever it is read from. Any other is read below its base,
/// with exactly one `/` put between where the base does not end in one.
pub proof fn law_paths_are_read_from_their_base(base: Seq<char>, part: Seq<char>)
    ensures
        absolute(part) ==> joined(base, part) == part,
        !absolute(part) && base.len() == 0 ==> joined(base, part) == part,
        !absolute(part) && base.len() > 0 ==> {
            &&& base.is_prefix_of(joined(base, part))
            &&& part.is_suffix_of(joined(base, part))
            &&& joined(base, part).len() == base.len() + part.len() + (if base.last() == '/' {
                0int
            } else {
                1
            })
            &&& joined(base, part)[joined(base, part).len() - part.len() - 1] == '/'
        },
{
    reveal_strlit("/");
    let s = joined(base, part);
    if !absolute(part) {
        if base.len() == 0 {
            assert(s =~= part);
        } else {
            assert(s.subrange(0, base.len() as int) =~= base);
            assert(s.skip(s.len() - part.len()) =~= part);
        }
    }
}

/// What leads nowhere at the end of a path changes neither the folder that it stands in nor, where
/// the path is the root, that there is none. A path of one plain part stands in the empty path.
pub proof fn law_paths_stand_in_their_folders(s: Seq<char>)
    ensures
        s.len() > 0 ==> parent_of(s.push('/')) == parent_of(s),
        s.len() > 0 && s.last() == '/' ==> parent_of(s.push('.')) == parent_of(s),
        s.len() == 0 ==> parent_of(s) is None,
        s == seq!['/'] ==> parent_of(s) is None,
        s.len() > 0 && !s.contains('/') ==> parent_of(s) == Some(Seq::<char>::empty()),
{
    reveal_strlit("/");
    assert(s.push('/').drop_last() =~= s);
    assert(s.push('.').drop_last() =~= s);
    assert(s == seq!['/'] ==> s =~= "/"@);
    if s.len() > 0 && !s.contains('/') {
        assert(s.last() == s[s.len() - 1]);
        assert(!trails_off(s));
        assert(s[0] != '/');
        assert forall|i: int| !last_slash(s, i) by {
            if 0 <= i < s.len() {
                assert(s[i] != '/');
            }
        }
        assert(s != "/"@);
    }
}

/// A `/` or a `/.` at the end of a path changes nothing about the file that it leads to, and a path
/// that ends in `..` leads to none.
pub proof fn law_file_names_are_the_last_part(base: Seq<char>)
    ensures
        file_name_of(base.push('/')) == file_name_of(base),
        file_name_of(base.push('/').push('.')) == file_name_of(base),
        file_name_of(base.push('/').push('.').push('.')) is None,
{
    reveal_strlit(".");
    reveal_strlit("..");
    lemma_pieces_not_empty(base);
    let one = base.push('/');
    let two = one.push('.');
    let three = two.push('.');
    assert(one.drop_last() =~= base && two.drop_last() =~= one && three.drop_last() =~= two);
    let all = pieces(base);
    assert(pieces(one) == all.push(Seq::empty()));
    assert(all.push(Seq::<char>::empty()).drop_last() =~= all);
    let dot = Seq::<char>::empty().push('.');
    assert(dot =~= "."@);
    assert(pieces(two) =~= all.push(dot));
    assert(all.push(dot).drop_last() =~= all);
    let dots = dot.push('.');
    assert(dots =~= ".."@);
    assert(pieces(three) =~= all.push(dots));
    assert(dots != "."@);
}

/// A file name is numbered exactly where a dot parts something from a row of digits behind it.
pub proof fn law_numbered_names_end_in_digits(stem: Seq<char>, end: Seq<char>)
    requires
        !end.contains('.'),
    ensures
        !numbered(end),
        numbered(stem.push('.') + end) <==> {
            &&& stem.len() > 0
            &&& end.len() > 0
            &&& forall|i: int| 0 <= i < end.len() ==> '0' <= #[trigger] end[i] && end[i] <= '9'
        },
{
    assert forall|i: int| !(#[trigger] last_dot(end, i)) by {
        if 0 <= i < end.len() {
            assert(end[i] != '.');
        }
    }
    let name = stem.push('.') + end;
    let at = stem.len() as int;
    assert(name[at] == '.');
    assert forall|j: int| at < j < name.len() implies name[j] != '.' by {
        assert(name[j] == end[j - at - 1]);
    }
    assert(last_dot(name, at));
    assert forall|i: int| #[trigger] last_dot(name, i) implies i == at by {
        if i < at {
            assert(name[at] != '.');
        }
    }
    assert(name.skip(at + 1) =~= end);
    if numbered(name) {
        assert forall|i: int| 0 <= i < end.len() implies '0' <= #[trigger] end[i] && end[i] <= '9' by {
            assert(is_digit(end[i]));
        }
    }
}

/// Plain names in one folder lead to the same place only where they are the same.
pub proof fn law_different_names_lead_elsewhere(base: Seq<char>, one: Seq<char>, other: Seq<char>)
    requires
        base.len() > 0,
        base.last() == '/',
        leads_on(one),
        leads_on(other),
        !one.contains('/'),
        !other.contains('/'),
        same_parts(base + one, base + other),
    ensures
        one == other,
{
    lemma_pieces_not_empty(base.drop_last());
    let before = pieces(base.drop_last());
    assert(pieces(base) == before.push(Seq::empty()));
    lemma_plain_pieces(base, one);
    lemma_plain_pieces(base, other);
    assert(Seq::<char>::empty() + one =~= one);
    assert(Seq::<char>::empty() + other =~= other);
    assert(before.push(Seq::<char>::empty()).drop_last() =~= before);
    assert(before.push(one).drop_last() =~= before);
    assert(before.push(other).drop_last() =~= before);
    assert(leading(before.push(one)).last() == one);
    assert(leading(before.push(other)).last() == other);
}

} // verus!
