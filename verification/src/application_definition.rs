//! Declarations of applications: their files, and what makes them valid.

use crate::docker::EnvironmentVariable;
use crate::paths::{join, joined};
use crate::rotate_seedling_logs::EntryKind;
use crate::text::{
    cat2, cat5, comes_before, has_text, lemma_no_text_precedes_itself, lemma_one_text_precedes,
    lemma_precedence_carries_on, lemma_trimming_is_done_once, lists, precedes, same_text,
    split_once, string_texts, strip_suffix, trim, trimmed,
};
use vstd::prelude::*;

verus! {

/// Why a declaration could not be read, written or accepted.
#[derive(Debug, PartialEq, Eq)]
pub enum ApplicationDefinitionRepositryError {
    FileSystemError(String),
    Deserialization(String),
    Serialization(String),
    NoDefnition(String),
    NameCannotBeEmpty,
    UnknownDependency(String),
    EnvironmentVariableNameCannotBeEmpty,
    InvalidEnvironmentVariableName(String),
    UnknownDependencyInShare { mount_name: String, dependency: String },
    FileNameCannotBeEmpty { mount_name: String },
    UnsafeFileName { mount_name: String, file_name: String },
}

impl ApplicationDefinitionRepositryError {
    /// The error in words.
    pub fn describe(&self) -> (r: String)
        ensures
            r@ == (match self {
                ApplicationDefinitionRepositryError::FileSystemError(error) =>
                    "File system error: "@ + error@,
                ApplicationDefinitionRepositryError::Deserialization(error) =>
                    "Deserialization error: "@ + error@,
                ApplicationDefinitionRepositryError::Serialization(error) =>
                    "Serialization error: "@ + error@,
                ApplicationDefinitionRepositryError::NoDefnition(name) => "No definition for '"@
                    + name@ + "'"@,
                ApplicationDefinitionRepositryError::NameCannotBeEmpty => "Name cannot be empty"@,
                ApplicationDefinitionRepositryError::UnknownDependency(_) => "Unknown dependency"@,
                ApplicationDefinitionRepositryError::EnvironmentVariableNameCannotBeEmpty =>
                    "Environment variable name cannot be empty"@,
                ApplicationDefinitionRepositryError::InvalidEnvironmentVariableName(name) =>
                    "Invalid environment variable name: '"@ + name@ + "'"@,
                ApplicationDefinitionRepositryError::UnknownDependencyInShare {
                    mount_name,
                    dependency,
                } => "Unknown dependency in share: mount: '"@ + mount_name@ + "', dependency: '"@
                    + dependency@ + "'"@,
                ApplicationDefinitionRepositryError::FileNameCannotBeEmpty { .. } =>
                    "File name cannot be empty"@,
                ApplicationDefinitionRepositryError::UnsafeFileName { .. } => "Unsafe file name"@,
            }),
    {
        match self {
            ApplicationDefinitionRepositryError::FileSystemError(error) => cat2(
                "File system error: ",
                error,
            ),
            ApplicationDefinitionRepositryError::Deserialization(error) => cat2(
                "Deserialization error: ",
                error,
            ),
            ApplicationDefinitionRepositryError::Serialization(error) => cat2(
                "Serialization error: ",
                error,
            ),
            ApplicationDefinitionRepositryError::NoDefnition(name) => crate::text::cat3(
                "No definition for '",
                name,
                "'",
            ),
            ApplicationDefinitionRepositryError::NameCannotBeEmpty =>
                "Name cannot be empty".to_owned(),
            ApplicationDefinitionRepositryError::UnknownDependency(_) =>
                "Unknown dependency".to_owned(),
            ApplicationDefinitionRepositryError::EnvironmentVariableNameCannotBeEmpty =>
                "Environment variable name cannot be empty".to_owned(),
            ApplicationDefinitionRepositryError::InvalidEnvironmentVariableName(name) =>
                crate::text::cat3("Invalid environment variable name: '", name, "'"),
            ApplicationDefinitionRepositryError::UnknownDependencyInShare {
                mount_name,
                dependency,
            } => cat5(
                "Unknown dependency in share: mount: '",
                mount_name,
                "', dependency: '",
                dependency,
                "'",
            ),
            ApplicationDefinitionRepositryError::FileNameCannotBeEmpty { .. } =>
                "File name cannot be empty".to_owned(),
            ApplicationDefinitionRepositryError::UnsafeFileName { .. } =>
                "Unsafe file name".to_owned(),
        }
    }
}

/// What another application may do with a shared mount.
#[derive(Debug, Clone, Copy, PartialEq, Eq, Structural)]
pub enum ShareAccess {
    Readonly,
    ReadWrite,
}

/// An application that a mount is shared with.
#[derive(Debug, PartialEq, Eq)]
pub struct ShareDefinition {
    pub application_display_name: String,
    pub access: ShareAccess,
}

/// A file that a mount is to hold.
#[derive(Debug, PartialEq, Eq)]
pub struct MountFile {
    pub relative_mount_path: String,
    pub name: String,
    pub contents: String,
}

/// A folder that an application's container sees.
#[derive(Debug, PartialEq, Eq)]
pub struct MountDefinition {
    pub name: String,
    pub container_path: String,
    pub shared_with: Vec<ShareDefinition>,
    pub files: Vec<MountFile>,
}

/// How it is told whether an application is well.
#[derive(Debug, PartialEq, Eq)]
pub struct HealthCheck {
    pub command: String,
    pub interval_in_seconds: u8,
    pub timeout_in_seconds: u8,
    pub start_period_in_seconds: u8,
    pub retries: u8,
}

/// The name of an image, its namespace and its version.
#[derive(Debug, PartialEq, Eq)]
pub struct ImageName {
    pub namespace: String,
    pub name: String,
    pub version: String,
}

/// What an application is declared to be.
#[derive(Debug, PartialEq, Eq)]
pub struct ApplicationDefinition {
    pub display_name: String,
    pub image_name: ImageName,
    pub dependencies: Vec<String>,
    pub environment_variables: Vec<EnvironmentVariable>,
    pub mounts: Vec<MountDefinition>,
    pub health_check: Option<HealthCheck>,
}

/// The parts of a text before and behind the first place where a character stands.
pub open spec fn cut(s: Seq<char>, c: char) -> Option<(Seq<char>, Seq<char>)>
    decreases s.len(),
{
    if s.len() == 0 {
        None
    } else if s[0] == c {
        Some((Seq::empty(), s.skip(1)))
    } else {
        match cut(s.skip(1), c) {
            Some((before, after)) => Some((seq![s[0]] + before, after)),
            None => None,
        }
    }
}

proof fn lemma_cut(before: Seq<char>, c: char, after: Seq<char>)
    requires
        !before.contains(c),
    ensures
        cut(before + seq![c] + after, c) == Some((before, after)),
    decreases before.len(),
{
    let s = before + seq![c] + after;
    if before.len() == 0 {
        assert(s[0] == c);
        assert(s.skip(1) =~= after);
        assert(before =~= Seq::empty());
    } else {
        let rest = before.skip(1);
        assert(!rest.contains(c)) by {
            if rest.contains(c) {
                let i = choose|i: int| 0 <= i < rest.len() && rest[i] == c;
                assert(before[i + 1] == c);
            }
        }
        assert(before[0] != c);
        lemma_cut(rest, c, after);
        assert(s.skip(1) =~= rest + seq![c] + after);
        assert(seq![s[0]] + rest =~= before);
    }
}

proof fn lemma_no_cut(s: Seq<char>, c: char)
    requires
        !s.contains(c),
    ensures
        cut(s, c) is None,
    decreases s.len(),
{
    if s.len() > 0 {
        let rest = s.skip(1);
        assert(!rest.contains(c)) by {
            if rest.contains(c) {
                let i = choose|i: int| 0 <= i < rest.len() && rest[i] == c;
                assert(s[i + 1] == c);
            }
        }
        assert(s[0] != c);
        lemma_no_cut(rest, c);
    }
}

/// Why a text is not the name of an image.
#[derive(Debug, PartialEq, Eq)]
pub enum ImageNameError {
    Malformed { text: String },
    BlankName,
    InvalidVersion { reason: String },
}

impl ImageNameError {
    /// The error in words.
    pub fn describe(&self) -> (r: String)
        ensures
            r@ == (match self {
                ImageNameError::Malformed { text } => "expected namespace/image:version, got: "@
                    + text@,
                ImageNameError::BlankName => "Image name cannot be blank"@,
                ImageNameError::InvalidVersion { reason } => reason@,
            }),
    {
        match self {
            ImageNameError::Malformed { text } => cat2(
                "expected namespace/image:version, got: ",
                text,
            ),
            ImageNameError::BlankName => "Image name cannot be blank".to_owned(),
            ImageNameError::InvalidVersion { reason } => reason.clone(),
        }
    }
}

/// The name of an image as it is written.
pub open spec fn image_text(namespace: Seq<char>, name: Seq<char>, version: Seq<char>) -> Seq<char> {
    namespace + "/"@ + name + ":"@ + version
}

/// Writes the name of an image.
pub fn serialize(value: &ImageName) -> (r: String)
    ensures
        r@ == image_text(value.namespace@, value.name@, value.version@),
{
    cat5(&value.namespace, "/", &value.name, ":", &value.version)
}

/// The namespace and the rest of a text: what stands before and behind the first `/`.
pub open spec fn namespace_and_rest(text: Seq<char>) -> (Seq<char>, Seq<char>) {
    match cut(text, '/') {
        Some(parts) => parts,
        None => (Seq::empty(), text),
    }
}

/// What a text says of an image.
pub enum ImageReading {
    Malformed,
    BlankName,
    Image { namespace: Seq<char>, name: Seq<char>, version: Seq<char> },
}

/// What a text says of an image: its namespace stands before the first `/`, its name between that
/// and the first `:` behind it, and its version behind that. The namespace may be left out with
/// its `/`, the version may not. White space around the namespace and the name does not count.
pub open spec fn image_read(text: Seq<char>) -> ImageReading {
    let (namespace, rest) = namespace_and_rest(text);
    match cut(rest, ':') {
        None => ImageReading::Malformed,
        Some((name, version)) => if trimmed(name).len() == 0 {
            ImageReading::BlankName
        } else {
            ImageReading::Image { namespace: trimmed(namespace), name: trimmed(name), version }
        },
    }
}

/// Takes the name of an image apart, with its version as it stands.
pub fn split_image_name(text: &str) -> (r: Result<ImageName, ImageNameError>)
    ensures
        match image_read(text@) {
            ImageReading::Malformed => r matches Err(ImageNameError::Malformed { text: given })
                && given@ == text@,
            ImageReading::BlankName => r == Err::<ImageName, ImageNameError>(
                ImageNameError::BlankName,
            ),
            ImageReading::Image { namespace, name, version } => r matches Ok(image)
                && image.namespace@ == namespace && image.name@ == name && image.version@
                == version,
        },
{
    proof {
        if !text@.contains('/') {
            lemma_no_cut(text@, '/');
        }
    }
    let (namespace, rest): (String, String) = match split_once(text, '/') {
        Some((before, after)) => {
            proof {
                lemma_cut(before@, '/', after@);
            }
            (before, after)
        },
        None => {
            let blank: String = String::new();
            assert(blank@ =~= Seq::<char>::empty());
            (blank, text.to_owned())
        },
    };
    assert(namespace_and_rest(text@) == (namespace@, rest@));
    proof {
        if !rest@.contains(':') {
            lemma_no_cut(rest@, ':');
        }
    }
    match split_once(&rest, ':') {
        None => Err(ImageNameError::Malformed { text: text.to_owned() }),
        Some((name, version)) => {
            proof {
                lemma_cut(name@, ':', version@);
            }
            let name: String = trim(&name);
            if same_text(&name, "") {
                proof {
                    reveal_strlit("");
                }
                return Err(ImageNameError::BlankName);
            }
            proof {
                reveal_strlit("");
                if name@.len() == 0 {
                    assert(name@ =~= ""@);
                }
            }
            Ok(ImageName { namespace: trim(&namespace), name, version })
        },
    }
}

/// Reads the name of an image. Where the text has the parts of one, `version` is what came of
/// reading the version that stands in it: the version, or why it is none.
pub fn deserialize(text: &str, version: Result<String, String>) -> (r: Result<
    ImageName,
    ImageNameError,
>)
    ensures
        match image_read(text@) {
            ImageReading::Malformed => r matches Err(ImageNameError::Malformed { text: given })
                && given@ == text@,
            ImageReading::BlankName => r == Err::<ImageName, ImageNameError>(
                ImageNameError::BlankName,
            ),
            ImageReading::Image { namespace, name, .. } => match version {
                Ok(version) => r matches Ok(image) && image.namespace@ == namespace && image.name@
                    == name && image.version == version,
                Err(reason) => r == Err::<ImageName, ImageNameError>(
                    ImageNameError::InvalidVersion { reason },
                ),
            },
        },
{
    let parts: ImageName = match split_image_name(text) {
        Ok(parts) => parts,
        Err(error) => return Err(error),
    };
    match version {
        Ok(version) => Ok(ImageName { namespace: parts.namespace, name: parts.name, version }),
        Err(reason) => Err(ImageNameError::InvalidVersion { reason }),
    }
}

/// Whether an image's name can be read back from what is written for it: nothing in it is taken
/// for a separator, and there is no white space around its parts.
pub open spec fn readable(namespace: Seq<char>, name: Seq<char>) -> bool {
    &&& !namespace.contains('/')
    &&& !name.contains(':')
    &&& name.len() > 0
    &&& trimmed(namespace) == namespace
    &&& trimmed(name) == name
}

/// What is written for the name of an image is read back as the same name.
pub proof fn law_image_names_round_trip(
    namespace: Seq<char>,
    name: Seq<char>,
    version: Seq<char>,
)
    requires
        readable(namespace, name),
    ensures
        image_read(image_text(namespace, name, version)) == (ImageReading::Image {
            namespace,
            name,
            version,
        }),
{
    reveal_strlit("/");
    reveal_strlit(":");
    let rest = name + seq![':'] + version;
    assert("/"@ =~= seq!['/']);
    assert(":"@ =~= seq![':']);
    assert(image_text(namespace, name, version) =~= namespace + seq!['/'] + rest);
    lemma_cut(namespace, '/', rest);
    lemma_cut(name, ':', version);
}

/// Entries with one more, at its place in the order of names. One of the same name is replaced.
pub open spec fn placed(
    entries: Seq<(Seq<char>, Seq<char>)>,
    name: Seq<char>,
    value: Seq<char>,
) -> Seq<(Seq<char>, Seq<char>)>
    decreases entries.len(),
{
    if entries.len() == 0 || precedes(entries.last().0, name) {
        entries.push((name, value))
    } else if entries.last().0 == name {
        entries.drop_last().push((name, value))
    } else {
        placed(entries.drop_last(), name, value).push(entries.last())
    }
}

/// What is written of the first `n` variables, by trimmed name and value: in the order of their
/// names, and of several with the same name the last.
pub open spec fn written(variables: Seq<EnvironmentVariable>, n: int) -> Seq<(Seq<char>, Seq<char>)>
    decreases n,
{
    if n <= 0 {
        Seq::empty()
    } else {
        placed(
            written(variables, n - 1),
            trimmed(variables[n - 1].name@),
            variables[n - 1].value@,
        )
    }
}

/// Whether every variable has a name.
pub open spec fn all_named(variables: Seq<EnvironmentVariable>) -> bool {
    forall|i: int| 0 <= i < variables.len() ==> trimmed((#[trigger] variables[i]).name@).len() > 0
}

/// Variables, by name and value.
pub open spec fn pairs(variables: Seq<EnvironmentVariable>) -> Seq<(Seq<char>, Seq<char>)> {
    variables.map_values(|variable: EnvironmentVariable| (variable.name@, variable.value@))
}

fn is_blank(name: &str) -> (r: bool)
    ensures
        r == (trimmed(name@).len() == 0),
{
    let name: String = trim(name);
    proof {
        reveal_strlit("");
        if name@.len() == 0 {
            assert(name@ =~= ""@);
        }
    }
    same_text(&name, "")
}

fn place(entries: &mut Vec<EnvironmentVariable>, name: &str, value: &str)
    ensures
        pairs(final(entries)@) == placed(pairs(old(entries)@), name@, value@),
{
    let ghost all = pairs(entries@);
    let entry: EnvironmentVariable = EnvironmentVariable::new(name, value);
    let ghost pair = (entry.name@, entry.value@);
    let mut i: usize = entries.len();
    assert(all.take(i as int) =~= all);
    assert(all.skip(i as int) =~= Seq::empty());
    assert(placed(all, name@, value@) =~= placed(all.take(i as int), name@, value@) + all.skip(
        i as int,
    ));
    while i > 0 && !comes_before(&entries[i - 1].name, name)
        invariant
            i <= entries@.len(),
            all == pairs(entries@),
            entries@ == old(entries)@,
            pair == (entry.name@, entry.value@),
            pair == (name@, value@),
            placed(all, name@, value@) == placed(all.take(i as int), name@, value@) + all.skip(
                i as int,
            ),
        decreases i,
    {
        assert(all.take(i as int).last() == all[i - 1]);
        assert(all.take(i as int).drop_last() =~= all.take(i - 1));
        assert(all[i - 1].0 == entries@[i - 1].name@);
        if same_text(&entries[i - 1].name, name) {
            entries.set(i - 1, entry);
            assert(pairs(entries@) =~= all.take(i - 1).push(pair) + all.skip(i as int));
            return ;
        }
        assert(placed(all.take(i - 1), name@, value@).push(all[i - 1]) + all.skip(i as int)
            =~= placed(all.take(i - 1), name@, value@) + all.skip(i - 1));
        i -= 1;
    }
    if i > 0 {
        assert(all.take(i as int).last() == all[i - 1]);
        assert(all[i - 1].0 == entries@[i - 1].name@);
    }
    entries.insert(i, entry);
    assert(pairs(entries@) =~= all.take(i as int).push(pair) + all.skip(i as int));
}

/// The variables that are written to a file, in the order of their names. One without a name
/// cannot be written.
pub fn serialize_environment(variables: &Vec<EnvironmentVariable>) -> (r: Option<
    Vec<EnvironmentVariable>,
>)
    ensures
        r is Some == all_named(variables@),
        r matches Some(entries) ==> pairs(entries@) == written(
            variables@,
            variables@.len() as int,
        ),
{
    let mut entries: Vec<EnvironmentVariable> = Vec::new();
    let mut i: usize = 0;
    assert(pairs(entries@) =~= Seq::<(Seq<char>, Seq<char>)>::empty());
    while i < variables.len()
        invariant
            i <= variables@.len(),
            forall|j: int| 0 <= j < i ==> trimmed((#[trigger] variables@[j]).name@).len() > 0,
            pairs(entries@) == written(variables@, i as int),
        decreases variables@.len() - i,
    {
        if is_blank(&variables[i].name) {
            assert(!all_named(variables@)) by {
                assert(trimmed(variables@[i as int].name@).len() == 0);
            }
            return None;
        }
        place(&mut entries, &trim(&variables[i].name), &variables[i].value);
        i += 1;
    }
    Some(entries)
}

/// The variables that were read from a file, with their names trimmed. One without a name cannot
/// be read.
pub fn deserialize_environment(entries: &Vec<EnvironmentVariable>) -> (r: Option<
    Vec<EnvironmentVariable>,
>)
    ensures
        r is Some == all_named(entries@),
        r matches Some(variables) ==> variables@.len() == entries@.len() && forall|i: int|
            0 <= i < variables@.len() ==> (#[trigger] variables@[i]).name@ == trimmed(
                entries@[i].name@,
            ) && variables@[i].value@ == entries@[i].value@,
{
    let mut variables: Vec<EnvironmentVariable> = Vec::new();
    let mut i: usize = 0;
    while i < entries.len()
        invariant
            i <= entries@.len(),
            variables@.len() == i,
            forall|j: int| 0 <= j < i ==> trimmed((#[trigger] entries@[j]).name@).len() > 0,
            forall|j: int|
                0 <= j < i ==> (#[trigger] variables@[j]).name@ == trimmed(entries@[j].name@)
                    && variables@[j].value@ == entries@[j].value@,
        decreases entries@.len() - i,
    {
        if is_blank(&entries[i].name) {
            assert(!all_named(entries@)) by {
                assert(trimmed(entries@[i as int].name@).len() == 0);
            }
            return None;
        }
        variables.push(EnvironmentVariable::new(&trim(&entries[i].name), &entries[i].value));
        i += 1;
    }
    Some(variables)
}

/// Whether the names of entries ascend: every one stands before all that follow.
pub open spec fn ascending(entries: Seq<(Seq<char>, Seq<char>)>) -> bool {
    forall|i: int, j: int|
        0 <= i < j < entries.len() ==> precedes(
            (#[trigger] entries[i]).0,
            (#[trigger] entries[j]).0,
        )
}

proof fn lemma_placed(
    entries: Seq<(Seq<char>, Seq<char>)>,
    name: Seq<char>,
    value: Seq<char>,
    pair: (Seq<char>, Seq<char>),
)
    requires
        ascending(entries),
    ensures
        ascending(placed(entries, name, value)),
        placed(entries, name, value).contains(pair) == (pair == (name, value) || (
        entries.contains(pair) && pair.0 != name)),
    decreases entries.len(),
{
    let after = placed(entries, name, value);
    let new = (name, value);
    if entries.len() == 0 {
        assert(after =~= seq![new]);
        assert(after[0] == new);
    } else {
        let last = entries.last();
        let before = entries.drop_last();
        assert(entries =~= before.push(last));
        assert forall|i: int| 0 <= i < before.len() implies precedes(
            (#[trigger] before[i]).0,
            last.0,
        ) by {
            assert(before[i] == entries[i]);
            assert(entries[entries.len() - 1] == last);
        }
        assert(entries.contains(pair) == (before.contains(pair) || pair == last)) by {
            lemma_push_contains(before, last, pair);
        }
        if precedes(last.0, name) {
            assert forall|i: int| 0 <= i < entries.len() implies precedes(
                (#[trigger] entries[i]).0,
                name,
            ) by {
                if i < before.len() {
                    assert(before[i] == entries[i]);
                    lemma_precedence_carries_on(entries[i].0, last.0, name);
                }
            }
            lemma_no_text_precedes_itself(name);
            lemma_push_contains(entries, new, pair);
            if entries.contains(pair) {
                let i = choose|i: int| 0 <= i < entries.len() && entries[i] == pair;
                assert(precedes(entries[i].0, name));
            }
        } else if last.0 == name {
            lemma_no_text_precedes_itself(name);
            lemma_push_contains(before, new, pair);
            if before.contains(pair) {
                let i = choose|i: int| 0 <= i < before.len() && before[i] == pair;
                assert(precedes(before[i].0, last.0));
            }
        } else {
            lemma_one_text_precedes(last.0, name);
            let rest = placed(before, name, value);
            lemma_placed(before, name, value, pair);
            assert(after == rest.push(last));
            lemma_push_contains(rest, last, pair);
            assert forall|i: int| 0 <= i < rest.len() implies precedes(
                (#[trigger] rest[i]).0,
                last.0,
            ) by {
                lemma_placed(before, name, value, rest[i]);
                assert(rest.contains(rest[i]));
                if rest[i] != new {
                    let k = choose|k: int| 0 <= k < before.len() && before[k] == rest[i];
                    assert(precedes(before[k].0, last.0));
                }
            }
            assert forall|i: int, j: int| 0 <= i < j < after.len() implies precedes(
                (#[trigger] after[i]).0,
                (#[trigger] after[j]).0,
            ) by {
                assert(after[i] == rest[i]);
                if j < rest.len() {
                    assert(after[j] == rest[j]);
                }
            }
        }
    }
}

proof fn lemma_push_contains<A>(s: Seq<A>, last: A, x: A)
    ensures
        s.push(last).contains(x) == (s.contains(x) || x == last),
{
    if s.push(last).contains(x) && x != last {
        let i = choose|i: int| 0 <= i < s.push(last).len() && s.push(last)[i] == x;
        assert(s[i] == x);
    }
    if s.contains(x) {
        let i = choose|i: int| 0 <= i < s.len() && s[i] == x;
        assert(s.push(last)[i] == x);
    }
    assert(s.push(last)[s.len() as int] == last);
}

/// Variables are written in the order of their names.
pub proof fn law_written_names_ascend(variables: Seq<EnvironmentVariable>, n: int)
    requires
        0 <= n <= variables.len(),
    ensures
        ascending(written(variables, n)),
    decreases n,
{
    if n > 0 {
        law_written_names_ascend(variables, n - 1);
        let name = trimmed(variables[n - 1].name@);
        let value = variables[n - 1].value@;
        lemma_placed(written(variables, n - 1), name, value, (name, value));
    }
}

/// No name is written twice.
pub proof fn law_written_names_differ(variables: Seq<EnvironmentVariable>, n: int, i: int, j: int)
    requires
        0 <= n <= variables.len(),
        0 <= i < j < written(variables, n).len(),
    ensures
        written(variables, n)[i].0 != written(variables, n)[j].0,
{
    law_written_names_ascend(variables, n);
    lemma_no_text_precedes_itself(written(variables, n)[i].0);
}

/// Whether an entry is what the `k`th variable says, and none of the later ones among the first
/// `n` has its name.
pub open spec fn says_last(
    variables: Seq<EnvironmentVariable>,
    n: int,
    k: int,
    entry: (Seq<char>, Seq<char>),
) -> bool {
    &&& 0 <= k < n
    &&& entry == (trimmed(variables[k].name@), variables[k].value@)
    &&& forall|j: int| k < j < n ==> trimmed((#[trigger] variables[j]).name@) != entry.0
}

/// What is written is what the variables say, and of several with the same name the last.
pub proof fn law_the_last_of_a_name_is_written(
    variables: Seq<EnvironmentVariable>,
    n: int,
    entry: (Seq<char>, Seq<char>),
)
    requires
        0 <= n <= variables.len(),
    ensures
        written(variables, n).contains(entry) == exists|k: int|
            says_last(variables, n, k, entry),
    decreases n,
{
    if n > 0 {
        let name = trimmed(variables[n - 1].name@);
        let value = variables[n - 1].value@;
        law_written_names_ascend(variables, n - 1);
        law_the_last_of_a_name_is_written(variables, n - 1, entry);
        lemma_placed(written(variables, n - 1), name, value, entry);
        if entry == (name, value) {
            assert(says_last(variables, n, n - 1, entry));
        } else if written(variables, n).contains(entry) {
            let fewer: int = n - 1;
            let k = choose|k: int| says_last(variables, fewer, k, entry);
            assert(says_last(variables, n, k, entry));
        } else if exists|k: int| says_last(variables, n, k, entry) {
            let k = choose|k: int| says_last(variables, n, k, entry);
            assert(k < n - 1);
            assert(variables[n - 1] == variables[n - 1]);
            assert(says_last(variables, n - 1, k, entry));
        }
    }
}

proof fn lemma_written_names_are_named(variables: Seq<EnvironmentVariable>, n: int, i: int)
    requires
        0 <= n <= variables.len(),
        all_named(variables),
        0 <= i < written(variables, n).len(),
    ensures
        written(variables, n)[i].0.len() > 0,
        trimmed(written(variables, n)[i].0) == written(variables, n)[i].0,
{
    let entry = written(variables, n)[i];
    assert(written(variables, n).contains(entry));
    law_the_last_of_a_name_is_written(variables, n, entry);
    let k = choose|k: int| says_last(variables, n, k, entry);
    assert(trimmed(variables[k].name@).len() > 0);
    lemma_trimming_is_done_once(variables[k].name@);
}

/// The variables that were written are read back with the names and values that were written.
pub proof fn law_written_variables_are_read_back(
    variables: Seq<EnvironmentVariable>,
    entries: Seq<EnvironmentVariable>,
    i: int,
)
    requires
        all_named(variables),
        pairs(entries) == written(variables, variables.len() as int),
    ensures
        all_named(entries),
        0 <= i < entries.len() ==> trimmed(entries[i].name@) == entries[i].name@,
{
    let all = written(variables, variables.len() as int);
    assert forall|j: int| 0 <= j < entries.len() implies trimmed(
        (#[trigger] entries[j]).name@,
    ).len() > 0 by {
        assert(pairs(entries)[j].0 == entries[j].name@);
        lemma_written_names_are_named(variables, variables.len() as int, j);
    }
    if 0 <= i < entries.len() {
        assert(pairs(entries)[i].0 == entries[i].name@);
        lemma_written_names_are_named(variables, variables.len() as int, i);
    }
}

/// What is wrong with a declaration.
pub enum Problem {
    NameCannotBeEmpty,
    UnknownDependency(Seq<char>),
    EnvironmentVariableNameCannotBeEmpty,
    InvalidEnvironmentVariableName(Seq<char>),
    UnknownDependencyInShare { mount_name: Seq<char>, dependency: Seq<char> },
    FileNameCannotBeEmpty { mount_name: Seq<char> },
    UnsafeFileName { mount_name: Seq<char>, file_name: Seq<char> },
}

/// Whether an error names a problem.
pub open spec fn names_problem(error: ApplicationDefinitionRepositryError, problem: Problem) -> bool {
    match problem {
        Problem::NameCannotBeEmpty => error
            == ApplicationDefinitionRepositryError::NameCannotBeEmpty,
        Problem::UnknownDependency(name) => error
            matches ApplicationDefinitionRepositryError::UnknownDependency(text) && text@ == name,
        Problem::EnvironmentVariableNameCannotBeEmpty => error
            == ApplicationDefinitionRepositryError::EnvironmentVariableNameCannotBeEmpty,
        Problem::InvalidEnvironmentVariableName(name) => error
            matches ApplicationDefinitionRepositryError::InvalidEnvironmentVariableName(text)
            && text@ == name,
        Problem::UnknownDependencyInShare { mount_name, dependency } => error
            matches ApplicationDefinitionRepositryError::UnknownDependencyInShare {
            mount_name: m,
            dependency: d,
        } && m@ == mount_name && d@ == dependency,
        Problem::FileNameCannotBeEmpty { mount_name } => error
            matches ApplicationDefinitionRepositryError::FileNameCannotBeEmpty { mount_name: m }
            && m@ == mount_name,
        Problem::UnsafeFileName { mount_name, file_name } => error
            matches ApplicationDefinitionRepositryError::UnsafeFileName {
            mount_name: m,
            file_name: f,
        } && m@ == mount_name && f@ == file_name,
    }
}

/// Whether a check came to what is wrong, if anything is.
pub open spec fn reports(
    result: Result<(), ApplicationDefinitionRepositryError>,
    problem: Option<Problem>,
) -> bool {
    match problem {
        None => result is Ok,
        Some(problem) => result matches Err(error) && names_problem(error, problem),
    }
}

/// What is wrong with an application's dependencies from the `from`th on: the first that does not
/// exist.
pub open spec fn dependency_problem(
    dependencies: Seq<String>,
    existing: Seq<String>,
    from: int,
) -> Option<Problem>
    decreases dependencies.len() - from,
{
    if from < 0 || from >= dependencies.len() {
        None
    } else if !lists(existing, dependencies[from]@) {
        Some(Problem::UnknownDependency(dependencies[from]@))
    } else {
        dependency_problem(dependencies, existing, from + 1)
    }
}

/// What is wrong with one variable.
pub open spec fn variable_problem(name: Seq<char>) -> Option<Problem> {
    if trimmed(name).len() == 0 {
        Some(Problem::EnvironmentVariableNameCannotBeEmpty)
    } else if trimmed(name).contains('=') {
        Some(Problem::InvalidEnvironmentVariableName(trimmed(name)))
    } else {
        None
    }
}

/// What is wrong with an application's variables from the `from`th on.
pub open spec fn variables_problem(variables: Seq<EnvironmentVariable>, from: int) -> Option<Problem>
    decreases variables.len() - from,
{
    if from < 0 || from >= variables.len() {
        None
    } else if variable_problem(variables[from].name@) is Some {
        variable_problem(variables[from].name@)
    } else {
        variables_problem(variables, from + 1)
    }
}

/// What is wrong with those that a mount is shared with, from the `from`th on.
pub open spec fn shares_problem(
    mount: MountDefinition,
    existing: Seq<String>,
    from: int,
) -> Option<Problem>
    decreases mount.shared_with@.len() - from,
{
    if from < 0 || from >= mount.shared_with@.len() {
        None
    } else if !lists(existing, mount.shared_with@[from].application_display_name@) {
        Some(
            Problem::UnknownDependencyInShare {
                mount_name: mount.name@,
                dependency: mount.shared_with@[from].application_display_name@,
            },
        )
    } else {
        shares_problem(mount, existing, from + 1)
    }
}

/// A file's name, and the form of it that a file system takes without harm.
#[derive(Debug, PartialEq, Eq)]
pub struct SafeForm {
    pub name: String,
    pub safe: String,
}

/// The safe form of a name: that of the first entry for it, where there is one.
pub open spec fn safe_form(forms: Seq<SafeForm>, name: Seq<char>) -> Option<Seq<char>>
    decreases forms.len(),
{
    if forms.len() == 0 {
        None
    } else if forms[0].name@ == name {
        Some(forms[0].safe@)
    } else {
        safe_form(forms.skip(1), name)
    }
}

/// Whether a name is safe as it is: its safe form is known, and is the name itself.
pub open spec fn is_safe(forms: Seq<SafeForm>, name: Seq<char>) -> bool {
    safe_form(forms, name) == Some(name)
}

/// What is wrong with one file: it has no name, or its name differs from the name's safe form.
pub open spec fn file_problem(
    mount_name: Seq<char>,
    file_name: Seq<char>,
    safe_forms: Seq<SafeForm>,
) -> Option<Problem> {
    if trimmed(file_name).len() == 0 {
        Some(Problem::FileNameCannotBeEmpty { mount_name })
    } else if !is_safe(safe_forms, trimmed(file_name)) {
        Some(Problem::UnsafeFileName { mount_name, file_name: trimmed(file_name) })
    } else {
        None
    }
}

/// What is wrong with a mount's files from the `from`th on.
pub open spec fn files_problem(
    mount: MountDefinition,
    safe_forms: Seq<SafeForm>,
    from: int,
) -> Option<Problem>
    decreases mount.files@.len() - from,
{
    if from < 0 || from >= mount.files@.len() {
        None
    } else if file_problem(mount.name@, mount.files@[from].name@, safe_forms) is Some {
        file_problem(mount.name@, mount.files@[from].name@, safe_forms)
    } else {
        files_problem(mount, safe_forms, from + 1)
    }
}

/// What is wrong with one mount: those that it is shared with come before its files.
pub open spec fn mount_problem(
    mount: MountDefinition,
    existing: Seq<String>,
    safe_forms: Seq<SafeForm>,
) -> Option<Problem> {
    if shares_problem(mount, existing, 0) is Some {
        shares_problem(mount, existing, 0)
    } else {
        files_problem(mount, safe_forms, 0)
    }
}

/// What is wrong with an application's mounts from the `from`th on.
pub open spec fn mounts_problem(
    mounts: Seq<MountDefinition>,
    existing: Seq<String>,
    safe_forms: Seq<SafeForm>,
    from: int,
) -> Option<Problem>
    decreases mounts.len() - from,
{
    if from < 0 || from >= mounts.len() {
        None
    } else if mount_problem(mounts[from], existing, safe_forms) is Some {
        mount_problem(mounts[from], existing, safe_forms)
    } else {
        mounts_problem(mounts, existing, safe_forms, from + 1)
    }
}

/// What is wrong with a declaration, if anything is: its name comes first, then its dependencies,
/// its variables and its mounts.
pub open spec fn problem_of(
    definition: ApplicationDefinition,
    existing: Seq<String>,
    safe_forms: Seq<SafeForm>,
) -> Option<Problem> {
    if definition.display_name@.len() == 0 {
        Some(Problem::NameCannotBeEmpty)
    } else if dependency_problem(definition.dependencies@, existing, 0) is Some {
        dependency_problem(definition.dependencies@, existing, 0)
    } else if variables_problem(definition.environment_variables@, 0) is Some {
        variables_problem(definition.environment_variables@, 0)
    } else {
        mounts_problem(definition.mounts@, existing, safe_forms, 0)
    }
}

fn assert_valid_name(name: &str) -> (r: Result<(), ApplicationDefinitionRepositryError>)
    ensures
        reports(
            r,
            if name@.len() == 0 {
                Some(Problem::NameCannotBeEmpty)
            } else {
                None
            },
        ),
{
    proof {
        reveal_strlit("");
        if name@.len() == 0 {
            assert(name@ =~= ""@);
        }
    }
    if same_text(name, "") {
        return Err(ApplicationDefinitionRepositryError::NameCannotBeEmpty);
    }
    Ok(())
}

fn assert_dependencies_exist(dependencies: &Vec<String>, existing: &Vec<String>) -> (r: Result<
    (),
    ApplicationDefinitionRepositryError,
>)
    ensures
        reports(r, dependency_problem(dependencies@, existing@, 0)),
{
    let mut i: usize = 0;
    while i < dependencies.len()
        invariant
            i <= dependencies@.len(),
            dependency_problem(dependencies@, existing@, 0) == dependency_problem(
                dependencies@,
                existing@,
                i as int,
            ),
        decreases dependencies@.len() - i,
    {
        if !has_text(existing, &dependencies[i]) {
            return Err(
                ApplicationDefinitionRepositryError::UnknownDependency(dependencies[i].clone()),
            );
        }
        i += 1;
    }
    Ok(())
}

fn has_equals_sign(name: &str) -> (r: bool)
    ensures
        r == name@.contains('='),
{
    split_once(name, '=').is_some()
}

fn assert_valid_environment_variables(variables: &Vec<EnvironmentVariable>) -> (r: Result<
    (),
    ApplicationDefinitionRepositryError,
>)
    ensures
        reports(r, variables_problem(variables@, 0)),
{
    let mut i: usize = 0;
    while i < variables.len()
        invariant
            i <= variables@.len(),
            variables_problem(variables@, 0) == variables_problem(variables@, i as int),
        decreases variables@.len() - i,
    {
        if is_blank(&variables[i].name) {
            return Err(
                ApplicationDefinitionRepositryError::EnvironmentVariableNameCannotBeEmpty,
            );
        }
        let name: String = trim(&variables[i].name);
        if has_equals_sign(&name) {
            return Err(ApplicationDefinitionRepositryError::InvalidEnvironmentVariableName(name));
        }
        i += 1;
    }
    Ok(())
}

fn assert_valid_mount_shares(mount: &MountDefinition, existing: &Vec<String>) -> (r: Result<
    (),
    ApplicationDefinitionRepositryError,
>)
    ensures
        reports(r, shares_problem(*mount, existing@, 0)),
{
    let mut i: usize = 0;
    while i < mount.shared_with.len()
        invariant
            i <= mount.shared_with@.len(),
            shares_problem(*mount, existing@, 0) == shares_problem(*mount, existing@, i as int),
        decreases mount.shared_with@.len() - i,
    {
        let share: &ShareDefinition = &mount.shared_with[i];
        if !has_text(existing, &share.application_display_name) {
            return Err(
                ApplicationDefinitionRepositryError::UnknownDependencyInShare {
                    mount_name: mount.name.clone(),
                    dependency: share.application_display_name.clone(),
                },
            );
        }
        i += 1;
    }
    Ok(())
}

fn is_its_safe_form(forms: &Vec<SafeForm>, name: &str) -> (r: bool)
    ensures
        r == is_safe(forms@, name@),
{
    let mut i: usize = 0;
    assert(forms@.skip(0) =~= forms@);
    while i < forms.len()
        invariant
            i <= forms@.len(),
            safe_form(forms@, name@) == safe_form(forms@.skip(i as int), name@),
        decreases forms@.len() - i,
    {
        assert(forms@.skip(i as int)[0] == forms@[i as int]);
        assert(forms@.skip(i as int).skip(1) =~= forms@.skip(i as int + 1));
        if same_text(&forms[i].name, name) {
            return same_text(&forms[i].safe, name);
        }
        i += 1;
    }
    false
}

fn assert_valid_files(mount: &MountDefinition, safe_forms: &Vec<SafeForm>) -> (r: Result<
    (),
    ApplicationDefinitionRepositryError,
>)
    ensures
        reports(r, files_problem(*mount, safe_forms@, 0)),
{
    let mut i: usize = 0;
    while i < mount.files.len()
        invariant
            i <= mount.files@.len(),
            files_problem(*mount, safe_forms@, 0) == files_problem(
                *mount,
                safe_forms@,
                i as int,
            ),
        decreases mount.files@.len() - i,
    {
        let file: &MountFile = &mount.files[i];
        if is_blank(&file.name) {
            return Err(
                ApplicationDefinitionRepositryError::FileNameCannotBeEmpty {
                    mount_name: mount.name.clone(),
                },
            );
        }
        let name: String = trim(&file.name);
        if !is_its_safe_form(safe_forms, &name) {
            return Err(
                ApplicationDefinitionRepositryError::UnsafeFileName {
                    mount_name: mount.name.clone(),
                    file_name: name,
                },
            );
        }
        i += 1;
    }
    Ok(())
}

fn assert_valid_mounts(
    mounts: &Vec<MountDefinition>,
    existing: &Vec<String>,
    safe_forms: &Vec<SafeForm>,
) -> (r: Result<(), ApplicationDefinitionRepositryError>)
    ensures
        reports(r, mounts_problem(mounts@, existing@, safe_forms@, 0)),
{
    let mut i: usize = 0;
    while i < mounts.len()
        invariant
            i <= mounts@.len(),
            mounts_problem(mounts@, existing@, safe_forms@, 0) == mounts_problem(
                mounts@,
                existing@,
                safe_forms@,
                i as int,
            ),
        decreases mounts@.len() - i,
    {
        if let Err(error) = assert_valid_mount_shares(&mounts[i], existing) {
            return Err(error);
        }
        if let Err(error) = assert_valid_files(&mounts[i], safe_forms) {
            return Err(error);
        }
        i += 1;
    }
    Ok(())
}

/// Checks a declaration against the applications that exist and the safe forms of its file names,
/// and reports the first thing that is wrong with it. A name whose safe form is not given counts as
/// one that is not safe.
pub fn validate(
    definition: &ApplicationDefinition,
    existing: &Vec<String>,
    safe_forms: &Vec<SafeForm>,
) -> (r: Result<(), ApplicationDefinitionRepositryError>)
    ensures
        reports(r, problem_of(*definition, existing@, safe_forms@)),
        r is Ok == sound(*definition, existing@, safe_forms@),
{
    proof {
        law_only_sound_declarations_are_accepted(*definition, existing@, safe_forms@);
    }
    if let Err(error) = assert_valid_name(&definition.display_name) {
        return Err(error);
    }
    if let Err(error) = assert_dependencies_exist(&definition.dependencies, existing) {
        return Err(error);
    }
    if let Err(error) = assert_valid_environment_variables(&definition.environment_variables) {
        return Err(error);
    }
    assert_valid_mounts(&definition.mounts, existing, safe_forms)
}

/// The names of a mount's files, trimmed, in order.
pub open spec fn mount_file_names(mount: MountDefinition) -> Seq<Seq<char>> {
    mount.files@.map_values(|file: MountFile| trimmed(file.name@))
}

/// The names of the files of mounts, trimmed, in order.
pub open spec fn all_file_names(mounts: Seq<MountDefinition>) -> Seq<Seq<char>>
    decreases mounts.len(),
{
    if mounts.len() == 0 {
        Seq::empty()
    } else {
        all_file_names(mounts.drop_last()) + mount_file_names(mounts.last())
    }
}

fn push_file_names(names: &mut Vec<String>, mount: &MountDefinition)
    ensures
        string_texts(final(names)@) == string_texts(old(names)@) + mount_file_names(*mount),
{
    let ghost start = string_texts(names@);
    let mut j: usize = 0;
    while j < mount.files.len()
        invariant
            j <= mount.files@.len(),
            string_texts(names@) =~= start + mount_file_names(*mount).take(j as int),
        decreases mount.files@.len() - j,
    {
        let ghost before = string_texts(names@);
        let name: String = trim(&mount.files[j].name);
        let ghost text = name@;
        names.push(name);
        assert(string_texts(names@) =~= before.push(text));
        j += 1;
    }
    assert(mount_file_names(*mount).take(mount.files@.len() as int) =~= mount_file_names(*mount));
}

/// The file names of a declaration, trimmed, in order: those whose safety has to be found out
/// before it is checked.
pub fn file_names(definition: &ApplicationDefinition) -> (r: Vec<String>)
    ensures
        string_texts(r@) == all_file_names(definition.mounts@),
{
    let mounts: &Vec<MountDefinition> = &definition.mounts;
    let mut names: Vec<String> = Vec::new();
    let mut i: usize = 0;
    assert(mounts@.take(0) =~= Seq::<MountDefinition>::empty());
    assert(string_texts(names@) =~= Seq::<Seq<char>>::empty());
    while i < mounts.len()
        invariant
            i <= mounts@.len(),
            string_texts(names@) == all_file_names(mounts@.take(i as int)),
        decreases mounts@.len() - i,
    {
        assert(mounts@.take(i as int + 1).drop_last() =~= mounts@.take(i as int));
        push_file_names(&mut names, &mounts[i]);
        i += 1;
    }
    assert(mounts@.take(mounts@.len() as int) =~= mounts@);
    names
}

/// The file of a declaration, from the safe form of its application's name.
pub fn definition_path(root: &str, safe_name: &str) -> (r: String)
    ensures
        r@ == joined(root@, safe_name@ + ".toml"@),
{
    let file: String = cat2(safe_name, ".toml");
    qualified_path(root, &file)
}

/// A file below the folder of declarations.
pub fn qualified_path(root: &str, filename: &str) -> (r: String)
    ensures
        r@ == joined(root@, filename@),
{
    join(root, filename)
}

/// An entry of the folder of declarations.
#[derive(Debug, PartialEq, Eq)]
pub struct FolderEntry {
    pub name: String,
    pub kind: EntryKind,
}

/// Whether an entry is a declaration.
pub open spec fn is_definition(entry: FolderEntry) -> bool {
    entry.kind == EntryKind::File && ".toml"@.is_suffix_of(entry.name@)
}

/// The entries that are declarations, in order.
pub open spec fn definitions(entries: Seq<FolderEntry>) -> Seq<FolderEntry>
    decreases entries.len(),
{
    if entries.len() == 0 {
        Seq::empty()
    } else if is_definition(entries.last()) {
        definitions(entries.drop_last()).push(entries.last())
    } else {
        definitions(entries.drop_last())
    }
}

/// The files of the declarations in a folder, in order.
pub fn definition_files<'a>(root: &str, entries: &'a Vec<FolderEntry>) -> (r: Vec<String>)
    ensures
        r@.len() == definitions(entries@).len(),
        forall|i: int|
            0 <= i < r@.len() ==> (#[trigger] r@[i])@ == joined(
                root@,
                definitions(entries@)[i].name@,
            ),
{
    let mut files: Vec<String> = Vec::new();
    let mut n: usize = 0;
    assert(entries@.take(0) =~= Seq::<FolderEntry>::empty());
    while n < entries.len()
        invariant
            n <= entries@.len(),
            files@.len() == definitions(entries@.take(n as int)).len(),
            forall|i: int|
                0 <= i < files@.len() ==> (#[trigger] files@[i])@ == joined(
                    root@,
                    definitions(entries@.take(n as int))[i].name@,
                ),
        decreases entries@.len() - n,
    {
        assert(entries@.take(n as int + 1).drop_last() =~= entries@.take(n as int));
        let entry: &FolderEntry = &entries[n];
        if entry.kind == EntryKind::File && strip_suffix(&entry.name, ".toml").is_some() {
            files.push(qualified_path(root, &entry.name));
        }
        n += 1;
    }
    assert(entries@.take(entries@.len() as int) =~= entries@);
    files
}

/// Goes on to load a declaration, or says that there is none.
pub fn load(display_name: &str, definition_exists: bool) -> (r: Result<
    (),
    ApplicationDefinitionRepositryError,
>)
    ensures
        if definition_exists {
            r is Ok
        } else {
            r matches Err(ApplicationDefinitionRepositryError::NoDefnition(name)) && name@
                == display_name@
        },
{
    if definition_exists {
        Ok(())
    } else {
        Err(ApplicationDefinitionRepositryError::NoDefnition(display_name.to_owned()))
    }
}

/// Whether a variable can be one: it has a name, and no `=` in it.
pub open spec fn sound_variable(variable: EnvironmentVariable) -> bool {
    trimmed(variable.name@).len() > 0 && !trimmed(variable.name@).contains('=')
}

/// Whether a file can be one: it has a name, which is its own safe form.
pub open spec fn sound_file(file: MountFile, safe_forms: Seq<SafeForm>) -> bool {
    trimmed(file.name@).len() > 0 && is_safe(safe_forms, trimmed(file.name@))
}

/// Whether everybody that a mount is shared with exists, and all of its files are sound.
pub open spec fn sound_mount(
    mount: MountDefinition,
    existing: Seq<String>,
    safe_forms: Seq<SafeForm>,
) -> bool {
    &&& forall|i: int|
        0 <= i < mount.shared_with@.len() ==> lists(
            existing,
            (#[trigger] mount.shared_with@[i]).application_display_name@,
        )
    &&& forall|i: int|
        0 <= i < mount.files@.len() ==> sound_file(#[trigger] mount.files@[i], safe_forms)
}

/// Whether a declaration has a name, refers only to applications that exist, and has only sound
/// variables and mounts.
pub open spec fn sound(
    definition: ApplicationDefinition,
    existing: Seq<String>,
    safe_forms: Seq<SafeForm>,
) -> bool {
    &&& definition.display_name@.len() > 0
    &&& forall|i: int|
        0 <= i < definition.dependencies@.len() ==> lists(
            existing,
            (#[trigger] definition.dependencies@[i])@,
        )
    &&& forall|i: int|
        0 <= i < definition.environment_variables@.len() ==> sound_variable(
            #[trigger] definition.environment_variables@[i],
        )
    &&& forall|i: int|
        0 <= i < definition.mounts@.len() ==> sound_mount(
            #[trigger] definition.mounts@[i],
            existing,
            safe_forms,
        )
}

/// Nothing is wrong with a declaration exactly where it is sound.
pub proof fn law_only_sound_declarations_are_accepted(
    definition: ApplicationDefinition,
    existing: Seq<String>,
    safe_forms: Seq<SafeForm>,
)
    ensures
        problem_of(definition, existing, safe_forms) is None == sound(
            definition,
            existing,
            safe_forms,
        ),
{
    lemma_dependencies(definition.dependencies@, existing, 0);
    lemma_variables(definition.environment_variables@, 0);
    lemma_mounts(definition.mounts@, existing, safe_forms, 0);
}

proof fn lemma_dependencies(dependencies: Seq<String>, existing: Seq<String>, from: int)
    requires
        0 <= from <= dependencies.len(),
    ensures
        dependency_problem(dependencies, existing, from) is None == (forall|i: int|
            from <= i < dependencies.len() ==> lists(existing, (#[trigger] dependencies[i])@)),
    decreases dependencies.len() - from,
{
    if from < dependencies.len() {
        lemma_dependencies(dependencies, existing, from + 1);
        assert(dependencies[from] == dependencies[from]);
    }
}

proof fn lemma_variables(variables: Seq<EnvironmentVariable>, from: int)
    requires
        0 <= from <= variables.len(),
    ensures
        variables_problem(variables, from) is None == (forall|i: int|
            from <= i < variables.len() ==> sound_variable(#[trigger] variables[i])),
    decreases variables.len() - from,
{
    if from < variables.len() {
        lemma_variables(variables, from + 1);
        assert(variables[from] == variables[from]);
    }
}

proof fn lemma_shares(mount: MountDefinition, existing: Seq<String>, from: int)
    requires
        0 <= from <= mount.shared_with@.len(),
    ensures
        shares_problem(mount, existing, from) is None == (forall|i: int|
            from <= i < mount.shared_with@.len() ==> lists(
                existing,
                (#[trigger] mount.shared_with@[i]).application_display_name@,
            )),
    decreases mount.shared_with@.len() - from,
{
    if from < mount.shared_with@.len() {
        lemma_shares(mount, existing, from + 1);
        assert(mount.shared_with@[from] == mount.shared_with@[from]);
    }
}

proof fn lemma_files(mount: MountDefinition, safe_forms: Seq<SafeForm>, from: int)
    requires
        0 <= from <= mount.files@.len(),
    ensures
        files_problem(mount, safe_forms, from) is None == (forall|i: int|
            from <= i < mount.files@.len() ==> sound_file(
                #[trigger] mount.files@[i],
                safe_forms,
            )),
    decreases mount.files@.len() - from,
{
    if from < mount.files@.len() {
        lemma_files(mount, safe_forms, from + 1);
        assert(mount.files@[from] == mount.files@[from]);
    }
}

proof fn lemma_mounts(
    mounts: Seq<MountDefinition>,
    existing: Seq<String>,
    safe_forms: Seq<SafeForm>,
    from: int,
)
    requires
        0 <= from <= mounts.len(),
    ensures
        mounts_problem(mounts, existing, safe_forms, from) is None == (forall|i: int|
            from <= i < mounts.len() ==> sound_mount(
                #[trigger] mounts[i],
                existing,
                safe_forms,
            )),
    decreases mounts.len() - from,
{
    if from < mounts.len() {
        lemma_mounts(mounts, existing, safe_forms, from + 1);
        lemma_shares(mounts[from], existing, 0);
        lemma_files(mounts[from], safe_forms, 0);
        assert(sound_mount(mounts[from], existing, safe_forms) == (mount_problem(
            mounts[from],
            existing,
            safe_forms,
        ) is None));
    }
}

/// The declarations in a folder are exactly its files whose names end in `.toml`.
pub proof fn law_declarations_are_files_that_end_in_toml(
    entries: Seq<FolderEntry>,
    wanted: FolderEntry,
)
    ensures
        definitions(entries).contains(wanted) == exists|i: int|
            0 <= i < entries.len() && #[trigger] entries[i] == wanted && wanted.kind == EntryKind::File && ".toml"@.is_suffix_of(
                wanted.name@,
            ),
    decreases entries.len(),
{
    if entries.len() > 0 {
        let rest = entries.drop_last();
        law_declarations_are_files_that_end_in_toml(rest, wanted);
        let all = definitions(entries);
        let before = definitions(rest);
        if all.len() > before.len() {
            lemma_push_contains(before, all.last(), wanted);
            assert(all =~= before.push(all.last()));
        }
        if before.contains(wanted) {
            let i = choose|i: int| 0 <= i < rest.len() && #[trigger] rest[i] == wanted && wanted.kind == EntryKind::File && ".toml"@.is_suffix_of(
                wanted.name@,
            );
            assert(entries[i] == rest[i]);
        }
        assert(entries[entries.len() - 1] == entries.last());
        if exists|i: int| 0 <= i < entries.len() && #[trigger] entries[i] == wanted && wanted.kind == EntryKind::File && ".toml"@.is_suffix_of(
                wanted.name@,
            ) {
            let i = choose|i: int| 0 <= i < entries.len() && #[trigger] entries[i] == wanted && wanted.kind == EntryKind::File && ".toml"@.is_suffix_of(
                wanted.name@,
            );
            if i < rest.len() {
                assert(entries[i] == rest[i]);
            }
        }
    }
}

/// Declarations and file names are found in order: of two lists one after the other, what comes of
/// the first comes first. The names of one mount's files are theirs, trimmed, at their places.
pub proof fn law_declarations_are_found_in_order(
    entries: Seq<FolderEntry>,
    more_entries: Seq<FolderEntry>,
    mounts: Seq<MountDefinition>,
    more_mounts: Seq<MountDefinition>,
    mount: MountDefinition,
    i: int,
)
    ensures
        definitions(entries + more_entries) == definitions(entries) + definitions(more_entries),
        all_file_names(mounts + more_mounts) == all_file_names(mounts) + all_file_names(
            more_mounts,
        ),
        all_file_names(seq![mount]).len() == mount.files@.len(),
        0 <= i < mount.files@.len() ==> all_file_names(seq![mount])[i] == trimmed(
            mount.files@[i].name@,
        ),
    decreases more_entries.len() + more_mounts.len(),
{
    reveal_with_fuel(all_file_names, 2);
    assert(seq![mount].drop_last() =~= Seq::<MountDefinition>::empty());
    if more_entries.len() > 0 {
        let rest = more_entries.drop_last();
        law_declarations_are_found_in_order(entries, rest, mounts, more_mounts, mount, i);
        assert((entries + more_entries).drop_last() =~= entries + rest);
        assert((entries + more_entries).last() == more_entries.last());
    } else {
        assert(entries + more_entries =~= entries);
        assert(definitions(entries) + definitions(more_entries) =~= definitions(entries));
    }
    if more_mounts.len() > 0 {
        let rest = more_mounts.drop_last();
        law_declarations_are_found_in_order(entries, more_entries, mounts, rest, mount, i);
        assert((mounts + more_mounts).drop_last() =~= mounts + rest);
        assert((mounts + more_mounts).last() == more_mounts.last());
        assert(all_file_names(mounts + more_mounts) =~= all_file_names(mounts) + all_file_names(
            more_mounts,
        ));
    } else {
        assert(mounts + more_mounts =~= mounts);
        assert(all_file_names(mounts) + all_file_names(more_mounts) =~= all_file_names(mounts));
    }
}

/// The first entry for a name says what its safe form is.
pub proof fn law_the_first_safe_form_counts(forms: Seq<SafeForm>, name: Seq<char>, i: int)
    requires
        0 <= i < forms.len(),
        forall|j: int| 0 <= j < i ==> (#[trigger] forms[j]).name@ != name,
    ensures
        forms[i].name@ == name ==> safe_form(forms, name) == Some(forms[i].safe@),
        i == forms.len() - 1 && forms[i].name@ != name ==> safe_form(forms, name) is None,
        forms[i].name@ == name ==> is_safe(forms, name) == (forms[i].safe@ == name),
    decreases i,
{
    if i > 0 {
        assert(forms[0].name@ != name);
        let rest = forms.skip(1);
        assert forall|j: int| 0 <= j < i - 1 implies (#[trigger] rest[j]).name@ != name by {
            assert(rest[j] == forms[j + 1]);
        }
        assert(rest[i - 1] == forms[i]);
        law_the_first_safe_form_counts(rest, name, i - 1);
    } else {
        reveal_with_fuel(safe_form, 2);
    }
}

/// A text is cut at the first place where the character stands, and not at all where it does not
/// stand anywhere.
pub proof fn law_texts_are_cut_at_the_first_place(before: Seq<char>, c: char, after: Seq<char>)
    requires
        !before.contains(c),
    ensures
        cut(before + seq![c] + after, c) == Some((before, after)),
        cut(before, c) is None,
{
    lemma_cut(before, c, after);
    lemma_no_cut(before, c);
}

/// The parts of an image's name are told apart by the first `/` and the first `:` behind it, and
/// trimmed but for the version; a name that is blank is none.
pub proof fn law_image_names_have_three_parts(
    namespace: Seq<char>,
    name: Seq<char>,
    version: Seq<char>,
)
    requires
        !namespace.contains('/'),
        !name.contains(':'),
    ensures
        image_read(namespace + seq!['/'] + (name + seq![':'] + version)) == (if trimmed(name).len()
            == 0 {
            ImageReading::BlankName
        } else {
            ImageReading::Image { namespace: trimmed(namespace), name: trimmed(name), version }
        }),
        image_read(namespace + seq!['/'] + name) is Malformed,
{
    lemma_cut(namespace, '/', name + seq![':'] + version);
    lemma_cut(name, ':', version);
    lemma_cut(namespace, '/', name);
    lemma_no_cut(name, ':');
}

/// Where there is no `/` there is no namespace.
pub proof fn law_namespaces_may_be_left_out(name: Seq<char>, version: Seq<char>)
    requires
        !name.contains(':'),
        !(name + seq![':'] + version).contains('/'),
    ensures
        image_read(name + seq![':'] + version) == (if trimmed(name).len() == 0 {
            ImageReading::BlankName
        } else {
            ImageReading::Image { namespace: Seq::empty(), name: trimmed(name), version }
        }),
        image_read(name) is Malformed,
{
    lemma_no_cut(name + seq![':'] + version, '/');
    lemma_cut(name, ':', version);
    assert(!name.contains('/')) by {
        if name.contains('/') {
            let i = choose|i: int| 0 <= i < name.len() && name[i] == '/';
            assert((name + seq![':'] + version)[i] == '/');
        }
    }
    lemma_no_cut(name, '/');
    lemma_no_cut(name, ':');
    assert(trimmed(Seq::<char>::empty()) =~= Seq::<char>::empty());
}

proof fn lemma_dependency_at(
    dependencies: Seq<String>,
    existing: Seq<String>,
    from: int,
) -> (at: int)
    requires
        0 <= from <= dependencies.len(),
        dependency_problem(dependencies, existing, from) is Some,
    ensures
        from <= at < dependencies.len(),
        !lists(existing, dependencies[at]@),
        forall|j: int| from <= j < at ==> lists(existing, (#[trigger] dependencies[j])@),
        dependency_problem(dependencies, existing, from) == Some(
            Problem::UnknownDependency(dependencies[at]@),
        ),
    decreases dependencies.len() - from,
{
    if !lists(existing, dependencies[from]@) {
        from
    } else {
        lemma_dependency_at(dependencies, existing, from + 1)
    }
}

proof fn lemma_variable_at(variables: Seq<EnvironmentVariable>, from: int) -> (at: int)
    requires
        0 <= from <= variables.len(),
        variables_problem(variables, from) is Some,
    ensures
        from <= at < variables.len(),
        variable_problem(variables[at].name@) is Some,
        forall|j: int|
            from <= j < at ==> variable_problem((#[trigger] variables[j]).name@) is None,
        variables_problem(variables, from) == variable_problem(variables[at].name@),
    decreases variables.len() - from,
{
    if variable_problem(variables[from].name@) is Some {
        from
    } else {
        lemma_variable_at(variables, from + 1)
    }
}

proof fn lemma_share_at(mount: MountDefinition, existing: Seq<String>, from: int) -> (at: int)
    requires
        0 <= from <= mount.shared_with@.len(),
        shares_problem(mount, existing, from) is Some,
    ensures
        from <= at < mount.shared_with@.len(),
        !lists(existing, mount.shared_with@[at].application_display_name@),
        forall|j: int|
            from <= j < at ==> lists(
                existing,
                (#[trigger] mount.shared_with@[j]).application_display_name@,
            ),
        shares_problem(mount, existing, from) == Some(
            Problem::UnknownDependencyInShare {
                mount_name: mount.name@,
                dependency: mount.shared_with@[at].application_display_name@,
            },
        ),
    decreases mount.shared_with@.len() - from,
{
    if !lists(existing, mount.shared_with@[from].application_display_name@) {
        from
    } else {
        lemma_share_at(mount, existing, from + 1)
    }
}

proof fn lemma_file_at(mount: MountDefinition, safe_forms: Seq<SafeForm>, from: int) -> (at: int)
    requires
        0 <= from <= mount.files@.len(),
        files_problem(mount, safe_forms, from) is Some,
    ensures
        from <= at < mount.files@.len(),
        forall|j: int|
            from <= j < at ==> file_problem(
                mount.name@,
                (#[trigger] mount.files@[j]).name@,
                safe_forms,
            ) is None,
        files_problem(mount, safe_forms, from) == file_problem(
            mount.name@,
            mount.files@[at].name@,
            safe_forms,
        ),
    decreases mount.files@.len() - from,
{
    if file_problem(mount.name@, mount.files@[from].name@, safe_forms) is Some {
        from
    } else {
        lemma_file_at(mount, safe_forms, from + 1)
    }
}

proof fn lemma_mount_at(
    mounts: Seq<MountDefinition>,
    existing: Seq<String>,
    safe_forms: Seq<SafeForm>,
    from: int,
) -> (at: int)
    requires
        0 <= from <= mounts.len(),
        mounts_problem(mounts, existing, safe_forms, from) is Some,
    ensures
        from <= at < mounts.len(),
        forall|j: int|
            from <= j < at ==> mount_problem(
                #[trigger] mounts[j],
                existing,
                safe_forms,
            ) is None,
        mounts_problem(mounts, existing, safe_forms, from) == mount_problem(
            mounts[at],
            existing,
            safe_forms,
        ),
    decreases mounts.len() - from,
{
    if mount_problem(mounts[from], existing, safe_forms) is Some {
        from
    } else {
        lemma_mount_at(mounts, existing, safe_forms, from + 1)
    }
}

/// A dependency is reported exactly where the application has a name, and it is the first of the
/// dependencies that does not exist.
pub proof fn law_the_first_unknown_dependency_is_reported(
    definition: ApplicationDefinition,
    existing: Seq<String>,
    safe_forms: Seq<SafeForm>,
    i: int,
)
    requires
        0 <= i < definition.dependencies@.len(),
        forall|j: int| 0 <= j < i ==> lists(existing, (#[trigger] definition.dependencies@[j])@),
        !lists(existing, definition.dependencies@[i]@),
    ensures
        definition.display_name@.len() == 0 ==> problem_of(definition, existing, safe_forms)
            == Some(Problem::NameCannotBeEmpty),
        definition.display_name@.len() > 0 ==> problem_of(definition, existing, safe_forms) == Some(
            Problem::UnknownDependency(definition.dependencies@[i]@),
        ),
{
    lemma_dependencies(definition.dependencies@, existing, 0);
    assert(definition.dependencies@[i] == definition.dependencies@[i]);
    let at = lemma_dependency_at(definition.dependencies@, existing, 0);
    if at < i {
        assert(lists(existing, definition.dependencies@[at]@));
    }
}

/// Once the name and the dependencies are in order, the first variable whose name is blank or holds
/// a `=` is reported.
pub proof fn law_the_first_bad_variable_is_reported(
    definition: ApplicationDefinition,
    existing: Seq<String>,
    safe_forms: Seq<SafeForm>,
    i: int,
)
    requires
        definition.display_name@.len() > 0,
        forall|j: int|
            0 <= j < definition.dependencies@.len() ==> lists(
                existing,
                (#[trigger] definition.dependencies@[j])@,
            ),
        0 <= i < definition.environment_variables@.len(),
        forall|j: int|
            0 <= j < i ==> trimmed((#[trigger] definition.environment_variables@[j]).name@).len()
                > 0 && !trimmed(definition.environment_variables@[j].name@).contains('='),
    ensures
        ({
            let name = trimmed(definition.environment_variables@[i].name@);
            &&& name.len() == 0 ==> problem_of(definition, existing, safe_forms) == Some(
                Problem::EnvironmentVariableNameCannotBeEmpty,
            )
            &&& name.len() > 0 && name.contains('=') ==> problem_of(
                definition,
                existing,
                safe_forms,
            ) == Some(Problem::InvalidEnvironmentVariableName(name))
        }),
{
    let variables = definition.environment_variables@;
    let name = trimmed(variables[i].name@);
    lemma_dependencies(definition.dependencies@, existing, 0);
    if name.len() == 0 || name.contains('=') {
        lemma_variables(variables, 0);
        assert(!sound_variable(variables[i]));
        let at = lemma_variable_at(variables, 0);
        if at < i {
            assert(sound_variable(variables[at]));
        } else if at > i {
            assert(variable_problem(variables[i].name@) is None);
        }
    }
}

/// Once all before it is in order, the first mount that is shared with somebody who does not exist,
/// or that holds a file whose name is blank or not safe, is reported, and in it the first of these:
/// those whom it is shared with come before its files.
pub proof fn law_the_first_bad_mount_is_reported(
    definition: ApplicationDefinition,
    existing: Seq<String>,
    safe_forms: Seq<SafeForm>,
    m: int,
    i: int,
)
    requires
        definition.display_name@.len() > 0,
        forall|j: int|
            0 <= j < definition.dependencies@.len() ==> lists(
                existing,
                (#[trigger] definition.dependencies@[j])@,
            ),
        forall|j: int|
            0 <= j < definition.environment_variables@.len() ==> trimmed(
                (#[trigger] definition.environment_variables@[j]).name@,
            ).len() > 0 && !trimmed(definition.environment_variables@[j].name@).contains('='),
        0 <= m < definition.mounts@.len(),
        forall|j: int|
            0 <= j < m ==> sound_mount(#[trigger] definition.mounts@[j], existing, safe_forms),
    ensures
        ({
            let mount = definition.mounts@[m];
            let problem = problem_of(definition, existing, safe_forms);
            &&& (0 <= i < mount.shared_with@.len() && !lists(
                existing,
                mount.shared_with@[i].application_display_name@,
            ) && forall|j: int|
                0 <= j < i ==> lists(
                    existing,
                    (#[trigger] mount.shared_with@[j]).application_display_name@,
                )) ==> problem == Some(
                Problem::UnknownDependencyInShare {
                    mount_name: mount.name@,
                    dependency: mount.shared_with@[i].application_display_name@,
                },
            )
            &&& (0 <= i < mount.files@.len() && (forall|j: int|
                0 <= j < mount.shared_with@.len() ==> lists(
                    existing,
                    (#[trigger] mount.shared_with@[j]).application_display_name@,
                )) && (forall|j: int|
                0 <= j < i ==> sound_file(#[trigger] mount.files@[j], safe_forms))) ==> {
                let name = trimmed(mount.files@[i].name@);
                &&& name.len() == 0 ==> problem == Some(
                    Problem::FileNameCannotBeEmpty { mount_name: mount.name@ },
                )
                &&& name.len() > 0 && safe_form(safe_forms, name) != Some(name) ==> problem == Some(
                    Problem::UnsafeFileName { mount_name: mount.name@, file_name: name },
                )
            }
        }),
{
    let mounts = definition.mounts@;
    let mount = mounts[m];
    lemma_dependencies(definition.dependencies@, existing, 0);
    assert forall|j: int| 0 <= j < definition.environment_variables@.len() implies sound_variable(
        #[trigger] definition.environment_variables@[j],
    ) by {}
    lemma_variables(definition.environment_variables@, 0);
    lemma_mounts(mounts, existing, safe_forms, 0);
    lemma_shares(mount, existing, 0);
    lemma_files(mount, safe_forms, 0);
    if mounts_problem(mounts, existing, safe_forms, 0) is Some {
        let at = lemma_mount_at(mounts, existing, safe_forms, 0);
        lemma_shares(mounts[at], existing, 0);
        lemma_files(mounts[at], safe_forms, 0);
        if at < m {
            assert(sound_mount(mounts[at], existing, safe_forms));
        } else if at > m {
            assert(mount_problem(mounts[m], existing, safe_forms) is None);
        }
    } else {
        assert(sound_mount(mount, existing, safe_forms));
    }
    if shares_problem(mount, existing, 0) is Some {
        let k = lemma_share_at(mount, existing, 0);
        if 0 <= i < mount.shared_with@.len() {
            assert(mount.shared_with@[i] == mount.shared_with@[i]);
            assert(mount.shared_with@[k] == mount.shared_with@[k]);
        }
    } else if files_problem(mount, safe_forms, 0) is Some {
        let k = lemma_file_at(mount, safe_forms, 0);
        if 0 <= i < mount.files@.len() {
            assert(mount.files@[i] == mount.files@[i]);
            assert(mount.files@[k] == mount.files@[k]);
            if k < i {
                assert(!sound_file(mount.files@[k], safe_forms));
            }
        }
    }
}

/// A declaration that is accepted has a name, names only those that exist, and holds no variable
/// and no file with a name that is blank, and none with one that is not allowed.
pub proof fn law_accepted_declarations_have_no_fault(
    definition: ApplicationDefinition,
    existing: Seq<String>,
    safe_forms: Seq<SafeForm>,
    i: int,
    k: int,
)
    requires
        problem_of(definition, existing, safe_forms) is None,
    ensures
        definition.display_name@.len() > 0,
        0 <= i < definition.dependencies@.len() ==> lists(existing, definition.dependencies@[i]@),
        0 <= i < definition.environment_variables@.len() ==> trimmed(
            definition.environment_variables@[i].name@,
        ).len() > 0 && !trimmed(definition.environment_variables@[i].name@).contains('='),
        0 <= i < definition.mounts@.len() && 0 <= k < definition.mounts@[i].shared_with@.len()
            ==> lists(existing, definition.mounts@[i].shared_with@[k].application_display_name@),
        0 <= i < definition.mounts@.len() && 0 <= k < definition.mounts@[i].files@.len() ==> trimmed(
            definition.mounts@[i].files@[k].name@,
        ).len() > 0 && safe_form(safe_forms, trimmed(definition.mounts@[i].files@[k].name@))
            == Some(trimmed(definition.mounts@[i].files@[k].name@)),
{
    law_only_sound_declarations_are_accepted(definition, existing, safe_forms);
    if 0 <= i < definition.environment_variables@.len() {
        assert(sound_variable(definition.environment_variables@[i]));
    }
    if 0 <= i < definition.mounts@.len() {
        assert(sound_mount(definition.mounts@[i], existing, safe_forms));
        if 0 <= k < definition.mounts@[i].files@.len() {
            assert(sound_file(definition.mounts@[i].files@[k], safe_forms));
        }
    }
}

} // verus!
