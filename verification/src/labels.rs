//! The labels by which douglas knows its containers again.

use crate::docker::Label;
pub use crate::seedling::Origin;
use crate::seedling::Version;
use crate::text::{parse_decimal, parsed_decimal, same_text};
use vstd::prelude::*;

verus! {

/// The label that holds the version of the declaration that a container was built from.
pub const VERSION_LABEL: &'static str = "douglas.version";

/// The label that says whom a container's seedling belongs to.
pub const ORIGIN_LABEL: &'static str = "douglas.origin";

/// Why a label could not be read.
#[derive(Debug, Clone, Copy, PartialEq, Eq, Structural)]
pub enum LabelError {
    MissingVersion,
}

impl LabelError {
    /// The error in words.
    pub open spec fn text(&self) -> Seq<char> {
        "Could not determine resource version"@
    }

    /// The error in words.
    pub fn describe(&self) -> (r: String)
        ensures
            r@ == self.text(),
    {
        "Could not determine resource version".to_owned()
    }
}

/// The value of the first label with this name.
pub open spec fn label_value(labels: Seq<Label>, name: Seq<char>) -> Option<Seq<char>>
    decreases labels.len(),
{
    if labels.len() == 0 {
        None
    } else if labels[0].name@ == name {
        Some(labels[0].value@)
    } else {
        label_value(labels.skip(1), name)
    }
}

/// The version that labels give a container.
pub open spec fn version_in(labels: Seq<Label>) -> Option<Version> {
    match label_value(labels, VERSION_LABEL@) {
        Some(value) => match parsed_decimal(value) {
            Some(number) => Some(Version(number)),
            None => None,
        },
        None => None,
    }
}

/// The value by which a label names an origin.
pub open spec fn origin_text(origin: Origin) -> Seq<char> {
    match origin {
        Origin::Core => "core"@,
        Origin::User => "user"@,
    }
}

/// The origin that labels give a container.
pub open spec fn origin_in(labels: Seq<Label>) -> Option<Origin> {
    match label_value(labels, ORIGIN_LABEL@) {
        Some(value) => if value == origin_text(Origin::Core) {
            Some(Origin::Core)
        } else if value == origin_text(Origin::User) {
            Some(Origin::User)
        } else {
            None
        },
        None => None,
    }
}

fn find_label<'a>(labels: &'a Vec<Label>, name: &str) -> (r: Option<&'a Label>)
    ensures
        match r {
            Some(label) => label_value(labels@, name@) == Some(label.value@),
            None => label_value(labels@, name@) is None,
        },
{
    let mut i: usize = 0;
    assert(labels@.skip(0) =~= labels@);
    while i < labels.len()
        invariant
            i <= labels@.len(),
            label_value(labels@, name@) == label_value(labels@.skip(i as int), name@),
        decreases labels@.len() - i,
    {
        assert(labels@.skip(i as int)[0] == labels@[i as int]);
        assert(labels@.skip(i as int).skip(1) =~= labels@.skip(i as int + 1));
        if same_text(&labels[i].name, name) {
            return Some(&labels[i]);
        }
        i += 1;
    }
    None
}

/// The version of the declaration that a container was built from.
pub fn get_version(labels: &Vec<Label>) -> (r: Result<Version, LabelError>)
    ensures
        r == (match version_in(labels@) {
            Some(version) => Ok::<Version, LabelError>(version),
            None => Err(LabelError::MissingVersion),
        }),
{
    match find_label(labels, VERSION_LABEL) {
        Some(label) => match parse_decimal(&label.value) {
            Some(number) => Ok(Version(number)),
            None => Err(LabelError::MissingVersion),
        },
        None => Err(LabelError::MissingVersion),
    }
}

/// The label for a version.
pub fn create_version_label(version: Version) -> (r: Label)
    ensures
        r.name@ == VERSION_LABEL@,
        r.value@ == version.text(),
{
    Label { name: VERSION_LABEL.to_owned(), value: version.to_text() }
}

/// Whom a container's seedling belongs to, where its labels say so.
pub fn get_origin(labels: &Vec<Label>) -> (r: Option<Origin>)
    ensures
        r == origin_in(labels@),
{
    match find_label(labels, ORIGIN_LABEL) {
        Some(label) => {
            if same_text(&label.value, "core") {
                Some(Origin::Core)
            } else if same_text(&label.value, "user") {
                Some(Origin::User)
            } else {
                None
            }
        },
        None => None,
    }
}

/// The label for an origin.
pub fn create_origin_label(origin: Origin) -> (r: Label)
    ensures
        r.name@ == ORIGIN_LABEL@,
        r.value@ == origin_text(origin),
{
    match origin {
        Origin::Core => Label::new(ORIGIN_LABEL, "core"),
        Origin::User => Label::new(ORIGIN_LABEL, "user"),
    }
}

/// The two labels are told apart by their names.
proof fn lemma_label_names_differ()
    ensures
        VERSION_LABEL@ != ORIGIN_LABEL@,
{
    reveal_strlit("douglas.version");
    reveal_strlit("douglas.origin");
    assert(VERSION_LABEL@.len() != ORIGIN_LABEL@.len());
}

/// From the labels that a container was built with, its version and its origin can be read back.
pub proof fn law_labels_round_trip(labels: Seq<Label>, version: Version, origin: Origin)
    requires
        labels.len() == 2,
        labels[0].name@ == VERSION_LABEL@,
        labels[0].value@ == version.text(),
        labels[1].name@ == ORIGIN_LABEL@,
        labels[1].value@ == origin_text(origin),
    ensures
        version_in(labels) == Some(version),
        origin_in(labels) == Some(origin),
{
    reveal_with_fuel(label_value, 3);
    lemma_label_names_differ();
    crate::text::law_decimal_round_trip(version.0);
    assert(labels.skip(1)[0] == labels[1]);
    assert(origin_text(Origin::Core) != origin_text(Origin::User)) by {
        reveal_strlit("core");
        reveal_strlit("user");
        assert("core"@[0] != "user"@[0]);
    }
}

/// A label's value is that of the first label with the name; where there is none, there is none.
pub proof fn law_the_first_label_counts(labels: Seq<Label>, name: Seq<char>, i: int)
    requires
        0 <= i < labels.len(),
        forall|j: int| 0 <= j < i ==> (#[trigger] labels[j]).name@ != name,
    ensures
        labels[i].name@ == name ==> label_value(labels, name) == Some(labels[i].value@),
        i == labels.len() - 1 && labels[i].name@ != name ==> label_value(labels, name) is None,
    decreases i,
{
    if i > 0 {
        assert(labels[0].name@ != name);
        let rest = labels.skip(1);
        assert forall|j: int| 0 <= j < i - 1 implies (#[trigger] rest[j]).name@ != name by {
            assert(rest[j] == labels[j + 1]);
        }
        assert(rest[i - 1] == labels[i]);
        law_the_first_label_counts(rest, name, i - 1);
    } else {
        reveal_with_fuel(label_value, 2);
    }
}

/// A container's version and origin are those of its two labels: a version that is no number, and
/// an origin that is neither of the two, count as none.
pub proof fn law_versions_and_origins_are_read_from_labels(labels: Seq<Label>)
    ensures
        version_in(labels) == (match label_value(labels, "douglas.version"@) {
            Some(value) => match parsed_decimal(value) {
                Some(number) => Some(Version(number)),
                None => None,
            },
            None => None,
        }),
        origin_in(labels) == Some(Origin::Core) <==> label_value(labels, "douglas.origin"@) == Some(
            "core"@,
        ),
        origin_in(labels) == Some(Origin::User) <==> label_value(labels, "douglas.origin"@) == Some(
            "user"@,
        ),
{
    reveal_strlit("core");
    reveal_strlit("user");
    assert("core"@[0] != "user"@[0]);
    if let Some(value) = label_value(labels, "douglas.origin"@) {
        assert(label_value(labels, "douglas.origin"@) == Some(value));
    }
}

} // verus!
