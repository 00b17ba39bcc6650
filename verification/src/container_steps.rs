//! Stopping and dropping containers, as steps of a plan.

use crate::names::{ContainerName, Name};
use crate::script::Instruction;
use crate::seedling::Version;
use crate::text::{cat2, cat3, cat4, decimal};
use vstd::prelude::*;

verus! {

/// What a step is about: a seedling or a container, and its version where it is known.
#[derive(Debug, PartialEq, Eq)]
pub struct Subject {
    pub noun: String,
    pub label: String,
}

/// The label of something with a name and perhaps a version.
pub open spec fn label_of(name: Seq<char>, version: Option<Version>) -> Seq<char> {
    match version {
        Some(version) => "'"@ + name + "' (v"@ + version.text() + ")"@,
        None => "'"@ + name + "'"@,
    }
}

impl Subject {
    /// A seedling.
    pub fn seedling(name: &Name, version: Option<Version>) -> (r: Self)
        ensures
            r.noun@ == "seedling"@,
            r.label@ == label_of(name@, version),
    {
        Self::new("seedling", name.as_str(), version)
    }

    /// A container.
    pub fn container(name: &ContainerName, version: Version) -> (r: Self)
        ensures
            r.noun@ == "container"@,
            r.label@ == label_of(name@, Some(version)),
    {
        Self::new("container", name.as_str(), Some(version))
    }

    fn new(noun: &str, name: &str, version: Option<Version>) -> (r: Self)
        ensures
            r.noun@ == noun@,
            r.label@ == label_of(name@, version),
    {
        let label: String = match version {
            Some(version) => {
                let mut s: String = cat4("'", name, "' (v", &version.to_text());
                s.append(")");
                s
            },
            None => cat3("'", name, "'"),
        };
        Subject { noun: noun.to_owned(), label }
    }

    /// The subject in words.
    pub open spec fn described(&self) -> Seq<char> {
        self.noun@ + " "@ + self.label@
    }

    /// The subject in words.
    pub fn describe(&self) -> (r: String)
        ensures
            r@ == self.described(),
    {
        cat3(&self.noun, " ", &self.label)
    }
}

/// What the container engine is told.
#[derive(Debug, PartialEq, Eq)]
pub enum ContainerAction<'a> {
    Start(&'a ContainerName),
    Stop(&'a ContainerName),
    Delete(&'a ContainerName),
}

/// The step that stops a container.
#[derive(Debug, PartialEq, Eq)]
pub struct StopContainerStep {
    pub subject: Subject,
    pub container: ContainerName,
}

impl StopContainerStep {
    /// The step that stops a container.
    pub fn new(subject: Subject, container: ContainerName) -> (r: Self)
        ensures
            r == (StopContainerStep { subject, container }),
    {
        StopContainerStep { subject, container }
    }

    /// What the step does, in words.
    pub fn describe(&self) -> (r: String)
        ensures
            r@ == "Stopping "@ + self.subject.described(),
    {
        cat2("Stopping ", &self.subject.describe())
    }

    /// The step's name.
    pub fn name(&self) -> (r: String)
        ensures
            r@ == "Stopping "@ + self.subject.noun@,
    {
        cat2("Stopping ", &self.subject.noun)
    }

    /// Stops the container; a container that cannot be stopped fails the step.
    pub fn run<'a>(&'a self) -> (r: Instruction<(), ContainerAction<'a>>)
        ensures
            r == Instruction::<(), ContainerAction<'a>>::Do(
                ContainerAction::Stop(&self.container),
            ),
    {
        Instruction::Do(ContainerAction::Stop(&self.container))
    }

    /// Starts the container again; that it is gone is as good.
    pub fn rollback<'a>(&'a self) -> (r: Instruction<(), ContainerAction<'a>>)
        ensures
            r == Instruction::<(), ContainerAction<'a>>::Settle(
                ContainerAction::Start(&self.container),
            ),
    {
        Instruction::Settle(ContainerAction::Start(&self.container))
    }
}

/// The step that drops a container.
#[derive(Debug, PartialEq, Eq)]
pub struct DropContainerStep {
    pub subject: Subject,
    pub container: ContainerName,
}

impl DropContainerStep {
    /// The step that drops a container.
    pub fn new(subject: Subject, container: ContainerName) -> (r: Self)
        ensures
            r == (DropContainerStep { subject, container }),
    {
        DropContainerStep { subject, container }
    }

    /// What the step does, in words.
    pub fn describe(&self) -> (r: String)
        ensures
            r@ == "Dropping "@ + self.subject.described(),
    {
        cat2("Dropping ", &self.subject.describe())
    }

    /// The step's name.
    pub fn name(&self) -> (r: String)
        ensures
            r@ == "Dropping "@ + self.subject.noun@,
    {
        cat2("Dropping ", &self.subject.noun)
    }

    /// Deletes the container; a container that cannot be deleted fails the step.
    pub fn run<'a>(&'a self) -> (r: Instruction<(), ContainerAction<'a>>)
        ensures
            r == Instruction::<(), ContainerAction<'a>>::Do(
                ContainerAction::Delete(&self.container),
            ),
    {
        Instruction::Do(ContainerAction::Delete(&self.container))
    }
}

/// A label has the name in quotes, and behind it the version where it is known.
pub proof fn law_labels_name_their_subject(name: Seq<char>, version: Option<Version>)
    ensures
        label_of(name, None) == seq!['\''] + name + seq!['\''],
        version matches Some(known) ==> label_of(name, version) == label_of(name, None) + " (v"@
            + decimal(known.0 as nat) + ")"@,
{
    reveal_strlit("'");
    reveal_strlit("' (v");
    reveal_strlit(" (v");
    reveal_strlit(")");
    assert(label_of(name, None) =~= seq!['\''] + name + seq!['\'']);
    if let Some(known) = version {
        assert(label_of(name, version) =~= label_of(name, None) + " (v"@ + decimal(known.0 as nat)
            + ")"@);
    }
}

} // verus!
