//! Scripts: actions that are carried out one after another, with a rule for each on what its
//! failure means.

use vstd::prelude::*;

verus! {

/// One line of a script.
#[derive(Debug, PartialEq, Eq)]
pub enum Instruction<Q, A> {
    /// Act; a failure ends the script.
    Do(A),
    /// Act, whatever comes of it.
    Attempt(A),
    /// Act; that there is nothing to act on is as good as done, any other failure ends the script.
    Settle(A),
    /// Ask, and act only where the answer is no; a failure ends the script.
    Unless { question: Q, action: A },
}

/// What came of an action.
#[derive(Debug, PartialEq, Eq)]
pub enum Outcome<E> {
    Done,
    /// There was nothing to act on.
    Missing(E),
    Failed(E),
}

/// How far a script has come: the line it is at, and whether that line's question was answered.
#[derive(Debug, Clone, Copy, PartialEq, Eq, Structural)]
pub struct Position {
    pub line: usize,
    pub answered: bool,
}

/// What a script wants next.
#[derive(Debug, PartialEq, Eq)]
pub enum Demand<'s, Q, A> {
    Ask(&'s Q),
    Act(&'s A),
    Finished,
}

/// What a script wants at a position.
pub open spec fn demanded<'s, Q, A>(
    script: &'s Vec<Instruction<Q, A>>,
    at: Position,
) -> Demand<'s, Q, A> {
    if at.line >= script@.len() {
        Demand::Finished
    } else {
        match script@[at.line as int] {
            Instruction::Do(action) => Demand::Act(&action),
            Instruction::Attempt(action) => Demand::Act(&action),
            Instruction::Settle(action) => Demand::Act(&action),
            Instruction::Unless { question, action } => if at.answered {
                Demand::Act(&action)
            } else {
                Demand::Ask(&question)
            },
        }
    }
}

/// The error with which a script ends because of what came of a line's action, if it does.
pub open spec fn ends_with<Q, A, E>(line: Instruction<Q, A>, outcome: Outcome<E>) -> Option<E> {
    match (line, outcome) {
        (_, Outcome::Done) => None,
        (Instruction::Attempt(_), _) => None,
        (Instruction::Settle(_), Outcome::Missing(_)) => None,
        (_, Outcome::Missing(error)) => Some(error),
        (_, Outcome::Failed(error)) => Some(error),
    }
}

/// Where a script begins.
pub fn start() -> (r: Position)
    ensures
        r == (Position { line: 0, answered: false }),
{
    Position { line: 0, answered: false }
}

/// What a script wants at a position.
pub fn demand<'s, Q, A>(script: &'s Vec<Instruction<Q, A>>, at: Position) -> (r: Demand<'s, Q, A>)
    ensures
        r == demanded(script, at),
{
    if at.line >= script.len() {
        return Demand::Finished;
    }
    match &script[at.line] {
        Instruction::Do(action) => Demand::Act(action),
        Instruction::Attempt(action) => Demand::Act(action),
        Instruction::Settle(action) => Demand::Act(action),
        Instruction::Unless { question, action } => {
            if at.answered {
                Demand::Act(action)
            } else {
                Demand::Ask(question)
            }
        },
    }
}

/// Goes on after a question was answered: to its action where the answer is no, else past it.
pub fn after_answer<Q, A>(script: &Vec<Instruction<Q, A>>, at: Position, yes: bool) -> (r: Position)
    requires
        demanded(script, at) is Ask,
    ensures
        r == (if yes {
            Position { line: (at.line + 1) as usize, answered: false }
        } else {
            Position { line: at.line, answered: true }
        }),
{
    let lines: usize = script.len();
    assert(at.line < lines);
    if yes {
        Position { line: at.line + 1, answered: false }
    } else {
        Position { line: at.line, answered: true }
    }
}

/// Goes on after an action, or ends the script with its error.
pub fn after_action<Q, A, E>(
    script: &Vec<Instruction<Q, A>>,
    at: Position,
    outcome: Outcome<E>,
) -> (r: Result<Position, E>)
    requires
        demanded(script, at) is Act,
    ensures
        r == (match ends_with(script@[at.line as int], outcome) {
            Some(error) => Err::<Position, E>(error),
            None => Ok(Position { line: (at.line + 1) as usize, answered: false }),
        }),
{
    let lines: usize = script.len();
    assert(at.line < lines);
    let next: Position = Position { line: at.line + 1, answered: false };
    match outcome {
        Outcome::Done => Ok(next),
        Outcome::Missing(error) => match &script[at.line] {
            Instruction::Attempt(_) => Ok(next),
            Instruction::Settle(_) => Ok(next),
            Instruction::Do(_) => Err(error),
            Instruction::Unless { .. } => Err(error),
        },
        Outcome::Failed(error) => match &script[at.line] {
            Instruction::Attempt(_) => Ok(next),
            Instruction::Settle(_) => Err(error),
            Instruction::Do(_) => Err(error),
            Instruction::Unless { .. } => Err(error),
        },
    }
}

/// Where nothing fails, no script ends early.
pub proof fn law_success_never_ends_a_script<Q, A, E>(line: Instruction<Q, A>)
    ensures
        ends_with::<Q, A, E>(line, Outcome::Done) is None,
{
}

/// An attempt never ends a script, and neither does a line that settles something that is not
/// there.
pub proof fn law_what_never_ends_a_script<Q, A, E>(action: A, error: E, outcome: Outcome<E>)
    ensures
        ends_with::<Q, A, E>(Instruction::Attempt(action), outcome) is None,
        ends_with::<Q, A, E>(Instruction::Settle(action), Outcome::Missing(error)) is None,
{
}

/// Whether the action of a line is asked about first.
pub open spec fn is_guarded<Q, A>(line: Instruction<Q, A>) -> bool {
    line is Unless
}

/// A guarded action is never carried out before its question was answered with no.
pub proof fn law_guarded_actions_wait_for_the_answer<Q, A>(
    script: &Vec<Instruction<Q, A>>,
    at: Position,
)
    requires
        demanded(script, at) is Act,
        is_guarded(script@[at.line as int]),
    ensures
        at.answered,
{
}

/// A script is finished exactly behind its last line. A line asks exactly where it is guarded and
/// has no answer yet; else its own action is carried out.
pub proof fn law_scripts_go_line_by_line<Q, A>(script: &Vec<Instruction<Q, A>>, at: Position)
    ensures
        demanded(script, at) is Finished <==> at.line >= script@.len(),
        at.line < script@.len() ==> (match script@[at.line as int] {
            Instruction::Do(wanted) | Instruction::Attempt(wanted) | Instruction::Settle(wanted) => {
                demanded(script, at) matches Demand::Act(action) && *action == wanted
            },
            Instruction::Unless { question: asked, action: wanted } => {
                &&& at.answered ==> (demanded(script, at) matches Demand::Act(action) && *action
                    == wanted)
                &&& !at.answered ==> (demanded(script, at) matches Demand::Ask(question)
                    && *question == asked)
            },
        }),
{
}

/// A script ends with an error exactly where an action that is more than an attempt failed, or had
/// nothing to act on where that does not settle it; and the error is that of the action.
pub proof fn law_scripts_end_for_a_reason<Q, A, E>(line: Instruction<Q, A>, outcome: Outcome<E>)
    ensures
        match ends_with(line, outcome) {
            Some(error) => match outcome {
                Outcome::Done => false,
                Outcome::Missing(met) => error == met && (line is Do || line is Unless),
                Outcome::Failed(met) => error == met && !(line is Attempt),
            },
            None => outcome is Done || line is Attempt || (outcome is Missing && line is Settle),
        },
{
}

} // verus!
