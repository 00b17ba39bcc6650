//! Running a plan step by step, and undoing it where a step fails.

use crate::sequences::{lemma_join_contains, lemma_one_contains, lemma_push_contains};
use crate::text::{
    cat2, cat5, cat7, debug_texts, debug_texts_of, decimal, decimal_text, string_texts,
};
use vstd::prelude::*;

verus! {

/// What a step reports where it fails.
#[derive(Debug, PartialEq, Eq)]
pub struct CommandError {
    pub message: String,
}

/// One step of a plan.
///
/// A kind of step may say by `named`, `described`, `decides`, `runs` and `rolls_back` what it does;
/// its methods keep to that. One that says nothing may do anything.
pub trait Command<C>: Sized {
    /// Whether the step may go by this name.
    open spec fn named(&self, name: Seq<char>) -> bool {
        true
    }

    /// Whether the step may be put into these words.
    open spec fn described(&self, words: Seq<char>) -> bool {
        true
    }

    /// Whether the step may find that it has nothing to do, or that it has something to do.
    open spec fn decides(&self, context: C, skipped: bool) -> bool {
        true
    }

    /// Whether running the step can turn it and its context into `after_self` and `after`, with
    /// this outcome.
    open spec fn runs(
        &self,
        before: C,
        outcome: Result<(), CommandError>,
        after_self: Self,
        after: C,
    ) -> bool {
        true
    }

    /// Whether undoing the step can turn its context into `after`, with this outcome.
    open spec fn rolls_back(
        &self,
        before: C,
        outcome: Result<(), CommandError>,
        after: C,
    ) -> bool {
        true
    }

    /// The step's name.
    fn name(&self) -> (r: String)
        ensures
            self.named(r@),
    ;

    /// What the step is about to do, in words.
    fn describe(&self) -> (r: String)
        ensures
            self.described(r@),
    ;

    /// Does what the step is for.
    fn run(&mut self, context: &mut C) -> (r: Result<(), CommandError>)
        ensures
            old(self).runs(*old(context), r, *final(self), *final(context)),
    ;

    /// Undoes the step.
    fn rollback(&mut self, context: &mut C) -> (r: Result<(), CommandError>)
        ensures
            old(self).rolls_back(*old(context), r, *final(context)),
    ;

    /// Whether the step has nothing to do.
    fn skip(&self, context: &C) -> (r: bool)
        ensures
            self.decides(*context, r),
    ;
}

/// How a plan ended.
#[derive(Debug, PartialEq, Eq)]
pub enum ExecutionResult {
    Success,
    Failed {
        failed_at_step: usize,
        failed_at_step_name: String,
        perform_error: CommandError,
        rollback_errors: Vec<CommandError>,
    },
}

/// What a command came to.
#[derive(Debug, Clone, Copy, PartialEq, Eq, Structural)]
pub enum CommandResult {
    Done,
    Error,
    PlanOnly,
}

/// Runs the steps of a plan, and undoes them.
pub trait CommandExecutor<C, S: Command<C>> {
    /// Runs the steps in order.
    fn run(&mut self, context: &mut C, commands: Vec<S>) -> ExecutionResult;

    /// Undoes what was run.
    fn rollback(&mut self, context: &mut C) -> Vec<CommandError>;
}

/// Whether one step, skipped or run without failing, turns into `done`.
pub open spec fn step_performed<C, S: Command<C>>(command: S, done: S, before: C, after: C) -> bool {
    ||| command.decides(before, true) && done == command && after == before
    ||| command.decides(before, false) && command.runs(before, Ok(()), done, after)
}

/// Whether performing the steps in order, each skipped or run without failing, leads from
/// `before` to `after` and leaves the steps as `done`.
pub open spec fn performed<C, S: Command<C>>(
    commands: Seq<S>,
    done: Seq<S>,
    before: C,
    after: C,
) -> bool
    decreases commands.len(),
{
    if commands.len() == 0 {
        done.len() == 0 && before == after
    } else {
        done.len() == commands.len() && exists|mid: C|
            performed(commands.drop_last(), done.drop_last(), before, mid)
                && #[trigger] step_performed(commands.last(), done.last(), mid, after)
    }
}

/// Whether undoing one step leads from `before` to `after`, adding its error, if any, to those
/// collected before it.
pub open spec fn step_undone<C, S: Command<C>>(
    step: S,
    errors_before: Seq<CommandError>,
    errors_after: Seq<CommandError>,
    before: C,
    after: C,
) -> bool {
    exists|outcome: Result<(), CommandError>| #[trigger]
        step.rolls_back(before, outcome, after) && errors_after == match outcome {
            Ok(_) => errors_before,
            Err(error) => errors_before.push(error),
        }
}

/// Whether undoing the steps, the last one first, leads from `before` to `after` and meets these
/// errors in this order.
pub open spec fn undone<C, S: Command<C>>(
    journal: Seq<S>,
    errors: Seq<CommandError>,
    before: C,
    after: C,
) -> bool
    decreases journal.len(),
{
    if journal.len() == 0 {
        errors.len() == 0 && before == after
    } else {
        exists|mid: C, rest: Seq<CommandError>|
            undone(journal.drop_first(), rest, before, mid)
                && #[trigger] step_undone(journal.first(), rest, errors, mid, after)
    }
}

/// Whether running the steps fails at step `at` with `error` after `done` was performed, and
/// undoing all of `journal` and `done` then leads to `after`.
pub open spec fn failed<C, S: Command<C>>(
    journal: Seq<S>,
    commands: Seq<S>,
    done: Seq<S>,
    at: int,
    error: CommandError,
    rollback_errors: Seq<CommandError>,
    before: C,
    after: C,
) -> bool {
    &&& 0 <= at < commands.len()
    &&& exists|mid: C, broken: C, rest: S|
        {
            &&& #[trigger] performed(commands.take(at), done, before, mid)
            &&& commands[at].decides(mid, false)
            &&& #[trigger] commands[at].runs(mid, Err(error), rest, broken)
            &&& undone(journal + done, rollback_errors, broken, after)
        }
}

/// Remembers the steps that it performed, so that it can undo them.
pub struct JournalingExecutor<S> {
    journal: Vec<S>,
}

impl<S> View for JournalingExecutor<S> {
    type V = Seq<S>;

    /// The steps performed and not undone, oldest first.
    closed spec fn view(&self) -> Seq<S> {
        self.journal@
    }
}

impl<S> JournalingExecutor<S> {
    /// An executor that has performed nothing yet.
    pub fn new() -> (r: Self)
        ensures
            r@ == Seq::<S>::empty(),
    {
        JournalingExecutor { journal: Vec::new() }
    }
}

impl<S> Default for JournalingExecutor<S> {
    fn default() -> (r: Self)
        ensures
            r@ == Seq::<S>::empty(),
    {
        Self::new()
    }
}

impl<C, S: Command<C>> CommandExecutor<C, S> for JournalingExecutor<S> {
    /// Performs the steps in order. Where one fails, undoes everything in the journal, the last
    /// step first, and says which step it was; the failing step itself is not undone.
    fn run(&mut self, context: &mut C, commands: Vec<S>) -> (r: ExecutionResult)
        ensures
            r is Success ==> exists|done: Seq<S>|
                {
                    &&& #[trigger] performed(commands@, done, *old(context), *final(context))
                    &&& final(self)@ == old(self)@ + done
                },
            r is Failed ==> exists|done: Seq<S>| #[trigger]
                failed(
                    old(self)@,
                    commands@,
                    done,
                    r->failed_at_step as int,
                    r->perform_error,
                    r->rollback_errors@,
                    *old(context),
                    *final(context),
                ),
            r is Failed ==> commands@[r->failed_at_step as int].named(r->failed_at_step_name@),
            r is Failed ==> final(self)@.len() == 0,
    {
        let ghost start = *context;
        let ghost given = commands@;
        let ghost earlier = self@;
        let ghost mut done = Seq::<S>::empty();
        let total: usize = commands.len();
        let mut remaining: Vec<S> = commands;
        let mut step_index: usize = 0;
        assert(given.take(0) =~= Seq::<S>::empty());
        assert(self@ =~= earlier + done);
        assert(remaining@ =~= given.skip(0));
        while remaining.len() > 0
            invariant
                step_index <= given.len(),
                given.len() == total,
                given == commands@,
                start == *old(context),
                earlier == old(self)@,
                remaining@ == given.skip(step_index as int),
                performed(given.take(step_index as int), done, start, *context),
                self@ == earlier + done,
            decreases remaining@.len(),
        {
            let mut command: S = remaining.remove(0);
            let ghost taken = command;
            let ghost mid = *context;
            let ghost head = given.take(step_index as int);
            proof {
                assert(taken == given[step_index as int]);
                assert(remaining@ =~= given.skip(step_index as int + 1));
                assert(given.take(step_index as int + 1).drop_last() =~= head);
                assert(given.take(step_index as int + 1).last() == taken);
            }
            let step_name: String = command.name();
            let skipped: bool = command.skip(context);
            if !skipped {
                let outcome: Result<(), CommandError> = command.run(context);
                assert(taken.runs(mid, outcome, command, *context));
                match outcome {
                    Err(perform_error) => {
                        let ghost broken = *context;
                        proof {
                            assert(performed(head, done, start, mid));
                            assert(given[step_index as int].runs(
                                mid,
                                Err(perform_error),
                                command,
                                broken,
                            ));
                        }
                        let rollback_errors: Vec<CommandError> = self.rollback(context);
                        let ended: ExecutionResult = ExecutionResult::Failed {
                            failed_at_step: step_index,
                            failed_at_step_name: step_name,
                            perform_error,
                            rollback_errors,
                        };
                        assert(failed(
                            old(self)@,
                            commands@,
                            done,
                            ended->failed_at_step as int,
                            ended->perform_error,
                            ended->rollback_errors@,
                            *old(context),
                            *context,
                        ));
                        return ended;
                    },
                    Ok(nothing) => {
                        assert(nothing == ());
                    },
                }
            }
            proof {
                let longer = done.push(command);
                assert(longer.drop_last() =~= done);
                assert(step_performed(taken, command, mid, *context));
                assert(step_performed(
                    given.take(step_index as int + 1).last(),
                    longer.last(),
                    mid,
                    *context,
                ));
                assert(performed(given.take(step_index as int + 1), longer, start, *context));
                done = longer;
            }
            self.journal.push(command);
            assert(self@ =~= earlier + done);
            step_index += 1;
        }
        assert(given.take(step_index as int) =~= given);
        ExecutionResult::Success
    }

    /// Undoes every step in the journal, the last one first, and empties the journal. A step that
    /// cannot be undone does not keep the others from being undone.
    fn rollback(&mut self, context: &mut C) -> (r: Vec<CommandError>)
        ensures
            undone(old(self)@, r@, *old(context), *final(context)),
            final(self)@.len() == 0,
    {
        let ghost start = *context;
        let ghost journal = self@;
        let mut errors: Vec<CommandError> = Vec::new();
        assert(journal.skip(journal.len() as int) =~= Seq::<S>::empty());
        assert(self@ =~= journal.take(journal.len() as int));
        loop
            invariant
                self@.len() <= journal.len(),
                self@ == journal.take(self@.len() as int),
                undone(journal.skip(self@.len() as int), errors@, start, *context),
            ensures
                self@.len() == 0,
                undone(journal, errors@, start, *context),
            decreases self@.len(),
        {
            match self.journal.pop() {
                None => {
                    assert(journal.skip(0) =~= journal);
                    break;
                },
                Some(mut command) => {
                    let ghost mid = *context;
                    let ghost rest = errors@;
                    let ghost n = self@.len() as int;
                    proof {
                        assert(command == journal[n]);
                        assert(journal.skip(n).drop_first() =~= journal.skip(n + 1));
                        assert(journal.skip(n).first() == journal[n]);
                        assert(self@ =~= journal.take(n));
                    }
                    let ghost taken = command;
                    let outcome: Result<(), CommandError> = command.rollback(context);
                    let ghost known = outcome;
                    assert(taken.rolls_back(mid, known, *context));
                    if let Err(error) = outcome {
                        errors.push(error);
                    }
                    assert(step_undone(taken, rest, errors@, mid, *context));
                    assert(undone(journal.skip(n), errors@, start, *context));
                },
            }
        }
        errors
    }
}

/// Where the errors of the later steps come before those of `step`, they do so without it too.
proof fn lemma_errors_met_before<C, S: Command<C>>(
    step: S,
    earlier: Seq<CommandError>,
    rest: Seq<CommandError>,
    errors: Seq<CommandError>,
    before: C,
    after: C,
) -> (own: Seq<CommandError>)
    requires
        step_undone(step, earlier + rest, errors, before, after),
    ensures
        step_undone(step, rest, own, before, after),
        errors == earlier + own,
{
    let outcome = choose|outcome: Result<(), CommandError>| #[trigger]
        step.rolls_back(before, outcome, after) && errors == match outcome {
            Ok(_) => earlier + rest,
            Err(error) => (earlier + rest).push(error),
        };
    let own = match outcome {
        Ok(_) => rest,
        Err(error) => rest.push(error),
    };
    assert(errors =~= earlier + own);
    assert(step.rolls_back(before, outcome, after));
    own
}

/// Undoing begins with the step that was performed last, and goes on with all that was performed
/// before it, whether or not that step could be undone.
pub proof fn law_the_last_step_is_undone_first<C, S: Command<C>>(
    journal: Seq<S>,
    last: S,
    errors: Seq<CommandError>,
    before: C,
    after: C,
)
    requires
        undone(journal.push(last), errors, before, after),
    ensures
        exists|mid: C, first: Seq<CommandError>, rest: Seq<CommandError>|
            {
                &&& #[trigger] undone(seq![last], first, before, mid)
                &&& #[trigger] undone(journal, rest, mid, after)
                &&& errors == first + rest
            },
    decreases journal.len(),
{
    let whole = journal.push(last);
    if journal.len() == 0 {
        assert(whole =~= seq![last]);
        assert(undone(journal, Seq::empty(), after, after));
        assert(errors =~= errors + Seq::<CommandError>::empty());
        assert(undone(seq![last], errors, before, after));
    } else {
        let tail = journal.drop_first();
        assert(whole.drop_first() =~= tail.push(last));
        assert(whole.first() == journal.first());
        let (mid0, rest0): (C, Seq<CommandError>) = choose|mid0: C, rest0: Seq<CommandError>|
            undone(whole.drop_first(), rest0, before, mid0) && #[trigger] step_undone(
                whole.first(),
                rest0,
                errors,
                mid0,
                after,
            );
        law_the_last_step_is_undone_first(tail, last, rest0, before, mid0);
        let (mid, first, rest): (C, Seq<CommandError>, Seq<CommandError>) = choose|
            mid: C,
            first: Seq<CommandError>,
            rest: Seq<CommandError>,
        |
            {
                &&& #[trigger] undone(seq![last], first, before, mid)
                &&& #[trigger] undone(tail, rest, mid, mid0)
                &&& rest0 == first + rest
            };
        let own = lemma_errors_met_before(journal.first(), first, rest, errors, mid0, after);
        assert(step_undone(journal.first(), rest, own, mid0, after));
        assert(undone(journal, own, mid, after));
    }
}

/// The words in which the failure of a plan is passed on.
pub open spec fn failure_reason(step: nat, name: Seq<char>, error: Seq<char>) -> Seq<char> {
    "step "@ + decimal(step) + " ("@ + name + "): "@ + error
}

/// Turns the end of a plan into its result: nothing where it succeeded, else the reason.
pub fn outcome_of(result: ExecutionResult) -> (r: Result<(), String>)
    ensures
        match result {
            ExecutionResult::Success => r is Ok,
            ExecutionResult::Failed { failed_at_step, failed_at_step_name, perform_error, .. } => {
                r matches Err(reason) && reason@ == failure_reason(
                    failed_at_step as nat,
                    failed_at_step_name@,
                    perform_error.message@,
                )
            },
        },
{
    match result {
        ExecutionResult::Success => Ok(()),
        ExecutionResult::Failed { failed_at_step, failed_at_step_name, perform_error, .. } => {
            let step: String = decimal_text(failed_at_step as u64);
            let head: String = cat5("step ", &step, " (", &failed_at_step_name, "): ");
            let mut reason: String = head;
            reason.append(&perform_error.message);
            Err(reason)
        },
    }
}

/// The words in which it is warned of the failure of a step.
pub open spec fn step_warning(step: nat, name: Seq<char>, error: Seq<char>) -> Seq<char> {
    "Failed at step "@ + decimal(step) + ". "@ + name + ": '"@ + error + "'"@
}

/// What is warned of when a plan has ended: nothing where it succeeded, else the step that failed
/// and, where undoing the others failed too, what went wrong with that.
pub open spec fn warned(result: ExecutionResult) -> Seq<Seq<char>> {
    match result {
        ExecutionResult::Success => Seq::empty(),
        ExecutionResult::Failed {
            failed_at_step,
            failed_at_step_name,
            perform_error,
            rollback_errors,
        } => seq![
            step_warning(failed_at_step as nat, failed_at_step_name@, perform_error.message@),
        ] + (if rollback_errors@.len() == 0 {
            Seq::empty()
        } else {
            seq!["Additionally, ran into these errors while rolling back"@]
                + rollback_errors@.map_values(|error: CommandError| error.message@)
        }),
    }
}

/// What is warned of when a plan has ended.
pub fn warnings(result: &ExecutionResult) -> (r: Vec<String>)
    ensures
        string_texts(r@) == warned(*result),
{
    let mut words: Vec<String> = Vec::new();
    if let ExecutionResult::Failed {
        failed_at_step,
        failed_at_step_name,
        perform_error,
        rollback_errors,
    } = result {
        let step: String = decimal_text(*failed_at_step as u64);
        words.push(
            cat7(
                "Failed at step ",
                &step,
                ". ",
                failed_at_step_name,
                ": '",
                &perform_error.message,
                "'",
            ),
        );
        let ghost first = words@[0]@;
        if rollback_errors.len() > 0 {
            words.push("Additionally, ran into these errors while rolling back".to_owned());
            let ghost head = seq![first, "Additionally, ran into these errors while rolling back"@];
            let mut i: usize = 0;
            while i < rollback_errors.len()
                invariant
                    i <= rollback_errors@.len(),
                    head.len() == 2,
                    string_texts(words@) =~= head + rollback_errors@.take(i as int).map_values(
                        |error: CommandError| error.message@,
                    ),
                decreases rollback_errors@.len() - i,
            {
                let ghost before = string_texts(words@);
                let ghost errors = rollback_errors@;
                words.push(rollback_errors[i].message.clone());
                assert(string_texts(words@) =~= before.push(errors[i as int].message@));
                assert(errors.take(i as int + 1) =~= errors.take(i as int).push(errors[i as int]));
                i += 1;
            }
            assert(rollback_errors@.take(i as int) =~= rollback_errors@);
        }
    }
    assert(string_texts(words@) =~= warned(*result));
    words
}

/// Runs a plan with a fresh journal; where a step fails, everything is undone and the reason is
/// handed on.
pub fn execute_plan<C, S: Command<C>>(plan: Vec<S>, context: &mut C) -> (r: Result<(), String>)
    ensures
        match r {
            Ok(_) => exists|done: Seq<S>| #[trigger]
                performed(plan@, done, *old(context), *final(context)),
            Err(reason) => exists|
                done: Seq<S>,
                at: int,
                name: Seq<char>,
                error: CommandError,
                errors: Seq<CommandError>,
            |
                {
                    &&& #[trigger] plan@[at].named(name)
                    &&& #[trigger] failed(
                        Seq::<S>::empty(),
                        plan@,
                        done,
                        at,
                        error,
                        errors,
                        *old(context),
                        *final(context),
                    )
                    &&& reason@ == failure_reason(at as nat, name, error.message@)
                },
        },
{
    let mut executor: JournalingExecutor<S> = JournalingExecutor::new();
    let result: ExecutionResult = executor.run(context, plan);
    outcome_of(result)
}

/// The words for a plan that could not be carried out, or not even made.
pub open spec fn failed_words(reasons: Seq<String>) -> Seq<char> {
    "Failed to bootstrap: "@ + debug_texts_of(string_texts(reasons))
}

/// The words for a plan that could not be carried out, or not even made.
pub fn describe_failed(reasons: &Vec<String>) -> (r: String)
    ensures
        r@ == failed_words(reasons@),
{
    cat2("Failed to bootstrap: ", &debug_texts(reasons))
}

/// The reasons for which a plan failed: the one that carrying it out gave.
pub fn only_reason(reason: String) -> (r: Vec<String>)
    ensures
        r@ == seq![reason],
{
    let reasons: Vec<String> = vec![reason];
    assert(reasons@ =~= seq![reason]);
    reasons
}

/// Hands a plan on unchanged, with the words for its steps where there is a plan.
pub fn resolve_plan<C, S: Command<C>, E>(plan: Result<Vec<S>, E>) -> (r: (
    Result<Vec<S>, E>,
    Vec<String>,
))
    ensures
        r.0 == plan,
        match plan {
            Ok(steps) => r.1@.len() == steps@.len() && forall|i: int|
                0 <= i < steps@.len() ==> steps@[i].described((#[trigger] r.1@[i])@),
            Err(_) => r.1@.len() == 0,
        },
{
    let mut hint: Vec<String> = Vec::new();
    if let Ok(steps) = &plan {
        let mut i: usize = 0;
        while i < steps.len()
            invariant
                i <= steps@.len(),
                hint@.len() == i,
                forall|j: int| 0 <= j < i ==> steps@[j].described((#[trigger] hint@[j])@),
            decreases steps@.len() - i,
        {
            hint.push(steps[i].describe());
            i += 1;
        }
    }
    (plan, hint)
}

/// Carrying out a plan leads from context to context, one for each step: a step that is skipped
/// leaves its context and itself as they are, and any other is run in the context that the one
/// before it left. No step is left out.
pub proof fn law_every_step_is_performed_in_turn<C, S: Command<C>>(
    commands: Seq<S>,
    done: Seq<S>,
    before: C,
    after: C,
) -> (contexts: Seq<C>)
    requires
        performed(commands, done, before, after),
    ensures
        done.len() == commands.len(),
        contexts.len() == commands.len() + 1,
        contexts[0] == before,
        contexts.last() == after,
        forall|i: int|
            #![trigger commands[i]]
            0 <= i < commands.len() ==> {
                ||| commands[i].decides(contexts[i], true) && done[i] == commands[i]
                    && contexts[i + 1] == contexts[i]
                ||| commands[i].decides(contexts[i], false) && commands[i].runs(
                    contexts[i],
                    Ok(()),
                    done[i],
                    contexts[i + 1],
                )
            },
    decreases commands.len(),
{
    if commands.len() == 0 {
        seq![before]
    } else {
        let mid = choose|mid: C|
            performed(commands.drop_last(), done.drop_last(), before, mid)
                && #[trigger] step_performed(commands.last(), done.last(), mid, after);
        let earlier = law_every_step_is_performed_in_turn(
            commands.drop_last(),
            done.drop_last(),
            before,
            mid,
        );
        let contexts = earlier.push(after);
        let n: int = commands.len() - 1;
        assert forall|i: int|
            #![trigger commands[i]]
            0 <= i < commands.len() implies {
            ||| commands[i].decides(contexts[i], true) && done[i] == commands[i] && contexts[i + 1]
                == contexts[i]
            ||| commands[i].decides(contexts[i], false) && commands[i].runs(
                contexts[i],
                Ok(()),
                done[i],
                contexts[i + 1],
            )
        } by {
            if i < n {
                assert(commands.drop_last()[i] == commands[i]);
                assert(done.drop_last()[i] == done[i]);
                assert(contexts[i] == earlier[i] && contexts[i + 1] == earlier[i + 1]);
            } else {
                assert(contexts[i] == mid && contexts[i + 1] == after);
                assert(commands[i] == commands.last() && done[i] == done.last());
            }
        }
        contexts
    }
}

/// Undoing leads from context to context, one for each step, the last step first, and leaves none
/// out. The errors are those, and only those, of the steps that could not be undone.
pub proof fn law_every_performed_step_is_undone<C, S: Command<C>>(
    journal: Seq<S>,
    errors: Seq<CommandError>,
    before: C,
    after: C,
) -> (trace: (Seq<C>, Seq<Result<(), CommandError>>))
    requires
        undone(journal, errors, before, after),
    ensures
        trace.0.len() == journal.len() + 1,
        trace.1.len() == journal.len(),
        trace.0.last() == before,
        trace.0[0] == after,
        forall|i: int|
            #![trigger journal[i]]
            0 <= i < journal.len() ==> journal[i].rolls_back(
                trace.0[i + 1],
                trace.1[i],
                trace.0[i],
            ),
        forall|error: CommandError|
            errors.contains(error) <==> trace.1.contains(Err::<(), CommandError>(error)),
    decreases journal.len(),
{
    if journal.len() == 0 {
        (seq![before], Seq::empty())
    } else {
        let (mid, rest): (C, Seq<CommandError>) = choose|mid: C, rest: Seq<CommandError>|
            undone(journal.drop_first(), rest, before, mid) && #[trigger] step_undone(
                journal.first(),
                rest,
                errors,
                mid,
                after,
            );
        let later = law_every_performed_step_is_undone(journal.drop_first(), rest, before, mid);
        let outcome = choose|outcome: Result<(), CommandError>| #[trigger]
            journal.first().rolls_back(mid, outcome, after) && errors == match outcome {
                Ok(_) => rest,
                Err(error) => rest.push(error),
            };
        let contexts = seq![after] + later.0;
        let outcomes = seq![outcome] + later.1;
        assert forall|i: int|
            #![trigger journal[i]]
            0 <= i < journal.len() implies journal[i].rolls_back(
            contexts[i + 1],
            outcomes[i],
            contexts[i],
        ) by {
            if i > 0 {
                let fewer: int = i - 1;
                assert(journal.drop_first()[fewer] == journal[i]);
                assert(contexts[i + 1] == later.0[fewer + 1] && contexts[i] == later.0[fewer]);
                assert(outcomes[i] == later.1[fewer]);
            } else {
                assert(contexts[1] == later.0[0]);
            }
        }
        assert forall|error: CommandError|
            errors.contains(error) <==> outcomes.contains(Err::<(), CommandError>(error)) by {
            lemma_join_contains(seq![outcome], later.1, Err::<(), CommandError>(error));
            lemma_one_contains(outcome, Err::<(), CommandError>(error));
            if let Err(own) = outcome {
                lemma_push_contains(rest, own, error);
            }
        }
        assert(contexts.last() == later.0.last());
        (contexts, outcomes)
    }
}

/// A plan that fails performed every step before the one that failed, ran that one, and then undid
/// all of the journal and all that it had performed; the step that failed is not undone.
pub proof fn law_failures_undo_what_was_performed<C, S: Command<C>>(
    journal: Seq<S>,
    commands: Seq<S>,
    done: Seq<S>,
    at: int,
    error: CommandError,
    rollback_errors: Seq<CommandError>,
    before: C,
    after: C,
) -> (trace: (C, C, S))
    requires
        failed(journal, commands, done, at, error, rollback_errors, before, after),
    ensures
        0 <= at < commands.len(),
        performed(commands.take(at), done, before, trace.0),
        commands[at].decides(trace.0, false),
        commands[at].runs(trace.0, Err(error), trace.2, trace.1),
        undone(journal + done, rollback_errors, trace.1, after),
{
    let (mid, broken, rest): (C, C, S) = choose|mid: C, broken: C, rest: S|
        {
            &&& #[trigger] performed(commands.take(at), done, before, mid)
            &&& commands[at].decides(mid, false)
            &&& #[trigger] commands[at].runs(mid, Err(error), rest, broken)
            &&& undone(journal + done, rollback_errors, broken, after)
        };
    (mid, broken, rest)
}

/// A plan that succeeded is not warned of. One that failed is warned of once for its step; where
/// undoing failed too, that is said, and every error follows in order.
pub proof fn law_every_error_is_warned_of(result: ExecutionResult, i: int)
    ensures
        match result {
            ExecutionResult::Success => warned(result).len() == 0,
            ExecutionResult::Failed {
                failed_at_step,
                failed_at_step_name,
                perform_error,
                rollback_errors,
            } => {
                &&& warned(result)[0] == "Failed at step "@ + decimal(failed_at_step as nat)
                    + ". "@ + failed_at_step_name@ + ": '"@ + perform_error.message@ + "'"@
                &&& rollback_errors@.len() == 0 ==> warned(result).len() == 1
                &&& rollback_errors@.len() > 0 ==> {
                    &&& warned(result).len() == 2 + rollback_errors@.len()
                    &&& warned(result)[1]
                        == "Additionally, ran into these errors while rolling back"@
                    &&& 0 <= i < rollback_errors@.len() ==> warned(result)[2 + i]
                        == rollback_errors@[i].message@
                }
            },
        },
{
}

} // verus!
