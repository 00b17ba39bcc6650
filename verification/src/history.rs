//! A value together with the values that it had before.

use vstd::prelude::*;

verus! {

/// Why a history could not be wound back.
#[derive(Debug, Clone, Copy, PartialEq, Eq, Structural)]
pub enum HistoryError {
    NoCurrentState,
    CannotRollback,
}

impl HistoryError {
    /// The error in words.
    pub fn describe(&self) -> (r: String)
        ensures
            r@ == (match *self {
                HistoryError::NoCurrentState => "No current state"@,
                HistoryError::CannotRollback => "Cannot rollback initial state"@,
            }),
    {
        match self {
            HistoryError::NoCurrentState => "No current state".to_owned(),
            HistoryError::CannotRollback => "Cannot rollback initial state".to_owned(),
        }
    }
}

/// An initial value and those that were pushed after it, oldest first.
pub struct History<T> {
    initial: T,
    rest: Vec<T>,
}

impl<T> View for History<T> {
    type V = Seq<T>;

    /// Every value, the initial one first.
    closed spec fn view(&self) -> Seq<T> {
        seq![self.initial] + self.rest@
    }
}

/// What rolling back makes of the values of a history: the last goes, but for the initial value
/// and the one pushed first.
pub open spec fn rolled_back<T>(values: Seq<T>) -> Seq<T> {
    if values.len() > 2 {
        values.drop_last()
    } else {
        values
    }
}

impl<T> History<T> {
    /// A history that holds nothing but its initial value.
    pub fn new(value: T) -> (r: Self)
        ensures
            r@ == seq![value],
    {
        let r: Self = History { initial: value, rest: Vec::new() };
        assert(r@ =~= seq![value]);
        r
    }

    /// The value that was pushed last, or the initial one.
    pub fn current(&self) -> (r: &T)
        ensures
            self@.len() > 0,
            *r == self@.last(),
    {
        let n: usize = self.rest.len();
        if n > 0 {
            assert(self@.last() == self.rest@.last());
            &self.rest[n - 1]
        } else {
            assert(self@.last() == self.initial);
            &self.initial
        }
    }

    /// Makes a value the current one.
    pub fn push(&mut self, value: T)
        ensures
            final(self)@ == old(self)@.push(value),
    {
        self.rest.push(value);
        assert(self@ =~= old(self)@.push(value));
    }

    /// Takes the current value away. The initial value and the one pushed first stay.
    pub fn rollback(&mut self) -> (r: Result<(), HistoryError>)
        ensures
            final(self)@ == rolled_back(old(self)@),
            r == (if old(self)@.len() > 2 {
                Ok::<(), HistoryError>(())
            } else {
                Err(HistoryError::CannotRollback)
            }),
    {
        if self.rest.len() > 1 {
            let _ = self.rest.pop();
            assert(self@ =~= old(self)@.drop_last());
            Ok(())
        } else {
            Err(HistoryError::CannotRollback)
        }
    }

    /// Whether nothing was pushed yet.
    pub fn is_initial_state(&self) -> (r: bool)
        ensures
            r == (self@.len() == 1),
    {
        self.rest.len() == 0
    }
}

/// Rolling back undoes a push, once at least one value was pushed before it.
pub proof fn law_rollback_undoes_push<T>(values: Seq<T>, value: T)
    requires
        values.len() > 1,
    ensures
        rolled_back(values.push(value)) == values,
{
    assert(values.push(value).drop_last() =~= values);
}

/// Rolling back never touches the initial value or the one pushed first, and never takes more than
/// the value pushed last.
pub proof fn law_rollback_takes_the_last_value<T>(values: Seq<T>, i: int)
    ensures
        values.len() <= 2 ==> rolled_back(values) == values,
        values.len() > 2 ==> rolled_back(values).len() == values.len() - 1,
        0 <= i < rolled_back(values).len() ==> rolled_back(values)[i] == values[i],
{
}

} // verus!
