//! The three-phase protocol that every kind of action follows.

use vstd::prelude::*;
use crate::error::HandlerError;
use crate::state::{State, StateTransaction, StateView};
use crate::transaction::Transaction;

verus! {

/// What an action must offer so that it can be part of a transaction.
///
/// The three `*_outcome` functions say what the action does; the three
/// executable methods must do exactly that.
pub trait ActionHandler {
    /// The verdict of the stateless check.
    spec fn stateless_outcome(&self, context: &Transaction) -> Result<(), HandlerError>;

    /// The verdict of the stateful check in a given state.
    spec fn stateful_outcome(&self, state: StateView, context: &Transaction) -> Result<
        (),
        HandlerError,
    >;

    /// The state that execution leads to from a given state, or the failure.
    spec fn execute_outcome(&self, current: StateView) -> Result<StateView, HandlerError>;

    /// Execution keeps a state well formed, at its version, and takes nothing
    /// back that was allocated before.
    proof fn execution_extends(&self, current: StateView)
        requires
            current.wf(),
        ensures
            self.execute_outcome(current) matches Ok(next) ==> next.wf() && next.extends(current)
                && next.version == current.version,
    ;

    /// Checks the action by itself: it reads the action and the enclosing
    /// transaction, and no state.
    fn check_stateless(&self, context: &Transaction) -> (r: Result<(), HandlerError>)
        ensures
            r == self.stateless_outcome(context),
    ;

    /// Checks the action against a snapshot, which it only reads.
    fn check_stateful(&self, state: &State, context: &Transaction) -> (r: Result<(), HandlerError>)
        ensures
            r == self.stateful_outcome(state@, context),
    ;

    /// Applies the action to a state transaction. On failure the transaction
    /// holds what it held before.
    fn execute(&self, state: &mut StateTransaction) -> (r: Result<(), HandlerError>)
        requires
            old(state).wf(),
        ensures
            final(state).wf(),
            final(state).base() == old(state).base(),
            match self.execute_outcome(old(state)@) {
                Ok(next) => r is Ok && final(state)@ == next,
                Err(e) => r == Err::<(), HandlerError>(e) && final(state)@ == old(state)@,
            },
    ;
}

} // verus!
