//! Running a transaction: all stateless checks, then all stateful checks
//! against one snapshot, then all executions in order against one state
//! transaction, which is committed only if every one of them succeeded.

use vstd::prelude::*;
use crate::action_handler::ActionHandler;
use crate::error::{HandlerError, InternalError};
use crate::state::{State, StateTransaction, StateView};
use crate::transaction::Transaction;

verus! {

/// The verdict of the stateless checks of the actions from position `i` on:
/// the failure of the first action that fails, if any does.
pub open spec fn stateless_from<A: ActionHandler>(
    actions: Seq<A>,
    context: &Transaction,
    i: int,
) -> Result<(), HandlerError>
    decreases actions.len() - i,
{
    if i < 0 || i >= actions.len() {
        Ok(())
    } else {
        match actions[i].stateless_outcome(context) {
            Err(e) => Err(e),
            Ok(()) => stateless_from(actions, context, i + 1),
        }
    }
}

/// The verdict of the stateful checks of the actions from position `i` on,
/// all against the same state.
pub open spec fn stateful_from<A: ActionHandler>(
    actions: Seq<A>,
    state: StateView,
    context: &Transaction,
    i: int,
) -> Result<(), HandlerError>
    decreases actions.len() - i,
{
    if i < 0 || i >= actions.len() {
        Ok(())
    } else {
        match actions[i].stateful_outcome(state, context) {
            Err(e) => Err(e),
            Ok(()) => stateful_from(actions, state, context, i + 1),
        }
    }
}

/// The state that executing the actions from position `i` on leads to, each
/// starting from what the one before it left; or the first failure.
pub open spec fn execute_from<A: ActionHandler>(actions: Seq<A>, current: StateView, i: int) -> Result<
    StateView,
    HandlerError,
>
    decreases actions.len() - i,
{
    if i < 0 || i >= actions.len() {
        Ok(current)
    } else {
        match actions[i].execute_outcome(current) {
            Err(e) => Err(e),
            Ok(next) => execute_from(actions, next, i + 1),
        }
    }
}

/// The state in which executing the actions from position `i` on comes to a
/// halt: after the last action, or before the first one that fails.
pub open spec fn halt_from<A: ActionHandler>(actions: Seq<A>, current: StateView, i: int) -> StateView
    decreases actions.len() - i,
{
    if i < 0 || i >= actions.len() {
        current
    } else {
        match actions[i].execute_outcome(current) {
            Err(_) => current,
            Ok(next) => halt_from(actions, next, i + 1),
        }
    }
}

/// What running a list of actions as one transaction on `state` leads to: the
/// next version of the state, or the failure that stopped the transaction.
pub open spec fn run_outcome<A: ActionHandler>(
    actions: Seq<A>,
    state: StateView,
    context: &Transaction,
) -> Result<StateView, HandlerError> {
    match stateless_from(actions, context, 0) {
        Err(e) => Err(e),
        Ok(()) => match stateful_from(actions, state, context, 0) {
            Err(e) => Err(e),
            Ok(()) => match execute_from(actions, state, 0) {
                Err(e) => Err(e),
                Ok(last) => if last.version >= u64::MAX {
                    Err(HandlerError::Internal(InternalError::StateVersionExhausted))
                } else {
                    Ok(last.committed())
                },
            },
        },
    }
}

/// What processing a transaction on `state` leads to.
pub open spec fn transaction_outcome(state: StateView, tx: &Transaction) -> Result<
    StateView,
    HandlerError,
> {
    run_outcome(tx.actions@, state, tx)
}

/// The state a transaction leaves behind: the committed state if it went
/// through, the state it found if it did not.
pub open spec fn state_after(state: StateView, tx: &Transaction) -> StateView {
    match transaction_outcome(state, tx) {
        Ok(next) => next,
        Err(_) => state,
    }
}

/// Runs the stateless check of every action, in order, up to the first
/// failure.
pub fn check_all_stateless<A: ActionHandler>(actions: &Vec<A>, context: &Transaction) -> (r: Result<
    (),
    HandlerError,
>)
    ensures
        r == stateless_from(actions@, context, 0),
{
    let mut i: usize = 0;
    while i < actions.len()
        invariant
            i <= actions.len(),
            stateless_from(actions@, context, 0) == stateless_from(actions@, context, i as int),
        decreases actions.len() - i,
    {
        match actions[i].check_stateless(context) {
            Err(e) => {
                return Err(e);
            },
            Ok(()) => {},
        }
        i += 1;
    }
    Ok(())
}

/// Runs the stateful check of every action against one snapshot, in order,
/// up to the first failure.
pub fn check_all_stateful<A: ActionHandler>(
    actions: &Vec<A>,
    state: &State,
    context: &Transaction,
) -> (r: Result<(), HandlerError>)
    ensures
        r == stateful_from(actions@, state@, context, 0),
{
    let mut i: usize = 0;
    while i < actions.len()
        invariant
            i <= actions.len(),
            stateful_from(actions@, state@, context, 0) == stateful_from(
                actions@,
                state@,
                context,
                i as int,
            ),
        decreases actions.len() - i,
    {
        match actions[i].check_stateful(state, context) {
            Err(e) => {
                return Err(e);
            },
            Ok(()) => {},
        }
        i += 1;
    }
    Ok(())
}

/// Executes the actions in order inside one state transaction, up to the
/// first failure. After a failure the transaction holds the writes of the
/// actions before the failing one, and is fit only to be discarded.
pub fn execute_all<A: ActionHandler>(actions: &Vec<A>, state: &mut StateTransaction) -> (r: Result<
    (),
    HandlerError,
>)
    requires
        old(state).wf(),
    ensures
        final(state).wf(),
        final(state).base() == old(state).base(),
        final(state)@ == halt_from(actions@, old(state)@, 0),
        match execute_from(actions@, old(state)@, 0) {
            Ok(last) => r is Ok && final(state)@ == last,
            Err(e) => r == Err::<(), HandlerError>(e),
        },
{
    let mut i: usize = 0;
    while i < actions.len()
        invariant
            i <= actions.len(),
            state.wf(),
            state.base() == old(state).base(),
            execute_from(actions@, old(state)@, 0) == execute_from(actions@, state@, i as int),
            halt_from(actions@, old(state)@, 0) == halt_from(actions@, state@, i as int),
        decreases actions.len() - i,
    {
        match actions[i].execute(state) {
            Err(e) => {
                return Err(e);
            },
            Ok(()) => {},
        }
        i += 1;
    }
    Ok(())
}

/// Runs a list of actions as one transaction: `state` comes back one version
/// later with the effects of all actions, or unchanged with the failure that
/// stopped the transaction.
pub fn run_transaction<A: ActionHandler>(
    state: State,
    actions: &Vec<A>,
    context: &Transaction,
) -> (r: (State, Result<u64, HandlerError>))
    requires
        state.wf(),
    ensures
        r.0.wf(),
        match run_outcome(actions@, state@, context) {
            Ok(next) => r.0@ == next && r.1 == Ok::<u64, HandlerError>(next.version as u64),
            Err(e) => r.0@ == state@ && r.1 == Err::<u64, HandlerError>(e),
        },
{
    match check_all_stateless(actions, context) {
        Err(e) => {
            return (state, Err(e));
        },
        Ok(()) => {},
    }
    match check_all_stateful(actions, &state, context) {
        Err(e) => {
            return (state, Err(e));
        },
        Ok(()) => {},
    }
    let mut open = state.begin_transaction();
    match execute_all(actions, &mut open) {
        Err(e) => (open.discard(), Err(e)),
        Ok(()) => {
            let (next, committed) = open.commit();
            match committed {
                Ok(version) => (next, Ok(version)),
                Err(e) => (next, Err(HandlerError::Internal(e))),
            }
        },
    }
}

/// Processes a transaction on `state`.
pub fn process_transaction(state: State, tx: &Transaction) -> (r: (State, Result<u64, HandlerError>))
    requires
        state.wf(),
    ensures
        r.0.wf(),
        r.0@ == state_after(state@, tx),
        r.1 is Err ==> r.0@ == state@,
        match transaction_outcome(state@, tx) {
            Ok(next) => r.0@ == next && r.1 == Ok::<u64, HandlerError>(next.version as u64),
            Err(e) => r.0@ == state@ && r.1 == Err::<u64, HandlerError>(e),
        },
{
    run_transaction(state, &tx.actions, tx)
}

} // verus!
