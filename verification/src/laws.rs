//! What holds of the protocol as a whole.

use vstd::prelude::*;
use crate::action_handler::ActionHandler;
use crate::connection::ConnectionState;
use crate::error::HandlerError;
use crate::execution::execute_outcome;
use crate::identifier::{identifier_text, lemma_identifier_text_injective};
use crate::msg::{init_end, MsgConnectionOpenInit, MsgConnectionOpenInitView};
use crate::pipeline::{
    execute_from, state_after, stateful_from, stateless_from, transaction_outcome,
};
use crate::state::{lemma_with_connection, StateView};
use crate::stateful::precondition_outcome;
use crate::transaction::{Action, Transaction};
use crate::version::{any_supported, supported_set};

verus! {

/// The message an action carries.
pub open spec fn message_of(action: Action) -> MsgConnectionOpenInitView {
    match action {
        Action::ConnectionOpenInit(msg) => msg@,
    }
}

/// A message passes the stateless check exactly when one of the versions it
/// proposes is supported by this chain; any other message is turned down with
/// a validation error.
pub proof fn law_stateless_check(msg: MsgConnectionOpenInit, context: &Transaction)
    ensures
        any_supported(msg@.versions, supported_set()) <==> msg.stateless_outcome(context) is Ok,
        !any_supported(msg@.versions, supported_set()) ==> msg.stateless_outcome(
            context,
        ) matches Err(HandlerError::Validation(_)),
{
}

/// The stateless phase passes exactly when every action passes by itself,
/// whatever the order of the actions.
pub proof fn law_stateless_phase_is_order_independent<A: ActionHandler>(
    actions: Seq<A>,
    context: &Transaction,
    from: int,
)
    requires
        0 <= from <= actions.len(),
    ensures
        stateless_from(actions, context, from) is Ok <==> forall|i: int|
            from <= i < actions.len() ==> (#[trigger] actions[i]).stateless_outcome(context) is Ok,
    decreases actions.len() - from,
{
    if from < actions.len() {
        law_stateless_phase_is_order_independent(actions, context, from + 1);
        if stateless_from(actions, context, from) is Ok {
            assert forall|i: int| from <= i < actions.len() implies (#[trigger] actions[i])
                .stateless_outcome(context) is Ok by {
                if i > from {
                }
            }
        }
    }
}

/// The stateful phase passes exactly when every action passes against the
/// snapshot by itself: no action sees what another one is about to do, and the
/// order of the actions does not matter.
pub proof fn law_stateful_phase_is_order_independent<A: ActionHandler>(
    actions: Seq<A>,
    state: StateView,
    context: &Transaction,
    from: int,
)
    requires
        0 <= from <= actions.len(),
    ensures
        stateful_from(actions, state, context, from) is Ok <==> forall|i: int|
            from <= i < actions.len() ==> (#[trigger] actions[i]).stateful_outcome(
                state,
                context,
            ) is Ok,
    decreases actions.len() - from,
{
    if from < actions.len() {
        law_stateful_phase_is_order_independent(actions, state, context, from + 1);
        if stateful_from(actions, state, context, from) is Ok {
            assert forall|i: int| from <= i < actions.len() implies (#[trigger] actions[i])
                .stateful_outcome(state, context) is Ok by {
                if i > from {
                }
            }
        }
    }
}

/// The stateful phase of a transaction fails with precondition errors only.
pub proof fn lemma_stateful_errors(tx: &Transaction, state: StateView, from: int)
    ensures
        stateful_from(tx.actions@, state, tx, from) matches Err(e) ==> e is Precondition,
    decreases tx.actions@.len() - from,
{
    if 0 <= from < tx.actions@.len() {
        lemma_stateful_errors(tx, state, from + 1);
    }
}

/// A transaction whose actions are well formed by themselves, and one of
/// which refers to a client that the state does not hold, is turned down with
/// a precondition error and leaves the state as it found it.
pub proof fn law_missing_client_rejects(state: StateView, tx: &Transaction, i: int)
    requires
        0 <= i < tx.actions@.len(),
        !state.clients.contains_key(message_of(tx.actions@[i]).client_id),
        stateless_from(tx.actions@, tx, 0) is Ok,
    ensures
        transaction_outcome(state, tx) matches Err(HandlerError::Precondition(_)),
        state_after(state, tx) == state,
{
    law_stateful_phase_is_order_independent(tx.actions@, state, tx, 0);
    assert(tx.actions@[i].stateful_outcome(state, tx) is Err);
    lemma_stateful_errors(tx, state, 0);
}

/// A message that passed the stateful check in a state executes in that
/// state: it gets the identifier of the state's counter, which no connection
/// had before, and the connection stored under it is the one the message
/// describes, in state `Init`.
pub proof fn law_checked_message_executes(state: StateView, msg: MsgConnectionOpenInitView)
    requires
        state.wf(),
        precondition_outcome(state, msg) is Ok,
    ensures
        execute_outcome(state, msg) is Ok,
        !state.connections.contains_key(state.connection_counter),
        ({
            let next = execute_outcome(state, msg).unwrap();
            &&& next.wf()
            &&& next.extends(state)
            &&& next.connections.contains_key(state.connection_counter)
            &&& next.connections[state.connection_counter] == init_end(msg)
            &&& next.connections[state.connection_counter].state == ConnectionState::Init
        }),
{
    lemma_with_connection(state, init_end(msg));
}

/// Executing actions one after the other hands out consecutive identifiers in
/// the order of the actions, and keeps all that was there.
pub proof fn lemma_execution_allocates_in_order(actions: Seq<Action>, current: StateView, from: int)
    requires
        current.wf(),
        0 <= from <= actions.len(),
        execute_from(actions, current, from) is Ok,
    ensures
        ({
            let last = execute_from(actions, current, from).unwrap();
            &&& last.wf()
            &&& last.extends(current)
            &&& last.version == current.version
            &&& last.clients == current.clients
            &&& last.connection_counter == current.connection_counter + (actions.len() - from)
            &&& forall|k: int|
                from <= k < actions.len() ==> last.connections.contains_key(
                    (current.connection_counter + (k - from)) as nat,
                ) && last.connections[(current.connection_counter + (k - from)) as nat] == init_end(
                    message_of(#[trigger] actions[k]),
                )
            &&& forall|n: nat| #[trigger]
                last.connections.contains_key(n) ==> current.connections.contains_key(n)
                    || current.connection_counter <= n
        }),
    decreases actions.len() - from,
{
    if from < actions.len() {
        let msg = message_of(actions[from]);
        let next = current.with_connection(init_end(msg));
        lemma_with_connection(current, init_end(msg));
        assert(actions[from].execute_outcome(current) == Ok::<StateView, HandlerError>(next));
        lemma_execution_allocates_in_order(actions, next, from + 1);
        let last = execute_from(actions, current, from).unwrap();
        assert(execute_from(actions, current, from) == execute_from(actions, next, from + 1));
        assert(next.connections.contains_key(current.connection_counter));
        assert(last.connections[current.connection_counter] == init_end(msg));
        assert forall|k: int| from <= k < actions.len() implies last.connections.contains_key(
            (current.connection_counter + (k - from)) as nat,
        ) && last.connections[(current.connection_counter + (k - from)) as nat] == init_end(
            message_of(#[trigger] actions[k]),
        ) by {
            if k > from {
                assert((next.connection_counter + (k - (from + 1))) as nat == (
                current.connection_counter + (k - from)) as nat);
            }
        }
    }
}

/// In a transaction that went through, the action at position `k` got the
/// identifier `k` places after the counter the transaction found; so two
/// actions of one transaction get different identifiers, in the order in
/// which they stand in the transaction.
pub proof fn law_identifiers_follow_submission_order(
    state: StateView,
    tx: &Transaction,
    j: int,
    k: int,
)
    requires
        state.wf(),
        0 <= j < k < tx.actions@.len(),
        transaction_outcome(state, tx) is Ok,
    ensures
        ({
            let next = state_after(state, tx);
            let first = state.connection_counter + j;
            let second = state.connection_counter + k;
            &&& !state.connections.contains_key(first as nat)
            &&& !state.connections.contains_key(second as nat)
            &&& next.connections.contains_key(first as nat)
            &&& next.connections.contains_key(second as nat)
            &&& next.connections[first as nat] == init_end(message_of(tx.actions@[j]))
            &&& next.connections[second as nat] == init_end(message_of(tx.actions@[k]))
            &&& first < second
            &&& identifier_text(first as nat) != identifier_text(second as nat)
        }),
{
    lemma_execution_allocates_in_order(tx.actions@, state, 0);
    lemma_identifier_text_injective(
        (state.connection_counter + j) as nat,
        (state.connection_counter + k) as nat,
    );
}

/// A connection that a transaction added to the state has an identifier that
/// was free before, at or above the counter the transaction found, and it is
/// in state `Init`: the end that one of the transaction's messages describes.
pub proof fn law_new_connections_start_in_init(state: StateView, tx: &Transaction, n: nat)
    requires
        state.wf(),
        state_after(state, tx).connections.contains_key(n),
        !state.connections.contains_key(n),
    ensures
        state.connection_counter <= n < state.connection_counter + tx.actions@.len(),
        state_after(state, tx).connections[n] == init_end(
            message_of(tx.actions@[n - state.connection_counter]),
        ),
        state_after(state, tx).connections[n].state == ConnectionState::Init,
{
    lemma_execution_allocates_in_order(tx.actions@, state, 0);
}

/// Whatever the actions are, the state their execution leads to is well
/// formed and extends the state it started from: the counter has not fallen,
/// and every connection that was stored is still stored, unchanged.
pub proof fn lemma_execution_extends<A: ActionHandler>(
    actions: Seq<A>,
    current: StateView,
    from: int,
)
    requires
        current.wf(),
    ensures
        execute_from(actions, current, from) matches Ok(last) ==> last.wf() && last.extends(current)
            && last.version == current.version,
    decreases actions.len() - from,
{
    if 0 <= from < actions.len() {
        actions[from].execution_extends(current);
        match actions[from].execute_outcome(current) {
            Ok(next) => {
                lemma_execution_extends(actions, next, from + 1);
            },
            Err(_) => {},
        }
    }
}

/// An identifier, once handed out, is never taken back: the state after a
/// transaction is well formed and extends the state before it.
pub proof fn law_allocations_are_permanent(state: StateView, tx: &Transaction)
    requires
        state.wf(),
    ensures
        state_after(state, tx).wf(),
        state_after(state, tx).extends(state),
{
    lemma_execution_extends(tx.actions@, state, 0);
}

/// A transaction in which some action fails to execute leaves no trace: the
/// state after it is the state before it, and none of the identifiers that
/// earlier actions of the transaction took is visible.
pub proof fn law_failed_transaction_leaves_no_trace(state: StateView, tx: &Transaction)
    requires
        state.wf(),
        execute_from(tx.actions@, state, 0) is Err,
    ensures
        transaction_outcome(state, tx) is Err,
        state_after(state, tx) == state,
        forall|n: nat|
            n >= state.connection_counter ==> !#[trigger] state_after(
                state,
                tx,
            ).connections.contains_key(n),
{
}

} // verus!
