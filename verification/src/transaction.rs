//! Transactions: ordered lists of actions with the data that all of them see.

use vstd::prelude::*;
use crate::action_handler::ActionHandler;
use crate::error::HandlerError;
use crate::msg::MsgConnectionOpenInit;
use crate::state::{State, StateTransaction, StateView};

verus! {

/// One step of a transaction.
#[derive(Debug, PartialEq, Eq)]
pub enum Action {
    /// Start a connection handshake.
    ConnectionOpenInit(MsgConnectionOpenInit),
}

/// An ordered list of actions that take effect together or not at all.
#[derive(Debug, PartialEq, Eq)]
pub struct Transaction {
    /// The actions, in the order they are to be executed.
    pub actions: Vec<Action>,
    /// Who pays for the transaction.
    pub fee_payer: String,
    /// The height after which the transaction is no longer valid.
    pub expiry_height: u64,
}

impl ActionHandler for Action {
    open spec fn stateless_outcome(&self, context: &Transaction) -> Result<(), HandlerError> {
        match self {
            Action::ConnectionOpenInit(msg) => msg.stateless_outcome(context),
        }
    }

    open spec fn stateful_outcome(&self, state: StateView, context: &Transaction) -> Result<
        (),
        HandlerError,
    > {
        match self {
            Action::ConnectionOpenInit(msg) => msg.stateful_outcome(state, context),
        }
    }

    open spec fn execute_outcome(&self, current: StateView) -> Result<StateView, HandlerError> {
        match self {
            Action::ConnectionOpenInit(msg) => msg.execute_outcome(current),
        }
    }

    proof fn execution_extends(&self, current: StateView) {
        match self {
            Action::ConnectionOpenInit(msg) => msg.execution_extends(current),
        }
    }

    fn check_stateless(&self, context: &Transaction) -> (r: Result<(), HandlerError>) {
        match self {
            Action::ConnectionOpenInit(msg) => msg.check_stateless(context),
        }
    }

    fn check_stateful(&self, state: &State, context: &Transaction) -> (r: Result<(), HandlerError>) {
        match self {
            Action::ConnectionOpenInit(msg) => msg.check_stateful(state, context),
        }
    }

    fn execute(&self, state: &mut StateTransaction) -> (r: Result<(), HandlerError>) {
        match self {
            Action::ConnectionOpenInit(msg) => msg.execute(state),
        }
    }
}

} // verus!
