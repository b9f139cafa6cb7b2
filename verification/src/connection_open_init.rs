//! The open-init message as an action.

use vstd::prelude::*;
use crate::action_handler::ActionHandler;
use crate::error::{lift_precondition, lift_validation, HandlerError};
use crate::execution::execute_outcome;
use crate::msg::MsgConnectionOpenInit;
use crate::state::{lemma_with_connection, State, StateTransaction, StateView};
use crate::stateful::precondition_outcome;
use crate::stateless::{version_is_supported, versions_outcome};
use crate::transaction::Transaction;
use crate::msg::init_end;
use crate::version::supported_set;

verus! {

impl ActionHandler for MsgConnectionOpenInit {
    /// The proposed versions must hold one that this chain supports.
    open spec fn stateless_outcome(&self, context: &Transaction) -> Result<(), HandlerError> {
        lift_validation(versions_outcome(self@.versions, supported_set()))
    }

    /// The referenced client must exist and be active, the counterparty's
    /// prefix must not be empty, and an identifier must be left.
    open spec fn stateful_outcome(&self, state: StateView, context: &Transaction) -> Result<
        (),
        HandlerError,
    > {
        lift_precondition(precondition_outcome(state, self@))
    }

    /// The connection end the message opens is stored under the next
    /// identifier.
    open spec fn execute_outcome(&self, current: StateView) -> Result<StateView, HandlerError> {
        match execute_outcome(current, self@) {
            Ok(next) => Ok(next),
            Err(e) => Err(HandlerError::Internal(e)),
        }
    }

    proof fn execution_extends(&self, current: StateView) {
        lemma_with_connection(current, init_end(self@));
    }

    fn check_stateless(&self, _context: &Transaction) -> (r: Result<(), HandlerError>) {
        match version_is_supported(self) {
            Ok(()) => Ok(()),
            Err(e) => Err(HandlerError::Validation(e)),
        }
    }

    fn check_stateful(&self, state: &State, _context: &Transaction) -> (r: Result<(), HandlerError>) {
        match state.validate(self) {
            Ok(()) => Ok(()),
            Err(e) => Err(HandlerError::Precondition(e)),
        }
    }

    fn execute(&self, state: &mut StateTransaction) -> (r: Result<(), HandlerError>) {
        match state.execute(self) {
            Ok(_) => Ok(()),
            Err(e) => Err(HandlerError::Internal(e)),
        }
    }
}

} // verus!
