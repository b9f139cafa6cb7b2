//! The check against a snapshot: is the chain in a state that admits opening
//! the connection?

use vstd::prelude::*;
use crate::client::ClientStatus;
use crate::error::PreconditionError;
use crate::msg::{MsgConnectionOpenInit, MsgConnectionOpenInitView};
use crate::state::{State, StateView};

verus! {

/// What the stateful check decides from what it read: the status of the
/// referenced client if there is one, whether the chain's policy admits the
/// client, the counterparty's prefix, and the connection counter. The first
/// of these that fails names the error.
pub open spec fn precondition_decision(
    client: Option<ClientStatus>,
    admitted: bool,
    prefix: Seq<u8>,
    connection_counter: nat,
) -> Result<(), PreconditionError> {
    if client is None {
        Err(PreconditionError::ClientNotFound)
    } else if client != Some(ClientStatus::Active) {
        Err(PreconditionError::ClientFrozen)
    } else if !admitted {
        Err(PreconditionError::PolicyRejected)
    } else if prefix.len() == 0 {
        Err(PreconditionError::InvalidCounterpartyPrefix)
    } else if connection_counter >= u64::MAX {
        Err(PreconditionError::ConnectionLimitReached)
    } else {
        Ok(())
    }
}

/// The status of a client in a state, if the state holds the client.
pub open spec fn client_in(state: StateView, client_id: Seq<char>) -> Option<ClientStatus> {
    if state.clients.contains_key(client_id) {
        Some(state.clients[client_id])
    } else {
        None
    }
}

/// What the stateful check says of a message in a state.
pub open spec fn precondition_outcome(state: StateView, msg: MsgConnectionOpenInitView) -> Result<
    (),
    PreconditionError,
> {
    precondition_decision(
        client_in(state, msg.client_id),
        state.client_policy.admits(msg.client_id),
        msg.counterparty.prefix,
        state.connection_counter,
    )
}

/// Decides the stateful check from values already read from the store.
pub fn check_preconditions(
    client: Option<ClientStatus>,
    admitted: bool,
    prefix: &Vec<u8>,
    connection_counter: u64,
) -> (r: Result<(), PreconditionError>)
    ensures
        r == precondition_decision(client, admitted, prefix@, connection_counter as nat),
{
    match client {
        None => Err(PreconditionError::ClientNotFound),
        Some(ClientStatus::Active) => {
            if !admitted {
                Err(PreconditionError::PolicyRejected)
            } else if prefix.len() == 0 {
                Err(PreconditionError::InvalidCounterpartyPrefix)
            } else if connection_counter == u64::MAX {
                Err(PreconditionError::ConnectionLimitReached)
            } else {
                Ok(())
            }
        },
        Some(_) => Err(PreconditionError::ClientFrozen),
    }
}

impl State {
    /// Checks a message against this snapshot. The snapshot is only read.
    pub fn validate(&self, msg: &MsgConnectionOpenInit) -> (r: Result<(), PreconditionError>)
        ensures
            r == precondition_outcome(self@, msg@),
            !self@.clients.contains_key(msg@.client_id) ==> r == Err::<(), PreconditionError>(
                PreconditionError::ClientNotFound,
            ),
    {
        let client = self.client_status(msg.client_id.as_str());
        let admitted = self.client_policy().admits(msg.client_id.as_str());
        check_preconditions(client, admitted, &msg.counterparty.prefix, self.connection_counter())
    }
}

} // verus!
