//! Execution: the state change that opening a connection amounts to.

use vstd::prelude::*;
use crate::error::InternalError;
use crate::identifier::ConnectionIdentifier;
use crate::msg::{init_end, MsgConnectionOpenInit, MsgConnectionOpenInitView};
use crate::state::{StateTransaction, StateView};

verus! {

/// The state that executing a message leads to: the connection end the
/// message opens is stored under the next identifier. Execution fails only
/// when no identifier is left.
pub open spec fn execute_outcome(current: StateView, msg: MsgConnectionOpenInitView) -> Result<
    StateView,
    InternalError,
> {
    if current.connection_counter >= u64::MAX {
        Err(InternalError::ConnectionCounterExhausted)
    } else {
        Ok(current.with_connection(init_end(msg)))
    }
}

impl StateTransaction {
    /// Executes a message inside this transaction and returns the identifier
    /// the new connection got. On failure nothing is written.
    pub fn execute(&mut self, msg: &MsgConnectionOpenInit) -> (r: Result<
        ConnectionIdentifier,
        InternalError,
    >)
        requires
            old(self).wf(),
        ensures
            final(self).wf(),
            final(self).base() == old(self).base(),
            match r {
                Ok(id) => {
                    &&& execute_outcome(old(self)@, msg@) == Ok::<StateView, InternalError>(final(self)@)
                    &&& id.index() == old(self)@.connection_counter
                    &&& !old(self)@.connections.contains_key(id.index())
                    &&& final(self)@.connections[id.index()] == init_end(msg@)
                },
                Err(e) => {
                    &&& execute_outcome(old(self)@, msg@) == Err::<StateView, InternalError>(e)
                    &&& final(self)@ == old(self)@
                },
            },
    {
        let end = msg.to_connection_end();
        self.put_new_connection(end)
    }
}

} // verus!
