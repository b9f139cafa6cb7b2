//! The failures an action can report, by the phase that reports them.

use vstd::prelude::*;

verus! {

/// Rejection by the stateless check: the message itself is not acceptable.
#[derive(Debug, Clone, Copy, PartialEq, Eq, Structural)]
pub enum ValidationError {
    /// The message proposes no version at all.
    EmptyVersionList,
    /// None of the proposed versions is compatible with a supported one.
    UnsupportedVersion,
}

/// Rejection by the stateful check: the chain state does not admit the message.
#[derive(Debug, Clone, Copy, PartialEq, Eq, Structural)]
pub enum PreconditionError {
    /// The snapshot holds no client under the referenced identifier.
    ClientNotFound,
    /// The referenced client is frozen or expired.
    ClientFrozen,
    /// The chain's policy does not let connections be opened over the client.
    PolicyRejected,
    /// The counterparty's commitment prefix is empty.
    InvalidCounterpartyPrefix,
    /// Every connection identifier has been handed out.
    ConnectionLimitReached,
}

/// Failure while executing or committing: the batch must be abandoned.
#[derive(Debug, Clone, Copy, PartialEq, Eq, Structural)]
pub enum InternalError {
    /// The connection counter cannot be advanced any further.
    ConnectionCounterExhausted,
    /// The state version cannot be advanced any further.
    StateVersionExhausted,
}

/// Any failure of the three-phase protocol.
#[derive(Debug, Clone, Copy, PartialEq, Eq, Structural)]
pub enum HandlerError {
    Validation(ValidationError),
    Precondition(PreconditionError),
    Internal(InternalError),
}

impl HandlerError {
    /// Whether the sender can repair the message and submit it again.
    pub open spec fn recoverable(self) -> bool {
        !(self is Internal)
    }

    /// Tells rejections, which leave the chain running, from internal failures.
    pub fn is_recoverable(&self) -> (r: bool)
        ensures
            r == self.recoverable(),
    {
        match self {
            HandlerError::Internal(_) => false,
            _ => true,
        }
    }
}

/// The error a failed stateless check is reported as.
pub open spec fn lift_validation(r: Result<(), ValidationError>) -> Result<(), HandlerError> {
    match r {
        Ok(()) => Ok(()),
        Err(e) => Err(HandlerError::Validation(e)),
    }
}

/// The error a failed stateful check is reported as.
pub open spec fn lift_precondition(r: Result<(), PreconditionError>) -> Result<(), HandlerError> {
    match r {
        Ok(()) => Ok(()),
        Err(e) => Err(HandlerError::Precondition(e)),
    }
}

} // verus!
