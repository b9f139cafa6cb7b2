//! Light clients, as far as connections depend on them.

use vstd::prelude::*;

verus! {

/// Whether a light client may be used.
#[derive(Debug, Clone, Copy, PartialEq, Eq, Structural)]
pub enum ClientStatus {
    /// The client follows its chain and may be used.
    Active,
    /// The client has not been updated in time.
    Expired,
    /// The client was frozen after misbehaviour.
    Frozen,
}

} // verus!
