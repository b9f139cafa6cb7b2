//! One end of a connection, as it is stored.

use vstd::prelude::*;
use crate::version::{clone_versions, ProtocolVersion, ProtocolVersionView};

verus! {

/// How far the handshake of a connection has come: `Init`, then `TryOpen`,
/// then `Open`.
#[derive(Debug, Clone, Copy, PartialEq, Eq, Structural)]
pub enum ConnectionState {
    Init,
    TryOpen,
    Open,
}

/// The remote side of a connection as a mathematical value.
pub struct CounterpartyView {
    pub client_id: Seq<char>,
    pub prefix: Seq<u8>,
}

/// The remote side of a connection: the client that tracks this chain over
/// there, and the prefix under which the remote chain keeps its keys.
#[derive(Debug, PartialEq, Eq)]
pub struct Counterparty {
    pub client_id: String,
    pub prefix: Vec<u8>,
}

impl View for Counterparty {
    type V = CounterpartyView;

    open spec fn view(&self) -> CounterpartyView {
        CounterpartyView { client_id: self.client_id@, prefix: self.prefix@ }
    }
}

/// Copies a list of bytes.
pub fn clone_bytes(bytes: &Vec<u8>) -> (copy: Vec<u8>)
    ensures
        copy@ == bytes@,
{
    let mut copy: Vec<u8> = Vec::new();
    let mut i: usize = 0;
    while i < bytes.len()
        invariant
            i <= bytes.len(),
            copy@ == bytes@.take(i as int),
        decreases bytes.len() - i,
    {
        copy.push(bytes[i]);
        assert(bytes@.take(i + 1) =~= bytes@.take(i as int).push(bytes@[i as int]));
        i += 1;
    }
    assert(bytes@.take(bytes.len() as int) =~= bytes@);
    copy
}

impl Clone for Counterparty {
    fn clone(&self) -> (copy: Self)
        ensures
            copy@ == self@,
    {
        Counterparty { client_id: self.client_id.clone(), prefix: clone_bytes(&self.prefix) }
    }
}

/// A connection end as a mathematical value.
pub struct ConnectionEndView {
    pub state: ConnectionState,
    pub client_id: Seq<char>,
    pub counterparty: CounterpartyView,
    pub versions: Seq<ProtocolVersionView>,
    pub delay_period: u64,
}

/// One side of a connection: the local client it runs over, the remote side,
/// the versions still in play, and the delay before the connection may be
/// used, in nanoseconds.
#[derive(Debug, PartialEq, Eq)]
pub struct ConnectionEnd {
    pub state: ConnectionState,
    pub client_id: String,
    pub counterparty: Counterparty,
    pub versions: Vec<ProtocolVersion>,
    pub delay_period: u64,
}

impl View for ConnectionEnd {
    type V = ConnectionEndView;

    open spec fn view(&self) -> ConnectionEndView {
        ConnectionEndView {
            state: self.state,
            client_id: self.client_id@,
            counterparty: self.counterparty@,
            versions: self.versions.deep_view(),
            delay_period: self.delay_period,
        }
    }
}

impl Clone for ConnectionEnd {
    fn clone(&self) -> (copy: Self)
        ensures
            copy@ == self@,
    {
        ConnectionEnd {
            state: self.state,
            client_id: self.client_id.clone(),
            counterparty: self.counterparty.clone(),
            versions: clone_versions(&self.versions),
            delay_period: self.delay_period,
        }
    }
}

} // verus!
