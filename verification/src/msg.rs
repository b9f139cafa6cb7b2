//! The message that asks to open a connection.

use vstd::prelude::*;
use crate::connection::{
    ConnectionEnd, ConnectionEndView, ConnectionState, Counterparty, CounterpartyView,
};
use crate::version::{clone_versions, ProtocolVersion, ProtocolVersionView};

verus! {

/// An open-init message as a mathematical value.
pub struct MsgConnectionOpenInitView {
    pub client_id: Seq<char>,
    pub counterparty: CounterpartyView,
    pub versions: Seq<ProtocolVersionView>,
    pub delay_period: u64,
}

/// Asks this chain to start a connection handshake over one of its clients.
#[derive(Debug, PartialEq, Eq)]
pub struct MsgConnectionOpenInit {
    /// The local client the connection is to run over.
    pub client_id: String,
    /// The remote side.
    pub counterparty: Counterparty,
    /// The versions the sender proposes.
    pub versions: Vec<ProtocolVersion>,
    /// The delay before the connection may be used, in nanoseconds.
    pub delay_period: u64,
}

impl View for MsgConnectionOpenInit {
    type V = MsgConnectionOpenInitView;

    open spec fn view(&self) -> MsgConnectionOpenInitView {
        MsgConnectionOpenInitView {
            client_id: self.client_id@,
            counterparty: self.counterparty@,
            versions: self.versions.deep_view(),
            delay_period: self.delay_period,
        }
    }
}

impl Clone for MsgConnectionOpenInit {
    fn clone(&self) -> (copy: Self)
        ensures
            copy@ == self@,
    {
        MsgConnectionOpenInit {
            client_id: self.client_id.clone(),
            counterparty: self.counterparty.clone(),
            versions: clone_versions(&self.versions),
            delay_period: self.delay_period,
        }
    }
}

/// The connection end that a message opens: in state `Init`, with the
/// message's client, counterparty, proposed versions and delay unchanged.
pub open spec fn init_end(msg: MsgConnectionOpenInitView) -> ConnectionEndView {
    ConnectionEndView {
        state: ConnectionState::Init,
        client_id: msg.client_id,
        counterparty: msg.counterparty,
        versions: msg.versions,
        delay_period: msg.delay_period,
    }
}

impl MsgConnectionOpenInit {
    /// The connection end this message opens.
    pub fn to_connection_end(&self) -> (end: ConnectionEnd)
        ensures
            end@ == init_end(self@),
    {
        ConnectionEnd {
            state: ConnectionState::Init,
            client_id: self.client_id.clone(),
            counterparty: self.counterparty.clone(),
            versions: clone_versions(&self.versions),
            delay_period: self.delay_period,
        }
    }
}

} // verus!
