//! Transactional handling of the connection handshake's opening step.
//!
//! A transaction is an ordered list of actions. Every action is checked
//! without state, then checked against one read-only snapshot, and only when
//! every action passed both checks are the actions executed, in order, against
//! one state transaction that is committed as a whole or not at all.

pub mod action_handler;
pub mod client;
pub mod connection;
pub mod connection_open_init;
pub mod error;
pub mod execution;
pub mod identifier;
pub mod laws;
pub mod msg;
pub mod pipeline;
pub mod policy;
pub mod state;
pub mod stateful;
pub mod stateless;
mod table;
pub mod transaction;
pub mod version;
