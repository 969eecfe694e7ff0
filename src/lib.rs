//! Peer-to-peer file distribution: a discovery registry that maps files to
//! the peers serving them, the negotiation state machine of one session, the
//! managers that own the sessions of each role, and the chunked transfer of
//! file bytes over an open channel.

pub mod cli;
pub mod engine;
pub mod entities;
pub mod errors;
pub mod ids;
pub mod registry;
pub mod session;
pub mod sink;
pub mod source;
pub mod table;
pub mod transfer;
