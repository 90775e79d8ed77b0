//! A client for the DDP publish/subscribe-and-RPC protocol.
//!
//! The library holds the protocol's logic: the wire messages and their
//! mapping to JSON values, the slab that hands out call identifiers, and the
//! connection state machine that routes every frame.

pub mod text;
pub mod randomslab;
pub mod json;
pub mod wire;
pub mod protocol;
pub mod connection;

pub use connection::{Actor, MethodResult, Phase, Reaction, Request, RPCError, Termination};
pub use protocol::{ClientMessage, DecodeError, MethodResponse, ServerMessage, Timestamp};
pub use randomslab::Slab;

