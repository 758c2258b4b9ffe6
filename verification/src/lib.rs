//! Passive reconstruction of a layered peer-to-peer wire protocol from
//! captured byte streams.
//!
//! Captured traffic arrives as directed byte chunks, already split by
//! connection and direction.  A chain of stateful handlers strips the
//! obfuscation layer, performs the handshake and decrypts transport
//! frames, follows the protocol negotiation, demultiplexes logical
//! sub-streams and finally parses application messages, which are
//! handed out as structured records.  A failure in one stream's chain
//! never affects any other stream.

pub mod absorb;
pub mod accumulator;
pub mod cipher;
pub mod connection;
pub mod error;
pub mod mina_protocol;
pub mod mplex;
pub mod multistream_select;
pub mod ids;
pub mod noise;
pub mod mux;
pub mod pnet;
pub mod proc;
pub mod wire;
pub mod yamux;

pub use connection::{Chain, Cx, DynamicProtocol, HandleData, Registry};
pub use error::{DecodeError, ParseFault};
pub use ids::{Direction, StreamId, DirectedId, SubStream};
pub use mina_protocol::{AppDecoder, Message, Record};
pub use proc::S;
