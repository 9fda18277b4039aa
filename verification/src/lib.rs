//! Core of an AMQP 1.0 client: the value codec, frames, and the
//! connection, session and link state machines.
//!
//! The codec is held to a mathematical statement of the wire format
//! (`wire`, `message_wire`), and the proofs that reading gives back what
//! was written are in `round_trip` and `message_round_trip`. The state
//! machines decide; reaching the peer is left to the caller, who is told
//! what to send and hands back the outcome.

pub mod text;
pub mod time;
pub mod condition;
pub mod error;
pub mod types;
pub mod ids;
pub mod message;
pub mod wire;
pub mod message_wire;
pub mod buffer;
pub mod codec;
pub mod round_trip;
pub mod message_round_trip;
pub mod transport;
pub mod connection;
pub mod link;
pub mod session;
pub mod network;
pub mod prelude;

pub use condition::{AmqpCondition, AmqpErrorCondition, ConditionCategory};
pub use connection::{Connection, ConnectionBuilder};
pub use error::{AmqpError, AmqpResult};
pub use link::{Link, LinkBuilder, Receiver, Sender};
pub use message::{Body, Header, Message, MessageBuilder, Properties};
pub use network::{NetworkBuilder, NetworkConfig, NetworkConnection, NetworkState};
pub use session::{Session, SessionBuilder};
pub use types::{
    AmqpList, AmqpMap, AmqpSymbol, AmqpValue, ReceiverSettleMode, SenderSettleMode,
    TerminusDurability, TerminusExpiryPolicy,
};
