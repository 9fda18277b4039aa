//! The names that most users of the library need, in one place.

pub use crate::condition::{AmqpCondition, AmqpErrorCondition, ConditionCategory};
pub use crate::connection::{Connection, ConnectionBuilder};
pub use crate::error::{AmqpError, AmqpResult};
pub use crate::link::{Link, LinkBuilder, Receiver, Sender};
pub use crate::message::{Body, Header, Message, MessageBuilder, Properties};
pub use crate::network::{NetworkBuilder, NetworkConfig, NetworkConnection, NetworkState};
pub use crate::session::{Session, SessionBuilder};
pub use crate::types::{
    AmqpList, AmqpMap, AmqpSymbol, AmqpValue, ReceiverSettleMode, SenderSettleMode,
};
