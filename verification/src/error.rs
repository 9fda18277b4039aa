//! The errors of the library: one kind for each layer that can fail, and
//! the structured error that carries a condition reported by a peer.

use vstd::prelude::*;
use crate::condition::AmqpCondition;
use crate::text::join;

verus! {

/// An I/O error of std, `std::io::Error`. It is carried, never looked
/// into.
#[verifier::external_type_specification]
#[verifier::external_body]
pub struct ExIoError(std::io::Error);

/// A serialization error, `serde_json::Error`. It is carried, never
/// looked into.
#[verifier::external_type_specification]
#[verifier::external_body]
pub struct ExJsonError(serde_json::Error);

/// What went wrong, by layer.
#[derive(Debug)]
pub enum AmqpError {
    Connection(String),
    Session(String),
    Link(String),
    Transport(String),
    Encoding(String),
    Decoding(String),
    Protocol(String),
    Timeout(String),
    Io(std::io::Error),
    Serialization(serde_json::Error),
    InvalidState(String),
    NotImplemented(String),
    /// A failure that the peer reported, with its condition.
    AmqpProtocol { condition: AmqpCondition, description: String },
}

/// Result type of the library's operations.
pub type AmqpResult<T> = Result<T, AmqpError>;

/// `Display` of `std::io::Error`: the text that describes the error.
#[verifier::external_body]
fn io_error_text(error: &std::io::Error) -> String {
    error.to_string()
}

/// `Display` of `serde_json::Error`: the text that describes the error.
#[verifier::external_body]
fn json_error_text(error: &serde_json::Error) -> String {
    error.to_string()
}

impl AmqpError {
    /// The text that every message of this kind of error starts with; for
    /// an error reported by the peer, the text before its condition.
    pub open spec fn prefix(&self) -> Seq<char> {
        match self {
            AmqpError::Connection(_) => "Connection error: "@,
            AmqpError::Session(_) => "Session error: "@,
            AmqpError::Link(_) => "Link error: "@,
            AmqpError::Transport(_) => "Transport error: "@,
            AmqpError::Encoding(_) => "Encoding error: "@,
            AmqpError::Decoding(_) => "Decoding error: "@,
            AmqpError::Protocol(_) => "Protocol error: "@,
            AmqpError::Timeout(_) => "Timeout error: "@,
            AmqpError::Io(_) => "IO error: "@,
            AmqpError::Serialization(_) => "Serialization error: "@,
            AmqpError::InvalidState(_) => "Invalid state: "@,
            AmqpError::NotImplemented(_) => "Not implemented: "@,
            AmqpError::AmqpProtocol { .. } => "AMQP error: "@,
        }
    }

    /// The short name of the kind of error; for an error reported by the
    /// peer, the text of its condition.
    pub open spec fn code_name(&self) -> Seq<char> {
        match self {
            AmqpError::Connection(_) => "connection-error"@,
            AmqpError::Session(_) => "session-error"@,
            AmqpError::Link(_) => "link-error"@,
            AmqpError::Transport(_) => "transport-error"@,
            AmqpError::Encoding(_) => "encoding-error"@,
            AmqpError::Decoding(_) => "decoding-error"@,
            AmqpError::Protocol(_) => "protocol-error"@,
            AmqpError::Timeout(_) => "timeout-error"@,
            AmqpError::Io(_) => "io-error"@,
            AmqpError::Serialization(_) => "serialization-error"@,
            AmqpError::InvalidState(_) => "invalid-state-error"@,
            AmqpError::NotImplemented(_) => "not-implemented-error"@,
            AmqpError::AmqpProtocol { condition, .. } => condition.name(),
        }
    }

    /// The message that the error carries, for the kinds that carry one.
    pub open spec fn message(&self) -> Option<Seq<char>> {
        match self {
            AmqpError::Connection(m) => Some(m@),
            AmqpError::Session(m) => Some(m@),
            AmqpError::Link(m) => Some(m@),
            AmqpError::Transport(m) => Some(m@),
            AmqpError::Encoding(m) => Some(m@),
            AmqpError::Decoding(m) => Some(m@),
            AmqpError::Protocol(m) => Some(m@),
            AmqpError::Timeout(m) => Some(m@),
            AmqpError::InvalidState(m) => Some(m@),
            AmqpError::NotImplemented(m) => Some(m@),
            AmqpError::AmqpProtocol { condition, description } => Some(
                condition.name() + " - "@ + description@,
            ),
            _ => None,
        }
    }

    /// Create a connection error.
    pub fn connection(msg: &str) -> (error: Self)
        ensures
            error is Connection,
            error->Connection_0@ == msg@,
    {
        AmqpError::Connection(msg.to_owned())
    }

    /// Create a session error.
    pub fn session(msg: &str) -> (error: Self)
        ensures
            error is Session,
            error->Session_0@ == msg@,
    {
        AmqpError::Session(msg.to_owned())
    }

    /// Create a link error.
    pub fn link(msg: &str) -> (error: Self)
        ensures
            error is Link,
            error->Link_0@ == msg@,
    {
        AmqpError::Link(msg.to_owned())
    }

    /// Create a transport error.
    pub fn transport(msg: &str) -> (error: Self)
        ensures
            error is Transport,
            error->Transport_0@ == msg@,
    {
        AmqpError::Transport(msg.to_owned())
    }

    /// Create an encoding error.
    pub fn encoding(msg: &str) -> (error: Self)
        ensures
            error is Encoding,
            error->Encoding_0@ == msg@,
    {
        AmqpError::Encoding(msg.to_owned())
    }

    /// Create a decoding error.
    pub fn decoding(msg: &str) -> (error: Self)
        ensures
            error is Decoding,
            error->Decoding_0@ == msg@,
    {
        AmqpError::Decoding(msg.to_owned())
    }

    /// Create a protocol error.
    pub fn protocol(msg: &str) -> (error: Self)
        ensures
            error is Protocol,
            error->Protocol_0@ == msg@,
    {
        AmqpError::Protocol(msg.to_owned())
    }

    /// Create a timeout error.
    pub fn timeout(msg: &str) -> (error: Self)
        ensures
            error is Timeout,
            error->Timeout_0@ == msg@,
    {
        AmqpError::Timeout(msg.to_owned())
    }

    /// Create an invalid state error.
    pub fn invalid_state(msg: &str) -> (error: Self)
        ensures
            error is InvalidState,
            error->InvalidState_0@ == msg@,
    {
        AmqpError::InvalidState(msg.to_owned())
    }

    /// Create a not implemented error.
    pub fn not_implemented(msg: &str) -> (error: Self)
        ensures
            error is NotImplemented,
            error->NotImplemented_0@ == msg@,
    {
        AmqpError::NotImplemented(msg.to_owned())
    }

    /// Create an error that carries a condition reported by the peer.
    pub fn amqp_protocol(condition: AmqpCondition, description: &str) -> (error: Self)
        ensures
            error is AmqpProtocol,
            error->condition == condition,
            error->description@ == description@,
    {
        AmqpError::AmqpProtocol { condition, description: description.to_owned() }
    }

    /// Get the condition if this is an error reported by the peer.
    pub fn condition(&self) -> (found: Option<&AmqpCondition>)
        ensures
            found is Some <==> self is AmqpProtocol,
            found is Some ==> *found->0 == self->condition,
    {
        match self {
            AmqpError::AmqpProtocol { condition, .. } => Some(condition),
            _ => None,
        }
    }

    /// Get the error code as a string.
    pub fn error_code(&self) -> (code: &str)
        ensures
            code@ == self.code_name(),
    {
        match self {
            AmqpError::Connection(_) => "connection-error",
            AmqpError::Session(_) => "session-error",
            AmqpError::Link(_) => "link-error",
            AmqpError::Transport(_) => "transport-error",
            AmqpError::Encoding(_) => "encoding-error",
            AmqpError::Decoding(_) => "decoding-error",
            AmqpError::Protocol(_) => "protocol-error",
            AmqpError::Timeout(_) => "timeout-error",
            AmqpError::Io(_) => "io-error",
            AmqpError::Serialization(_) => "serialization-error",
            AmqpError::InvalidState(_) => "invalid-state-error",
            AmqpError::NotImplemented(_) => "not-implemented-error",
            AmqpError::AmqpProtocol { condition, .. } => condition.as_str(),
        }
    }

    /// The numeric code: that of the condition for an error reported by
    /// the peer, 500 for every other error.
    pub fn error_code_num(&self) -> (code: u16)
        ensures
            code == if self is AmqpProtocol {
                self->condition.code()
            } else {
                500u16
            },
    {
        match self {
            AmqpError::AmqpProtocol { condition, .. } => condition.code_num(),
            _ => 500,
        }
    }

    /// The error as text: the prefix of its kind, then its message. For an
    /// I/O or serialization error the message is the text of the error
    /// that was wrapped.
    pub fn to_string(&self) -> (text: String)
        ensures
            match self.message() {
                Some(m) => text@ == self.prefix() + m,
                None => self.prefix().is_prefix_of(text@),
            },
    {
        match self {
            AmqpError::Connection(m) => join("Connection error: ", m.as_str()),
            AmqpError::Session(m) => join("Session error: ", m.as_str()),
            AmqpError::Link(m) => join("Link error: ", m.as_str()),
            AmqpError::Transport(m) => join("Transport error: ", m.as_str()),
            AmqpError::Encoding(m) => join("Encoding error: ", m.as_str()),
            AmqpError::Decoding(m) => join("Decoding error: ", m.as_str()),
            AmqpError::Protocol(m) => join("Protocol error: ", m.as_str()),
            AmqpError::Timeout(m) => join("Timeout error: ", m.as_str()),
            AmqpError::Io(e) => {
                let detail = io_error_text(e);
                join("IO error: ", detail.as_str())
            },
            AmqpError::Serialization(e) => {
                let detail = json_error_text(e);
                join("Serialization error: ", detail.as_str())
            },
            AmqpError::InvalidState(m) => join("Invalid state: ", m.as_str()),
            AmqpError::NotImplemented(m) => join("Not implemented: ", m.as_str()),
            AmqpError::AmqpProtocol { condition, description } => {
                let head = join("AMQP error: ", condition.as_str());
                let middle = join(head.as_str(), " - ");
                let text = join(middle.as_str(), description.as_str());
                assert(text@ =~= "AMQP error: "@ + (condition.name() + " - "@ + description@));
                text
            },
        }
    }
}

impl From<std::io::Error> for AmqpError {
    fn from(error: std::io::Error) -> (wrapped: Self)
        ensures
            wrapped == AmqpError::Io(error),
    {
        AmqpError::Io(error)
    }
}

impl vstd::std_specs::convert::FromSpecImpl<std::io::Error> for AmqpError {
    open spec fn obeys_from_spec() -> bool {
        true
    }

    open spec fn from_spec(error: std::io::Error) -> Self {
        AmqpError::Io(error)
    }
}

impl From<serde_json::Error> for AmqpError {
    fn from(error: serde_json::Error) -> (wrapped: Self)
        ensures
            wrapped == AmqpError::Serialization(error),
    {
        AmqpError::Serialization(error)
    }
}

impl vstd::std_specs::convert::FromSpecImpl<serde_json::Error> for AmqpError {
    open spec fn obeys_from_spec() -> bool {
        true
    }

    open spec fn from_spec(error: serde_json::Error) -> Self {
        AmqpError::Serialization(error)
    }
}

} // verus!
