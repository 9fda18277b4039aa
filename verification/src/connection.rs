//! Connections: the state of a connection to a peer, its configuration,
//! and the sessions on its channels. Reaching the peer is not done here:
//! `open` and `close` say what is to be done, and `opened` and `closed`
//! take the outcome.

use vstd::prelude::*;
use std::collections::HashMap;
use crate::error::{AmqpError, AmqpResult};
use crate::ids::{new_uuid_text, uuid_hyphenated};
use crate::text::{decimal, decimal_string, join};
use crate::time::Duration;
use crate::types::{with_entry, AmqpMap, AmqpSymbol, AmqpValue, ValueModel};

verus! {

/// The state of a connection.
#[derive(Debug, Clone, PartialEq)]
pub enum ConnectionState {
    /// Connection is being established.
    Opening,
    /// Connection is open and ready.
    Open,
    /// Connection is being closed.
    Closing,
    /// Connection is closed.
    Closed,
    /// Connection is in error state.
    Error(String),
}

/// The configuration of a connection.
#[derive(Debug)]
pub struct ConnectionConfig {
    /// Connection hostname.
    pub hostname: String,
    /// Connection port.
    pub port: u16,
    /// Connection timeout.
    pub timeout: Duration,
    /// Maximum frame size.
    pub max_frame_size: u32,
    /// Channel maximum.
    pub channel_max: u16,
    /// Idle timeout.
    pub idle_timeout: Duration,
    /// Container ID.
    pub container_id: String,
    /// Connection properties.
    pub properties: AmqpMap,
}

/// Model of the configuration of a connection.
pub struct ConnectionConfigModel {
    pub hostname: Seq<char>,
    pub port: u16,
    pub timeout: Duration,
    pub max_frame_size: u32,
    pub channel_max: u16,
    pub idle_timeout: Duration,
    pub container_id: Seq<char>,
    pub properties: Seq<(Seq<char>, ValueModel)>,
}

impl View for ConnectionConfig {
    type V = ConnectionConfigModel;

    open spec fn view(&self) -> ConnectionConfigModel {
        ConnectionConfigModel {
            hostname: self.hostname@,
            port: self.port,
            timeout: self.timeout,
            max_frame_size: self.max_frame_size,
            channel_max: self.channel_max,
            idle_timeout: self.idle_timeout,
            container_id: self.container_id@,
            properties: self.properties@,
        }
    }
}

impl ConnectionConfigModel {
    /// True of the configuration that a connection has where nothing is
    /// given: `localhost`, port 5672, 30 seconds to connect, frames of up
    /// to 65536 octets, channels up to 1000, no idle timeout, the
    /// container `dumq-amqp-client`, no properties.
    pub open spec fn is_standard(&self) -> bool {
        &&& self.hostname == "localhost"@
        &&& self.port == 5672
        &&& self.timeout.total_nanos() == 30 * 1_000_000_000
        &&& self.max_frame_size == 65536
        &&& self.channel_max == 1000
        &&& self.idle_timeout.total_nanos() == 0
        &&& self.container_id == "dumq-amqp-client"@
        &&& self.properties == Seq::<(Seq<char>, ValueModel)>::empty()
    }
}

impl Default for ConnectionConfig {
    fn default() -> (config: Self)
        ensures
            config@.is_standard(),
    {
        ConnectionConfig {
            hostname: "localhost".to_owned(),
            port: 5672,
            timeout: Duration::from_secs(30),
            max_frame_size: 65536,
            channel_max: 1000,
            idle_timeout: Duration::from_secs(0),
            container_id: "dumq-amqp-client".to_owned(),
            properties: AmqpMap::new(),
        }
    }
}

impl Clone for ConnectionConfig {
    fn clone(&self) -> (copy: Self)
        ensures
            copy@ == self@,
    {
        ConnectionConfig {
            hostname: self.hostname.clone(),
            port: self.port,
            timeout: self.timeout,
            max_frame_size: self.max_frame_size,
            channel_max: self.channel_max,
            idle_timeout: self.idle_timeout,
            container_id: self.container_id.clone(),
            properties: self.properties.clone(),
        }
    }
}

/// The state of a session as its connection keeps it.
#[derive(Debug, PartialEq)]
pub enum SessionState {
    /// Session is being established.
    Opening,
    /// Session is open and ready.
    Open,
    /// Session is being closed.
    Closing,
    /// Session is closed.
    Closed,
    /// Session is in error state.
    Error(String),
}

impl Clone for SessionState {
    fn clone(&self) -> (copy: Self)
        ensures
            copy == *self,
    {
        match self {
            SessionState::Opening => SessionState::Opening,
            SessionState::Open => SessionState::Open,
            SessionState::Closing => SessionState::Closing,
            SessionState::Closed => SessionState::Closed,
            SessionState::Error(reason) => SessionState::Error(reason.clone()),
        }
    }
}

/// A session as its connection keeps it: a channel, an identifier and a
/// state.
#[derive(Debug)]
pub struct Session {
    channel: u16,
    id: String,
    state: SessionState,
}

/// The identifier of a session: that of its connection, `-session-`, and
/// the channel number in decimal.
pub open spec fn session_id(connection_id: Seq<char>, channel: u16) -> Seq<char> {
    connection_id + "-session-"@ + decimal(channel as nat)
}

impl Session {
    /// The state of the session.
    pub closed spec fn current(&self) -> SessionState {
        self.state
    }

    /// The identifier of the session.
    pub closed spec fn identifier(&self) -> Seq<char> {
        self.id@
    }

    /// The channel of the session.
    pub closed spec fn channel_number(&self) -> u16 {
        self.channel
    }

    /// Create a new session, closed.
    pub fn new(channel: u16, connection_id: String) -> (session: Self)
        ensures
            session.current() is Closed,
            session.identifier() == session_id(connection_id@, channel),
            session.channel_number() == channel,
    {
        let head = join(connection_id.as_str(), "-session-");
        let number = decimal_string(channel as u32);
        let id = join(head.as_str(), number.as_str());
        Session { channel, id, state: SessionState::Closed }
    }

    /// Open the session. Only a closed session can be opened; in any
    /// other state the call fails with an invalid-state error and
    /// changes nothing.
    pub fn open(&mut self) -> (result: AmqpResult<()>)
        ensures
            final(self).identifier() == old(self).identifier(),
            final(self).channel_number() == old(self).channel_number(),
            old(self).current() is Closed ==> result is Ok && final(self).current() is Open,
            !(old(self).current() is Closed) ==> result is Err && result->Err_0 is InvalidState
                && result->Err_0->InvalidState_0@ == "Session is not in closed state"@ && final(self).current() == old(self).current(),
    {
        match self.state {
            SessionState::Closed => {},
            _ => {
                return Err(AmqpError::invalid_state("Session is not in closed state"));
            },
        }
        self.state = SessionState::Opening;
        self.state = SessionState::Open;
        Ok(())
    }

    /// Close the session. Only an open session can be closed; in any
    /// other state the call fails with an invalid-state error and
    /// changes nothing.
    pub fn close(&mut self) -> (result: AmqpResult<()>)
        ensures
            final(self).identifier() == old(self).identifier(),
            final(self).channel_number() == old(self).channel_number(),
            old(self).current() is Open ==> result is Ok && final(self).current() is Closed,
            !(old(self).current() is Open) ==> result is Err && result->Err_0 is InvalidState
                && result->Err_0->InvalidState_0@ == "Session is not open"@ && final(self).current() == old(self).current(),
    {
        match self.state {
            SessionState::Open => {},
            _ => {
                return Err(AmqpError::invalid_state("Session is not open"));
            },
        }
        self.state = SessionState::Closing;
        self.state = SessionState::Closed;
        Ok(())
    }

    /// Get session state.
    pub fn state(&self) -> (state: &SessionState)
        ensures
            *state == self.current(),
    {
        &self.state
    }

    /// Get session ID.
    pub fn id(&self) -> (id: &str)
        ensures
            id@ == self.identifier(),
    {
        self.id.as_str()
    }

    /// Get channel number.
    pub fn channel(&self) -> (channel: u16)
        ensures
            channel == self.channel_number(),
    {
        self.channel
    }
}

impl Clone for Session {
    fn clone(&self) -> (copy: Self)
        ensures
            copy == *self,
    {
        Session { channel: self.channel, id: self.id.clone(), state: self.state.clone() }
    }
}

/// What is to be done to open a connection: connect to `address` within
/// `timeout`, then send `header`.
#[derive(Debug)]
pub struct OpenPlan {
    /// The address to connect to: the hostname, a colon, the port.
    pub address: String,
    /// How long to wait for the connection.
    pub timeout: Duration,
    /// The protocol header to send once connected.
    pub header: Vec<u8>,
}

/// A connection.
pub struct Connection {
    state: ConnectionState,
    config: ConnectionConfig,
    id: String,
    next_channel: u16,
    sessions: HashMap<u16, Session>,
}

impl Connection {
    /// The state of the connection.
    pub closed spec fn current(&self) -> ConnectionState {
        self.state
    }

    /// The configuration of the connection.
    pub closed spec fn configuration(&self) -> ConnectionConfigModel {
        self.config@
    }

    /// The identifier of the connection.
    pub closed spec fn identifier(&self) -> Seq<char> {
        self.id@
    }

    /// The channel that the next session will get.
    pub closed spec fn channel_counter(&self) -> u16 {
        self.next_channel
    }

    /// The sessions of the connection, each under its channel.
    pub closed spec fn sessions(&self) -> Map<u16, Session> {
        self.sessions@
    }

    /// True when `other` differs from this connection in nothing but its
    /// state, its sessions and its channel counter.
    pub open spec fn same_connection(&self, other: &Connection) -> bool {
        &&& self.configuration() == other.configuration()
        &&& self.identifier() == other.identifier()
    }

    /// Create a new connection: closed, without sessions, under a fresh
    /// identifier, the text of a new random UUID.
    pub fn new(config: ConnectionConfig) -> (connection: Self)
        ensures
            connection.current() is Closed,
            connection.configuration() == config@,
            connection.channel_counter() == 0,
            connection.sessions() == Map::<u16, Session>::empty(),
            exists|bits: u128| connection.identifier() == uuid_hyphenated(bits),
            connection.identifier().len() == 36,
    {
        Connection {
            state: ConnectionState::Closed,
            config,
            id: new_uuid_text(),
            next_channel: 0,
            sessions: HashMap::new(),
        }
    }

    /// Starts to open the connection. Only a closed connection can be
    /// opened; in any other state the call fails with an invalid-state
    /// error and changes nothing. On success the connection is `Opening`
    /// and the plan says where to connect and what to send; `opened`
    /// takes the outcome.
    pub fn open(&mut self) -> (result: AmqpResult<OpenPlan>)
        ensures
            final(self).same_connection(old(self)),
            final(self).sessions() == old(self).sessions(),
            final(self).channel_counter() == old(self).channel_counter(),
            old(self).current() is Closed ==> {
                &&& result is Ok
                &&& final(self).current() is Opening
                &&& result->Ok_0.address@ == old(self).configuration().hostname + ":"@ + decimal(
                    old(self).configuration().port as nat,
                )
                &&& result->Ok_0.timeout == old(self).configuration().timeout
                &&& result->Ok_0.header@ == crate::transport::constants::AMQP_HEADER@
            },
            !(old(self).current() is Closed) ==> result is Err && result->Err_0 is InvalidState
                && result->Err_0->InvalidState_0@ == "Connection is not in closed state"@
                && final(self).current() == old(self).current(),
    {
        match self.state {
            ConnectionState::Closed => {},
            _ => {
                return Err(AmqpError::invalid_state("Connection is not in closed state"));
            },
        }
        self.state = ConnectionState::Opening;
        let host = join(self.config.hostname.as_str(), ":");
        let port = decimal_string(self.config.port as u32);
        Ok(
            OpenPlan {
                address: join(host.as_str(), port.as_str()),
                timeout: self.config.timeout,
                header: crate::transport::ProtocolNegotiator::amqp_header(),
            },
        )
    }

    /// Takes the outcome of opening. Where the peer was reached and the
    /// header sent, the connection is open. Where that failed, the
    /// connection is closed again and the failure is handed on. A
    /// connection that is not `Opening` is left as it is, with an
    /// invalid-state error.
    pub fn opened(&mut self, outcome: AmqpResult<()>) -> (result: AmqpResult<()>)
        ensures
            final(self).same_connection(old(self)),
            final(self).sessions() == old(self).sessions(),
            final(self).channel_counter() == old(self).channel_counter(),
            old(self).current() is Opening ==> (match outcome {
                Ok(_) => result is Ok && final(self).current() is Open,
                Err(e) => result is Err && result->Err_0 == e && final(self).current() is Closed,
            }),
            !(old(self).current() is Opening) ==> result is Err && result->Err_0 is InvalidState
                && final(self).current() == old(self).current(),
    {
        match self.state {
            ConnectionState::Opening => {},
            _ => {
                return Err(AmqpError::invalid_state("Connection is not being opened"));
            },
        }
        match outcome {
            Ok(()) => {
                self.state = ConnectionState::Open;
                Ok(())
            },
            Err(e) => {
                self.state = ConnectionState::Closed;
                Err(e)
            },
        }
    }

    /// Starts to close the connection. Only an open connection can be
    /// closed; in any other state the call fails with an invalid-state
    /// error and changes nothing. Closing closes every session, once
    /// each and in the order of the channels, and lets go of them all; a
    /// session that cannot be closed does not stop the others. On
    /// success the connection is `Closing` and the stream is to be shut
    /// down; `closed` takes the outcome.
    pub fn close(&mut self) -> (result: AmqpResult<()>)
        ensures
            final(self).same_connection(old(self)),
            final(self).channel_counter() == old(self).channel_counter(),
            old(self).current() is Open ==> result is Ok && final(self).current() is Closing
                && final(self).sessions() == Map::<u16, Session>::empty(),
            !(old(self).current() is Open) ==> result is Err && result->Err_0 is InvalidState
                && result->Err_0->InvalidState_0@ == "Connection is not open"@ && final(self).current() == old(self).current() && final(self).sessions() == old(self).sessions(),
    {
        match self.state {
            ConnectionState::Open => {},
            _ => {
                return Err(AmqpError::invalid_state("Connection is not open"));
            },
        }
        broadcast use vstd::std_specs::hash::group_hash_axioms;

        self.state = ConnectionState::Closing;
        let mut channel: u16 = 0;
        loop
            invariant
                self.state is Closing,
                self.same_connection(old(self)),
                self.next_channel == old(self).channel_counter(),
                forall|taken: u16| taken < channel ==> !self.sessions@.contains_key(taken),
            ensures
                forall|taken: u16| !self.sessions@.contains_key(taken),
            decreases u16::MAX - channel,
        {
            match self.sessions.remove(&channel) {
                Some(session) => {
                    let mut session = session;
                    let _ = session.close();
                },
                None => {},
            }
            if channel == u16::MAX {
                break ;
            }
            channel = channel + 1;
        }
        assert(self.sessions@ =~= Map::<u16, Session>::empty());
        Ok(())
    }

    /// Takes the outcome of shutting the stream down. Where that went
    /// well the connection is closed. Where it failed the connection
    /// stays `Closing` and the failure is handed on. A connection that is
    /// not `Closing` is left as it is, with an invalid-state error.
    pub fn closed(&mut self, outcome: AmqpResult<()>) -> (result: AmqpResult<()>)
        ensures
            final(self).same_connection(old(self)),
            final(self).sessions() == old(self).sessions(),
            final(self).channel_counter() == old(self).channel_counter(),
            old(self).current() is Closing ==> (match outcome {
                Ok(_) => result is Ok && final(self).current() is Closed,
                Err(e) => result is Err && result->Err_0 == e && final(self).current() is Closing,
            }),
            !(old(self).current() is Closing) ==> result is Err && result->Err_0 is InvalidState
                && final(self).current() == old(self).current(),
    {
        match self.state {
            ConnectionState::Closing => {},
            _ => {
                return Err(AmqpError::invalid_state("Connection is not being closed"));
            },
        }
        match outcome {
            Ok(()) => {
                self.state = ConnectionState::Closed;
                Ok(())
            },
            Err(e) => Err(e),
        }
    }

    /// Create a new session on the next channel. The connection must be
    /// open, else the call fails with an invalid-state error and changes
    /// nothing. Channels count up from 0 and start again at 0 after
    /// 65535; a session on a channel that is taken once more replaces the
    /// earlier one.
    pub fn create_session(&mut self) -> (result: AmqpResult<Session>)
        ensures
            final(self).same_connection(old(self)),
            final(self).current() == old(self).current(),
            old(self).current() is Open ==> {
                &&& result is Ok
                &&& result->Ok_0.current() is Closed
                &&& result->Ok_0.channel_number() == old(self).channel_counter()
                &&& result->Ok_0.identifier() == session_id(
                    old(self).identifier(),
                    old(self).channel_counter(),
                )
                &&& final(self).channel_counter() == (if old(self).channel_counter() == u16::MAX {
                    0u16
                } else {
                    (old(self).channel_counter() + 1) as u16
                })
                &&& final(self).sessions() == old(self).sessions().insert(
                    old(self).channel_counter(),
                    result->Ok_0,
                )
            },
            !(old(self).current() is Open) ==> result is Err && result->Err_0 is InvalidState
                && result->Err_0->InvalidState_0@ == "Connection is not open"@ && final(self).sessions() == old(self).sessions() && final(self).channel_counter() == old(self).channel_counter(),
    {
        match self.state {
            ConnectionState::Open => {},
            _ => {
                return Err(AmqpError::invalid_state("Connection is not open"));
            },
        }
        broadcast use vstd::std_specs::hash::group_hash_axioms;

        let channel = self.next_channel;
        self.next_channel = self.next_channel.wrapping_add(1);
        let session = Session::new(channel, self.id.clone());
        self.sessions.insert(channel, session.clone());
        Ok(session)
    }

    /// Get connection state.
    pub fn state(&self) -> (state: &ConnectionState)
        ensures
            *state == self.current(),
    {
        &self.state
    }

    /// Get connection ID.
    pub fn id(&self) -> (id: &str)
        ensures
            id@ == self.identifier(),
    {
        self.id.as_str()
    }

    /// Get the configuration of the connection.
    pub fn config(&self) -> (config: &ConnectionConfig)
        ensures
            config@ == self.configuration(),
    {
        &self.config
    }

    /// The channel that the next session will get.
    pub fn next_channel(&self) -> (channel: u16)
        ensures
            channel == self.channel_counter(),
    {
        self.next_channel
    }

    /// The number of sessions of the connection.
    pub fn session_count(&self) -> (count: usize)
        ensures
            count == self.sessions().len(),
    {
        broadcast use vstd::std_specs::hash::group_hash_axioms;

        self.sessions.len()
    }
}

/// Puts the configuration of a connection together, and builds the
/// connection.
#[derive(Debug, Clone)]
pub struct ConnectionBuilder {
    config: ConnectionConfig,
}

impl View for ConnectionBuilder {
    type V = ConnectionConfigModel;

    /// The configuration as built so far.
    closed spec fn view(&self) -> ConnectionConfigModel {
        self.config@
    }
}

impl ConnectionBuilder {
    /// Create a new connection builder, with the standard configuration.
    pub fn new() -> (builder: Self)
        ensures
            builder@.is_standard(),
    {
        ConnectionBuilder { config: ConnectionConfig::default() }
    }

    /// The configuration as built so far.
    pub fn config(&self) -> (config: &ConnectionConfig)
        ensures
            config@ == self@,
    {
        &self.config
    }

    /// Set the hostname.
    pub fn hostname(self, hostname: &str) -> (builder: Self)
        ensures
            builder@ == (ConnectionConfigModel { hostname: hostname@, ..self@ }),
    {
        let mut config = self.config;
        config.hostname = hostname.to_owned();
        ConnectionBuilder { config }
    }

    /// Set the port.
    pub fn port(self, port: u16) -> (builder: Self)
        ensures
            builder@ == (ConnectionConfigModel { port, ..self@ }),
    {
        let mut config = self.config;
        config.port = port;
        ConnectionBuilder { config }
    }

    /// Set the connection timeout.
    pub fn timeout(self, timeout: Duration) -> (builder: Self)
        ensures
            builder@ == (ConnectionConfigModel { timeout, ..self@ }),
    {
        let mut config = self.config;
        config.timeout = timeout;
        ConnectionBuilder { config }
    }

    /// Set the maximum frame size.
    pub fn max_frame_size(self, max_frame_size: u32) -> (builder: Self)
        ensures
            builder@ == (ConnectionConfigModel { max_frame_size, ..self@ }),
    {
        let mut config = self.config;
        config.max_frame_size = max_frame_size;
        ConnectionBuilder { config }
    }

    /// Set the channel maximum.
    pub fn channel_max(self, channel_max: u16) -> (builder: Self)
        ensures
            builder@ == (ConnectionConfigModel { channel_max, ..self@ }),
    {
        let mut config = self.config;
        config.channel_max = channel_max;
        ConnectionBuilder { config }
    }

    /// Set the idle timeout.
    pub fn idle_timeout(self, idle_timeout: Duration) -> (builder: Self)
        ensures
            builder@ == (ConnectionConfigModel { idle_timeout, ..self@ }),
    {
        let mut config = self.config;
        config.idle_timeout = idle_timeout;
        ConnectionBuilder { config }
    }

    /// Set the container ID.
    pub fn container_id(self, container_id: &str) -> (builder: Self)
        ensures
            builder@ == (ConnectionConfigModel { container_id: container_id@, ..self@ }),
    {
        let mut config = self.config;
        config.container_id = container_id.to_owned();
        ConnectionBuilder { config }
    }

    /// Add a connection property.
    pub fn property(self, key: &str, value: AmqpValue) -> (builder: Self)
        ensures
            builder@ == (ConnectionConfigModel {
                properties: with_entry(self@.properties, key@, value@),
                ..self@
            }),
    {
        let mut config = self.config;
        config.properties.insert(AmqpSymbol(key.to_owned()), value);
        ConnectionBuilder { config }
    }

    /// Build the connection: closed, with the configuration that was
    /// built.
    pub fn build(self) -> (connection: Connection)
        ensures
            connection.current() is Closed,
            connection.configuration() == self@,
            connection.channel_counter() == 0,
            connection.sessions() == Map::<u16, Session>::empty(),
            exists|bits: u128| connection.identifier() == uuid_hyphenated(bits),
            connection.identifier().len() == 36,
    {
        Connection::new(self.config)
    }
}

impl Default for ConnectionBuilder {
    fn default() -> (builder: Self)
        ensures
            builder@.is_standard(),
    {
        ConnectionBuilder::new()
    }
}

/// Builds a session as its connection keeps it.
#[derive(Debug, Clone)]
pub struct SessionBuilder {
    pub channel: u16,
}

impl SessionBuilder {
    /// Create a new session builder for the given channel.
    pub fn new(channel: u16) -> (builder: Self)
        ensures
            builder.channel == channel,
    {
        SessionBuilder { channel }
    }

    /// Build the session, closed.
    pub fn build(self, connection_id: String) -> (session: Session)
        ensures
            session.current() is Closed,
            session.identifier() == session_id(connection_id@, self.channel),
            session.channel_number() == self.channel,
    {
        Session::new(self.channel, connection_id)
    }
}

} // verus!
