//! The network connection: the state of the link to the peer from the
//! first attempt to connect to the last frame, the frames that open and
//! close it, and the channel counter. Reaching the peer is not done here:
//! each step says what is to be sent, and takes the outcome.

use vstd::prelude::*;
use vstd::string::*;
use vstd::utf8::encode_utf8;
use crate::codec::{Decoder, Encoder};
use crate::error::{AmqpError, AmqpResult};
use crate::ids::{new_uuid_text, uuid_hyphenated};
use crate::message::Message;
use crate::message_wire::{message_fits, whole_message, wire_message};
use crate::text::join;
use crate::time::{elapsed_since, instant_now, Duration};
use crate::transport::{
    parse_frame_header, wire_frame_header, Frame, FrameHeader, FrameType, ProtocolNegotiator,
    TransportBuilder,
};
use crate::types::{with_entry, AmqpMap, AmqpSymbol, AmqpValue, ValueModel};
use crate::wire::{fits, wire_value};

verus! {

/// The state of a network connection.
#[derive(Debug, Clone, PartialEq)]
pub enum NetworkState {
    /// Not connected.
    Disconnected,
    /// Connecting to remote host.
    Connecting,
    /// Connected but protocol not negotiated.
    Connected,
    /// Protocol negotiated and ready.
    Ready,
    /// Connection is closing.
    Closing,
    /// Connection is closed.
    Closed,
    /// Connection is in error state.
    Error(String),
}

/// The configuration of a network connection.
#[derive(Debug)]
pub struct NetworkConfig {
    /// Remote hostname.
    pub hostname: String,
    /// Remote port.
    pub port: u16,
    /// Connection timeout.
    pub timeout: Duration,
    /// Keep-alive interval.
    pub keep_alive: Duration,
    /// Maximum frame size.
    pub max_frame_size: u32,
    /// Channel maximum.
    pub channel_max: u16,
    /// Idle timeout.
    pub idle_timeout: Duration,
    /// Container ID.
    pub container_id: String,
    /// Connection properties.
    pub properties: AmqpMap,
}

/// Model of the configuration of a network connection.
pub struct NetworkConfigModel {
    pub hostname: Seq<char>,
    pub port: u16,
    pub timeout: Duration,
    pub keep_alive: Duration,
    pub max_frame_size: u32,
    pub channel_max: u16,
    pub idle_timeout: Duration,
    pub container_id: Seq<char>,
    pub properties: Seq<(Seq<char>, ValueModel)>,
}

impl View for NetworkConfig {
    type V = NetworkConfigModel;

    open spec fn view(&self) -> NetworkConfigModel {
        NetworkConfigModel {
            hostname: self.hostname@,
            port: self.port,
            timeout: self.timeout,
            keep_alive: self.keep_alive,
            max_frame_size: self.max_frame_size,
            channel_max: self.channel_max,
            idle_timeout: self.idle_timeout,
            container_id: self.container_id@,
            properties: self.properties@,
        }
    }
}

impl NetworkConfigModel {
    /// True of the configuration that a network connection has where
    /// nothing is given: `localhost`, port 5672, 30 seconds to connect, a
    /// keep-alive and an idle timeout of 60 seconds each, frames of up to
    /// 65536 octets, channels up to 1000, no properties, and a container
    /// named `dumq-amqp-` and the first eight characters of the text of a
    /// UUID.
    pub open spec fn is_standard(&self) -> bool {
        &&& self.hostname == "localhost"@
        &&& self.port == 5672
        &&& self.timeout.total_nanos() == 30 * 1_000_000_000
        &&& self.keep_alive.total_nanos() == 60 * 1_000_000_000
        &&& self.max_frame_size == 65536
        &&& self.channel_max == 1000
        &&& self.idle_timeout.total_nanos() == 60 * 1_000_000_000
        &&& exists|bits: u128|
            self.container_id == "dumq-amqp-"@ + uuid_hyphenated(bits).subrange(0, 8)
        &&& self.properties == Seq::<(Seq<char>, ValueModel)>::empty()
    }
}

/// `prefix` and the first eight characters of the text of a fresh random
/// UUID.
fn fresh_name(prefix: &str) -> (name: String)
    ensures
        exists|bits: u128| name@ == prefix@ + uuid_hyphenated(bits).subrange(0, 8),
        name@.len() == prefix@.len() + 8,
{
    let text = new_uuid_text();
    let ghost bits = choose|bits: u128| text@ == uuid_hyphenated(bits);
    let short = text.as_str().substring_char(0, 8);
    let name = join(prefix, short);
    assert(name@ == prefix@ + uuid_hyphenated(bits).subrange(0, 8));
    name
}

impl Default for NetworkConfig {
    fn default() -> (config: Self)
        ensures
            config@.is_standard(),
    {
        NetworkConfig {
            hostname: "localhost".to_owned(),
            port: 5672,
            timeout: Duration::from_secs(30),
            keep_alive: Duration::from_secs(60),
            max_frame_size: 65536,
            channel_max: 1000,
            idle_timeout: Duration::from_secs(60),
            container_id: fresh_name("dumq-amqp-"),
            properties: AmqpMap::new(),
        }
    }
}

impl Clone for NetworkConfig {
    fn clone(&self) -> (copy: Self)
        ensures
            copy@ == self@,
    {
        NetworkConfig {
            hostname: self.hostname.clone(),
            port: self.port,
            timeout: self.timeout,
            keep_alive: self.keep_alive,
            max_frame_size: self.max_frame_size,
            channel_max: self.channel_max,
            idle_timeout: self.idle_timeout,
            container_id: self.container_id.clone(),
            properties: self.properties.clone(),
        }
    }
}

/// The idle timeout in milliseconds as the Open frame carries it: the
/// largest number that four octets hold where the timeout is longer.
pub open spec fn idle_millis(idle_timeout: Duration) -> u32 {
    if idle_timeout.millis() > u32::MAX {
        u32::MAX
    } else {
        idle_timeout.millis() as u32
    }
}

/// The payload of the frame that opens a connection: the container id,
/// the hostname, the maximum frame size, the channel maximum, the idle
/// timeout in milliseconds, the properties, and two empty lists for the
/// capabilities offered and desired, each as a value, one after the
/// other.
pub open spec fn open_payload(config: NetworkConfigModel) -> Seq<u8> {
    wire_value(ValueModel::String(config.container_id)) + wire_value(
        ValueModel::String(config.hostname),
    ) + wire_value(ValueModel::Uint(config.max_frame_size)) + wire_value(
        ValueModel::Ushort(config.channel_max),
    ) + wire_value(ValueModel::Uint(idle_millis(config.idle_timeout))) + wire_value(
        ValueModel::Mapping(config.properties),
    ) + wire_value(ValueModel::List(Seq::empty())) + wire_value(ValueModel::List(Seq::empty()))
}

/// The payload of the frame that opens a connection can be written where
/// its texts and its properties fit their length prefixes and the whole
/// fits the size of a frame.
pub open spec fn open_fits(config: NetworkConfigModel) -> bool {
    &&& encode_utf8(config.container_id).len() <= u32::MAX
    &&& encode_utf8(config.hostname).len() <= u32::MAX
    &&& fits(ValueModel::Mapping(config.properties))
    &&& open_payload(config).len() <= u32::MAX
}

/// The payload of the frame that closes a connection: an empty condition
/// and an empty description, each as a string.
pub open spec fn close_payload() -> Seq<u8> {
    wire_value(ValueModel::String(Seq::empty())) + wire_value(ValueModel::String(Seq::empty()))
}

/// An AMQP frame on `channel` with the given payload, where the payload
/// fits the size of a frame.
fn amqp_frame(channel: u16, payload: Vec<u8>) -> (result: AmqpResult<Frame>)
    ensures
        result is Ok <==> payload@.len() <= u32::MAX,
        result is Ok ==> result->Ok_0.header == (FrameHeader {
            size: payload@.len() as u32,
            data_offset: 2,
            frame_type: 0,
            channel,
        }) && result->Ok_0.payload == payload,
        result is Err ==> result->Err_0 is Encoding,
{
    if payload.len() > 0xffff_ffff {
        return Err(AmqpError::encoding("Payload does not fit in a frame"));
    }
    let header = FrameHeader::new(payload.len() as u32, FrameType::AMQP.code(), channel);
    Ok(Frame::new(header, payload))
}

/// The frame that opens a connection with the given configuration, on
/// channel 0.
pub fn open_frame(config: &NetworkConfig) -> (result: AmqpResult<Frame>)
    ensures
        result is Ok <==> open_fits(config@),
        result is Ok ==> result->Ok_0.payload@ == open_payload(config@) && result->Ok_0.header
            == (FrameHeader {
            size: open_payload(config@).len() as u32,
            data_offset: 2,
            frame_type: 0,
            channel: 0,
        }),
        result is Err ==> result->Err_0 is Encoding,
{
    let millis = config.idle_timeout.as_millis();
    let idle: u32 = if millis > 0xffff_ffff {
        0xffff_ffff
    } else {
        millis as u32
    };
    let mut encoder = Encoder::new();
    let ghost a = wire_value(ValueModel::String(config@.container_id));
    let ghost b = wire_value(ValueModel::String(config@.hostname));
    let ghost c = wire_value(ValueModel::Uint(config@.max_frame_size));
    let ghost d = wire_value(ValueModel::Ushort(config@.channel_max));
    let ghost e = wire_value(ValueModel::Uint(idle));
    let ghost f = wire_value(ValueModel::Mapping(config@.properties));
    let ghost g = wire_value(ValueModel::List(Seq::empty()));
    match encoder.encode_string(config.container_id.as_str()) {
        Ok(()) => {},
        Err(error) => {
            return Err(error);
        },
    }
    match encoder.encode_string(config.hostname.as_str()) {
        Ok(()) => {},
        Err(error) => {
            return Err(error);
        },
    }
    assert(encoder@ =~= a + b);
    let _ = encoder.encode_uint(config.max_frame_size);
    let _ = encoder.encode_ushort(config.channel_max);
    let _ = encoder.encode_uint(idle);
    assert(encoder@ =~= a + b + c + d + e);
    let properties = AmqpValue::Mapping(config.properties.clone());
    match encoder.encode_value(&properties) {
        Ok(()) => {},
        Err(error) => {
            return Err(error);
        },
    }
    assert(encoder@ =~= a + b + c + d + e + f);
    let empty: Vec<AmqpValue> = Vec::new();
    let no_capabilities = AmqpValue::List(empty);
    proof {
        crate::types::lemma_list_model(empty);
        assert(crate::types::models_of(empty@) =~= Seq::<ValueModel>::empty());
    }
    let _ = encoder.encode_value(&no_capabilities);
    let _ = encoder.encode_value(&no_capabilities);
    assert(encoder@ =~= a + b + c + d + e + f + g + g);
    amqp_frame(0, encoder.finish())
}

/// The frame that closes a connection, on channel 0.
pub fn close_frame() -> (result: AmqpResult<Frame>)
    ensures
        result is Ok,
        result->Ok_0.payload@ == close_payload(),
        result->Ok_0.header == (FrameHeader {
            size: close_payload().len() as u32,
            data_offset: 2,
            frame_type: 0,
            channel: 0,
        }),
{
    let mut encoder = Encoder::new();
    proof {
        reveal_strlit("");
        assert(""@ =~= Seq::<char>::empty());
        assert(encode_utf8(Seq::<char>::empty()) =~= Seq::<u8>::empty()) by {
            reveal_with_fuel(encode_utf8, 1);
        }
    }
    let _ = encoder.encode_string("");
    let _ = encoder.encode_string("");
    assert(encoder@ =~= close_payload());
    amqp_frame(0, encoder.finish())
}

/// The frame that carries a message on `channel`: an AMQP frame whose
/// payload is the encoded message.
pub fn message_frame(channel: u16, message: &Message) -> (result: AmqpResult<Frame>)
    ensures
        result is Ok <==> message_fits(message@) && wire_message(message@).len() <= u32::MAX,
        result is Ok ==> result->Ok_0.payload@ == wire_message(message@) && result->Ok_0.header
            == (FrameHeader {
            size: wire_message(message@).len() as u32,
            data_offset: 2,
            frame_type: 0,
            channel,
        }),
        result is Err ==> result->Err_0 is Encoding,
{
    let mut encoder = Encoder::new();
    match encoder.encode_message(message) {
        Ok(()) => {},
        Err(error) => {
            return Err(error);
        },
    }
    assert(encoder@ =~= wire_message(message@));
    amqp_frame(channel, encoder.finish())
}

/// The message that a frame carries: the message that the payload of an
/// AMQP frame stands for as a whole, nothing for a frame of another type.
/// A payload that is no message, or goes on behind one, is refused with a
/// decoding error.
pub fn message_from_frame(frame: Frame) -> (result: AmqpResult<Option<Message>>)
    ensures
        frame.header.frame_type != 0 ==> result is Ok && result->Ok_0 is None,
        frame.header.frame_type == 0 ==> match whole_message(frame.payload@) {
            Some(model) => result is Ok && result->Ok_0 is Some && result->Ok_0->0@ == model,
            None => result is Err && result->Err_0 is Decoding,
        },
{
    if frame.header.frame_type == FrameType::AMQP.code() {
        let mut decoder = Decoder::new(frame.payload);
        match decoder.decode_message() {
            Ok(message) => {
                if decoder.has_remaining() {
                    Err(AmqpError::decoding("Unexpected data after the message"))
                } else {
                    Ok(Some(message))
                }
            },
            Err(error) => Err(error),
        }
    } else {
        Ok(None)
    }
}

/// What is to be sent once connected: the protocol header, then the frame
/// that opens the connection; after that a heartbeat at each interval.
#[derive(Debug)]
pub struct NegotiationPlan {
    /// The protocol header.
    pub header: Vec<u8>,
    /// The frame that opens the connection.
    pub open: Frame,
    /// The interval of the heartbeat.
    pub keep_alive: Duration,
}

/// What is to be done to disconnect.
#[derive(Debug)]
pub struct DisconnectPlan {
    /// The frame to send first, where the connection was ready.
    pub close: Option<Frame>,
    /// Whether the heartbeat is to be stopped and the stream shut down.
    pub shutdown: bool,
}

/// A network connection.
pub struct NetworkConnection {
    state: NetworkState,
    config: NetworkConfig,
    id: String,
    next_channel: u16,
    last_activity: std::time::Instant,
}

impl NetworkConnection {
    /// The state of the connection.
    pub closed spec fn current(&self) -> NetworkState {
        self.state
    }

    /// The configuration of the connection.
    pub closed spec fn configuration(&self) -> NetworkConfigModel {
        self.config@
    }

    /// The identifier of the connection.
    pub closed spec fn identifier(&self) -> Seq<char> {
        self.id@
    }

    /// The channel that `next_channel` will give next.
    pub closed spec fn channel_counter(&self) -> u16 {
        self.next_channel
    }

    /// True when a connection on which nothing was sent or received for
    /// `elapsed` counts as idle: when that is longer than the idle
    /// timeout.
    pub open spec fn idle_for(&self, elapsed: Duration) -> bool {
        elapsed.total_nanos() > self.configuration().idle_timeout.total_nanos()
    }

    /// True when `other` differs from this connection in nothing but its
    /// state and the moment of its last activity.
    pub open spec fn same_connection(&self, other: &NetworkConnection) -> bool {
        &&& self.configuration() == other.configuration()
        &&& self.identifier() == other.identifier()
        &&& self.channel_counter() == other.channel_counter()
    }

    /// Create a new network connection: disconnected, with channels from
    /// 0, named `conn-` and the first eight characters of the text of a
    /// fresh UUID.
    pub fn new(config: NetworkConfig) -> (connection: Self)
        ensures
            connection.current() is Disconnected,
            connection.configuration() == config@,
            connection.channel_counter() == 0,
            exists|bits: u128|
                connection.identifier() == "conn-"@ + uuid_hyphenated(bits).subrange(0, 8),
    {
        NetworkConnection {
            state: NetworkState::Disconnected,
            config,
            id: fresh_name("conn-"),
            next_channel: 0,
            last_activity: instant_now(),
        }
    }

    /// Starts to connect. Only a disconnected connection can connect; in
    /// any other state the call fails with an invalid-state error and
    /// changes nothing. On success the connection is `Connecting` and the result
    /// says where to connect and how long to wait; `connected` takes the
    /// outcome.
    pub fn connect(&mut self) -> (result: AmqpResult<TransportBuilder>)
        ensures
            final(self).same_connection(old(self)),
            old(self).current() is Disconnected ==> {
                &&& result is Ok
                &&& final(self).current() is Connecting
                &&& result->Ok_0.hostname@ == old(self).configuration().hostname
                &&& result->Ok_0.port == old(self).configuration().port
                &&& result->Ok_0.timeout == old(self).configuration().timeout
            },
            !(old(self).current() is Disconnected) ==> result is Err
                && result->Err_0 is InvalidState && result->Err_0->InvalidState_0@
                == "Connection already established"@ && final(self).current() == old(self).current(),
    {
        match self.state {
            NetworkState::Disconnected => {},
            _ => {
                return Err(AmqpError::invalid_state("Connection already established"));
            },
        }
        self.state = NetworkState::Connecting;
        Ok(
            TransportBuilder::new().hostname(self.config.hostname.as_str()).port(
                self.config.port,
            ).timeout(self.config.timeout),
        )
    }

    /// Takes the outcome of connecting. Where the peer was reached the
    /// connection is `Connected`. Where it was not, the connection stays
    /// `Connecting` and the failure is handed on: a failure of the
    /// transport as a connection error with the same message, any other
    /// failure, such as a timeout, as it is. A connection that is not
    /// `Connecting` is left as it is, with an invalid-state error.
    pub fn connected(&mut self, outcome: AmqpResult<()>) -> (result: AmqpResult<()>)
        ensures
            final(self).same_connection(old(self)),
            old(self).current() is Connecting ==> (match outcome {
                Ok(_) => result is Ok && final(self).current() is Connected,
                Err(AmqpError::Transport(message)) => result is Err && result->Err_0
                    == AmqpError::Connection(message) && final(self).current() is Connecting,
                Err(e) => result is Err && result->Err_0 == e && final(self).current() is Connecting,
            }),
            !(old(self).current() is Connecting) ==> result is Err && result->Err_0 is InvalidState
                && final(self).current() == old(self).current(),
    {
        match self.state {
            NetworkState::Connecting => {},
            _ => {
                return Err(AmqpError::invalid_state("Not connecting"));
            },
        }
        match outcome {
            Ok(()) => {
                self.state = NetworkState::Connected;
                self.last_activity = instant_now();
                Ok(())
            },
            Err(AmqpError::Transport(message)) => Err(AmqpError::Connection(message)),
            Err(e) => Err(e),
        }
    }

    /// Starts to negotiate the protocol. The connection must be
    /// `Connected`, else the call fails with an invalid-state error. The
    /// result says what to send: the AMQP protocol header and the frame
    /// that opens the connection. It fails with an encoding error where
    /// that frame cannot be written. The state stays as it is;
    /// `negotiated` takes the outcome.
    pub fn negotiate_protocol(&self) -> (result: AmqpResult<NegotiationPlan>)
        ensures
            !(self.current() is Connected) ==> result is Err && result->Err_0 is InvalidState
                && result->Err_0->InvalidState_0@ == "Not connected"@,
            self.current() is Connected && !open_fits(self.configuration()) ==> result is Err
                && result->Err_0 is Encoding,
            self.current() is Connected && open_fits(self.configuration()) ==> {
                &&& result is Ok
                &&& result->Ok_0.header@ == crate::transport::constants::AMQP_HEADER@
                &&& result->Ok_0.open.payload@ == open_payload(self.configuration())
                &&& result->Ok_0.open.header == (FrameHeader {
                    size: open_payload(self.configuration()).len() as u32,
                    data_offset: 2,
                    frame_type: 0,
                    channel: 0,
                })
                &&& result->Ok_0.keep_alive == self.configuration().keep_alive
            },
    {
        match self.state {
            NetworkState::Connected => {},
            _ => {
                return Err(AmqpError::invalid_state("Not connected"));
            },
        }
        let open = match open_frame(&self.config) {
            Ok(frame) => frame,
            Err(error) => {
                return Err(error);
            },
        };
        Ok(
            NegotiationPlan {
                header: ProtocolNegotiator::amqp_header(),
                open,
                keep_alive: self.config.keep_alive,
            },
        )
    }

    /// Takes the outcome of the negotiation. Where all was sent the
    /// connection is `Ready`. Where it was not, the connection stays
    /// `Connected` and the failure is handed on. A connection that is not
    /// `Connected` is left as it is, with an invalid-state error.
    pub fn negotiated(&mut self, outcome: AmqpResult<()>) -> (result: AmqpResult<()>)
        ensures
            final(self).same_connection(old(self)),
            old(self).current() is Connected ==> (match outcome {
                Ok(_) => result is Ok && final(self).current() is Ready,
                Err(e) => result is Err && result->Err_0 == e && final(self).current() is Connected,
            }),
            !(old(self).current() is Connected) ==> result is Err && result->Err_0 is InvalidState
                && final(self).current() == old(self).current(),
    {
        match self.state {
            NetworkState::Connected => {},
            _ => {
                return Err(AmqpError::invalid_state("Not connected"));
            },
        }
        match outcome {
            Ok(()) => {
                self.state = NetworkState::Ready;
                self.last_activity = instant_now();
                Ok(())
            },
            Err(e) => Err(e),
        }
    }

    /// Checks that frames can be sent and received: the connection must
    /// be `Ready`, else the call fails with an invalid-state error.
    pub fn ready(&self) -> (result: AmqpResult<()>)
        ensures
            result is Ok <==> self.current() is Ready,
            result is Err ==> result->Err_0 is InvalidState && result->Err_0->InvalidState_0@
                == "Connection not ready"@,
    {
        match self.state {
            NetworkState::Ready => Ok(()),
            _ => Err(AmqpError::invalid_state("Connection not ready")),
        }
    }

    /// Send a frame: gives the octets to write to the stream, the eight
    /// octets of the header and then the payload, and notes the activity.
    /// The connection must be `Ready`, else the call fails with an
    /// invalid-state error.
    pub fn send_frame(&mut self, frame: Frame) -> (result: AmqpResult<Vec<u8>>)
        ensures
            final(self).same_connection(old(self)),
            final(self).current() == old(self).current(),
            result is Ok <==> old(self).current() is Ready,
            result is Ok ==> result->Ok_0@ == wire_frame_header(frame.header) + frame.payload@,
            result is Err ==> result->Err_0 is InvalidState && result->Err_0->InvalidState_0@
                == "Connection not ready"@,
    {
        match self.ready() {
            Ok(()) => {},
            Err(error) => {
                return Err(error);
            },
        }
        self.last_activity = instant_now();
        Ok(frame.encode())
    }

    /// Receive a frame: takes the octets that were read from the stream,
    /// eight of header and then the payload, and notes the activity. The
    /// connection must be `Ready`, else the call fails with an
    /// invalid-state error; fewer than eight octets are refused with a
    /// decoding error.
    pub fn receive_frame(&mut self, data: &[u8]) -> (result: AmqpResult<Frame>)
        ensures
            final(self).same_connection(old(self)),
            final(self).current() == old(self).current(),
            result is Ok <==> old(self).current() is Ready && data@.len() >= 8,
            result is Ok ==> result->Ok_0.header == parse_frame_header(data@)
                && result->Ok_0.payload@ == data@.skip(8),
            result is Err ==> (if old(self).current() is Ready {
                result->Err_0 is Decoding
            } else {
                result->Err_0 is InvalidState && result->Err_0->InvalidState_0@
                    == "Connection not ready"@
            }),
    {
        match self.ready() {
            Ok(()) => {},
            Err(error) => {
                return Err(error);
            },
        }
        let frame = match Frame::decode(data) {
            Ok(frame) => frame,
            Err(error) => {
                return Err(error);
            },
        };
        self.last_activity = instant_now();
        Ok(frame)
    }

    /// Send a message on a channel: gives the octets of the frame that
    /// carries the message. A message that cannot be encoded fails with
    /// an encoding error; then the connection must be `Ready`, else the
    /// call fails with an invalid-state error.
    pub fn send_message(&mut self, channel: u16, message: &Message) -> (result: AmqpResult<
        Vec<u8>,
    >)
        ensures
            final(self).same_connection(old(self)),
            final(self).current() == old(self).current(),
            result is Ok <==> message_fits(message@) && wire_message(message@).len() <= u32::MAX
                && old(self).current() is Ready,
            result is Ok ==> result->Ok_0@ == wire_frame_header(
                FrameHeader {
                    size: wire_message(message@).len() as u32,
                    data_offset: 2,
                    frame_type: 0,
                    channel,
                },
            ) + wire_message(message@),
            result is Err ==> (if message_fits(message@) && wire_message(message@).len()
                <= u32::MAX {
                result->Err_0 is InvalidState
            } else {
                result->Err_0 is Encoding
            }),
    {
        let frame = match message_frame(channel, message) {
            Ok(frame) => frame,
            Err(error) => {
                return Err(error);
            },
        };
        self.send_frame(frame)
    }

    /// Receive a message: takes the octets of a frame that were read from
    /// the stream and gives the message that the frame carries, or
    /// nothing for a frame that is no AMQP frame.
    pub fn receive_message(&mut self, data: &[u8]) -> (result: AmqpResult<Option<Message>>)
        ensures
            final(self).same_connection(old(self)),
            final(self).current() == old(self).current(),
            !(old(self).current() is Ready) ==> result is Err && result->Err_0 is InvalidState,
            old(self).current() is Ready && data@.len() < 8 ==> result is Err
                && result->Err_0 is Decoding,
            old(self).current() is Ready && data@.len() >= 8 ==> (if data@[5] != 0 {
                result is Ok && result->Ok_0 is None
            } else {
                match whole_message(data@.skip(8)) {
                    Some(model) => result is Ok && result->Ok_0 is Some
                        && result->Ok_0->0@ == model,
                    None => result is Err && result->Err_0 is Decoding,
                }
            }),
    {
        let frame = match self.receive_frame(data) {
            Ok(frame) => frame,
            Err(error) => {
                return Err(error);
            },
        };
        message_from_frame(frame)
    }

    /// Notes that a frame was sent or received just now.
    pub fn touch(&mut self)
        ensures
            final(self).same_connection(old(self)),
            final(self).current() == old(self).current(),
    {
        self.last_activity = instant_now();
    }

    /// Starts to disconnect. A disconnected connection has nothing to do
    /// and stays as it is. Any other connection is `Closing` afterwards;
    /// where it was `Ready`, the frame that closes the connection is to
    /// be sent first; then the heartbeat is to be stopped and the stream
    /// shut down. `disconnected` takes the outcome.
    pub fn disconnect(&mut self) -> (plan: DisconnectPlan)
        ensures
            final(self).same_connection(old(self)),
            old(self).current() is Disconnected ==> final(self).current() is Disconnected
                && plan.close is None && !plan.shutdown,
            !(old(self).current() is Disconnected) ==> final(self).current() is Closing
                && plan.shutdown && (plan.close is Some <==> old(self).current() is Ready),
            plan.close is Some ==> plan.close->0.payload@ == close_payload()
                && plan.close->0.header == (FrameHeader {
                size: close_payload().len() as u32,
                data_offset: 2,
                frame_type: 0,
                channel: 0,
            }),
    {
        let was_ready = match self.state {
            NetworkState::Disconnected => {
                return DisconnectPlan { close: None, shutdown: false };
            },
            NetworkState::Ready => true,
            _ => false,
        };
        self.state = NetworkState::Closing;
        let close = if was_ready {
            match close_frame() {
                Ok(frame) => Some(frame),
                Err(_) => None,
            }
        } else {
            None
        };
        DisconnectPlan { close, shutdown: true }
    }

    /// Takes the outcome of disconnecting. Where the stream was shut
    /// down the connection is `Closed`. Where that failed, the connection
    /// stays `Closing` and the failure is handed on. A connection that is
    /// not `Closing` is left as it is.
    pub fn disconnected(&mut self, outcome: AmqpResult<()>) -> (result: AmqpResult<()>)
        ensures
            final(self).same_connection(old(self)),
            old(self).current() is Closing ==> (match outcome {
                Ok(_) => result is Ok && final(self).current() is Closed,
                Err(e) => result is Err && result->Err_0 == e && final(self).current() is Closing,
            }),
            !(old(self).current() is Closing) ==> final(self).current() == old(self).current()
                && (match outcome {
                Ok(_) => result is Ok,
                Err(e) => result is Err && result->Err_0 == e,
            }),
    {
        match outcome {
            Ok(()) => {
                match self.state {
                    NetworkState::Closing => {
                        self.state = NetworkState::Closed;
                    },
                    _ => {},
                }
                Ok(())
            },
            Err(e) => Err(e),
        }
    }

    /// Get connection state.
    pub fn state(&self) -> (state: &NetworkState)
        ensures
            *state == self.current(),
    {
        &self.state
    }

    /// Get connection ID.
    pub fn id(&self) -> (id: &str)
        ensures
            id@ == self.identifier(),
    {
        self.id.as_str()
    }

    /// Get connection configuration.
    pub fn config(&self) -> (config: &NetworkConfig)
        ensures
            config@ == self.configuration(),
    {
        &self.config
    }

    /// Get next available channel number: channels count up from 0 and
    /// start again at 0 after 65535.
    pub fn next_channel(&mut self) -> (channel: u16)
        ensures
            channel == old(self).channel_counter(),
            final(self).channel_counter() == (if channel == u16::MAX {
                0u16
            } else {
                (channel + 1) as u16
            }),
            final(self).configuration() == old(self).configuration(),
            final(self).identifier() == old(self).identifier(),
            final(self).current() == old(self).current(),
    {
        let channel = self.next_channel;
        self.next_channel = self.next_channel.wrapping_add(1);
        channel
    }

    /// The channel that `next_channel` will give next.
    pub fn peek_next_channel(&self) -> (channel: u16)
        ensures
            channel == self.channel_counter(),
    {
        self.next_channel
    }

    /// True when a connection on which nothing was sent or received for
    /// `elapsed` counts as idle: when that is longer than the idle
    /// timeout.
    pub fn idle_after(&self, elapsed: Duration) -> (idle: bool)
        ensures
            idle == self.idle_for(elapsed),
    {
        elapsed.longer_than(&self.config.idle_timeout)
    }

    /// Check if connection is idle: if the time since the last frame was
    /// sent or received is longer than the idle timeout. The answer is
    /// that of `idle_after` for the time that the clock gives.
    pub fn is_idle(&self) -> (idle: bool)
        ensures
            exists|elapsed: Duration| idle == #[trigger] self.idle_for(elapsed),
    {
        let elapsed = elapsed_since(&self.last_activity);
        self.idle_after(elapsed)
    }
}

/// Puts the configuration of a network connection together, and builds
/// the connection.
pub struct NetworkBuilder {
    config: NetworkConfig,
}

impl View for NetworkBuilder {
    type V = NetworkConfigModel;

    /// The configuration as built so far.
    closed spec fn view(&self) -> NetworkConfigModel {
        self.config@
    }
}

impl NetworkBuilder {
    /// Create a new network builder, with the standard configuration.
    pub fn new() -> (builder: Self)
        ensures
            builder@.is_standard(),
    {
        NetworkBuilder { config: NetworkConfig::default() }
    }

    /// The configuration as built so far.
    pub fn config(&self) -> (config: &NetworkConfig)
        ensures
            config@ == self@,
    {
        &self.config
    }

    /// Set hostname.
    pub fn hostname(self, hostname: &str) -> (builder: Self)
        ensures
            builder@ == (NetworkConfigModel { hostname: hostname@, ..self@ }),
    {
        let mut config = self.config;
        config.hostname = hostname.to_owned();
        NetworkBuilder { config }
    }

    /// Set port.
    pub fn port(self, port: u16) -> (builder: Self)
        ensures
            builder@ == (NetworkConfigModel { port, ..self@ }),
    {
        let mut config = self.config;
        config.port = port;
        NetworkBuilder { config }
    }

    /// Set timeout.
    pub fn timeout(self, timeout: Duration) -> (builder: Self)
        ensures
            builder@ == (NetworkConfigModel { timeout, ..self@ }),
    {
        let mut config = self.config;
        config.timeout = timeout;
        NetworkBuilder { config }
    }

    /// Set keep-alive interval.
    pub fn keep_alive(self, keep_alive: Duration) -> (builder: Self)
        ensures
            builder@ == (NetworkConfigModel { keep_alive, ..self@ }),
    {
        let mut config = self.config;
        config.keep_alive = keep_alive;
        NetworkBuilder { config }
    }

    /// Set maximum frame size.
    pub fn max_frame_size(self, max_frame_size: u32) -> (builder: Self)
        ensures
            builder@ == (NetworkConfigModel { max_frame_size, ..self@ }),
    {
        let mut config = self.config;
        config.max_frame_size = max_frame_size;
        NetworkBuilder { config }
    }

    /// Set channel maximum.
    pub fn channel_max(self, channel_max: u16) -> (builder: Self)
        ensures
            builder@ == (NetworkConfigModel { channel_max, ..self@ }),
    {
        let mut config = self.config;
        config.channel_max = channel_max;
        NetworkBuilder { config }
    }

    /// Set idle timeout.
    pub fn idle_timeout(self, idle_timeout: Duration) -> (builder: Self)
        ensures
            builder@ == (NetworkConfigModel { idle_timeout, ..self@ }),
    {
        let mut config = self.config;
        config.idle_timeout = idle_timeout;
        NetworkBuilder { config }
    }

    /// Set container ID.
    pub fn container_id(self, container_id: &str) -> (builder: Self)
        ensures
            builder@ == (NetworkConfigModel { container_id: container_id@, ..self@ }),
    {
        let mut config = self.config;
        config.container_id = container_id.to_owned();
        NetworkBuilder { config }
    }

    /// Add connection property.
    pub fn property(self, key: &str, value: AmqpValue) -> (builder: Self)
        ensures
            builder@ == (NetworkConfigModel {
                properties: with_entry(self@.properties, key@, value@),
                ..self@
            }),
    {
        let mut config = self.config;
        config.properties.insert(AmqpSymbol(key.to_owned()), value);
        NetworkBuilder { config }
    }

    /// Build the network connection: disconnected, with the configuration
    /// that was built.
    pub fn build(self) -> (connection: NetworkConnection)
        ensures
            connection.current() is Disconnected,
            connection.configuration() == self@,
            connection.channel_counter() == 0,
            exists|bits: u128|
                connection.identifier() == "conn-"@ + uuid_hyphenated(bits).subrange(0, 8),
    {
        NetworkConnection::new(self.config)
    }
}

impl Default for NetworkBuilder {
    fn default() -> (builder: Self)
        ensures
            builder@.is_standard(),
    {
        NetworkBuilder::new()
    }
}

} // verus!
