//! Frames: the eight-octet header, the frame with its payload, and the
//! check of the protocol header that a peer sends back.
//!
//! The size in a frame header counts the octets of the payload, not the
//! eight octets of the header itself.

use vstd::prelude::*;
use vstd::slice::{slice_subrange, slice_to_vec};
use crate::buffer::{
    buffer_from_slice, buffer_new, buffer_to_vec, get_u16, get_u32, get_u8, put_slice, put_u16,
    put_u32, put_u8,
};
use crate::error::{AmqpError, AmqpResult};
use crate::time::Duration;
use crate::wire::{be_u16, be_u32, lemma_be_u16, lemma_be_u32, u16_from_be, u32_from_be};

pub mod constants;

verus! {

/// The kinds of frame.
#[derive(Debug, Clone, Copy, PartialEq, Eq, Structural)]
pub enum FrameType {
    AMQP,
    SASL,
}

impl FrameType {
    /// The octet that stands for the kind of frame: 0 for AMQP, 1 for
    /// SASL.
    pub fn code(&self) -> (octet: u8)
        ensures
            octet == match self {
                FrameType::AMQP => 0u8,
                FrameType::SASL => 1u8,
            },
    {
        match self {
            FrameType::AMQP => 0,
            FrameType::SASL => 1,
        }
    }
}

/// The header of a frame.
#[derive(Debug, Clone, Copy, PartialEq, Eq, Structural)]
pub struct FrameHeader {
    /// The number of octets of the payload.
    pub size: u32,
    /// Data offset.
    pub data_offset: u8,
    /// Frame type.
    pub frame_type: u8,
    /// Channel number.
    pub channel: u16,
}

/// The eight octets of a frame header: the size, the data offset, the
/// frame type and the channel, numbers most significant octet first.
pub open spec fn wire_frame_header(header: FrameHeader) -> Seq<u8> {
    be_u32(header.size) + seq![header.data_offset, header.frame_type] + be_u16(header.channel)
}

/// The frame header that the first eight octets of `data` stand for.
pub open spec fn parse_frame_header(data: Seq<u8>) -> FrameHeader {
    FrameHeader {
        size: u32_from_be(data),
        data_offset: data[4],
        frame_type: data[5],
        channel: u16_from_be(data.skip(6)),
    }
}

impl FrameHeader {
    /// Create a new frame header, with the data offset 2.
    pub fn new(size: u32, frame_type: u8, channel: u16) -> (header: Self)
        ensures
            header == (FrameHeader { size, data_offset: 2, frame_type, channel }),
    {
        FrameHeader { size, data_offset: 2, frame_type, channel }
    }

    /// Encode the frame header.
    pub fn encode(&self) -> (data: Vec<u8>)
        ensures
            data@ == wire_frame_header(*self),
            data@.len() == 8,
    {
        let mut buffer = buffer_new();
        put_u32(&mut buffer, self.size);
        put_u8(&mut buffer, self.data_offset);
        put_u8(&mut buffer, self.frame_type);
        put_u16(&mut buffer, self.channel);
        let data = buffer_to_vec(&buffer);
        assert(data@ =~= wire_frame_header(*self));
        data
    }

    /// Decode a frame header from the first eight octets of `data`. Fewer
    /// than eight octets are refused with a decoding error.
    pub fn decode(data: &[u8]) -> (result: AmqpResult<Self>)
        ensures
            data@.len() >= 8 ==> result == Ok::<FrameHeader, AmqpError>(parse_frame_header(data@)),
            data@.len() < 8 ==> result is Err && result->Err_0 is Decoding,
    {
        if data.len() < 8 {
            return Err(AmqpError::decoding("Insufficient data for frame header"));
        }
        let mut buffer = buffer_from_slice(data);
        let size = get_u32(&mut buffer);
        let data_offset = get_u8(&mut buffer);
        let frame_type = get_u8(&mut buffer);
        let ghost rest = crate::buffer::held(buffer);
        let channel = get_u16(&mut buffer);
        assert(rest =~= data@.skip(6));
        Ok(FrameHeader { size, data_offset, frame_type, channel })
    }
}

/// Decoding an encoded frame header gives the header back, whatever
/// follows the eight octets.
pub proof fn frame_header_round_trip(header: FrameHeader, rest: Seq<u8>)
    ensures
        wire_frame_header(header).len() == 8,
        parse_frame_header(wire_frame_header(header) + rest) == header,
{
    let data = wire_frame_header(header) + rest;
    let middle = seq![header.data_offset, header.frame_type];
    lemma_be_u32(header.size, middle + be_u16(header.channel) + rest);
    lemma_be_u16(header.channel, rest);
    assert(data =~= be_u32(header.size) + (middle + be_u16(header.channel) + rest));
    assert(data.skip(6) =~= be_u16(header.channel) + rest);
}

/// A frame: a header and a payload.
#[derive(Debug, Clone, PartialEq, Eq)]
pub struct Frame {
    /// Frame header.
    pub header: FrameHeader,
    /// Frame payload.
    pub payload: Vec<u8>,
}

impl Frame {
    /// Create a new frame.
    pub fn new(header: FrameHeader, payload: Vec<u8>) -> (frame: Self)
        ensures
            frame.header == header,
            frame.payload == payload,
    {
        Frame { header, payload }
    }

    /// Encode the frame: the eight octets of its header, then its payload.
    pub fn encode(&self) -> (data: Vec<u8>)
        ensures
            data@ == wire_frame_header(self.header) + self.payload@,
    {
        let mut buffer = buffer_new();
        let header = self.header.encode();
        put_slice(&mut buffer, header.as_slice());
        put_slice(&mut buffer, self.payload.as_slice());
        let data = buffer_to_vec(&buffer);
        assert(data@ =~= wire_frame_header(self.header) + self.payload@);
        data
    }

    /// Decode a frame: the header from the first eight octets, the
    /// payload from all that follows. Fewer than eight octets are refused
    /// with a decoding error.
    pub fn decode(data: &[u8]) -> (result: AmqpResult<Self>)
        ensures
            data@.len() >= 8 ==> result is Ok && result->Ok_0.header == parse_frame_header(data@)
                && result->Ok_0.payload@ == data@.skip(8),
            data@.len() < 8 ==> result is Err && result->Err_0 is Decoding,
    {
        if data.len() < 8 {
            return Err(AmqpError::decoding("Insufficient data for frame"));
        }
        let head = slice_subrange(data, 0, 8);
        let header = match FrameHeader::decode(head) {
            Ok(header) => header,
            Err(e) => {
                return Err(e);
            },
        };
        let payload = slice_to_vec(slice_subrange(data, 8, data.len()));
        proof {
            assert(head@ =~= data@.subrange(0, 8));
            assert(head@.skip(6) =~= data@.skip(6).subrange(0, 2));
            assert(payload@ =~= data@.skip(8));
        }
        Ok(Frame { header, payload })
    }
}

/// Decoding an encoded frame gives its header and its payload back.
pub proof fn frame_round_trip(header: FrameHeader, payload: Seq<u8>)
    ensures
        parse_frame_header(wire_frame_header(header) + payload) == header,
        (wire_frame_header(header) + payload).skip(8) == payload,
        (wire_frame_header(header) + payload).len() >= 8,
{
    frame_header_round_trip(header, payload);
    assert((wire_frame_header(header) + payload).skip(8) =~= payload);
}

/// Where to connect, and how long to wait for it.
#[derive(Debug, Clone)]
pub struct TransportBuilder {
    pub hostname: String,
    pub port: u16,
    pub timeout: Duration,
}

impl TransportBuilder {
    /// Create a new transport builder: `localhost`, port 5672, and a
    /// timeout of 30 seconds.
    pub fn new() -> (builder: Self)
        ensures
            builder.hostname@ == "localhost"@,
            builder.port == 5672,
            builder.timeout.total_nanos() == 30 * 1_000_000_000,
    {
        TransportBuilder {
            hostname: "localhost".to_owned(),
            port: 5672,
            timeout: Duration::from_secs(30),
        }
    }

    /// Set the hostname.
    pub fn hostname(self, hostname: &str) -> (builder: Self)
        ensures
            builder.hostname@ == hostname@,
            builder.port == self.port,
            builder.timeout == self.timeout,
    {
        TransportBuilder { hostname: hostname.to_owned(), port: self.port, timeout: self.timeout }
    }

    /// Set the port.
    pub fn port(self, port: u16) -> (builder: Self)
        ensures
            builder.hostname == self.hostname,
            builder.port == port,
            builder.timeout == self.timeout,
    {
        TransportBuilder { hostname: self.hostname, port, timeout: self.timeout }
    }

    /// Set the timeout.
    pub fn timeout(self, timeout: Duration) -> (builder: Self)
        ensures
            builder.hostname == self.hostname,
            builder.port == self.port,
            builder.timeout == timeout,
    {
        TransportBuilder { hostname: self.hostname, port: self.port, timeout }
    }

    /// The address to connect to: the hostname, a colon, and the port in
    /// decimal.
    pub fn address(&self) -> (address: String)
        ensures
            address@ == self.hostname@ + ":"@ + crate::text::decimal(self.port as nat),
    {
        let host = crate::text::join(self.hostname.as_str(), ":");
        let port = crate::text::decimal_string(self.port as u32);
        crate::text::join(host.as_str(), port.as_str())
    }
}

impl Default for TransportBuilder {
    fn default() -> (builder: Self)
        ensures
            builder.hostname@ == "localhost"@,
            builder.port == 5672,
            builder.timeout.total_nanos() == 30 * 1_000_000_000,
    {
        TransportBuilder::new()
    }
}

/// True when the two runs of octets are the same.
pub fn octets_equal(a: &[u8], b: &[u8]) -> (same: bool)
    ensures
        same == (a@ == b@),
{
    if a.len() != b.len() {
        return false;
    }
    let mut i: usize = 0;
    while i < a.len()
        invariant
            i <= a@.len(),
            a@.len() == b@.len(),
            forall|j: int| 0 <= j < i ==> a@[j] == b@[j],
        decreases a@.len() - i,
    {
        if a[i] != b[i] {
            return false;
        }
        i = i + 1;
    }
    assert(a@ =~= b@);
    true
}

/// The exchange of protocol headers: each side sends the header of the
/// protocol it wants, and the headers must match.
pub struct ProtocolNegotiator;

impl ProtocolNegotiator {
    /// The header to send to select AMQP 1.0.
    pub fn amqp_header() -> (header: Vec<u8>)
        ensures
            header@ == constants::AMQP_HEADER@,
    {
        slice_to_vec(constants::AMQP_HEADER.as_slice())
    }

    /// The header to send to select SASL negotiation.
    pub fn sasl_header() -> (header: Vec<u8>)
        ensures
            header@ == constants::SASL_HEADER@,
    {
        slice_to_vec(constants::SASL_HEADER.as_slice())
    }

    /// Checks the header that the peer sent back after the AMQP header:
    /// anything but the same header ends the negotiation with a protocol
    /// error.
    pub fn check_amqp_response(response: &[u8]) -> (result: AmqpResult<()>)
        ensures
            result is Ok <==> response@ == constants::AMQP_HEADER@,
            result is Err ==> result->Err_0 is Protocol && result->Err_0->Protocol_0@
                == "Protocol negotiation failed"@,
    {
        if octets_equal(response, constants::AMQP_HEADER.as_slice()) {
            Ok(())
        } else {
            Err(AmqpError::protocol("Protocol negotiation failed"))
        }
    }

    /// Checks the header that the peer sent back after the SASL header:
    /// anything but the same header ends the negotiation with a protocol
    /// error.
    pub fn check_sasl_response(response: &[u8]) -> (result: AmqpResult<()>)
        ensures
            result is Ok <==> response@ == constants::SASL_HEADER@,
            result is Err ==> result->Err_0 is Protocol && result->Err_0->Protocol_0@
                == "SASL protocol negotiation failed"@,
    {
        if octets_equal(response, constants::SASL_HEADER.as_slice()) {
            Ok(())
        } else {
            Err(AmqpError::protocol("SASL protocol negotiation failed"))
        }
    }
}

} // verus!
