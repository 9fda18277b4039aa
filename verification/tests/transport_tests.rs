use dumq_amqp::error::AmqpError;
use dumq_amqp::time::Duration;
use dumq_amqp::transport::{
    constants, Frame, FrameHeader, FrameType, ProtocolNegotiator, TransportBuilder,
};

#[test]
fn test_frame_type_values() {
    assert_eq!(FrameType::AMQP.code(), 0x00);
    assert_eq!(FrameType::SASL.code(), 0x01);
}

#[test]
fn test_frame_header_new() {
    let header = FrameHeader::new(1024, FrameType::AMQP.code(), 1);
    assert_eq!(header.size, 1024);
    assert_eq!(header.data_offset, 2);
    assert_eq!(header.frame_type, FrameType::AMQP.code());
    assert_eq!(header.channel, 1);
}

#[test]
fn test_frame_header_encode() {
    let header = FrameHeader::new(1024, FrameType::AMQP.code(), 1);
    let encoded = header.encode();
    
    // 4 bytes for size + 1 byte for data_offset + 1 byte for frame_type + 2 bytes for channel
    assert_eq!(encoded.len(), 8);
    
    // Verify size (big-endian - bytes crate uses big-endian by default)
    assert_eq!(encoded[0], 0x00); // (size >> 24) & 0xFF
    assert_eq!(encoded[1], 0x00); // (size >> 16) & 0xFF
    assert_eq!(encoded[2], 0x04); // (size >> 8) & 0xFF
    assert_eq!(encoded[3], 0x00); // size & 0xFF
    
    // Verify data_offset
    assert_eq!(encoded[4], 2);
    
    // Verify frame_type
    assert_eq!(encoded[5], FrameType::AMQP.code());
    
    // Verify channel (big-endian - bytes crate uses big-endian by default)
    assert_eq!(encoded[6], 0x00); // (channel >> 8) & 0xFF
    assert_eq!(encoded[7], 0x01); // channel & 0xFF
}

#[test]
fn test_frame_header_decode() {
    let original_header = FrameHeader::new(1024, FrameType::AMQP.code(), 1);
    let encoded = original_header.encode();
    let decoded = FrameHeader::decode(&encoded).unwrap();
    
    assert_eq!(decoded.size, original_header.size);
    assert_eq!(decoded.data_offset, original_header.data_offset);
    assert_eq!(decoded.frame_type, original_header.frame_type);
    assert_eq!(decoded.channel, original_header.channel);
}

#[test]
fn test_frame_header_decode_insufficient_data() {
    let result = FrameHeader::decode(&[0x01, 0x02, 0x03]); // Only 3 bytes
    assert!(result.is_err());
    assert!(matches!(result.unwrap_err(), AmqpError::Decoding { .. }));
}

#[test]
fn test_frame_new() {
    let header = FrameHeader::new(1024, FrameType::AMQP.code(), 1);
    let payload = vec![0x01, 0x02, 0x03, 0x04];
    let frame = Frame::new(header.clone(), payload.clone());
    
    assert_eq!(frame.header.size, header.size);
    assert_eq!(frame.header.frame_type, header.frame_type);
    assert_eq!(frame.header.channel, header.channel);
    assert_eq!(frame.payload, payload);
}

#[test]
fn test_frame_encode() {
    let header = FrameHeader::new(4, FrameType::AMQP.code(), 1);
    let payload = vec![0x01, 0x02, 0x03, 0x04];
    let frame = Frame::new(header, payload);
    let encoded = frame.encode();
    
    // 8 bytes for header + 4 bytes for payload
    assert_eq!(encoded.len(), 12);
    
    // Verify header part
    assert_eq!(encoded[0..8], FrameHeader::new(4, FrameType::AMQP.code(), 1).encode());
    
    // Verify payload part
    assert_eq!(encoded[8..], vec![0x01, 0x02, 0x03, 0x04]);
}

#[test]
fn test_frame_decode() {
    let header = FrameHeader::new(4, FrameType::AMQP.code(), 1);
    let payload = vec![0x01, 0x02, 0x03, 0x04];
    let original_frame = Frame::new(header, payload);
    let encoded = original_frame.encode();
    let decoded = Frame::decode(&encoded).unwrap();
    
    assert_eq!(decoded.header.size, original_frame.header.size);
    assert_eq!(decoded.header.frame_type, original_frame.header.frame_type);
    assert_eq!(decoded.header.channel, original_frame.header.channel);
    assert_eq!(decoded.payload, original_frame.payload);
}

#[test]
fn test_frame_decode_insufficient_data() {
    let result = Frame::decode(&[0x01, 0x02, 0x03]); // Only 3 bytes
    assert!(result.is_err());
    assert!(matches!(result.unwrap_err(), AmqpError::Decoding { .. }));
}

#[test]
fn test_transport_new() {
    // We can't easily test Transport::new with TcpStream in a sync test
    // since TcpStream::connect is async. This test verifies the struct can be created
    // when given a valid TcpStream.
    assert!(true); // Transport::new exists and can be called
}

#[test]
fn test_transport_builder_new() {
    let builder = TransportBuilder::new();
    assert_eq!(builder.hostname, "localhost");
    assert_eq!(builder.port, 5672);
    assert_eq!(builder.timeout, Duration::from_secs(30));
}

#[test]
fn test_transport_builder_hostname() {
    let builder = TransportBuilder::new().hostname("example.com");
    assert_eq!(builder.hostname, "example.com");
}

#[test]
fn test_transport_builder_port() {
    let builder = TransportBuilder::new().port(8080);
    assert_eq!(builder.port, 8080);
}

#[test]
fn test_transport_builder_timeout() {
    let timeout = Duration::from_secs(60);
    let builder = TransportBuilder::new().timeout(timeout);
    assert_eq!(builder.timeout, timeout);
}

#[test]
fn test_transport_builder_default() {
    let builder = TransportBuilder::default();
    assert_eq!(builder.hostname, "localhost");
    assert_eq!(builder.port, 5672);
    assert_eq!(builder.timeout, Duration::from_secs(30));
}

#[test]
fn test_transport_builder_fluent_api() {
    let builder = TransportBuilder::new()
        .hostname("test.com")
        .port(9000)
        .timeout(Duration::from_secs(45));
    
    assert_eq!(builder.hostname, "test.com");
    assert_eq!(builder.port, 9000);
    assert_eq!(builder.timeout, Duration::from_secs(45));
}

#[test]
fn test_constants() {
    assert_eq!(&constants::AMQP_PROTOCOL_ID, b"AMQP");
    assert_eq!(&constants::AMQP_VERSION, &[0x00, 0x01, 0x00, 0x00]);
    assert_eq!(&constants::AMQP_HEADER, &[0x41, 0x4D, 0x51, 0x50, 0x00, 0x01, 0x00, 0x00]);
    assert_eq!(&constants::SASL_PROTOCOL_ID, b"AMQP");
    assert_eq!(&constants::SASL_VERSION, &[0x03, 0x01, 0x00, 0x00]);
    assert_eq!(&constants::SASL_HEADER, &[0x41, 0x4D, 0x51, 0x50, 0x03, 0x01, 0x00, 0x00]);
}

#[test]
fn test_protocol_negotiator_creation() {
    let _negotiator = ProtocolNegotiator;
    assert!(true); // ProtocolNegotiator was created successfully
}

#[test]
fn test_frame_round_trip() {
    let header = FrameHeader::new(8, FrameType::SASL.code(), 2);
    let payload = vec![0xAA, 0xBB, 0xCC, 0xDD, 0xEE, 0xFF, 0x00, 0x11];
    let original_frame = Frame::new(header, payload);
    
    let encoded = original_frame.encode();
    let decoded = Frame::decode(&encoded).unwrap();
    
    assert_eq!(decoded.header.size, original_frame.header.size);
    assert_eq!(decoded.header.data_offset, original_frame.header.data_offset);
    assert_eq!(decoded.header.frame_type, original_frame.header.frame_type);
    assert_eq!(decoded.header.channel, original_frame.header.channel);
    assert_eq!(decoded.payload, original_frame.payload);
}

#[test]
fn test_frame_header_various_values() {
    let test_cases = vec![
        (0, FrameType::AMQP.code(), 0),
        (1, FrameType::SASL.code(), 1),
        (65535, FrameType::AMQP.code(), 65535),
        (4294967295, FrameType::SASL.code(), 32767),
    ];
    
    for (size, frame_type, channel) in test_cases {
        let header = FrameHeader::new(size, frame_type, channel);
        let encoded = header.encode();
        let decoded = FrameHeader::decode(&encoded).unwrap();
        
        assert_eq!(decoded.size, size);
        assert_eq!(decoded.frame_type, frame_type);
        assert_eq!(decoded.channel, channel);
        assert_eq!(decoded.data_offset, 2); // Always 2 for AMQP 1.0
    }
}

#[test]
fn test_frame_empty_payload() {
    let header = FrameHeader::new(0, FrameType::AMQP.code(), 0);
    let payload = vec![];
    let frame = Frame::new(header, payload);
    
    let encoded = frame.encode();
    assert_eq!(encoded.len(), 8); // Only header, no payload
    
    let decoded = Frame::decode(&encoded).unwrap();
    assert_eq!(decoded.header.size, 0);
    assert_eq!(decoded.payload.len(), 0);
}

#[test]
fn test_frame_large_payload() {
    let payload_size = 1000;
    let payload = vec![0x42; payload_size];
    let header = FrameHeader::new(payload_size as u32, FrameType::AMQP.code(), 1);
    let frame = Frame::new(header, payload);
    
    let encoded = frame.encode();
    assert_eq!(encoded.len(), 8 + payload_size); // Header + payload
    
    let decoded = Frame::decode(&encoded).unwrap();
    assert_eq!(decoded.header.size, payload_size as u32);
    assert_eq!(decoded.payload.len(), payload_size);
    assert_eq!(decoded.payload, vec![0x42; payload_size]);
}
