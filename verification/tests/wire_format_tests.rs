use dumq_amqp::codec::{
    header_from_map, header_map, properties_from_map, properties_map, Decoder, Encoder,
};
use dumq_amqp::error::AmqpError;
use dumq_amqp::message::{Body, Header, Message, Properties};
use dumq_amqp::text::str_eq;
use dumq_amqp::types::{AmqpMap, AmqpSymbol, AmqpValue};
use uuid::Uuid;

fn encode(value: &AmqpValue) -> Vec<u8> {
    let mut encoder = Encoder::new();
    encoder.encode_value(value).unwrap();
    encoder.finish()
}

fn decode(bytes: Vec<u8>) -> Result<AmqpValue, AmqpError> {
    Decoder::new(bytes).decode_value()
}

fn decoding_message(result: Result<AmqpValue, AmqpError>) -> String {
    match result {
        Err(AmqpError::Decoding(text)) => text,
        other => panic!("expected a decoding error, got {:?}", other),
    }
}

fn sample_map() -> AmqpMap {
    let mut map = AmqpMap::new();
    map.insert(AmqpSymbol::from("first"), AmqpValue::Uint(1));
    map.insert(AmqpSymbol::from("second"), AmqpValue::String("two".to_string()));
    map.insert(AmqpSymbol::from("third"), AmqpValue::List(vec![AmqpValue::Null]));
    map
}

fn every_kind_of_value() -> Vec<AmqpValue> {
    vec![
        AmqpValue::Null,
        AmqpValue::Boolean(true),
        AmqpValue::Boolean(false),
        AmqpValue::Ubyte(0),
        AmqpValue::Ubyte(255),
        AmqpValue::Ushort(0x1234),
        AmqpValue::Uint(0xdead_beef),
        AmqpValue::Ulong(0x0102_0304_0506_0708),
        AmqpValue::Byte(-128),
        AmqpValue::Byte(127),
        AmqpValue::Short(-2),
        AmqpValue::Int(i32::MIN),
        AmqpValue::Long(i64::MIN),
        AmqpValue::Long(i64::MAX),
        AmqpValue::Float(1.5f32.to_bits()),
        AmqpValue::Float(f32::NAN.to_bits()),
        AmqpValue::Float(0x7fc0_0001),
        AmqpValue::Double((-2.25f64).to_bits()),
        AmqpValue::Double(0x7ff8_0000_0000_0001),
        AmqpValue::Decimal32(0x2250_0001),
        AmqpValue::Decimal64(0x2250_0000_0000_0001),
        AmqpValue::Decimal128(0x2250_0000_0000_0000_0000_0000_0000_0001),
        AmqpValue::Char('A'),
        AmqpValue::Char('\u{10ffff}'),
        AmqpValue::Char('é'),
        AmqpValue::Timestamp(-1),
        AmqpValue::Timestamp(1_700_000_000_000),
        AmqpValue::Uuid(0x0011_2233_4455_6677_8899_aabb_ccdd_eeff),
        AmqpValue::Binary(vec![]),
        AmqpValue::Binary(vec![7; 300]),
        AmqpValue::String(String::new()),
        AmqpValue::String("grüße, мир, 你好".to_string()),
        AmqpValue::String("x".repeat(1000)),
        AmqpValue::Symbol(AmqpSymbol::from("amqp:accepted")),
        AmqpValue::Symbol(AmqpSymbol::from("s".repeat(256).as_str())),
        AmqpValue::List(vec![]),
        AmqpValue::List(vec![AmqpValue::Int(1), AmqpValue::List(vec![AmqpValue::Null])]),
        AmqpValue::List(vec![AmqpValue::Boolean(true); 300]),
        AmqpValue::Mapping(AmqpMap::new()),
        AmqpValue::Mapping(sample_map()),
        AmqpValue::Array(vec![]),
        AmqpValue::Array(vec![AmqpValue::Ushort(1), AmqpValue::Ushort(2)]),
        AmqpValue::Array(vec![AmqpValue::Ulong(9); 40]),
        AmqpValue::List(vec![AmqpValue::Mapping(sample_map()), AmqpValue::Array(vec![])]),
    ]
}

#[test]
fn round_trip_of_every_kind_of_value() {
    for value in every_kind_of_value() {
        let encoded = encode(&value);
        let mut decoder = Decoder::new(encoded);
        let decoded = decoder.decode_value().unwrap();
        assert_eq!(decoded, value);
        assert_eq!(decoder.remaining(), 0);
    }
}

#[test]
fn round_trip_of_a_stream_of_values() {
    let values = every_kind_of_value();
    let mut encoder = Encoder::new();
    for value in &values {
        encoder.encode_value(value).unwrap();
    }
    let mut decoder = Decoder::new(encoder.finish());
    for value in &values {
        assert_eq!(&decoder.decode_value().unwrap(), value);
    }
    assert!(!decoder.has_remaining());
}

#[test]
fn round_trip_text_value() {
    let value = AmqpValue::String("Hello, AMQP!".to_string());
    let encoded = encode(&value);
    assert_eq!(encoded.len(), 14);
    assert_eq!(&encoded[..2], &[0xa1, 0x0c]);
    assert_eq!(&encoded[2..], b"Hello, AMQP!");
    assert_eq!(decode(encoded).unwrap(), value);
}

#[test]
fn round_trip_empty_list() {
    let value = AmqpValue::List(vec![]);
    let encoded = encode(&value);
    assert_eq!(encoded, vec![0x45]);
    assert_eq!(decode(encoded).unwrap(), AmqpValue::List(vec![]));
}

#[test]
fn round_trip_uuid() {
    let id = Uuid::parse_str("00112233-4455-6677-8899-aabbccddeeff").unwrap();
    let value = AmqpValue::Uuid(id.as_u128());
    let encoded = encode(&value);
    assert_eq!(
        encoded,
        vec![
            0x98, 0x00, 0x11, 0x22, 0x33, 0x44, 0x55, 0x66, 0x77, 0x88, 0x99, 0xaa, 0xbb, 0xcc,
            0xdd, 0xee, 0xff
        ]
    );
    match decode(encoded).unwrap() {
        AmqpValue::Uuid(bits) => assert_eq!(Uuid::from_u128(bits), id),
        other => panic!("expected a UUID, got {:?}", other),
    }
}

#[test]
fn fixed_width_values_are_big_endian() {
    assert_eq!(encode(&AmqpValue::Null), vec![0x40]);
    assert_eq!(encode(&AmqpValue::Boolean(true)), vec![0x41]);
    assert_eq!(encode(&AmqpValue::Boolean(false)), vec![0x42]);
    assert_eq!(encode(&AmqpValue::Ubyte(0xab)), vec![0x50, 0xab]);
    assert_eq!(encode(&AmqpValue::Byte(-1)), vec![0x51, 0xff]);
    assert_eq!(encode(&AmqpValue::Ushort(0x1234)), vec![0x60, 0x12, 0x34]);
    assert_eq!(encode(&AmqpValue::Short(-2)), vec![0x61, 0xff, 0xfe]);
    assert_eq!(encode(&AmqpValue::Uint(0x0102_0304)), vec![0x70, 1, 2, 3, 4]);
    assert_eq!(encode(&AmqpValue::Int(-3)), vec![0x71, 0xff, 0xff, 0xff, 0xfd]);
    assert_eq!(
        encode(&AmqpValue::Ulong(0x0102_0304_0506_0708)),
        vec![0x80, 1, 2, 3, 4, 5, 6, 7, 8]
    );
    assert_eq!(
        encode(&AmqpValue::Long(-4)),
        vec![0x81, 0xff, 0xff, 0xff, 0xff, 0xff, 0xff, 0xff, 0xfc]
    );
    assert_eq!(encode(&AmqpValue::Float(1.0f32.to_bits())), vec![0x72, 0x3f, 0x80, 0, 0]);
    assert_eq!(
        encode(&AmqpValue::Double(1.0f64.to_bits())),
        vec![0x82, 0x3f, 0xf0, 0, 0, 0, 0, 0, 0]
    );
    assert_eq!(encode(&AmqpValue::Decimal32(0x0a0b_0c0d)), vec![0x74, 0x0a, 0x0b, 0x0c, 0x0d]);
    assert_eq!(
        encode(&AmqpValue::Decimal64(0x0102_0304_0506_0708)),
        vec![0x84, 1, 2, 3, 4, 5, 6, 7, 8]
    );
    assert_eq!(
        encode(&AmqpValue::Decimal128(0x0102_0304_0506_0708_090a_0b0c_0d0e_0f10)),
        vec![0x94, 1, 2, 3, 4, 5, 6, 7, 8, 9, 10, 11, 12, 13, 14, 15, 16]
    );
    assert_eq!(encode(&AmqpValue::Char('€')), vec![0x73, 0x00, 0x00, 0x20, 0xac]);
    assert_eq!(
        encode(&AmqpValue::Timestamp(0x0102_0304_0506_0708)),
        vec![0x83, 1, 2, 3, 4, 5, 6, 7, 8]
    );
}

#[test]
fn fixed_width_values_are_read_big_endian() {
    assert_eq!(decode(vec![0x60, 0x12, 0x34]).unwrap(), AmqpValue::Ushort(0x1234));
    assert_eq!(decode(vec![0x61, 0xff, 0xfe]).unwrap(), AmqpValue::Short(-2));
    assert_eq!(decode(vec![0x70, 1, 2, 3, 4]).unwrap(), AmqpValue::Uint(0x0102_0304));
    assert_eq!(decode(vec![0x71, 0xff, 0xff, 0xff, 0xfd]).unwrap(), AmqpValue::Int(-3));
    assert_eq!(
        decode(vec![0x80, 1, 2, 3, 4, 5, 6, 7, 8]).unwrap(),
        AmqpValue::Ulong(0x0102_0304_0506_0708)
    );
    assert_eq!(decode(vec![0x51, 0x80]).unwrap(), AmqpValue::Byte(-128));
    assert_eq!(decode(vec![0x73, 0, 0, 0x20, 0xac]).unwrap(), AmqpValue::Char('€'));
    assert_eq!(
        decode(vec![0x94, 1, 2, 3, 4, 5, 6, 7, 8, 9, 10, 11, 12, 13, 14, 15, 16]).unwrap(),
        AmqpValue::Decimal128(0x0102_0304_0506_0708_090a_0b0c_0d0e_0f10)
    );
}

#[test]
fn wide_boolean_is_decoded() {
    assert_eq!(decode(vec![0x56, 0x00]).unwrap(), AmqpValue::Boolean(false));
    assert_eq!(decode(vec![0x56, 0x01]).unwrap(), AmqpValue::Boolean(true));
    assert!(matches!(decode(vec![0x56, 0x02]), Err(AmqpError::Decoding(_))));
    assert!(matches!(decode(vec![0x56]), Err(AmqpError::Decoding(_))));
}

#[test]
fn shortest_length_form_is_chosen() {
    let short = encode(&AmqpValue::Binary(vec![1; 255]));
    assert_eq!(&short[..2], &[0xa0, 255]);
    assert_eq!(short.len(), 257);
    let long = encode(&AmqpValue::Binary(vec![1; 256]));
    assert_eq!(&long[..5], &[0xb0, 0, 0, 1, 0]);
    assert_eq!(long.len(), 261);

    let short = encode(&AmqpValue::String("a".repeat(255)));
    assert_eq!(&short[..2], &[0xa1, 255]);
    let long = encode(&AmqpValue::String("a".repeat(256)));
    assert_eq!(&long[..5], &[0xb1, 0, 0, 1, 0]);
    // the length counts octets, not characters
    let long = encode(&AmqpValue::String("é".repeat(128)));
    assert_eq!(&long[..5], &[0xb1, 0, 0, 1, 0]);

    let short = encode(&AmqpValue::Symbol(AmqpSymbol::from("b".repeat(255).as_str())));
    assert_eq!(&short[..2], &[0xa3, 255]);
    let long = encode(&AmqpValue::Symbol(AmqpSymbol::from("b".repeat(256).as_str())));
    assert_eq!(&long[..5], &[0xb3, 0, 0, 1, 0]);
}

#[test]
fn lists_maps_and_arrays_are_framed_by_count() {
    assert_eq!(
        encode(&AmqpValue::List(vec![AmqpValue::Null, AmqpValue::Ubyte(3)])),
        vec![0xc0, 2, 0x40, 0x50, 3]
    );
    let long_list = encode(&AmqpValue::List(vec![AmqpValue::Null; 256]));
    assert_eq!(&long_list[..5], &[0xd0, 0, 0, 1, 0]);
    assert_eq!(long_list.len(), 5 + 256);

    assert_eq!(encode(&AmqpValue::Mapping(AmqpMap::new())), vec![0xc1, 0x00]);
    let mut one = AmqpMap::new();
    one.insert(AmqpSymbol::from("k"), AmqpValue::Boolean(true));
    assert_eq!(encode(&AmqpValue::Mapping(one)), vec![0xc1, 1, 0xa3, 1, b'k', 0x41]);

    let mut many = AmqpMap::new();
    for i in 0..128u32 {
        many.insert(AmqpSymbol::from(format!("k{}", i).as_str()), AmqpValue::Null);
    }
    assert_eq!(many.len(), 128);
    let encoded = encode(&AmqpValue::Mapping(many.clone()));
    assert_eq!(&encoded[..5], &[0xd1, 0, 0, 0, 128]);
    assert_eq!(decode(encoded).unwrap(), AmqpValue::Mapping(many));

    assert_eq!(
        encode(&AmqpValue::Array(vec![AmqpValue::Ubyte(1), AmqpValue::Ubyte(2)])),
        vec![0xe0, 4, 2, 0x50, 1, 0x50, 2]
    );
    assert_eq!(encode(&AmqpValue::Array(vec![])), vec![0xe0, 0, 0]);
    let wide = encode(&AmqpValue::Array(vec![AmqpValue::Ubyte(1); 128]));
    assert_eq!(&wide[..9], &[0xf0, 0, 0, 1, 0, 0, 0, 0, 128]);
    assert_eq!(wide.len(), 9 + 256);
}

#[test]
fn map_entries_are_written_in_insertion_order() {
    let mut map = AmqpMap::new();
    map.insert(AmqpSymbol::from("z"), AmqpValue::Ubyte(1));
    map.insert(AmqpSymbol::from("a"), AmqpValue::Ubyte(2));
    map.insert(AmqpSymbol::from("z"), AmqpValue::Ubyte(3));
    assert_eq!(map.len(), 2);
    assert_eq!(map.key_at(0).as_str(), "z");
    assert_eq!(map.value_at(0), &AmqpValue::Ubyte(3));
    assert_eq!(map.key_at(1).as_str(), "a");
    assert_eq!(
        encode(&AmqpValue::Mapping(map)),
        vec![0xc1, 2, 0xa3, 1, b'z', 0x50, 3, 0xa3, 1, b'a', 0x50, 2]
    );
}

#[test]
fn a_key_sent_twice_keeps_its_last_value() {
    let bytes = vec![0xc1, 2, 0xa3, 1, b'k', 0x50, 1, 0xa3, 1, b'k', 0x50, 2];
    match decode(bytes).unwrap() {
        AmqpValue::Mapping(map) => {
            assert_eq!(map.len(), 1);
            assert_eq!(map.get(&AmqpSymbol::from("k")), Some(&AmqpValue::Ubyte(2)));
            assert!(map.contains_key(&AmqpSymbol::from("k")));
            assert!(!map.contains_key(&AmqpSymbol::from("other")));
            assert_eq!(map.get(&AmqpSymbol::from("other")), None);
        }
        other => panic!("expected a map, got {:?}", other),
    }
}

#[test]
fn empty_buffer_is_refused() {
    let text = decoding_message(decode(vec![]));
    assert_eq!(text, "Unexpected end of data");
    assert!(matches!(Decoder::new(vec![]).decode_symbol(), Err(AmqpError::Decoding(_))));
}

#[test]
fn truncated_values_are_refused() {
    for value in every_kind_of_value() {
        let encoded = encode(&value);
        for kept in 0..encoded.len() {
            let result = decode(encoded[..kept].to_vec());
            assert!(
                matches!(result, Err(AmqpError::Decoding(_))),
                "{:?} cut to {} octets gave {:?}",
                value,
                kept,
                result
            );
        }
    }
}

#[test]
fn truncated_length_prefixed_values_are_refused() {
    assert!(matches!(decode(vec![0xa0]), Err(AmqpError::Decoding(_))));
    assert!(matches!(decode(vec![0xa0, 3, 1, 2]), Err(AmqpError::Decoding(_))));
    assert!(matches!(decode(vec![0xb0, 0, 0]), Err(AmqpError::Decoding(_))));
    // a length of four thousand million octets with nothing behind it
    assert!(matches!(decode(vec![0xb0, 0xff, 0xff, 0xff, 0xff]), Err(AmqpError::Decoding(_))));
    assert!(matches!(decode(vec![0xb1, 0xff, 0xff, 0xff, 0xff, b'a']), Err(AmqpError::Decoding(_))));
    assert!(matches!(decode(vec![0xa3, 2, b'a']), Err(AmqpError::Decoding(_))));
    // counts that promise more than is there
    assert!(matches!(decode(vec![0xc0, 3, 0x40]), Err(AmqpError::Decoding(_))));
    assert!(matches!(decode(vec![0xc0]), Err(AmqpError::Decoding(_))));
    assert!(matches!(decode(vec![0xd0, 0xff, 0xff, 0xff, 0xff, 0x40]), Err(AmqpError::Decoding(_))));
    assert!(matches!(decode(vec![0xd1, 0xff, 0xff, 0xff, 0xff]), Err(AmqpError::Decoding(_))));
    assert!(matches!(decode(vec![0xc1, 1, 0xa3, 1, b'k']), Err(AmqpError::Decoding(_))));
    assert!(matches!(decode(vec![0xe0, 9, 1, 0x40]), Err(AmqpError::Decoding(_))));
    assert!(matches!(decode(vec![0xf0, 0, 0, 0, 0, 0xff, 0xff, 0xff, 0xff]), Err(AmqpError::Decoding(_))));
}

#[test]
fn unknown_type_code_is_reported() {
    assert_eq!(decoding_message(decode(vec![0xff])), "Unknown type code: 0xff");
    assert_eq!(decoding_message(decode(vec![0x00, 1, 2])), "Unknown type code: 0x00");
    assert_eq!(decoding_message(decode(vec![0x0a])), "Unknown type code: 0x0a");
    assert_eq!(decoding_message(decode(vec![0x57])), "Unknown type code: 0x57");
    // inside a list too
    assert_eq!(decoding_message(decode(vec![0xc0, 1, 0x99])), "Unknown type code: 0x99");
}

#[test]
fn non_scalar_char_is_refused() {
    assert!(matches!(decode(vec![0x73, 0x00, 0x00, 0xd8, 0x00]), Err(AmqpError::Decoding(_))));
    assert!(matches!(decode(vec![0x73, 0x00, 0x00, 0xdf, 0xff]), Err(AmqpError::Decoding(_))));
    assert!(matches!(decode(vec![0x73, 0x00, 0x11, 0x00, 0x00]), Err(AmqpError::Decoding(_))));
    assert!(matches!(decode(vec![0x73, 0xff, 0xff, 0xff, 0xff]), Err(AmqpError::Decoding(_))));
    assert_eq!(decode(vec![0x73, 0x00, 0x00, 0xd7, 0xff]).unwrap(), AmqpValue::Char('\u{d7ff}'));
    assert_eq!(decode(vec![0x73, 0x00, 0x10, 0xff, 0xff]).unwrap(), AmqpValue::Char('\u{10ffff}'));
}

#[test]
fn invalid_utf8_is_refused() {
    assert!(matches!(decode(vec![0xa1, 1, 0xff]), Err(AmqpError::Decoding(_))));
    assert!(matches!(decode(vec![0xa1, 2, 0xc3, 0x28]), Err(AmqpError::Decoding(_))));
    assert!(matches!(decode(vec![0xa3, 1, 0x80]), Err(AmqpError::Decoding(_))));
    assert!(matches!(decode(vec![0xb1, 0, 0, 0, 1, 0xfe]), Err(AmqpError::Decoding(_))));
    // the same octets are fine as binary
    assert_eq!(decode(vec![0xa0, 1, 0xff]).unwrap(), AmqpValue::Binary(vec![0xff]));
    assert_eq!(decode(vec![0xa1, 2, 0xc3, 0xa9]).unwrap(), AmqpValue::String("é".to_string()));
}

#[test]
fn decode_symbol_takes_symbols_only() {
    let mut decoder = Decoder::new(vec![0xa3, 2, b'o', b'k', 0xb3, 0, 0, 0, 1, b'x', 0xa1, 0]);
    assert_eq!(decoder.decode_symbol().unwrap(), AmqpSymbol::from("ok"));
    assert_eq!(decoder.decode_symbol().unwrap(), AmqpSymbol::from("x"));
    match decoder.decode_symbol() {
        Err(AmqpError::Decoding(text)) => assert_eq!(text, "Invalid symbol type code: 161"),
        other => panic!("expected a decoding error, got {:?}", other),
    }
    match Decoder::new(vec![0x40]).decode_symbol() {
        Err(AmqpError::Decoding(text)) => assert_eq!(text, "Invalid symbol type code: 64"),
        other => panic!("expected a decoding error, got {:?}", other),
    }
}

#[test]
fn decoding_takes_exactly_the_octets_of_the_value() {
    let mut decoder = Decoder::new(vec![0x50, 7, 0xa1, 1, b'z', 0x45, 0x99]);
    assert_eq!(decoder.remaining(), 7);
    assert_eq!(decoder.decode_value().unwrap(), AmqpValue::Ubyte(7));
    assert_eq!(decoder.remaining(), 5);
    assert_eq!(decoder.decode_value().unwrap(), AmqpValue::String("z".to_string()));
    assert_eq!(decoder.remaining(), 2);
    assert_eq!(decoder.decode_value().unwrap(), AmqpValue::List(vec![]));
    assert_eq!(decoder.remaining(), 1);
    assert!(decoder.has_remaining());
}

#[test]
fn encoder_appends_to_what_was_written() {
    let mut encoder = Encoder::with_capacity(16);
    assert_eq!(encoder.len(), 0);
    encoder.encode_null().unwrap();
    encoder.encode_binary(&[9, 8]).unwrap();
    encoder.encode_symbol(&AmqpSymbol::from("s")).unwrap();
    encoder.encode_array(&vec![AmqpValue::Null]).unwrap();
    assert_eq!(encoder.len(), 12);
    assert!(encoder.capacity() >= 12);
    assert_eq!(encoder.finish(), vec![0x40, 0xa0, 2, 9, 8, 0xa3, 1, b's', 0xe0, 1, 1, 0x40]);
}

fn full_header() -> Header {
    Header {
        durable: Some(true),
        priority: Some(4),
        ttl: Some(60_000),
        first_acquirer: Some(false),
        delivery_count: Some(3),
    }
}

fn full_properties() -> Properties {
    Properties {
        message_id: Some(AmqpValue::Uuid(0x0011_2233_4455_6677_8899_aabb_ccdd_eeff)),
        user_id: Some(vec![1, 2, 3]),
        to: Some("queue".to_string()),
        subject: Some("subject".to_string()),
        reply_to: Some("replies".to_string()),
        correlation_id: Some(AmqpValue::Ulong(77)),
        content_type: Some(AmqpSymbol::from("text/plain")),
        content_encoding: Some(AmqpSymbol::from("utf-8")),
        absolute_expiry_time: Some(1_800_000_000_000),
        creation_time: Some(1_700_000_000_000),
        group_id: Some("group".to_string()),
        group_sequence: Some(9),
        reply_to_group_id: Some("reply-group".to_string()),
    }
}

fn message_round_trip(message: &Message) -> Message {
    let mut encoder = Encoder::new();
    encoder.encode_message(message).unwrap();
    let mut decoder = Decoder::new(encoder.finish());
    let decoded = decoder.decode_message().unwrap();
    assert_eq!(decoder.remaining(), 0);
    decoded
}

#[test]
fn header_and_properties_are_maps_of_their_fields() {
    let map = header_map(&full_header());
    assert_eq!(map.len(), 5);
    assert_eq!(map.key_at(0).as_str(), "durable");
    assert_eq!(map.get(&AmqpSymbol::from("priority")), Some(&AmqpValue::Ubyte(4)));
    assert_eq!(map.get(&AmqpSymbol::from("ttl")), Some(&AmqpValue::Uint(60_000)));
    assert_eq!(map.get(&AmqpSymbol::from("first_acquirer")), Some(&AmqpValue::Boolean(false)));
    assert_eq!(map.get(&AmqpSymbol::from("delivery_count")), Some(&AmqpValue::Uint(3)));
    assert_eq!(header_from_map(&map), full_header());
    assert_eq!(header_map(&Header::new()).len(), 0);

    let map = properties_map(&full_properties());
    assert_eq!(map.len(), 13);
    assert_eq!(map.get(&AmqpSymbol::from("user_id")), Some(&AmqpValue::Binary(vec![1, 2, 3])));
    assert_eq!(
        map.get(&AmqpSymbol::from("content_type")),
        Some(&AmqpValue::Symbol(AmqpSymbol::from("text/plain")))
    );
    assert_eq!(
        map.get(&AmqpSymbol::from("creation_time")),
        Some(&AmqpValue::Timestamp(1_700_000_000_000))
    );
    assert_eq!(properties_from_map(&map), full_properties());

    // a field of the wrong type is not taken
    let mut odd = AmqpMap::new();
    odd.insert(AmqpSymbol::from("durable"), AmqpValue::Ubyte(1));
    odd.insert(AmqpSymbol::from("ttl"), AmqpValue::Uint(5));
    odd.insert(AmqpSymbol::from("subject"), AmqpValue::Uint(5));
    let header = header_from_map(&odd);
    assert_eq!(header.durable, None);
    assert_eq!(header.ttl, Some(5));
    assert_eq!(properties_from_map(&odd), Properties::new());
}

fn bodies_of_every_kind() -> Vec<Body> {
    vec![
        Body::Data(vec![]),
        Body::Data(vec![1, 2, 3]),
        Body::Value(AmqpValue::Binary(vec![1, 2, 3])),
        Body::Value(AmqpValue::String("hi".to_string())),
        Body::Value(AmqpValue::Mapping(sample_map())),
        Body::Value(AmqpValue::List(vec![AmqpValue::Null])),
        Body::Sequence(vec![]),
        Body::Sequence(vec![AmqpValue::Null]),
        Body::Sequence(vec![AmqpValue::Ubyte(1), AmqpValue::String("two".to_string())]),
        Body::Multiple(vec![]),
        Body::Multiple(vec![Body::Data(vec![1, 2, 3])]),
        Body::Multiple(vec![
            Body::Data(vec![9]),
            Body::Value(AmqpValue::Null),
            Body::Sequence(vec![AmqpValue::Ubyte(2)]),
            Body::Value(AmqpValue::Mapping(sample_map())),
        ]),
    ]
}

#[test]
fn round_trip_of_messages() {
    // every subset of the six sections that are not the body, with each kind of body or none
    for subset in 0u32..64 {
        let mut bodies: Vec<Option<Body>> = bodies_of_every_kind().into_iter().map(Some).collect();
        bodies.push(None);
        for body in bodies {
            let mut builder = Message::builder();
            if subset & 1 != 0 {
                builder = builder.header(full_header());
            }
            if subset & 2 != 0 {
                builder = builder.delivery_annotations(sample_map());
            }
            if subset & 4 != 0 {
                builder = builder.message_annotations(AmqpMap::new());
            }
            if subset & 8 != 0 {
                builder = builder.properties(full_properties());
            }
            if subset & 16 != 0 {
                builder = builder.application_properties(sample_map());
            }
            if subset & 32 != 0 {
                builder = builder.footer(sample_map());
            }
            if let Some(body) = body {
                builder = builder.body(body);
            }
            let message = builder.build();
            assert_eq!(message_round_trip(&message), message);
        }
    }
    let bare = Message::builder().header(Header::new()).properties(Properties::new()).build();
    assert_eq!(message_round_trip(&bare), bare);
    for value in every_kind_of_value() {
        let message = Message::builder().body(Body::Value(value)).build();
        assert_eq!(message_round_trip(&message), message);
    }
}

#[test]
fn round_trip_of_a_text_message() {
    let message = Message::text("hi");
    let mut encoder = Encoder::new();
    encoder.encode_message(&message).unwrap();
    let encoded = encoder.finish();
    assert_eq!(encoded, vec![0x00, 0x53, 0x77, 0xa1, 2, b'h', b'i']);
    let decoded = Decoder::new(encoded).decode_message().unwrap();
    assert_eq!(decoded, message);
    assert!(decoded.header.is_none());
    assert!(decoded.properties.is_none());
    assert_eq!(decoded.body_as_text(), Some("hi"));

    let binary = Message::binary(vec![1, 2]);
    let decoded = message_round_trip(&binary);
    assert_eq!(decoded.body_as_binary(), Some(&[1u8, 2][..]));
    assert_eq!(decoded.body_as_text(), None);
}

#[test]
fn sections_are_written_in_their_order() {
    let mut one = AmqpMap::new();
    one.insert(AmqpSymbol::from("a"), AmqpValue::Ubyte(1));
    let mut two = AmqpMap::new();
    two.insert(AmqpSymbol::from("b"), AmqpValue::Ubyte(2));
    let mut three = AmqpMap::new();
    three.insert(AmqpSymbol::from("c"), AmqpValue::Ubyte(3));
    let mut four = AmqpMap::new();
    four.insert(AmqpSymbol::from("d"), AmqpValue::Ubyte(4));
    let mut properties = Properties::new();
    properties.to = Some("q".to_string());
    let message = Message::builder()
        .footer(four)
        .body(Body::Data(vec![9]))
        .application_properties(three)
        .properties(properties)
        .message_annotations(two)
        .delivery_annotations(one)
        .header(Header { priority: Some(7), ..Header::new() })
        .build();
    let mut encoder = Encoder::new();
    encoder.encode_message(&message).unwrap();
    let mut expected = vec![0x00, 0x53, 0x70, 0xc1, 1, 0xa3, 8];
    expected.extend_from_slice(b"priority");
    expected.extend_from_slice(&[0x50, 7]);
    expected.extend_from_slice(&[0x00, 0x53, 0x71, 0xc1, 1, 0xa3, 1, b'a', 0x50, 1]);
    expected.extend_from_slice(&[0x00, 0x53, 0x72, 0xc1, 1, 0xa3, 1, b'b', 0x50, 2]);
    expected.extend_from_slice(&[0x00, 0x53, 0x73, 0xc1, 1, 0xa3, 2, b't', b'o', 0xa1, 1, b'q']);
    expected.extend_from_slice(&[0x00, 0x53, 0x74, 0xc1, 1, 0xa3, 1, b'c', 0x50, 3]);
    expected.extend_from_slice(&[0x00, 0x53, 0x75, 0xa0, 1, 9]);
    expected.extend_from_slice(&[0x00, 0x53, 0x78, 0xc1, 1, 0xa3, 1, b'd', 0x50, 4]);
    assert_eq!(encoder.finish(), expected);
}

#[test]
fn bodies_are_written_by_their_kind() {
    let encode_body = |body: Body| {
        let mut encoder = Encoder::new();
        encoder.encode_message(&Message::builder().body(body).build()).map(|_| encoder.finish())
    };
    assert_eq!(encode_body(Body::Data(vec![1, 2])).unwrap(), vec![0, 0x53, 0x75, 0xa0, 2, 1, 2]);
    assert_eq!(encode_body(Body::Value(AmqpValue::Ubyte(5))).unwrap(), vec![0, 0x53, 0x77, 0x50, 5]);
    assert_eq!(
        encode_body(Body::Sequence(vec![AmqpValue::Null, AmqpValue::Boolean(true)])).unwrap(),
        vec![0, 0x53, 0x76, 0xc0, 2, 0x40, 0x41]
    );
    assert_eq!(encode_body(Body::Sequence(vec![])).unwrap(), vec![0, 0x53, 0x76, 0x45]);
    assert_eq!(
        encode_body(Body::Multiple(vec![
            Body::Data(vec![1]),
            Body::Value(AmqpValue::Null),
            Body::Sequence(vec![AmqpValue::Ubyte(2)]),
        ]))
        .unwrap(),
        vec![
            0, 0x53, 0x79, 0x70, 0, 0, 0, 3, 0, 0x53, 0x75, 0xa0, 1, 1, 0, 0x53, 0x77, 0x40, 0,
            0x53, 0x76, 0xc0, 1, 0x50, 2
        ]
    );
    assert_eq!(
        encode_body(Body::Multiple(vec![])).unwrap(),
        vec![0, 0x53, 0x79, 0x70, 0, 0, 0, 0]
    );
    match encode_body(Body::Multiple(vec![Body::Data(vec![1]), Body::Multiple(vec![])])) {
        Err(AmqpError::Encoding(text)) => assert_eq!(text, "Nested multiple bodies not supported"),
        other => panic!("expected an encoding error, got {:?}", other),
    }
}

#[test]
fn decode_message_reads_the_sections_that_are_there() {
    // what follows the last section is left
    let mut decoder =
        Decoder::new(vec![0, 0x53, 0x70, 0xc1, 0, 0, 0x53, 0x77, 0x50, 1, 0x50, 2]);
    let message = decoder.decode_message().unwrap();
    assert_eq!(message.header, Some(Header::new()));
    assert_eq!(message.properties, None);
    assert_eq!(message.body, Some(Body::Value(AmqpValue::Ubyte(1))));
    assert_eq!(decoder.remaining(), 2);

    // nothing at all is the empty message
    assert_eq!(Decoder::new(vec![]).decode_message().unwrap(), Message::new());

    // a section out of its turn is left behind
    let mut late = Decoder::new(vec![0, 0x53, 0x78, 0xc1, 0, 0, 0x53, 0x70, 0xc1, 0]);
    let message = late.decode_message().unwrap();
    assert_eq!(message.footer, Some(AmqpMap::new()));
    assert_eq!(message.header, None);
    assert_eq!(late.remaining(), 5);

    // a section that starts and cannot be read
    for broken in [
        vec![0, 0x53, 0x70],
        vec![0, 0x53, 0x70, 0x50, 1],
        vec![0, 0x53, 0x73, 0xc1, 1, 0xa3, 1, b'k'],
        vec![0, 0x53, 0x75, 0xa1, 0],
        vec![0, 0x53, 0x76, 0x40],
        vec![0, 0x53, 0x77],
        vec![0, 0x53, 0x77, 0xa1, 5, b'x'],
        vec![0, 0x53, 0x79, 0x50, 1],
        vec![0, 0x53, 0x79, 0x70, 0, 0, 0, 2, 0, 0x53, 0x77, 0x40],
        vec![0, 0x53, 0x79, 0x70, 0, 0, 0, 1, 0, 0x53, 0x79, 0x70, 0, 0, 0, 0],
        vec![0, 0x53, 0x78, 0x45],
    ] {
        let result = Decoder::new(broken.clone()).decode_message();
        assert!(matches!(result, Err(AmqpError::Decoding(_))), "{:?} gave {:?}", broken, result);
    }
}

fn map_of(entries: &[(&str, AmqpValue)]) -> AmqpMap {
    let mut map = AmqpMap::new();
    for (key, value) in entries {
        map.insert(AmqpSymbol::from(*key), value.clone());
    }
    map
}

#[test]
fn maps_are_equal_whatever_the_order_of_their_entries() {
    let forward = map_of(&[("a", AmqpValue::Uint(1)), ("b", AmqpValue::Boolean(true))]);
    let backward = map_of(&[("b", AmqpValue::Boolean(true)), ("a", AmqpValue::Uint(1))]);
    assert!(forward.same_entries(&backward));
    assert!(backward.same_entries(&forward));
    assert_eq!(forward, backward);
    assert_eq!(AmqpValue::Mapping(forward.clone()), AmqpValue::Mapping(backward.clone()));
    // the wire keeps the order of insertion all the same
    assert_ne!(encode(&AmqpValue::Mapping(forward.clone())), encode(&AmqpValue::Mapping(backward)));

    let other_value = map_of(&[("a", AmqpValue::Uint(2)), ("b", AmqpValue::Boolean(true))]);
    assert!(!forward.same_entries(&other_value));
    assert_ne!(forward, other_value);
    let other_key = map_of(&[("a", AmqpValue::Uint(1)), ("c", AmqpValue::Boolean(true))]);
    assert!(!forward.same_entries(&other_key));
    assert!(!other_key.same_entries(&forward));
    let shorter = map_of(&[("a", AmqpValue::Uint(1))]);
    assert!(!forward.same_entries(&shorter));
    assert!(!shorter.same_entries(&forward));
    assert!(AmqpMap::new().same_entries(&AmqpMap::new()));
    assert!(!AmqpMap::new().same_entries(&shorter));
    // an entry that was written over is compared by its last value
    let rewritten = map_of(&[
        ("a", AmqpValue::Uint(7)),
        ("b", AmqpValue::Boolean(true)),
        ("a", AmqpValue::Uint(1)),
    ]);
    assert!(forward.same_entries(&rewritten));
}

#[test]
fn values_are_compared_through_their_maps() {
    let inner_forward = map_of(&[("x", AmqpValue::Null), ("y", AmqpValue::Long(-1))]);
    let inner_backward = map_of(&[("y", AmqpValue::Long(-1)), ("x", AmqpValue::Null)]);
    let left = AmqpValue::List(vec![
        AmqpValue::Mapping(map_of(&[
            ("m", AmqpValue::Mapping(inner_forward.clone())),
            ("n", AmqpValue::Array(vec![AmqpValue::Mapping(inner_forward.clone())])),
        ])),
        AmqpValue::String("s".to_string()),
    ]);
    let right = AmqpValue::List(vec![
        AmqpValue::Mapping(map_of(&[
            ("n", AmqpValue::Array(vec![AmqpValue::Mapping(inner_backward.clone())])),
            ("m", AmqpValue::Mapping(inner_backward)),
        ])),
        AmqpValue::String("s".to_string()),
    ]);
    assert!(left.same_as(&right));
    assert!(right.same_as(&left));
    assert_eq!(left, right);

    // lists and arrays keep their order
    let one_two = AmqpValue::List(vec![AmqpValue::Uint(1), AmqpValue::Uint(2)]);
    let two_one = AmqpValue::List(vec![AmqpValue::Uint(2), AmqpValue::Uint(1)]);
    assert!(!one_two.same_as(&two_one));
    assert!(!one_two.same_as(&AmqpValue::List(vec![AmqpValue::Uint(1)])));
    assert!(!one_two.same_as(&AmqpValue::Array(vec![AmqpValue::Uint(1), AmqpValue::Uint(2)])));
    // values of different kinds differ, whatever they hold
    assert!(!AmqpValue::Uint(1).same_as(&AmqpValue::Ulong(1)));
    assert!(!AmqpValue::String("a".to_string()).same_as(&AmqpValue::Symbol(AmqpSymbol::from("a"))));
    assert!(!AmqpValue::Mapping(AmqpMap::new()).same_as(&AmqpValue::List(vec![])));
    for value in every_kind_of_value() {
        assert!(value.same_as(&value.clone()), "{:?}", value);
        value.keys_are_unique();
    }
    inner_forward.keys_are_unique();
}

#[test]
fn a_message_equals_its_copy_with_maps_in_another_order() {
    let mut first = Message::text("t");
    first.footer = Some(map_of(&[("a", AmqpValue::Uint(1)), ("b", AmqpValue::Uint(2))]));
    let mut second = Message::text("t");
    second.footer = Some(map_of(&[("b", AmqpValue::Uint(2)), ("a", AmqpValue::Uint(1))]));
    assert_eq!(first, second);
    assert_eq!(message_round_trip(&second), first);
    first.keys_are_unique();
    for body in bodies_of_every_kind() {
        body.keys_are_unique();
    }
}

#[test]
fn the_empty_list_is_one_octet() {
    let mut encoder = Encoder::new();
    encoder.encode_list(&vec![]).unwrap();
    assert_eq!(encoder.finish(), vec![0x45]);
    let mut encoder = Encoder::new();
    encoder.encode_ubyte(9).unwrap();
    encoder.encode_list(&vec![]).unwrap();
    encoder.encode_list(&vec![AmqpValue::Null]).unwrap();
    assert_eq!(encoder.finish(), vec![0x50, 9, 0x45, 0xc0, 1, 0x40]);
}

#[test]
fn texts_are_compared_by_their_characters() {
    assert!(str_eq("", ""));
    assert!(str_eq("amqp:link:stolen", "amqp:link:stolen"));
    assert!(str_eq("héllo ✓", "héllo ✓"));
    assert!(!str_eq("a", ""));
    assert!(!str_eq("", "a"));
    assert!(!str_eq("abc", "abd"));
    assert!(!str_eq("abc", "abcd"));
    assert!(!str_eq("e\u{301}", "\u{e9}"));
}

#[test]
fn fresh_uuid_text_is_hyphenated_hex() {
    let text = dumq_amqp::ids::new_uuid_text();
    assert_eq!(text.len(), 36);
    for (at, c) in text.chars().enumerate() {
        if at == 8 || at == 13 || at == 18 || at == 23 {
            assert_eq!(c, '-');
        } else {
            assert!(c.is_ascii_digit() || ('a'..='f').contains(&c), "{}", text);
        }
    }
    assert_ne!(text, dumq_amqp::ids::new_uuid_text());
}

#[test]
fn decode_char_takes_scalar_values_only() {
    let mut decoder = Decoder::new(vec![0, 0, 0, 0x41, 7]);
    assert_eq!(decoder.decode_char().unwrap(), AmqpValue::Char('A'));
    assert_eq!(decoder.remaining(), 1);
    let mut decoder = Decoder::new(vec![0, 0x10, 0xff, 0xff]);
    assert_eq!(decoder.decode_char().unwrap(), AmqpValue::Char('\u{10ffff}'));
    let mut decoder = Decoder::new(vec![0, 0, 0xd7, 0xff]);
    assert_eq!(decoder.decode_char().unwrap(), AmqpValue::Char('\u{d7ff}'));
    for refused in [
        vec![0, 0, 0xd8, 0],
        vec![0, 0, 0xdf, 0xff],
        vec![0, 0x11, 0, 0],
        vec![0xff, 0xff, 0xff, 0xff],
        vec![0, 0, 0x41],
        vec![],
    ] {
        let result = Decoder::new(refused.clone()).decode_char();
        assert!(matches!(result, Err(AmqpError::Decoding(_))), "{:?} gave {:?}", refused, result);
    }
}
