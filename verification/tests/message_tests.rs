use dumq_amqp::message::{Body, Header, Message, MessageBuilder, Properties};
use dumq_amqp::types::{AmqpMap, AmqpSymbol, AmqpValue};
use uuid::Uuid;

#[test]
fn message_test_message_creation() {
    let message = Message::new();
    assert!(message.header.is_none());
    assert!(message.delivery_annotations.is_none());
    assert!(message.message_annotations.is_none());
    assert!(message.properties.is_none());
    assert!(message.application_properties.is_none());
    assert!(message.body.is_none());
    assert!(message.footer.is_none());
}

#[test]
fn test_message_text_creation() {
    let message = Message::text("Hello, World!");
    
    assert!(message.body.is_some());
    if let Some(Body::Value(AmqpValue::String(text))) = &message.body {
        assert_eq!(text, "Hello, World!");
    } else {
        panic!("Expected text body");
    }
}

#[test]
fn test_message_binary_creation() {
    let data = vec![1, 2, 3, 4, 5];
    let message = Message::binary(data.clone());
    
    assert!(message.body.is_some());
    if let Some(Body::Data(binary_data)) = &message.body {
        assert_eq!(binary_data, &data);
    } else {
        panic!("Expected binary body");
    }
}

#[test]
fn test_message_from_string() {
    let message: Message = "Test string".to_string().into();
    
    assert!(message.body.is_some());
    if let Some(Body::Value(AmqpValue::String(text))) = &message.body {
        assert_eq!(text, "Test string");
    } else {
        panic!("Expected text body");
    }
}

#[test]
fn test_message_from_vec_u8() {
    let data = vec![10, 20, 30, 40];
    let message: Message = data.clone().into();
    
    assert!(message.body.is_some());
    if let Some(Body::Data(binary_data)) = &message.body {
        assert_eq!(binary_data, &data);
    } else {
        panic!("Expected binary body");
    }
}

#[test]
fn test_message_builder() {
    let message = Message::builder()
        .header(Header::new())
        .body(Body::Value(AmqpValue::String("Builder test".to_string())))
        .build();
    
    assert!(message.header.is_some());
    assert!(message.body.is_some());
    
    if let Some(Body::Value(AmqpValue::String(text))) = &message.body {
        assert_eq!(text, "Builder test");
    } else {
        panic!("Expected text body");
    }
}

#[test]
fn test_message_builder_with_properties() {
    let mut properties = Properties::new();
    properties.subject = Some("Test Subject".to_string());
    properties.message_id = Some(AmqpValue::String("msg-001".to_string()));
    
    let message = Message::builder()
        .properties(properties)
        .build();
    
    assert!(message.properties.is_some());
    if let Some(props) = &message.properties {
        assert_eq!(props.subject, Some("Test Subject".to_string()));
        assert_eq!(props.message_id, Some(AmqpValue::String("msg-001".to_string())));
    }
}

#[test]
fn test_message_builder_with_annotations() {
    let mut annotations = AmqpMap::new();
    annotations.insert(AmqpSymbol::from("key1"), AmqpValue::String("value1".to_string()));
    annotations.insert(AmqpSymbol::from("key2"), AmqpValue::Int(42));
    
    let message = Message::builder()
        .message_annotations(annotations.clone())
        .delivery_annotations(annotations.clone())
        .application_properties(annotations.clone())
        .footer(annotations)
        .build();
    
    assert!(message.message_annotations.is_some());
    assert!(message.delivery_annotations.is_some());
    assert!(message.application_properties.is_some());
    assert!(message.footer.is_some());
}

#[test]
fn test_message_body_as_text() {
    let message = Message::text("Test text");
    assert_eq!(message.body_as_text(), Some("Test text"));
    
    let message = Message::binary(vec![1, 2, 3]);
    assert_eq!(message.body_as_text(), None);
    
    let message = Message::new();
    assert_eq!(message.body_as_text(), None);
}

#[test]
fn test_message_body_as_binary() {
    let data = vec![1, 2, 3, 4];
    let message = Message::binary(data.clone());
    assert_eq!(message.body_as_binary(), Some(data.as_slice()));
    
    let message = Message::text("Test text");
    assert_eq!(message.body_as_binary(), None);
    
    let message = Message::new();
    assert_eq!(message.body_as_binary(), None);
}

#[test]
fn test_message_with_message_id() {
    let message = Message::new()
        .with_message_id("test-msg-001");
    
    assert!(message.properties.is_some());
    if let Some(props) = &message.properties {
        assert_eq!(props.message_id, Some(AmqpValue::String("test-msg-001".to_string())));
    }
}

#[test]
fn test_message_with_uuid_message_id() {
    let uuid = Uuid::new_v4().as_u128();
    let message = Message::new()
        .with_uuid_message_id(uuid);
    
    assert!(message.properties.is_some());
    if let Some(props) = &message.properties {
        assert_eq!(props.message_id, Some(AmqpValue::Uuid(uuid)));
    }
}

#[test]
fn test_message_with_subject() {
    let message = Message::new()
        .with_subject("Test Subject");
    
    assert!(message.properties.is_some());
    if let Some(props) = &message.properties {
        assert_eq!(props.subject, Some("Test Subject".to_string()));
    }
}

#[test]
fn test_message_with_content_type() {
    let content_type = AmqpSymbol::from("text/plain");
    let message = Message::new()
        .with_content_type(content_type.clone());
    
    assert!(message.properties.is_some());
    if let Some(props) = &message.properties {
        assert_eq!(props.content_type, Some(content_type));
    }
}

#[test]
fn test_message_id_as_string() {
    let message = Message::new()
        .with_message_id("string-id");
    
    assert_eq!(message.message_id_as_string(), Some("string-id".to_string()));
    
    let uuid = Uuid::new_v4();
    let message = Message::new()
        .with_uuid_message_id(uuid.as_u128());
    
    assert_eq!(message.message_id_as_string(), Some(uuid.to_string()));
    
    let message = Message::new();
    assert_eq!(message.message_id_as_string(), None);
}

#[test]
fn test_header_creation() {
    let header = Header::new();
    assert!(header.durable.is_none());
    assert!(header.priority.is_none());
    assert!(header.ttl.is_none());
    assert!(header.first_acquirer.is_none());
    assert!(header.delivery_count.is_none());
}

#[test]
fn test_header_default() {
    let header = Header::default();
    assert!(header.durable.is_none());
    assert!(header.priority.is_none());
    assert!(header.ttl.is_none());
    assert!(header.first_acquirer.is_none());
    assert!(header.delivery_count.is_none());
}

#[test]
fn test_properties_creation() {
    let properties = Properties::new();
    assert!(properties.message_id.is_none());
    assert!(properties.user_id.is_none());
    assert!(properties.to.is_none());
    assert!(properties.subject.is_none());
    assert!(properties.reply_to.is_none());
    assert!(properties.correlation_id.is_none());
    assert!(properties.content_type.is_none());
    assert!(properties.content_encoding.is_none());
    assert!(properties.absolute_expiry_time.is_none());
    assert!(properties.creation_time.is_none());
    assert!(properties.group_id.is_none());
    assert!(properties.group_sequence.is_none());
    assert!(properties.reply_to_group_id.is_none());
}

#[test]
fn test_properties_default() {
    let properties = Properties::default();
    assert!(properties.message_id.is_none());
    assert!(properties.user_id.is_none());
    assert!(properties.to.is_none());
    assert!(properties.subject.is_none());
    assert!(properties.reply_to.is_none());
    assert!(properties.correlation_id.is_none());
    assert!(properties.content_type.is_none());
    assert!(properties.content_encoding.is_none());
    assert!(properties.absolute_expiry_time.is_none());
    assert!(properties.creation_time.is_none());
    assert!(properties.group_id.is_none());
    assert!(properties.group_sequence.is_none());
    assert!(properties.reply_to_group_id.is_none());
}

#[test]
fn test_body_variants() {
    // Data body
    let data_body = Body::Data(vec![1, 2, 3, 4]);
    assert!(matches!(data_body, Body::Data(_)));
    
    // Value body
    let value_body = Body::Value(AmqpValue::String("test".to_string()));
    assert!(matches!(value_body, Body::Value(_)));
    
    // Sequence body
    let sequence_body = Body::Sequence(vec![
        AmqpValue::String("item1".to_string()),
        AmqpValue::Int(42),
    ]);
    assert!(matches!(sequence_body, Body::Sequence(_)));
    
    // Multiple body
    let multiple_body = Body::Multiple(vec![
        Body::Data(vec![1, 2, 3]),
        Body::Value(AmqpValue::String("text".to_string())),
    ]);
    assert!(matches!(multiple_body, Body::Multiple(_)));
}

#[test]
fn test_message_builder_default() {
    let builder = MessageBuilder::default();
    let message = builder.build();
    
    assert!(message.header.is_none());
    assert!(message.delivery_annotations.is_none());
    assert!(message.message_annotations.is_none());
    assert!(message.properties.is_none());
    assert!(message.application_properties.is_none());
    assert!(message.body.is_none());
    assert!(message.footer.is_none());
}

#[test]
fn test_message_clone() {
    let original = Message::text("Original message");
    let cloned = original.clone();
    
    assert_eq!(original, cloned);
    assert_eq!(cloned.body_as_text(), Some("Original message"));
}

#[test]
fn test_message_equality() {
    let message1 = Message::text("Test message");
    let message2 = Message::text("Test message");
    let message3 = Message::text("Different message");
    
    assert_eq!(message1, message2);
    assert_ne!(message1, message3);
}

#[test]
fn test_message_with_complex_body() {
    let complex_body = Body::Multiple(vec![
        Body::Data(vec![1, 2, 3]),
        Body::Value(AmqpValue::String("text part".to_string())),
        Body::Sequence(vec![
            AmqpValue::Int(100),
            AmqpValue::Boolean(true),
        ]),
    ]);
    
    let message = Message::builder()
        .body(complex_body)
        .build();
    
    assert!(message.body.is_some());
    if let Some(Body::Multiple(bodies)) = &message.body {
        assert_eq!(bodies.len(), 3);
        assert!(matches!(&bodies[0], Body::Data(_)));
        assert!(matches!(&bodies[1], Body::Value(_)));
        assert!(matches!(&bodies[2], Body::Sequence(_)));
    } else {
        panic!("Expected multiple body");
    }
}
