use dumq_amqp::connection::{ConnectionBuilder, ConnectionState};
use dumq_amqp::message::Message;
use dumq_amqp::session::{Session, SessionState};
use dumq_amqp::types::{AmqpSymbol, AmqpValue};
use uuid::Uuid;

#[test]
fn lib_test_amqp_value_creation() {
    let string_value = AmqpValue::String("test".to_string());
    let int_value = AmqpValue::Int(42);
    let bool_value = AmqpValue::Boolean(true);
    let double_value = AmqpValue::Double(3.14f64.to_bits());
    let uuid_value = AmqpValue::Uuid(Uuid::new_v4().as_u128());

    assert!(matches!(string_value, AmqpValue::String(_)));
    assert!(matches!(int_value, AmqpValue::Int(_)));
    assert!(matches!(bool_value, AmqpValue::Boolean(_)));
    assert!(matches!(double_value, AmqpValue::Double(_)));
    assert!(matches!(uuid_value, AmqpValue::Uuid(_)));
}

#[test]
fn lib_test_amqp_symbol_creation() {
    let symbol = AmqpSymbol::from("test-symbol");
    assert_eq!(symbol.as_str(), "test-symbol");
}

#[test]
fn lib_test_message_creation() {
    let message = Message::text("Hello, World!");
    assert_eq!(message.body_as_text(), Some("Hello, World!"));
}

#[test]
fn test_message_with_properties() {
    let message = Message::builder()
        .build()
        .with_message_id("test-msg-001")
        .with_subject("Test Subject");

    assert_eq!(message.message_id_as_string(), Some("test-msg-001".to_string()));
    assert_eq!(
        message.properties.as_ref().and_then(|p| p.subject.as_ref()),
        Some(&"Test Subject".to_string())
    );
}

#[test]
fn test_connection_builder() {
    let connection = ConnectionBuilder::new()
        .hostname("localhost")
        .port(5672)
        .container_id("test-container")
        .build();

    assert_eq!(connection.state(), &ConnectionState::Closed);
    assert!(!connection.id().is_empty());
}

#[test]
fn lib_test_session_creation() {
    let session = Session::new(1, "test-connection".to_string());
    assert_eq!(session.channel(), 1);
    assert_eq!(session.id(), "test-connection-session-1");
    assert_eq!(session.state(), &SessionState::Ended);
}
