use dumq_amqp::link::{
    Link, LinkBuilder, LinkConfig, LinkState, Receiver, Sender, TerminusBuilder, TerminusConfig,
};
use dumq_amqp::message::Message;
use dumq_amqp::types::{
    AmqpSymbol, AmqpValue, ReceiverSettleMode, SenderSettleMode, TerminusDurability,
    TerminusExpiryPolicy,
};

#[test]
fn test_link_state_creation() {
    let attaching = LinkState::Attaching;
    let attached = LinkState::Attached;
    let detaching = LinkState::Detaching;
    let detached = LinkState::Detached;
    let error = LinkState::Error("test error".to_string());

    assert_eq!(attaching, LinkState::Attaching);
    assert_eq!(attached, LinkState::Attached);
    assert_eq!(detaching, LinkState::Detaching);
    assert_eq!(detached, LinkState::Detached);
    assert_eq!(error, LinkState::Error("test error".to_string()));
}

#[test]
fn test_link_config_default() {
    let config = LinkConfig::default();
    
    assert!(!config.name.is_empty());
    assert_eq!(config.source, None);
    assert_eq!(config.target, None);
    assert_eq!(config.sender_settle_mode, SenderSettleMode::Mixed);
    assert_eq!(config.receiver_settle_mode, ReceiverSettleMode::First);
    assert!(config.properties.is_empty());
    assert!(config.source_config.is_none());
    assert!(config.target_config.is_none());
}

#[test]
fn test_link_config_custom() {
    let mut config = LinkConfig::default();
    config.name = "test-link".to_string();
    config.source = Some("test-source".to_string());
    config.target = Some("test-target".to_string());
    config.sender_settle_mode = SenderSettleMode::Settled;
    config.receiver_settle_mode = ReceiverSettleMode::Second;
    
    assert_eq!(config.name, "test-link");
    assert_eq!(config.source, Some("test-source".to_string()));
    assert_eq!(config.target, Some("test-target".to_string()));
    assert_eq!(config.sender_settle_mode, SenderSettleMode::Settled);
    assert_eq!(config.receiver_settle_mode, ReceiverSettleMode::Second);
}

#[test]
fn test_terminus_config_default() {
    let config = TerminusConfig::default();
    
    assert_eq!(config.durability, TerminusDurability::NotDurable);
    assert_eq!(config.expiry_policy, TerminusExpiryPolicy::SessionEnd);
    assert_eq!(config.timeout, 0);
    assert!(config.properties.is_empty());
}

#[test]
fn test_terminus_config_custom() {
    let mut config = TerminusConfig::default();
    config.durability = TerminusDurability::Configuration;
    config.expiry_policy = TerminusExpiryPolicy::Never;
    config.timeout = 5000;
    
    assert_eq!(config.durability, TerminusDurability::Configuration);
    assert_eq!(config.expiry_policy, TerminusExpiryPolicy::Never);
    assert_eq!(config.timeout, 5000);
}

#[test]
fn test_link_creation() {
    let config = LinkConfig::default();
    let session_id = "test-session".to_string();
    let link = Link::new(config.clone(), session_id.clone());
    
    assert_eq!(link.state(), &LinkState::Detached);
    assert_eq!(link.session_id(), &session_id);
    assert!(!link.id().is_empty());
    assert_eq!(link.name(), &config.name);
    assert_eq!(link.handle(), 0);
}

#[test]
fn test_link_attach_detach() {
    let config = LinkConfig::default();
    let session_id = "test-session".to_string();
    let mut link = Link::new(config, session_id);
    
    // Test attach
    assert!(link.attach().is_ok());
    assert_eq!(link.state(), &LinkState::Attached);
    
    // Test detach
    assert!(link.detach().is_ok());
    assert_eq!(link.state(), &LinkState::Detached);
}

#[test]
fn test_sender_creation() {
    let config = LinkConfig::default();
    let session_id = "test-session".to_string();
    let sender = Sender::new(config.clone(), session_id.clone());
    
    assert_eq!(sender.credit(), 0);
    assert_eq!(sender.state(), &LinkState::Detached);
    assert_eq!(sender.name(), &config.name);
}

#[test]
fn test_sender_attach_detach() {
    let config = LinkConfig::default();
    let session_id = "test-session".to_string();
    let mut sender = Sender::new(config, session_id);
    
    // Test attach
    assert!(sender.attach().is_ok());
    assert_eq!(sender.state(), &LinkState::Attached);
    
    // Test detach
    assert!(sender.detach().is_ok());
    assert_eq!(sender.state(), &LinkState::Detached);
}

#[test]
fn test_sender_credit_management() {
    let config = LinkConfig::default();
    let session_id = "test-session".to_string();
    let mut sender = Sender::new(config, session_id);
    
    assert_eq!(sender.credit(), 0);
    sender.add_credit(10);
    assert_eq!(sender.credit(), 10);
    sender.add_credit(5);
    assert_eq!(sender.credit(), 15);
}

#[test]
fn test_receiver_creation() {
    let config = LinkConfig::default();
    let session_id = "test-session".to_string();
    let receiver = Receiver::new(config.clone(), session_id.clone());
    
    assert_eq!(receiver.credit(), 0);
    assert_eq!(receiver.delivery_count(), 0);
    assert_eq!(receiver.state(), &LinkState::Detached);
    assert_eq!(receiver.name(), &config.name);
}

#[test]
fn test_receiver_attach_detach() {
    let config = LinkConfig::default();
    let session_id = "test-session".to_string();
    let mut receiver = Receiver::new(config, session_id);
    
    // Test attach
    assert!(receiver.attach().is_ok());
    assert_eq!(receiver.state(), &LinkState::Attached);
    
    // Test detach
    assert!(receiver.detach().is_ok());
    assert_eq!(receiver.state(), &LinkState::Detached);
}

#[test]
fn test_receiver_credit_management() {
    let config = LinkConfig::default();
    let session_id = "test-session".to_string();
    let mut receiver = Receiver::new(config, session_id);
    
    assert_eq!(receiver.credit(), 0);
    receiver.add_credit(20);
    assert_eq!(receiver.credit(), 20);
    receiver.add_credit(10);
    assert_eq!(receiver.credit(), 30);
}

#[test]
fn test_receiver_message_handling() {
    let config = LinkConfig::default();
    let session_id = "test-session".to_string();
    let mut receiver = Receiver::new(config, session_id);
    
    // Attach the receiver first
    receiver.attach().unwrap();
    
    // Create a test message
    let message = Message::new();
    
    // Simulate receiving a message
    receiver.simulate_receive(message.clone());
    assert_eq!(receiver.delivery_count(), 0);
    
    // Test receive
    let received = receiver.receive().unwrap();
    assert!(received.is_some());
    assert_eq!(receiver.delivery_count(), 1);
}

#[test]
fn test_link_builder() {
    let sender = LinkBuilder::new()
        .name("test-sender")
        .source("test-source")
        .target("test-target")
        .sender_settle_mode(SenderSettleMode::Settled)
        .receiver_settle_mode(ReceiverSettleMode::Second)
        .property("key1", AmqpValue::String("value1".to_string()))
        .build_sender("test-session".to_string());
    
    assert_eq!(sender.name(), "test-sender");
    assert_eq!(sender.state(), &LinkState::Detached);
}

#[test]
fn test_link_builder_with_terminus() {
    let source_config = TerminusBuilder::new()
        .durability(TerminusDurability::Configuration)
        .expiry_policy(TerminusExpiryPolicy::Never)
        .timeout(10000)
        .property("source-key", AmqpValue::Int(42))
        .build();
        
    let target_config = TerminusBuilder::new()
        .durability(TerminusDurability::UnsettledState)
        .expiry_policy(TerminusExpiryPolicy::ConnectionClose)
        .timeout(5000)
        .property("target-key", AmqpValue::String("target-value".to_string()))
        .build();
    
    let receiver = LinkBuilder::new()
        .name("test-receiver")
        .source_config(source_config)
        .target_config(target_config)
        .build_receiver("test-session".to_string());
    
    assert_eq!(receiver.name(), "test-receiver");
    assert_eq!(receiver.state(), &LinkState::Detached);
}

#[test]
fn test_terminus_builder() {
    let config = TerminusBuilder::new()
        .durability(TerminusDurability::Configuration)
        .expiry_policy(TerminusExpiryPolicy::Never)
        .timeout(15000)
        .property("test-key", AmqpValue::Boolean(true))
        .build();
    
    assert_eq!(config.durability, TerminusDurability::Configuration);
    assert_eq!(config.expiry_policy, TerminusExpiryPolicy::Never);
    assert_eq!(config.timeout, 15000);
    assert_eq!(config.properties.len(), 1);
    assert_eq!(config.properties.get(&AmqpSymbol::from("test-key")), Some(&AmqpValue::Boolean(true)));
}

#[test]
fn test_link_builder_default() {
    let builder = LinkBuilder::default();
    let sender = builder.build_sender("test-session".to_string());
    
    assert!(!sender.name().is_empty());
    assert_eq!(sender.state(), &LinkState::Detached);
}

#[test]
fn test_terminus_builder_default() {
    let builder = TerminusBuilder::default();
    let config = builder.build();
    
    assert_eq!(config.durability, TerminusDurability::NotDurable);
    assert_eq!(config.expiry_policy, TerminusExpiryPolicy::SessionEnd);
    assert_eq!(config.timeout, 0);
    assert!(config.properties.is_empty());
}

#[test]
fn test_link_state_clone() {
    let state1 = LinkState::Attached;
    let state2 = state1.clone();
    
    assert_eq!(state1, state2);
}

#[test]
fn test_link_config_clone() {
    let mut config1 = LinkConfig::default();
    config1.name = "test-link".to_string();
    config1.source = Some("test-source".to_string());
    
    let config2 = config1.clone();
    
    assert_eq!(config1.name, config2.name);
    assert_eq!(config1.source, config2.source);
}

#[test]
fn test_terminus_config_clone() {
    let mut config1 = TerminusConfig::default();
    config1.durability = TerminusDurability::Configuration;
    config1.timeout = 5000;
    
    let config2 = config1.clone();
    
    assert_eq!(config1.durability, config2.durability);
    assert_eq!(config1.timeout, config2.timeout);
}

#[test]
fn test_link_properties() {
    let mut config = LinkConfig::default();
    config.properties.insert(AmqpSymbol::from("test-key"), AmqpValue::Int(123));
    config.properties.insert(AmqpSymbol::from("test-string"), AmqpValue::String("test-value".to_string()));
    
    assert_eq!(config.properties.len(), 2);
    assert_eq!(config.properties.get(&AmqpSymbol::from("test-key")), Some(&AmqpValue::Int(123)));
    assert_eq!(config.properties.get(&AmqpSymbol::from("test-string")), Some(&AmqpValue::String("test-value".to_string())));
}

#[test]
fn test_terminus_properties() {
    let mut config = TerminusConfig::default();
    config.properties.insert(AmqpSymbol::from("durability-key"), AmqpValue::Symbol(AmqpSymbol::from("durability-value")));
    config.properties.insert(AmqpSymbol::from("timeout-key"), AmqpValue::Uint(30000));
    
    assert_eq!(config.properties.len(), 2);
    assert_eq!(config.properties.get(&AmqpSymbol::from("durability-key")), Some(&AmqpValue::Symbol(AmqpSymbol::from("durability-value"))));
    assert_eq!(config.properties.get(&AmqpSymbol::from("timeout-key")), Some(&AmqpValue::Uint(30000)));
}
