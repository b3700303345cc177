use localp2p::manager::{ChatEvent, ChatManager, ChatSession};
use localp2p::message::{ChatError, ChatMessage, MessageAck, TextMessage, TypingIndicator};
use localp2p::node::{NodeManager, VerifiedNode};
use localp2p::wire::{ChatCodec, ChatProtocol, ChatResponse};

fn b(s: &str) -> Vec<u8> {
    s.as_bytes().to_vec()
}

#[test]
fn test_chat_protocol() {
    assert_eq!(ChatProtocol.as_str(), "/localp2p/chat/1.0.0");
}

#[test]
fn test_chat_protocol_const() {
    assert_eq!(ChatProtocol.as_str(), "/localp2p/chat/1.0.0");
}

#[test]
fn test_chat_response() {
    let response = ChatResponse::received();
    assert!(response.received);
}

#[test]
fn test_chat_codec_default() {
    let codec = ChatCodec::default();
    assert_eq!(codec.protocol().as_str(), "/localp2p/chat/1.0.0");
}

#[test]
fn test_chat_error_display() {
    let err = ChatError::NotEnabled;
    assert_eq!(err.kind_message(), "聊天功能未启用");

    let err = ChatError::NodeNotVerified(b("peer123"));
    match err {
        ChatError::NodeNotVerified(ref who) => assert_eq!(who, &b("peer123")),
        _ => panic!("expected NodeNotVerified"),
    }
}

#[test]
fn test_text_message_creation() {
    let msg = ChatMessage::text(b("Hello, world!"));

    match msg {
        ChatMessage::Text(t) => {
            assert!(!t.id.is_empty());
            assert_eq!(t.content, b("Hello, world!"));
            assert!(t.timestamp > 0);
            assert!(t.reply_to.is_none());
        }
        _ => panic!("Expected Text message"),
    }
}

#[test]
fn test_message_serialization() {
    let original = ChatMessage::text(b("Test message"));
    let expected = localp2p::manager::clone_message(&original);

    let encoded = original.encode().unwrap();
    let decoded = ChatMessage::decode(&encoded).unwrap();

    match (decoded, expected) {
        (ChatMessage::Text(d), ChatMessage::Text(e)) => {
            assert_eq!(d.id, e.id);
            assert_eq!(d.sender_peer_id, e.sender_peer_id);
            assert_eq!(d.content, e.content);
            assert_eq!(d.timestamp, e.timestamp);
            assert_eq!(d.reply_to, e.reply_to);
        }
        _ => panic!("Expected Text message"),
    }
}

#[test]
fn test_chat_message_factory() {
    let msg = ChatMessage::text(b("Hello"));
    assert!(matches!(msg, ChatMessage::Text(_)));
}

#[test]
fn test_typing_indicator() {
    let indicator = TypingIndicator::new(b("peer123"), true);
    assert_eq!(indicator.sender_peer_id, b("peer123"));
    assert!(indicator.is_typing);
}

#[test]
fn test_message_ack() {
    let ack = MessageAck::new(b("msg123"), true);
    assert_eq!(ack.message_id, b("msg123"));
    assert!(ack.received);
    assert!(ack.timestamp > 0);
}

#[test]
fn test_text_message_with_sender() {
    let msg = TextMessage {
        id: b("msg123"),
        sender_peer_id: Vec::new(),
        content: b("Hello"),
        timestamp: 0,
        reply_to: None,
    };

    let with_sender = msg.with_sender(b("peer456"));
    assert_eq!(with_sender.sender_peer_id, b("peer456"));
}

#[test]
fn test_text_message_with_reply() {
    let msg = TextMessage {
        id: b("msg123"),
        sender_peer_id: b("peer456"),
        content: b("Hello"),
        timestamp: 0,
        reply_to: None,
    };

    let with_reply = msg.with_reply_to(b("original_msg"));
    assert_eq!(with_reply.reply_to, Some(b("original_msg")));
}

#[test]
fn test_chat_message_id() {
    let msg = ChatMessage::text(b("Test"));
    assert!(msg.id().is_some());

    let ack = MessageAck::new(b("msg123"), true);
    let ack_msg = ChatMessage::Ack(ack);
    assert_eq!(ack_msg.id(), Some(&b("msg123")));

    let typing = TypingIndicator::new(b("peer"), true);
    let typing_msg = ChatMessage::TypingIndicator(typing);
    assert!(typing_msg.id().is_none());
}

#[test]
fn test_chat_message_sender() {
    let msg = ChatMessage::text(b("Test"));
    assert!(msg.sender_peer_id().is_some());

    let typing = TypingIndicator::new(b("peer123"), true);
    let typing_msg = ChatMessage::TypingIndicator(typing);
    assert_eq!(typing_msg.sender_peer_id(), Some(&b("peer123")));

    let ack = MessageAck::new(b("msg"), true);
    let ack_msg = ChatMessage::Ack(ack);
    assert!(ack_msg.sender_peer_id().is_none());
}

#[test]
fn test_chat_event_message_received() {
    let event = ChatEvent::MessageReceived {
        from: b("12D3KooWABCDEFGHIJKLMNOPQRSTUVWXYZ"),
        message: ChatMessage::text(b("Hello")),
    };

    match event {
        ChatEvent::MessageReceived { from, message } => {
            assert!(from.starts_with(b"12D3"));
            match message {
                ChatMessage::Text(t) => assert_eq!(t.content, b("Hello")),
                _ => panic!("Expected Text message"),
            }
        }
        _ => panic!("Expected MessageReceived event"),
    }
}

#[test]
fn test_chat_event_peer_typing() {
    let event = ChatEvent::PeerTyping {
        from: b("12D3KooWABCDEFGHIJKLMNOPQRSTUVWXYZ"),
        is_typing: true,
    };

    match event {
        ChatEvent::PeerTyping { from, is_typing } => {
            assert!(is_typing);
            assert!(from.starts_with(b"12D3"));
        }
        _ => panic!("Expected PeerTyping event"),
    }
}

#[test]
fn test_chat_session_creation() {
    let peer_id = b("12D3KooWExamplePeer");
    let session = ChatSession::new(peer_id.clone());

    assert_eq!(session.peer_id(), &peer_id);
    assert!(session.get_history().is_empty());
}

#[test]
fn test_chat_session_history() {
    let mut session = ChatSession::new(b("12D3KooWExamplePeer"));

    let msg1 = ChatMessage::text(b("Hello"));
    let msg2 = ChatMessage::text(b("World"));

    session.add_to_history(localp2p::manager::clone_message(&msg1));
    session.add_to_history(localp2p::manager::clone_message(&msg2));

    let history = session.get_history();
    assert_eq!(history.len(), 2);
    match (&history[0], &msg1) {
        (ChatMessage::Text(a), ChatMessage::Text(e)) => assert_eq!(a.content, e.content),
        _ => panic!("Expected Text message"),
    }
    match (&history[1], &msg2) {
        (ChatMessage::Text(a), ChatMessage::Text(e)) => assert_eq!(a.content, e.content),
        _ => panic!("Expected Text message"),
    }
}

#[test]
fn test_chat_session_history_limit() {
    let mut session = ChatSession::new(b("12D3KooWExamplePeer"));

    for i in 0..1100 {
        session.add_to_history(ChatMessage::text(format!("Message {}", i).into_bytes()));
        // the bound holds at all times, not only at the end
        assert!(session.get_history().len() <= 1000);
    }

    let history = session.get_history();
    assert_eq!(history.len(), 1000);
    // the oldest entries were the ones evicted
    match &history[0] {
        ChatMessage::Text(t) => assert_eq!(t.content, b("Message 100")),
        _ => panic!("Expected Text message"),
    }
}

#[test]
fn test_manager_send_requires_verified_peer() {
    let registry = NodeManager::with_default_config();
    let mut manager = ChatManager::new(b("12D3KooWLocal"));
    let unknown = b("12D3KooWUnknown");

    let result = manager.send(&registry, &unknown, ChatMessage::text(b("hi")));
    assert!(matches!(result, Err(ChatError::NodeNotVerified(_))));
    assert!(manager.get_history(&unknown).is_empty());
}

#[test]
fn test_manager_send_records_history_and_event() {
    let mut registry = NodeManager::with_default_config();
    let peer = b("12D3KooWPeer");
    registry.add_or_update_node(
        VerifiedNode::new(
            peer.clone(),
            Vec::new(),
            b("/localp2p/1.0.0"),
            b("localp2p-rust/1.0.0"),
            0,
        ),
        0,
    );
    let mut manager = ChatManager::new(b("12D3KooWLocal"));

    manager.send(&registry, &peer, ChatMessage::text(b("hi"))).unwrap();

    let history = manager.get_history(&peer);
    assert_eq!(history.len(), 1);
    match &history[0] {
        ChatMessage::Text(t) => {
            assert_eq!(t.content, b("hi"));
            // the sender was stamped with the local peer id
            assert_eq!(t.sender_peer_id, b("12D3KooWLocal"));
        }
        _ => panic!("Expected Text message"),
    }
    let events = manager.take_events();
    assert_eq!(events.len(), 1);
    assert!(matches!(&events[0], ChatEvent::MessageSent { to, .. } if *to == peer));
    // one pending frame awaits transmission
    assert_eq!(manager.pending_message_count(&peer), 1);
    assert!(manager.get_pending_message(&peer).is_some());
    assert_eq!(manager.pending_message_count(&peer), 0);
}

#[test]
fn test_manager_broadcast_counts_failures() {
    let mut registry = NodeManager::with_default_config();
    let good = b("12D3KooWGood");
    registry.add_or_update_node(
        VerifiedNode::new(
            good.clone(),
            Vec::new(),
            b("/localp2p/1.0.0"),
            b("localp2p-rust/1.0.0"),
            0,
        ),
        0,
    );
    let mut manager = ChatManager::new(b("12D3KooWLocal"));

    let targets = vec![good.clone(), b("12D3KooWMissing")];
    let result = manager.broadcast(&registry, &targets, ChatMessage::text(b("x")));
    assert!(matches!(result, Err(ChatError::PartialFailure(1))));
    // the reachable target still observed its send
    assert_eq!(manager.get_history(&good).len(), 1);
}

#[test]
fn test_manager_handle_received_routes_events() {
    let mut manager = ChatManager::new(b("12D3KooWLocal"));
    let from = b("12D3KooWPeer");

    manager.handle_received_message(&from, ChatMessage::text(b("hello")));
    manager.handle_received_message(
        &from,
        ChatMessage::TypingIndicator(TypingIndicator::new(from.clone(), true)),
    );
    manager.handle_received_message(&from, ChatMessage::Ack(MessageAck::new(b("m1"), true)));

    let events = manager.take_events();
    assert_eq!(events.len(), 3);
    assert!(matches!(&events[0], ChatEvent::MessageReceived { .. }));
    assert!(matches!(&events[1], ChatEvent::PeerTyping { is_typing: true, .. }));
    assert!(
        matches!(&events[2], ChatEvent::MessageAcknowledged { message_id, .. } if *message_id == b("m1"))
    );
}

#[test]
fn test_manager_handle_raw_data_round_trip() {
    let mut manager = ChatManager::new(b("12D3KooWLocal"));
    let from = b("12D3KooWPeer");

    let msg = ChatMessage::text(b("over the wire"));
    let frame = ChatCodec::encode_request(&msg).unwrap();
    manager.handle_raw_data(&from, &frame).unwrap();

    let history = manager.get_history(&from);
    assert_eq!(history.len(), 1);
    match &history[0] {
        ChatMessage::Text(t) => assert_eq!(t.content, b("over the wire")),
        _ => panic!("Expected Text message"),
    }

    // garbage is rejected cleanly
    assert!(manager.handle_raw_data(&from, &b("not a frame")).is_err());
}

#[test]
fn test_chat_manager_creation() {
    let registry = NodeManager::with_default_config();
    let mut manager = ChatManager::new(b("12D3KooWLocal"));

    let peers = manager.available_peers(&registry);
    assert!(peers.is_empty());

    assert!(manager.take_events().is_empty());
}
