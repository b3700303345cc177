use localp2p::message::{ChatMessage, MessageAck, TextMessage, TypingIndicator};
use localp2p::user_info::UserInfo;
use localp2p::wire::{encode_frame, decode_frame, ChatCodec, ChatResponse};

fn b(s: &str) -> Vec<u8> {
    s.as_bytes().to_vec()
}

fn text(id: &str, sender: &str, content: &str, ts: i64, reply: Option<&str>) -> ChatMessage {
    ChatMessage::Text(TextMessage {
        id: b(id),
        sender_peer_id: b(sender),
        content: b(content),
        timestamp: ts,
        reply_to: reply.map(b),
    })
}

fn assert_text_eq(msg: &ChatMessage, id: &str, sender: &str, content: &str, ts: i64, reply: Option<&str>) {
    match msg {
        ChatMessage::Text(t) => {
            assert_eq!(t.id, b(id));
            assert_eq!(t.sender_peer_id, b(sender));
            assert_eq!(t.content, b(content));
            assert_eq!(t.timestamp, ts);
            assert_eq!(t.reply_to, reply.map(b));
        }
        _ => panic!("expected Text"),
    }
}

#[test]
fn text_round_trip_plain() {
    let m = text("id-1", "peerA", "hello", 1700000000123, None);
    let enc = m.encode().unwrap();
    let dec = ChatMessage::decode(&enc).unwrap();
    assert_text_eq(&dec, "id-1", "peerA", "hello", 1700000000123, None);
}

#[test]
fn text_round_trip_with_reply_and_escapes() {
    let m = text("id-2", "peerB", "line1\nline2 \"quoted\" back\\slash\ttab", -5, Some("id-1"));
    let enc = m.encode().unwrap();
    let dec = ChatMessage::decode(&enc).unwrap();
    assert_text_eq(
        &dec,
        "id-2",
        "peerB",
        "line1\nline2 \"quoted\" back\\slash\ttab",
        -5,
        Some("id-1"),
    );
}

#[test]
fn text_round_trip_non_ascii_and_controls() {
    let m = text("编号", "节点", "你好，世界 \u{1}\u{1f}", i64::MIN, None);
    let enc = m.encode().unwrap();
    let dec = ChatMessage::decode(&enc).unwrap();
    assert_text_eq(&dec, "编号", "节点", "你好，世界 \u{1}\u{1f}", i64::MIN, None);
}

#[test]
fn typing_round_trip() {
    let m = ChatMessage::TypingIndicator(TypingIndicator::new(b("peerC"), false));
    let enc = m.encode().unwrap();
    match ChatMessage::decode(&enc).unwrap() {
        ChatMessage::TypingIndicator(t) => {
            assert_eq!(t.sender_peer_id, b("peerC"));
            assert!(!t.is_typing);
        }
        _ => panic!("expected TypingIndicator"),
    }
}

#[test]
fn ack_round_trip() {
    let m = ChatMessage::Ack(MessageAck {
        message_id: b("msg-9"),
        received: true,
        timestamp: 42,
    });
    let enc = m.encode().unwrap();
    match ChatMessage::decode(&enc).unwrap() {
        ChatMessage::Ack(a) => {
            assert_eq!(a.message_id, b("msg-9"));
            assert!(a.received);
            assert_eq!(a.timestamp, 42);
        }
        _ => panic!("expected Ack"),
    }
}

#[test]
fn decode_rejects_garbage() {
    assert!(ChatMessage::decode(&b("")).is_err());
    assert!(ChatMessage::decode(&b("{}")).is_err());
    assert!(ChatMessage::decode(&b("{\"Text\":{\"id\":")).is_err());
    let mut enc = text("a", "b", "c", 1, None).encode().unwrap();
    enc.push(b' ');
    assert!(ChatMessage::decode(&enc).is_err(), "trailing bytes are refused");
}

#[test]
fn chat_encoding_is_json_serde_agrees() {
    // cross-check the hand-rolled encoder against a general JSON parser
    let m = text("id-3", "peerD", "check \"this\"\n", 123456, Some("id-2"));
    let enc = m.encode().unwrap();
    let v: serde_json::Value = serde_json::from_slice(&enc).unwrap();
    let t = v.get("Text").unwrap();
    assert_eq!(t.get("id").unwrap().as_str().unwrap(), "id-3");
    assert_eq!(t.get("sender_peer_id").unwrap().as_str().unwrap(), "peerD");
    assert_eq!(t.get("content").unwrap().as_str().unwrap(), "check \"this\"\n");
    assert_eq!(t.get("timestamp").unwrap().as_i64().unwrap(), 123456);
    assert_eq!(t.get("reply_to").unwrap().as_str().unwrap(), "id-2");
}

#[test]
fn user_info_round_trip_minimal() {
    let u = UserInfo::new(b("我的电脑"));
    let enc = u.encode();
    let dec = UserInfo::decode(&enc).unwrap();
    assert_eq!(dec.device_name, b("我的电脑"));
    assert_eq!(dec.nickname, None);
    assert_eq!(dec.avatar_url, None);
    assert_eq!(dec.status, None);
    assert!(dec.custom_data.is_empty());
}

#[test]
fn user_info_round_trip_full() {
    let u = UserInfo::new(b("laptop"))
        .with_nickname(b("dev"))
        .with_avatar_url(b("http://example/avatar.png"))
        .with_status(b("online"))
        .with_custom_data(b("room"), b("kitchen"))
        .with_custom_data(b("floor"), b("2"));
    let enc = u.encode();
    let dec = UserInfo::decode(&enc).unwrap();
    assert_eq!(dec.device_name, b("laptop"));
    assert_eq!(dec.nickname, Some(b("dev")));
    assert_eq!(dec.avatar_url, Some(b("http://example/avatar.png")));
    assert_eq!(dec.status, Some(b("online")));
    assert_eq!(dec.custom_data.len(), 2);
    assert_eq!(dec.custom_data[0], (b("room"), b("kitchen")));
    assert_eq!(dec.custom_data[1], (b("floor"), b("2")));
}

#[test]
fn user_info_encoding_is_flat_json() {
    // custom fields sit at the top level, as the wire schema demands
    let u = UserInfo::new(b("pc")).with_custom_data(b("k"), b("v"));
    let enc = u.encode();
    let v: serde_json::Value = serde_json::from_slice(&enc).unwrap();
    assert_eq!(v.get("device_name").unwrap().as_str().unwrap(), "pc");
    assert!(v.get("nickname").unwrap().is_null());
    assert_eq!(v.get("k").unwrap().as_str().unwrap(), "v");
}

#[test]
fn test_user_info_serialization() {
    let info = UserInfo::new(b("我的电脑"))
        .with_nickname(b("开发者"))
        .with_status(b("在线"));

    let json = info.encode();
    let deserialized = UserInfo::decode(&json).unwrap();

    assert_eq!(info.device_name, deserialized.device_name);
    assert_eq!(info.nickname, deserialized.nickname);
    assert_eq!(info.status, deserialized.status);
}

#[test]
fn frame_round_trip() {
    let body = b("any body at all");
    let frame = encode_frame(&body);
    assert_eq!(frame.len(), body.len() + 4);
    assert_eq!(decode_frame(&frame).unwrap(), body);
}

#[test]
fn frame_rejects_truncation() {
    let frame = encode_frame(&b("0123456789"));
    assert!(decode_frame(&frame[..frame.len() - 1].to_vec()).is_err());
    assert!(decode_frame(&b("\x00")).is_err());
}

#[test]
fn chat_codec_framed_round_trip_and_cap() {
    let m = text("id", "s", "framed", 7, None);
    let frame = ChatCodec::encode_request(&m).unwrap();
    let dec = ChatCodec::decode_request(&frame).unwrap();
    assert_text_eq(&dec, "id", "s", "framed", 7, None);

    // a request whose declared length is over 1 MiB is refused outright
    let mut huge = Vec::new();
    huge.extend_from_slice(&(1_048_577u32).to_be_bytes());
    assert!(ChatCodec::decode_request(&huge).is_err());
    assert_eq!(ChatCodec::max_request_len(), 1_048_576);
    assert_eq!(ChatCodec::max_response_len(), 1024);
}

#[test]
fn chat_response_framed_round_trip() {
    let r = ChatResponse::received();
    let frame = ChatCodec::encode_response(&r);
    let dec = ChatCodec::decode_response(&frame).unwrap();
    assert!(dec.received);

    let r2 = ChatResponse { received: false };
    let frame2 = ChatCodec::encode_response(&r2);
    assert!(!ChatCodec::decode_response(&frame2).unwrap().received);
}

#[test]
fn decode_accepts_equivalent_json_escapes() {
    // the wire grammar admits alternative escapes, not only the canonical
    // ones the encoder emits
    let raw = br#"{"TypingIndicator":{"sender_peer_id":"a\/bA","is_typing":true}}"#.to_vec();
    match ChatMessage::decode(&raw).unwrap() {
        ChatMessage::TypingIndicator(t) => {
            assert_eq!(t.sender_peer_id, b("a/bA"));
            assert!(t.is_typing);
        }
        _ => panic!("expected TypingIndicator"),
    }
}
