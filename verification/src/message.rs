//! Chat message types.
//!
//! A chat message is a text message, a typing indicator or an
//! acknowledgement.  Text fields are UTF-8 bytes; timestamps are Unix
//! milliseconds.  Fresh message identifiers and timestamps come from the
//! outside world through the two trusted functions at the bottom.

use vstd::prelude::*;

verus! {

/// A text message.
#[derive(Debug)]
pub struct TextMessage {
    /// Unique message identifier (a UUID in text form).
    pub id: Vec<u8>,
    /// The sender's peer identifier; filled in when the message is sent.
    pub sender_peer_id: Vec<u8>,
    /// The message text.
    pub content: Vec<u8>,
    /// Unix timestamp in milliseconds.
    pub timestamp: i64,
    /// Identifier of the message this one replies to, if any.
    pub reply_to: Option<Vec<u8>>,
}

/// Mathematical view of a text message.
pub struct TextMessageView {
    pub id: Seq<u8>,
    pub sender_peer_id: Seq<u8>,
    pub content: Seq<u8>,
    pub timestamp: int,
    pub reply_to: Option<Seq<u8>>,
}

impl TextMessageView {
    /// The timestamp fits a 64-bit signed integer.
    pub open spec fn wf(self) -> bool {
        i64::MIN <= self.timestamp <= i64::MAX
    }
}

impl View for TextMessage {
    type V = TextMessageView;

    open spec fn view(&self) -> TextMessageView {
        TextMessageView {
            id: self.id@,
            sender_peer_id: self.sender_peer_id@,
            content: self.content@,
            timestamp: self.timestamp as int,
            reply_to: match self.reply_to {
                Some(r) => Some(r@),
                None => None,
            },
        }
    }
}

impl TextMessage {
    /// The same message with the sender filled in.
    pub fn with_sender(self, peer_id: Vec<u8>) -> (r: Self)
        ensures
            r == (TextMessage { sender_peer_id: peer_id, ..self }),
    {
        TextMessage { sender_peer_id: peer_id, ..self }
    }

    /// The same message marked as a reply to `message_id`.
    pub fn with_reply_to(self, message_id: Vec<u8>) -> (r: Self)
        ensures
            r == (TextMessage { reply_to: Some(message_id), ..self }),
    {
        TextMessage { reply_to: Some(message_id), ..self }
    }
}

/// A typing indicator.
#[derive(Debug)]
pub struct TypingIndicator {
    /// The sender's peer identifier.
    pub sender_peer_id: Vec<u8>,
    /// Whether the sender is typing right now.
    pub is_typing: bool,
}

/// Mathematical view of a typing indicator.
pub struct TypingIndicatorView {
    pub sender_peer_id: Seq<u8>,
    pub is_typing: bool,
}

impl View for TypingIndicator {
    type V = TypingIndicatorView;

    open spec fn view(&self) -> TypingIndicatorView {
        TypingIndicatorView { sender_peer_id: self.sender_peer_id@, is_typing: self.is_typing }
    }
}

impl TypingIndicator {
    /// A typing indicator from the given sender.
    pub fn new(sender_peer_id: Vec<u8>, is_typing: bool) -> (r: Self)
        ensures
            r.sender_peer_id == sender_peer_id,
            r.is_typing == is_typing,
    {
        Self { sender_peer_id, is_typing }
    }
}

/// An acknowledgement of a received message.
#[derive(Debug)]
pub struct MessageAck {
    /// Identifier of the message being acknowledged.
    pub message_id: Vec<u8>,
    /// Whether the message was received.
    pub received: bool,
    /// Unix timestamp in milliseconds.
    pub timestamp: i64,
}

/// Mathematical view of an acknowledgement.
pub struct MessageAckView {
    pub message_id: Seq<u8>,
    pub received: bool,
    pub timestamp: int,
}

impl MessageAckView {
    /// The timestamp fits a 64-bit signed integer.
    pub open spec fn wf(self) -> bool {
        i64::MIN <= self.timestamp <= i64::MAX
    }
}

impl View for MessageAck {
    type V = MessageAckView;

    open spec fn view(&self) -> MessageAckView {
        MessageAckView {
            message_id: self.message_id@,
            received: self.received,
            timestamp: self.timestamp as int,
        }
    }
}

impl MessageAck {
    /// Acknowledge `message_id`, stamped with the current time.
    pub fn new(message_id: Vec<u8>, received: bool) -> (r: Self)
        ensures
            r.message_id == message_id,
            r.received == received,
            r.timestamp >= 0,
    {
        let timestamp = now_unix_millis();
        Self { message_id, received, timestamp }
    }
}

/// A chat message on the wire.
#[derive(Debug)]
pub enum ChatMessage {
    /// A text message.
    Text(TextMessage),
    /// A typing indicator.
    TypingIndicator(TypingIndicator),
    /// An acknowledgement.
    Ack(MessageAck),
}

/// Mathematical view of a chat message.
pub enum ChatMessageView {
    Text(TextMessageView),
    TypingIndicator(TypingIndicatorView),
    Ack(MessageAckView),
}

impl ChatMessageView {
    /// The view's numbers fit their wire types.
    pub open spec fn wf(self) -> bool {
        match self {
            ChatMessageView::Text(t) => t.wf(),
            ChatMessageView::TypingIndicator(_) => true,
            ChatMessageView::Ack(a) => a.wf(),
        }
    }
}

impl View for ChatMessage {
    type V = ChatMessageView;

    open spec fn view(&self) -> ChatMessageView {
        match self {
            ChatMessage::Text(t) => ChatMessageView::Text(t@),
            ChatMessage::TypingIndicator(t) => ChatMessageView::TypingIndicator(t@),
            ChatMessage::Ack(a) => ChatMessageView::Ack(a@),
        }
    }
}

impl ChatMessage {
    /// A fresh text message: a new unique identifier, the current time, no
    /// sender yet, no reply.
    pub fn text(content: Vec<u8>) -> (r: Self)
        ensures
            r matches ChatMessage::Text(t) && t.content == content && t.sender_peer_id@.len()
                == 0 && t.reply_to is None && t.id@.len() == 36 && t.timestamp >= 0,
    {
        let id = new_message_id();
        let timestamp = now_unix_millis();
        ChatMessage::Text(
            TextMessage {
                id,
                sender_peer_id: Vec::new(),
                content,
                timestamp,
                reply_to: None,
            },
        )
    }

    /// The message identifier this message carries: its own for a text
    /// message, the acknowledged one for an acknowledgement.
    pub fn id(&self) -> (r: Option<&Vec<u8>>)
        ensures
            match self {
                ChatMessage::Text(t) => r matches Some(v) && v@ == t.id@,
                ChatMessage::Ack(a) => r matches Some(v) && v@ == a.message_id@,
                ChatMessage::TypingIndicator(_) => r is None,
            },
    {
        match self {
            ChatMessage::Text(t) => Some(&t.id),
            ChatMessage::Ack(a) => Some(&a.message_id),
            ChatMessage::TypingIndicator(_) => None,
        }
    }

    /// The sender's peer identifier, for the variants that carry one.
    pub fn sender_peer_id(&self) -> (r: Option<&Vec<u8>>)
        ensures
            match self {
                ChatMessage::Text(t) => r matches Some(v) && v@ == t.sender_peer_id@,
                ChatMessage::TypingIndicator(t) => r matches Some(v) && v@ == t.sender_peer_id@,
                ChatMessage::Ack(_) => r is None,
            },
    {
        match self {
            ChatMessage::Text(t) => Some(&t.sender_peer_id),
            ChatMessage::TypingIndicator(t) => Some(&t.sender_peer_id),
            ChatMessage::Ack(_) => None,
        }
    }
}

/// Errors of the chat layer.
#[derive(Debug)]
pub enum ChatError {
    /// Encoding a message failed, with a description.
    Serialization(Vec<u8>),
    /// Decoding a message failed, with a description.
    Deserialization(Vec<u8>),
    /// Chat was not enabled on the engine.
    NotEnabled,
    /// The target peer is not in the registry; carries its identifier.
    NodeNotVerified(Vec<u8>),
    /// Sending failed, with a description.
    SendFailed(Vec<u8>),
    /// Receiving failed, with a description.
    ReceiveFailed(Vec<u8>),
    /// No session exists for the peer; carries its identifier.
    SessionNotFound(Vec<u8>),
    /// A broadcast reached only part of its targets; carries how many failed.
    PartialFailure(usize),
}

impl ChatError {
    /// A short description of the failure kind, as text.
    pub fn kind_message(&self) -> (r: &'static str)
        ensures
            self is NotEnabled ==> r@ == "聊天功能未启用"@,
    {
        match self {
            ChatError::Serialization(_) => "序列化错误",
            ChatError::Deserialization(_) => "反序列化错误",
            ChatError::NotEnabled => "聊天功能未启用",
            ChatError::NodeNotVerified(_) => "节点未验证",
            ChatError::SendFailed(_) => "发送失败",
            ChatError::ReceiveFailed(_) => "接收失败",
            ChatError::SessionNotFound(_) => "会话不存在",
            ChatError::PartialFailure(_) => "部分失败",
        }
    }
}

/// Relies on `uuid::Uuid::new_v4` and `uuid::fmt::Hyphenated`: a version-4
/// UUID rendered in the hyphenated text form, which is always 36 ASCII
/// characters.  The value is random; nothing else is assumed of it.
#[verifier::external_body]
pub fn new_message_id() -> (r: Vec<u8>)
    ensures
        r@.len() == 36,
{
    uuid::Uuid::new_v4().to_string().into_bytes()
}

/// Relies on `chrono::Utc::now` and `chrono::DateTime::timestamp_millis`:
/// the current Unix time in milliseconds.  The value depends on the clock
/// and nothing more is assumed of it; `Utc::now` panics on a clock set
/// before the Unix epoch, so every normal return is nonnegative.
#[verifier::external_body]
pub fn now_unix_millis() -> (r: i64)
    ensures
        r >= 0,
{
    chrono::Utc::now().timestamp_millis()
}

} // verus!
