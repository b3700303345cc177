//! The chat session layer.
//!
//! One session per peer holds a bounded history ring (the last 1000
//! messages, oldest evicted first) and a FIFO queue of outbound messages.
//! The manager owns the sessions, stamps outbound messages with the local
//! peer identifier, and collects the events that consumers observe in an
//! outbox the caller drains.

use std::collections::VecDeque;

use vstd::prelude::*;

use crate::bytes::bytes_eq;
use crate::codec::enc_chat_v;
use crate::message::{ChatError, ChatMessage, ChatMessageView, MessageAckView, TextMessageView,
    TypingIndicatorView};
use crate::node::NodeManager;
use crate::wire::frame_spec;

verus! {

/// The bound on a session's history ring.
pub open spec fn max_history() -> int {
    1000
}

/// A message as it leaves this node: text messages and typing indicators
/// carry the local peer identifier as sender; acknowledgements are
/// unchanged.
pub open spec fn stamped_view(m: ChatMessageView, local: Seq<u8>) -> ChatMessageView {
    match m {
        ChatMessageView::Text(t) => ChatMessageView::Text(
            TextMessageView { sender_peer_id: local, ..t },
        ),
        ChatMessageView::TypingIndicator(t) => ChatMessageView::TypingIndicator(
            TypingIndicatorView { sender_peer_id: local, ..t },
        ),
        ChatMessageView::Ack(a) => ChatMessageView::Ack(a),
    }
}

/// The identifier a message carries, if any: its own for a text message,
/// the acknowledged one for an acknowledgement.
pub open spec fn msg_id_view(m: ChatMessageView) -> Option<Seq<u8>> {
    match m {
        ChatMessageView::Text(t) => Some(t.id),
        ChatMessageView::Ack(a) => Some(a.message_id),
        ChatMessageView::TypingIndicator(_) => None,
    }
}

/// How many of the given targets are outside the registry.
pub open spec fn count_unverified(registry: NodeManager, targets: Seq<Vec<u8>>) -> int
    decreases targets.len(),
{
    if targets.len() == 0 {
        0
    } else {
        count_unverified(registry, targets.drop_last()) + if registry.has_peer(
            targets.last()@,
        ) {
            0int
        } else {
            1int
        }
    }
}

/// An event of the chat layer.
#[derive(Debug)]
pub enum ChatEvent {
    /// A message arrived from a peer.
    MessageReceived { from: Vec<u8>, message: ChatMessage },
    /// A message was queued for a peer.
    MessageSent { to: Vec<u8>, message_id: Vec<u8> },
    /// A peer acknowledged a message.
    MessageAcknowledged { from: Vec<u8>, message_id: Vec<u8> },
    /// A peer started or stopped typing.
    PeerTyping { from: Vec<u8>, is_typing: bool },
    /// A session was closed.
    SessionClosed { peer_id: Vec<u8> },
}

/// Copy of a byte string.
pub fn clone_bytes(s: &Vec<u8>) -> (r: Vec<u8>)
    ensures
        r@ == s@,
{
    crate::bytes::subrange_vec(s, 0, s.len())
}

/// Copy of an optional byte string.
fn clone_opt_bytes(s: &Option<Vec<u8>>) -> (r: Option<Vec<u8>>)
    ensures
        match s {
            Some(v) => r matches Some(w) && w@ == v@,
            None => r is None,
        },
{
    match s {
        Some(v) => Some(clone_bytes(v)),
        None => None,
    }
}

/// Copy of a chat message, equal under the view.
pub fn clone_message(m: &ChatMessage) -> (r: ChatMessage)
    ensures
        r@ == m@,
{
    match m {
        ChatMessage::Text(t) => ChatMessage::Text(
            crate::message::TextMessage {
                id: clone_bytes(&t.id),
                sender_peer_id: clone_bytes(&t.sender_peer_id),
                content: clone_bytes(&t.content),
                timestamp: t.timestamp,
                reply_to: clone_opt_bytes(&t.reply_to),
            },
        ),
        ChatMessage::TypingIndicator(t) => ChatMessage::TypingIndicator(
            crate::message::TypingIndicator {
                sender_peer_id: clone_bytes(&t.sender_peer_id),
                is_typing: t.is_typing,
            },
        ),
        ChatMessage::Ack(a) => ChatMessage::Ack(
            crate::message::MessageAck {
                message_id: clone_bytes(&a.message_id),
                received: a.received,
                timestamp: a.timestamp,
            },
        ),
    }
}

/// The chat state kept for one peer.
pub struct ChatSession {
    /// The peer this session belongs to.
    pub peer_id: Vec<u8>,
    /// The last messages in both directions, oldest first; holds at most
    /// 1000 entries.
    pub history: VecDeque<ChatMessage>,
    /// Outbound messages not yet put on the wire, oldest first.
    pub pending_messages: VecDeque<ChatMessage>,
}

impl ChatSession {
    /// The history never grows past its bound.
    pub open spec fn wf(self) -> bool {
        self.history@.len() <= max_history()
    }

    /// A fresh session for `peer_id`.
    pub fn new(peer_id: Vec<u8>) -> (r: Self)
        ensures
            r.wf(),
            r.peer_id == peer_id,
            r.history@.len() == 0,
            r.pending_messages@.len() == 0,
    {
        Self { peer_id, history: VecDeque::new(), pending_messages: VecDeque::new() }
    }

    /// Append a message to the history; when the ring is full the oldest
    /// entry leaves first, so the bound holds at all times.
    pub fn add_to_history(&mut self, message: ChatMessage)
        requires
            old(self).wf(),
        ensures
            final(self).wf(),
            final(self).peer_id == old(self).peer_id,
            final(self).pending_messages@ == old(self).pending_messages@,
            old(self).history@.len() < max_history() ==> final(self).history@ == old(
                self,
            ).history@.push(message),
            old(self).history@.len() == max_history() ==> final(self).history@ == old(
                self,
            ).history@.push(message).skip(1),
    {
        self.history.push_back(message);
        if self.history.len() > 1000 {
            let _evicted = self.history.pop_front();
        }
    }

    /// Frame and encode a message for the wire, recording it in the
    /// history.  Fails only when the encoding cannot fit a frame.
    pub fn encode_message(&mut self, message: ChatMessage) -> (r: Result<Vec<u8>, ChatError>)
        requires
            old(self).wf(),
        ensures
            final(self).wf(),
            final(self).peer_id == old(self).peer_id,
            final(self).pending_messages@ == old(self).pending_messages@,
            enc_chat_v(message@).len() <= u32::MAX ==> (r matches Ok(b) && b@ == frame_spec(
                enc_chat_v(message@),
            )),
            old(self).history@.len() < max_history() ==> final(self).history@ == old(
                self,
            ).history@.push(message),
            old(self).history@.len() == max_history() ==> final(self).history@ == old(
                self,
            ).history@.push(message).skip(1),
    {
        let body = match message.encode() {
            Ok(b) => b,
            Err(e) => {
                return Err(e);
            },
        };
        self.add_to_history(message);
        if body.len() > (u32::MAX as usize) {
            return Err(ChatError::Serialization(Vec::new()));
        }
        Ok(crate::wire::encode_frame(&body))
    }

    /// Decode a framed message, recording it in the history.  Whenever the
    /// bytes frame the encoding of a message, exactly that message comes
    /// back.
    pub fn decode_message(&mut self, data: &Vec<u8>) -> (r: Result<ChatMessage, ChatError>)
        requires
            old(self).wf(),
        ensures
            final(self).wf(),
            final(self).peer_id == old(self).peer_id,
            final(self).pending_messages@ == old(self).pending_messages@,
            forall|m: ChatMessageView|
                m.wf() && enc_chat_v(m).len() <= u32::MAX && data@ == frame_spec(enc_chat_v(m))
                    ==> (r matches Ok(x) && x@ == m),
            r is Err <==> (data@.len() < 4 || 4 + crate::wire::be32_val(
                data@[0],
                data@[1],
                data@[2],
                data@[3],
            ) > data@.len() || crate::codec::sps_chat(
                data@.subrange(
                    4,
                    4 + crate::wire::be32_val(data@[0], data@[1], data@[2], data@[3]),
                ),
            ) is None),
            r matches Ok(x) ==> crate::codec::sps_chat(
                data@.subrange(
                    4,
                    4 + crate::wire::be32_val(data@[0], data@[1], data@[2], data@[3]),
                ),
            ) == Some(x@),
            r matches Err(e) ==> e is Deserialization,
            r is Err ==> final(self).history@ == old(self).history@,
            r matches Ok(x) ==> ({
                &&& final(self).history@.len() > 0
                &&& final(self).history@.last()@ == x@
                &&& (old(self).history@.len() < max_history() ==> final(self).history@.len()
                    == old(self).history@.len() + 1 && (forall|i: int|
                    0 <= i < old(self).history@.len() ==> final(self).history@[i] == old(
                        self,
                    ).history@[i]))
                &&& (old(self).history@.len() == max_history() ==> final(self).history@.len()
                    == max_history() && (forall|i: int|
                    0 <= i < max_history() - 1 ==> final(self).history@[i] == old(
                        self,
                    ).history@[i + 1]))
            }),
    {
        let body = match crate::wire::decode_frame(data) {
            Ok(b) => b,
            Err(e) => {
                return Err(e);
            },
        };
        let message = match ChatMessage::decode(&body) {
            Ok(m) => m,
            Err(e) => {
                return Err(e);
            },
        };
        let copy = clone_message(&message);
        self.add_to_history(copy);
        Ok(message)
    }

    /// Queue a message for transmission.
    pub fn enqueue_message(&mut self, message: ChatMessage)
        ensures
            final(self).history@ == old(self).history@,
            final(self).peer_id == old(self).peer_id,
            final(self).pending_messages@ == old(self).pending_messages@.push(message),
    {
        self.pending_messages.push_back(message);
    }

    /// Take the oldest queued message, if any.
    pub fn dequeue_message(&mut self) -> (r: Option<ChatMessage>)
        ensures
            final(self).history@ == old(self).history@,
            final(self).peer_id == old(self).peer_id,
            match r {
                Some(m) => old(self).pending_messages@.len() > 0 && m == old(
                    self,
                ).pending_messages@[0] && final(self).pending_messages@ == old(
                    self,
                ).pending_messages@.skip(1),
                None => old(self).pending_messages@.len() == 0
                    && final(self).pending_messages@ == old(self).pending_messages@,
            },
    {
        let r = self.pending_messages.pop_front();
        proof {
            if old(self).pending_messages@.len() > 0 {
                assert(self.pending_messages@ =~= old(self).pending_messages@.skip(1));
            }
        }
        r
    }

    /// The history, oldest first.
    pub fn get_history(&self) -> (r: Vec<ChatMessage>)
        ensures
            r@.len() == self.history@.len(),
            forall|i: int| 0 <= i < r@.len() ==> (#[trigger] r@[i])@ == self.history@[i]@,
    {
        let mut out: Vec<ChatMessage> = Vec::new();
        let mut i: usize = 0;
        while i < self.history.len()
            invariant
                i <= self.history@.len(),
                out@.len() == i,
                forall|j: int| 0 <= j < i ==> (#[trigger] out@[j])@ == self.history@[j]@,
            decreases self.history@.len() - i,
        {
            let m = clone_message(&self.history[i]);
            out.push(m);
            i += 1;
        }
        out
    }

    /// The peer this session belongs to.
    pub fn peer_id(&self) -> (r: &Vec<u8>)
        ensures
            r == self.peer_id,
    {
        &self.peer_id
    }

    /// Whether any message waits for transmission.
    pub fn has_pending_messages(&self) -> (r: bool)
        ensures
            r == (self.pending_messages@.len() > 0),
    {
        self.pending_messages.len() > 0
    }

    /// Number of messages waiting for transmission.
    pub fn pending_count(&self) -> (r: usize)
        ensures
            r == self.pending_messages@.len(),
    {
        self.pending_messages.len()
    }
}

/// The chat manager: all sessions, and the outbox of chat events.
pub struct ChatManager {
    /// This node's peer identifier.
    pub local_peer_id: Vec<u8>,
    /// One session per peer; peer identifiers are unique.
    pub sessions: Vec<ChatSession>,
    /// Events not yet drained by the consumer, oldest first.
    pub events: Vec<ChatEvent>,
}

impl ChatManager {
    /// All sessions are well formed and belong to distinct peers.
    pub open spec fn wf(self) -> bool {
        &&& forall|i: int| 0 <= i < self.sessions@.len() ==> (#[trigger] self.sessions@[i]).wf()
        &&& forall|i: int, j: int|
            0 <= i < j < self.sessions@.len() ==> self.sessions@[i].peer_id@
                != self.sessions@[j].peer_id@
    }

    /// A session exists for the peer.
    pub open spec fn has_session(self, peer: Seq<u8>) -> bool {
        exists|i: int| 0 <= i < self.sessions@.len() && self.sessions@[i].peer_id@ == peer
    }

    /// Index of the peer's session.
    pub open spec fn session_index(self, peer: Seq<u8>) -> int {
        choose|i: int| 0 <= i < self.sessions@.len() && self.sessions@[i].peer_id@ == peer
    }

    /// A manager with no sessions and an empty outbox.
    pub fn new(local_peer_id: Vec<u8>) -> (r: Self)
        ensures
            r.wf(),
            r.local_peer_id == local_peer_id,
            r.sessions@.len() == 0,
            r.events@.len() == 0,
    {
        Self { local_peer_id, sessions: Vec::new(), events: Vec::new() }
    }

    /// Index of the peer's session.
    fn find_session(&self, peer: &Vec<u8>) -> (r: Option<usize>)
        ensures
            match r {
                Some(i) => i < self.sessions@.len() && self.sessions@[i as int].peer_id@ == peer@,
                None => !self.has_session(peer@),
            },
    {
        let mut i: usize = 0;
        while i < self.sessions.len()
            invariant
                i <= self.sessions@.len(),
                forall|j: int| 0 <= j < i ==> self.sessions@[j].peer_id@ != peer@,
            decreases self.sessions@.len() - i,
        {
            if bytes_eq(&self.sessions[i].peer_id, peer) {
                return Some(i);
            }
            i += 1;
        }
        None
    }

    /// Index of the peer's session, creating one if needed.
    fn ensure_session(&mut self, peer: &Vec<u8>) -> (r: usize)
        requires
            old(self).wf(),
        ensures
            final(self).wf(),
            final(self).local_peer_id == old(self).local_peer_id,
            final(self).events == old(self).events,
            r < final(self).sessions@.len(),
            final(self).sessions@[r as int].peer_id@ == peer@,
            old(self).has_session(peer@) ==> final(self).sessions == old(self).sessions,
            !old(self).has_session(peer@) ==> final(self).sessions@ == old(
                self,
            ).sessions@.push(final(self).sessions@[r as int])
                && final(self).sessions@[r as int].history@.len() == 0
                && final(self).sessions@[r as int].pending_messages@.len() == 0,
    {
        match self.find_session(peer) {
            Some(i) => i,
            None => {
                let session = ChatSession::new(clone_bytes(peer));
                let i = self.sessions.len();
                self.sessions.push(session);
                proof {
                    assert forall|a: int, b: int|
                        0 <= a < b < self.sessions@.len() implies self.sessions@[a].peer_id@
                        != self.sessions@[b].peer_id@ by {
                        if b < self.sessions@.len() - 1 {
                            assert(self.sessions@[a] == old(self).sessions@[a]);
                            assert(self.sessions@[b] == old(self).sessions@[b]);
                        } else {
                            assert(self.sessions@[a] == old(self).sessions@[a]);
                        }
                    }
                }
                i
            },
        }
    }

    /// Queue a message for a verified peer: the sender is stamped with the
    /// local identifier, the message enters the session's history and
    /// outbound queue, and a `MessageSent` event is recorded when the
    /// message carries an identifier.  A peer outside the registry is
    /// refused with `NodeNotVerified`, and nothing changes.  A message too
    /// large for a frame is still recorded here; the wire layer refuses it
    /// when the frame is built.
    pub fn send(
        &mut self,
        registry: &NodeManager,
        target: &Vec<u8>,
        message: ChatMessage,
    ) -> (r: Result<(), ChatError>)
        requires
            old(self).wf(),
        ensures
            final(self).wf(),
            final(self).local_peer_id == old(self).local_peer_id,
            !registry.has_peer(target@) <==> (r matches Err(e) && e is NodeNotVerified),
            r matches Err(e) ==> e is NodeNotVerified,
            r matches Err(e) ==> *final(self) == *old(self),
            forall|q: Seq<u8>| old(self).has_session(q) ==> final(self).has_session(q),
            r is Ok ==> ({
                let m = stamped_view(message@, old(self).local_peer_id@);
                let s = final(self).sessions@[final(self).session_index(target@)];
                &&& final(self).has_session(target@)
                &&& s.pending_messages@.len() > 0
                &&& s.pending_messages@.last()@ == m
                &&& s.history@.len() > 0
                &&& s.history@.last()@ == m
                &&& (match msg_id_view(message@) {
                    Some(id) => final(self).events@.len() == old(self).events@.len() + 1 && (
                    final(self).events@.last() matches ChatEvent::MessageSent {
                        to,
                        message_id,
                    } && to@ == target@ && message_id@ == id),
                    None => final(self).events@ == old(self).events@,
                })
            }),
    {
        if !registry.is_node_verified(target) {
            return Err(ChatError::NodeNotVerified(clone_bytes(target)));
        }
        let message = self.stamp_sender(message);
        let message_id = match message.id() {
            Some(id) => Some(clone_bytes(id)),
            None => None,
        };
        let i = self.ensure_session(target);
        let copy = clone_message(&message);
        let mut session = self.sessions.remove(i);
        let enc = session.encode_message(copy);
        session.enqueue_message(message);
        self.sessions.insert(i, session);
        proof {
            assert(self.sessions@[i as int].peer_id@ == target@);
            assert forall|a: int, b: int|
                0 <= a < b < self.sessions@.len() implies self.sessions@[a].peer_id@
                != self.sessions@[b].peer_id@ by {}
        }
        match enc {
            Ok(_) => {},
            Err(_) => {},
        }
        if let Some(id) = message_id {
            self.events.push(ChatEvent::MessageSent { to: clone_bytes(target), message_id: id });
        }
        proof {
            assert(0 <= i < self.sessions@.len());
            assert(self.sessions@[i as int].peer_id@ == target@);
            assert(self.has_session(target@));
            let k = self.session_index(target@);
            assert(0 <= k < self.sessions@.len() && self.sessions@[k].peer_id@ == target@);
            assert(k == i as int);
            let m = stamped_view(message@, old(self).local_peer_id@);
            let s = self.sessions@[i as int];
            assert(s.pending_messages@.last()@ == m);
            if s.history@.len() > 0 {
            }
            assert forall|q: Seq<u8>| old(self).has_session(q) implies self.has_session(q) by {
                let w = choose|w: int|
                    0 <= w < old(self).sessions@.len() && old(self).sessions@[w].peer_id@ == q;
                assert(self.sessions@[w].peer_id@ == q);
            }
        }
        Ok(())
    }

    /// Stamp the local peer identifier into the message's sender field.
    fn stamp_sender(&self, message: ChatMessage) -> (r: ChatMessage)
        ensures
            r@ == stamped_view(message@, self.local_peer_id@),
    {
        match message {
            ChatMessage::Text(t) => ChatMessage::Text(
                t.with_sender(clone_bytes(&self.local_peer_id)),
            ),
            ChatMessage::TypingIndicator(t) => ChatMessage::TypingIndicator(
                crate::message::TypingIndicator {
                    sender_peer_id: clone_bytes(&self.local_peer_id),
                    is_typing: t.is_typing,
                },
            ),
            ChatMessage::Ack(a) => ChatMessage::Ack(a),
        }
    }

    /// Send to many peers; every target is attempted, and a count of the
    /// failed ones is reported as `PartialFailure` when any failed.
    pub fn broadcast(
        &mut self,
        registry: &NodeManager,
        targets: &Vec<Vec<u8>>,
        message: ChatMessage,
    ) -> (r: Result<(), ChatError>)
        requires
            old(self).wf(),
        ensures
            final(self).wf(),
            final(self).local_peer_id == old(self).local_peer_id,
            r is Ok <==> count_unverified(*registry, targets@) == 0,
            r matches Err(e) ==> (e matches ChatError::PartialFailure(n) && n
                == count_unverified(*registry, targets@) && n > 0),
            forall|j: int|
                0 <= j < targets@.len() && registry.has_peer((#[trigger] targets@[j])@)
                    ==> final(self).has_session(targets@[j]@),
            msg_id_view(message@) is Some ==> final(self).events@.len() == old(
                self,
            ).events@.len() + targets@.len() - count_unverified(*registry, targets@),
            msg_id_view(message@) is None ==> final(self).events@ == old(self).events@,
    {
        let mut failed: usize = 0;
        let mut i: usize = 0;
        proof {
            assert(targets@.take(0int) =~= Seq::<Vec<u8>>::empty());
        }
        while i < targets.len()
            invariant
                i <= targets@.len(),
                self.wf(),
                self.local_peer_id == old(self).local_peer_id,
                failed <= i,
                failed == count_unverified(*registry, targets@.take(i as int)),
                forall|j: int|
                    0 <= j < i && registry.has_peer((#[trigger] targets@[j])@)
                        ==> self.has_session(targets@[j]@),
                msg_id_view(message@) is Some ==> self.events@.len() == old(self).events@.len()
                    + i - failed,
                msg_id_view(message@) is None ==> self.events@ == old(self).events@,
            decreases targets@.len() - i,
        {
            proof {
                assert(targets@.take(i + 1 as int).drop_last() =~= targets@.take(i as int));
                assert(targets@.take(i + 1 as int).last() == targets@[i as int]);
            }
            let ghost pre = *self;
            let copy = clone_message(&message);
            match self.send(registry, &targets[i], copy) {
                Ok(_) => {},
                Err(_) => {
                    failed = failed + 1;
                },
            }
            proof {
                assert forall|j: int|
                    0 <= j < i + 1 && registry.has_peer((#[trigger] targets@[j])@) implies
                    self.has_session(targets@[j]@) by {
                    if j < i as int {
                        assert(pre.has_session(targets@[j]@));
                    }
                }
            }
            i += 1;
        }
        proof {
            assert(targets@.take(targets@.len() as int) =~= targets@);
        }
        if failed > 0 {
            Err(ChatError::PartialFailure(failed))
        } else {
            Ok(())
        }
    }

    /// Record a message that arrived from a peer: it enters the session's
    /// history, and one event is recorded according to its variant.
    pub fn handle_received_message(&mut self, from: &Vec<u8>, message: ChatMessage)
        requires
            old(self).wf(),
        ensures
            final(self).wf(),
            final(self).local_peer_id == old(self).local_peer_id,
            final(self).has_session(from@),
            ({
                let s = final(self).sessions@[final(self).session_index(from@)];
                s.history@.len() > 0 && s.history@.last()@ == message@
            }),
            final(self).events@.len() == old(self).events@.len() + 1,
            match message {
                ChatMessage::Text(_) => final(self).events@.last() matches
                    ChatEvent::MessageReceived { from: f, message: m } && f@ == from@ && m@
                    == message@,
                ChatMessage::TypingIndicator(t) => final(self).events@.last() matches
                    ChatEvent::PeerTyping { from: f, is_typing: ty } && f@ == from@ && ty
                    == t.is_typing,
                ChatMessage::Ack(a) => final(self).events@.last() matches
                    ChatEvent::MessageAcknowledged { from: f, message_id: id } && f@ == from@
                    && id@ == a.message_id@,
            },
    {
        let i = self.ensure_session(from);
        let copy = clone_message(&message);
        let mut session = self.sessions.remove(i);
        session.add_to_history(copy);
        self.sessions.insert(i, session);
        proof {
            assert(self.sessions@[i as int].peer_id@ == from@);
            assert forall|a: int, b: int|
                0 <= a < b < self.sessions@.len() implies self.sessions@[a].peer_id@
                != self.sessions@[b].peer_id@ by {}
            let k = self.session_index(from@);
            assert(0 <= k < self.sessions@.len() && self.sessions@[k].peer_id@ == from@);
            assert(k == i as int);
            assert(self.sessions@[i as int].history@.last()@ == message@);
        }
        let event = match &message {
            ChatMessage::Text(_) => ChatEvent::MessageReceived {
                from: clone_bytes(from),
                message,
            },
            ChatMessage::TypingIndicator(t) => ChatEvent::PeerTyping {
                from: clone_bytes(from),
                is_typing: t.is_typing,
            },
            ChatMessage::Ack(a) => ChatEvent::MessageAcknowledged {
                from: clone_bytes(from),
                message_id: clone_bytes(&a.message_id),
            },
        };
        self.events.push(event);
        proof {
            assert(0 <= i < self.sessions@.len());
            assert(self.sessions@[i as int].peer_id@ == from@);
            assert(self.has_session(from@));
        }
    }

    /// Decode a raw frame from a peer and record the message it carries.
    /// Whenever the bytes frame a well-formed message, that message is
    /// recorded and the call succeeds.
    pub fn handle_raw_data(&mut self, from: &Vec<u8>, data: &Vec<u8>) -> (r: Result<
        (),
        ChatError,
    >)
        requires
            old(self).wf(),
        ensures
            final(self).wf(),
            final(self).local_peer_id == old(self).local_peer_id,
            r is Err <==> (data@.len() < 4 || 4 + crate::wire::be32_val(
                data@[0],
                data@[1],
                data@[2],
                data@[3],
            ) > data@.len() || crate::codec::sps_chat(
                data@.subrange(
                    4,
                    4 + crate::wire::be32_val(data@[0], data@[1], data@[2], data@[3]),
                ),
            ) is None),
            r matches Err(e) ==> e is Deserialization,
            r is Err ==> final(self).events@ == old(self).events@,
            r is Err && old(self).has_session(from@) ==> ({
                let os = old(self).sessions@[old(self).session_index(from@)];
                let ns = final(self).sessions@[final(self).session_index(from@)];
                ns.history@ == os.history@ && ns.pending_messages@ == os.pending_messages@
            }),
            r is Ok ==> final(self).events@.len() == old(self).events@.len() + 1,
            forall|m: ChatMessageView|
                m.wf() && enc_chat_v(m).len() <= u32::MAX && data@ == frame_spec(enc_chat_v(m))
                    ==> (r is Ok && ({
                    let s = final(self).sessions@[final(self).session_index(from@)];
                    &&& final(self).has_session(from@)
                    &&& s.history@.len() > 0
                    &&& s.history@.last()@ == m
                    &&& (match m {
                        ChatMessageView::Text(_) => final(self).events@.last() matches
                            ChatEvent::MessageReceived { from: f, message: x } && f@ == from@
                            && x@ == m,
                        ChatMessageView::TypingIndicator(t) => final(self).events@.last()
                            matches ChatEvent::PeerTyping { from: f, is_typing: ty } && f@
                            == from@ && ty == t.is_typing,
                        ChatMessageView::Ack(a) => final(self).events@.last() matches
                            ChatEvent::MessageAcknowledged { from: f, message_id: id } && f@
                            == from@ && id@ == a.message_id,
                    })
                })),
    {
        let i = self.ensure_session(from);
        proof {
            if old(self).has_session(from@) {
                let ko = old(self).session_index(from@);
                assert(0 <= ko < old(self).sessions@.len() && old(self).sessions@[ko].peer_id@
                    == from@);
                assert(ko == i as int);
            }
        }
        let mut session = self.sessions.remove(i);
        let decoded = session.decode_message(data);
        self.sessions.insert(i, session);
        proof {
            assert(self.sessions@[i as int].peer_id@ == from@);
            assert forall|a: int, b: int|
                0 <= a < b < self.sessions@.len() implies self.sessions@[a].peer_id@
                != self.sessions@[b].peer_id@ by {}
            let k = self.session_index(from@);
            assert(0 <= k < self.sessions@.len() && self.sessions@[k].peer_id@ == from@);
            assert(k == i as int);
        }
        match decoded {
            Ok(message) => {
                let event = match &message {
                    ChatMessage::Text(_) => ChatEvent::MessageReceived {
                        from: clone_bytes(from),
                        message,
                    },
                    ChatMessage::TypingIndicator(t) => ChatEvent::PeerTyping {
                        from: clone_bytes(from),
                        is_typing: t.is_typing,
                    },
                    ChatMessage::Ack(a) => ChatEvent::MessageAcknowledged {
                        from: clone_bytes(from),
                        message_id: clone_bytes(&a.message_id),
                    },
                };
                self.events.push(event);
                proof {
                    assert(self.sessions@[i as int].peer_id@ == from@);
                    assert(self.has_session(from@));
                    let k3 = self.session_index(from@);
                    assert(0 <= k3 < self.sessions@.len() && self.sessions@[k3].peer_id@
                        == from@);
                    assert(k3 == i as int);
                }
                Ok(())
            },
            Err(e) => Err(e),
        }
    }

    /// The peer's message history, oldest first; empty without a session.
    pub fn get_history(&self, peer: &Vec<u8>) -> (r: Vec<ChatMessage>)
        requires
            self.wf(),
        ensures
            !self.has_session(peer@) ==> r@.len() == 0,
            self.has_session(peer@) ==> ({
                let s = self.sessions@[self.session_index(peer@)];
                &&& r@.len() == s.history@.len()
                &&& forall|i: int| 0 <= i < r@.len() ==> (#[trigger] r@[i])@ == s.history@[i]@
            }),
    {
        match self.find_session(peer) {
            Some(i) => {
                proof {
                    assert(self.has_session(peer@));
                    let k = self.session_index(peer@);
                    assert(0 <= k < self.sessions@.len() && self.sessions@[k].peer_id@ == peer@);
                    assert(k == i as int);
                }
                self.sessions[i].get_history()
            },
            None => Vec::new(),
        }
    }

    /// Close the peer's session, recording a `SessionClosed` event when one
    /// existed.
    pub fn close_session(&mut self, peer: &Vec<u8>)
        requires
            old(self).wf(),
        ensures
            final(self).wf(),
            final(self).local_peer_id == old(self).local_peer_id,
            !final(self).has_session(peer@),
    {
        match self.find_session(peer) {
            Some(i) => {
                let _removed = self.sessions.remove(i);
                proof {
                    assert forall|a: int, b: int|
                        0 <= a < b < self.sessions@.len() implies self.sessions@[a].peer_id@
                        != self.sessions@[b].peer_id@ by {}
                    if self.has_session(peer@) {
                        let m = choose|m: int|
                            0 <= m < self.sessions@.len() && self.sessions@[m].peer_id@ == peer@;
                        if m < i as int {
                            assert(old(self).sessions@[m].peer_id@ == old(
                                self,
                            ).sessions@[i as int].peer_id@);
                            assert(false);
                        } else {
                            assert(old(self).sessions@[m + 1].peer_id@ == old(
                                self,
                            ).sessions@[i as int].peer_id@);
                            assert(false);
                        }
                    }
                }
                self.events.push(ChatEvent::SessionClosed { peer_id: clone_bytes(peer) });
            },
            None => {},
        }
    }

    /// Take one queued frame for the peer: the oldest pending message is
    /// removed, recorded in the history once more, and handed back framed
    /// for the wire.  Nothing comes back without a session or with an
    /// empty queue.
    pub fn get_pending_message(&mut self, peer: &Vec<u8>) -> (r: Option<Vec<u8>>)
        requires
            old(self).wf(),
        ensures
            final(self).wf(),
            final(self).local_peer_id == old(self).local_peer_id,
            !old(self).has_session(peer@) ==> r is None && *final(self) == *old(self),
            old(self).has_session(peer@) ==> ({
                let osi = old(self).session_index(peer@);
                let os = old(self).sessions@[osi];
                let ns = final(self).sessions@[final(self).session_index(peer@)];
                &&& final(self).has_session(peer@)
                &&& (os.pending_messages@.len() == 0 ==> r is None
                    && ns.pending_messages@ == os.pending_messages@ && ns.history@
                    == os.history@)
                &&& (os.pending_messages@.len() > 0 ==> ns.pending_messages@
                    == os.pending_messages@.skip(1) && (enc_chat_v(
                    os.pending_messages@[0]@,
                ).len() <= u32::MAX ==> (r matches Some(frame) && frame@ == frame_spec(
                    enc_chat_v(os.pending_messages@[0]@),
                ))))
            }),
    {
        match self.find_session(peer) {
            Some(i) => {
                proof {
                    let k = old(self).session_index(peer@);
                    assert(0 <= k < self.sessions@.len() && self.sessions@[k].peer_id@
                        == peer@);
                    assert(k == i as int);
                }
                let mut session = self.sessions.remove(i);
                let r = match session.dequeue_message() {
                    Some(msg) => match session.encode_message(msg) {
                        Ok(encoded) => Some(encoded),
                        Err(_) => None,
                    },
                    None => None,
                };
                self.sessions.insert(i, session);
                proof {
                    assert forall|a: int, b: int|
                        0 <= a < b < self.sessions@.len() implies self.sessions@[a].peer_id@
                        != self.sessions@[b].peer_id@ by {}
                    assert(self.sessions@[i as int].peer_id@ == peer@);
                    assert(self.has_session(peer@));
                    let k2 = self.session_index(peer@);
                    assert(0 <= k2 < self.sessions@.len() && self.sessions@[k2].peer_id@
                        == peer@);
                    assert(k2 == i as int);
                }
                r
            },
            None => None,
        }
    }

    /// Number of messages queued for the peer.
    pub fn pending_message_count(&self, peer: &Vec<u8>) -> (r: usize)
        requires
            self.wf(),
        ensures
            !self.has_session(peer@) ==> r == 0,
            self.has_session(peer@) ==> r == self.sessions@[self.session_index(
                peer@,
            )].pending_messages@.len(),
    {
        match self.find_session(peer) {
            Some(i) => {
                proof {
                    assert(self.has_session(peer@));
                    let k = self.session_index(peer@);
                    assert(0 <= k < self.sessions@.len() && self.sessions@[k].peer_id@ == peer@);
                    assert(k == i as int);
                }
                self.sessions[i].pending_count()
            },
            None => 0,
        }
    }

    /// The verified peers chat can reach.
    pub fn available_peers<'a>(&self, registry: &'a NodeManager) -> (r: &'a Vec<
        crate::node::VerifiedNode,
    >)
        ensures
            r@ == registry.nodes_spec(),
    {
        registry.list_nodes()
    }

    /// Drain the outbox: the events recorded so far, oldest first.
    pub fn take_events(&mut self) -> (r: Vec<ChatEvent>)
        ensures
            r == old(self).events,
            final(self).events@.len() == 0,
            final(self).sessions@ == old(self).sessions@,
            final(self).local_peer_id == old(self).local_peer_id,
            old(self).wf() ==> final(self).wf(),
    {
        let mut out: Vec<ChatEvent> = Vec::new();
        std::mem::swap(&mut out, &mut self.events);
        out
    }
}

} // verus!
