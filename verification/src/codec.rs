//! Wire codecs for chat messages, chat responses and user profiles.
//!
//! Each value is encoded as one canonical JSON object, fields in a fixed
//! order, built from the primitives in [`crate::json`].  Each decoder is
//! proved to invert the encoder: whenever the input bytes are the encoding
//! of some value, the decoder returns exactly that value.

use vstd::prelude::*;

use crate::json::{dec_i64, enc_bool, enc_bool_push, enc_i64_push, enc_null, enc_null_push,
    enc_str, enc_str_push, lit_null, opt_str_len, parse_bool, parse_i64, parse_lit,
    parse_opt_str, parse_string, sps_i64, sps_opt_str, sps_string, lemma_sps_i64_enc,
    lemma_sps_opt_str_enc, lemma_sps_string_enc, lemma_sps_body_bounds, lemma_sps_string_bounds};
use crate::message::{ChatMessage, ChatMessageView, MessageAck, MessageAckView, TextMessage,
    TextMessageView, TypingIndicator, TypingIndicatorView};
use crate::user_info::{UserInfo, UserInfoView};
use crate::agent::push_all;

verus! {
/// The bytes of `{"Text":{"id":`.
pub open spec fn lit_text_head_spec() -> Seq<u8> {
    seq![0x7bu8, 0x22u8, 0x54u8, 0x65u8, 0x78u8, 0x74u8, 0x22u8, 0x3au8, 0x7bu8, 0x22u8, 0x69u8, 0x64u8, 0x22u8, 0x3au8]
}

/// Builds the literal `{"Text":{"id":`.
pub fn lit_text_head() -> (r: Vec<u8>)
    ensures
        r@ == lit_text_head_spec(),
{
    let mut v: Vec<u8> = Vec::new();
    v.push(0x7b);
    v.push(0x22);
    v.push(0x54);
    v.push(0x65);
    v.push(0x78);
    v.push(0x74);
    v.push(0x22);
    v.push(0x3a);
    v.push(0x7b);
    v.push(0x22);
    v.push(0x69);
    v.push(0x64);
    v.push(0x22);
    v.push(0x3a);
    assert(v@ =~= lit_text_head_spec());
    v
}
/// The bytes of `,"sender_peer_id":`.
pub open spec fn lit_sender_key_spec() -> Seq<u8> {
    seq![0x2cu8, 0x22u8, 0x73u8, 0x65u8, 0x6eu8, 0x64u8, 0x65u8, 0x72u8, 0x5fu8, 0x70u8, 0x65u8, 0x65u8, 0x72u8, 0x5fu8, 0x69u8, 0x64u8, 0x22u8, 0x3au8]
}

/// Builds the literal `,"sender_peer_id":`.
pub fn lit_sender_key() -> (r: Vec<u8>)
    ensures
        r@ == lit_sender_key_spec(),
{
    let mut v: Vec<u8> = Vec::new();
    v.push(0x2c);
    v.push(0x22);
    v.push(0x73);
    v.push(0x65);
    v.push(0x6e);
    v.push(0x64);
    v.push(0x65);
    v.push(0x72);
    v.push(0x5f);
    v.push(0x70);
    v.push(0x65);
    v.push(0x65);
    v.push(0x72);
    v.push(0x5f);
    v.push(0x69);
    v.push(0x64);
    v.push(0x22);
    v.push(0x3a);
    assert(v@ =~= lit_sender_key_spec());
    v
}
/// The bytes of `,"content":`.
pub open spec fn lit_content_key_spec() -> Seq<u8> {
    seq![0x2cu8, 0x22u8, 0x63u8, 0x6fu8, 0x6eu8, 0x74u8, 0x65u8, 0x6eu8, 0x74u8, 0x22u8, 0x3au8]
}

/// Builds the literal `,"content":`.
pub fn lit_content_key() -> (r: Vec<u8>)
    ensures
        r@ == lit_content_key_spec(),
{
    let mut v: Vec<u8> = Vec::new();
    v.push(0x2c);
    v.push(0x22);
    v.push(0x63);
    v.push(0x6f);
    v.push(0x6e);
    v.push(0x74);
    v.push(0x65);
    v.push(0x6e);
    v.push(0x74);
    v.push(0x22);
    v.push(0x3a);
    assert(v@ =~= lit_content_key_spec());
    v
}
/// The bytes of `,"timestamp":`.
pub open spec fn lit_timestamp_key_spec() -> Seq<u8> {
    seq![0x2cu8, 0x22u8, 0x74u8, 0x69u8, 0x6du8, 0x65u8, 0x73u8, 0x74u8, 0x61u8, 0x6du8, 0x70u8, 0x22u8, 0x3au8]
}

/// Builds the literal `,"timestamp":`.
pub fn lit_timestamp_key() -> (r: Vec<u8>)
    ensures
        r@ == lit_timestamp_key_spec(),
{
    let mut v: Vec<u8> = Vec::new();
    v.push(0x2c);
    v.push(0x22);
    v.push(0x74);
    v.push(0x69);
    v.push(0x6d);
    v.push(0x65);
    v.push(0x73);
    v.push(0x74);
    v.push(0x61);
    v.push(0x6d);
    v.push(0x70);
    v.push(0x22);
    v.push(0x3a);
    assert(v@ =~= lit_timestamp_key_spec());
    v
}
/// The bytes of `,"reply_to":`.
pub open spec fn lit_reply_key_spec() -> Seq<u8> {
    seq![0x2cu8, 0x22u8, 0x72u8, 0x65u8, 0x70u8, 0x6cu8, 0x79u8, 0x5fu8, 0x74u8, 0x6fu8, 0x22u8, 0x3au8]
}

/// Builds the literal `,"reply_to":`.
pub fn lit_reply_key() -> (r: Vec<u8>)
    ensures
        r@ == lit_reply_key_spec(),
{
    let mut v: Vec<u8> = Vec::new();
    v.push(0x2c);
    v.push(0x22);
    v.push(0x72);
    v.push(0x65);
    v.push(0x70);
    v.push(0x6c);
    v.push(0x79);
    v.push(0x5f);
    v.push(0x74);
    v.push(0x6f);
    v.push(0x22);
    v.push(0x3a);
    assert(v@ =~= lit_reply_key_spec());
    v
}
/// The bytes of `}}`.
pub open spec fn lit_obj_end_spec() -> Seq<u8> {
    seq![0x7du8, 0x7du8]
}

/// Builds the literal `}}`.
pub fn lit_obj_end() -> (r: Vec<u8>)
    ensures
        r@ == lit_obj_end_spec(),
{
    let mut v: Vec<u8> = Vec::new();
    v.push(0x7d);
    v.push(0x7d);
    assert(v@ =~= lit_obj_end_spec());
    v
}
/// The bytes of `{"TypingIndicator":{"sender_peer_id":`.
pub open spec fn lit_typing_head_spec() -> Seq<u8> {
    seq![0x7bu8, 0x22u8, 0x54u8, 0x79u8, 0x70u8, 0x69u8, 0x6eu8, 0x67u8, 0x49u8, 0x6eu8, 0x64u8, 0x69u8, 0x63u8, 0x61u8, 0x74u8, 0x6fu8, 0x72u8, 0x22u8, 0x3au8, 0x7bu8, 0x22u8, 0x73u8, 0x65u8, 0x6eu8, 0x64u8, 0x65u8, 0x72u8, 0x5fu8, 0x70u8, 0x65u8, 0x65u8, 0x72u8, 0x5fu8, 0x69u8, 0x64u8, 0x22u8, 0x3au8]
}

/// Builds the literal `{"TypingIndicator":{"sender_peer_id":`.
pub fn lit_typing_head() -> (r: Vec<u8>)
    ensures
        r@ == lit_typing_head_spec(),
{
    let mut v: Vec<u8> = Vec::new();
    v.push(0x7b);
    v.push(0x22);
    v.push(0x54);
    v.push(0x79);
    v.push(0x70);
    v.push(0x69);
    v.push(0x6e);
    v.push(0x67);
    v.push(0x49);
    v.push(0x6e);
    v.push(0x64);
    v.push(0x69);
    v.push(0x63);
    v.push(0x61);
    v.push(0x74);
    v.push(0x6f);
    v.push(0x72);
    v.push(0x22);
    v.push(0x3a);
    v.push(0x7b);
    v.push(0x22);
    v.push(0x73);
    v.push(0x65);
    v.push(0x6e);
    v.push(0x64);
    v.push(0x65);
    v.push(0x72);
    v.push(0x5f);
    v.push(0x70);
    v.push(0x65);
    v.push(0x65);
    v.push(0x72);
    v.push(0x5f);
    v.push(0x69);
    v.push(0x64);
    v.push(0x22);
    v.push(0x3a);
    assert(v@ =~= lit_typing_head_spec());
    v
}
/// The bytes of `,"is_typing":`.
pub open spec fn lit_is_typing_key_spec() -> Seq<u8> {
    seq![0x2cu8, 0x22u8, 0x69u8, 0x73u8, 0x5fu8, 0x74u8, 0x79u8, 0x70u8, 0x69u8, 0x6eu8, 0x67u8, 0x22u8, 0x3au8]
}

/// Builds the literal `,"is_typing":`.
pub fn lit_is_typing_key() -> (r: Vec<u8>)
    ensures
        r@ == lit_is_typing_key_spec(),
{
    let mut v: Vec<u8> = Vec::new();
    v.push(0x2c);
    v.push(0x22);
    v.push(0x69);
    v.push(0x73);
    v.push(0x5f);
    v.push(0x74);
    v.push(0x79);
    v.push(0x70);
    v.push(0x69);
    v.push(0x6e);
    v.push(0x67);
    v.push(0x22);
    v.push(0x3a);
    assert(v@ =~= lit_is_typing_key_spec());
    v
}
/// The bytes of `{"Ack":{"message_id":`.
pub open spec fn lit_ack_head_spec() -> Seq<u8> {
    seq![0x7bu8, 0x22u8, 0x41u8, 0x63u8, 0x6bu8, 0x22u8, 0x3au8, 0x7bu8, 0x22u8, 0x6du8, 0x65u8, 0x73u8, 0x73u8, 0x61u8, 0x67u8, 0x65u8, 0x5fu8, 0x69u8, 0x64u8, 0x22u8, 0x3au8]
}

/// Builds the literal `{"Ack":{"message_id":`.
pub fn lit_ack_head() -> (r: Vec<u8>)
    ensures
        r@ == lit_ack_head_spec(),
{
    let mut v: Vec<u8> = Vec::new();
    v.push(0x7b);
    v.push(0x22);
    v.push(0x41);
    v.push(0x63);
    v.push(0x6b);
    v.push(0x22);
    v.push(0x3a);
    v.push(0x7b);
    v.push(0x22);
    v.push(0x6d);
    v.push(0x65);
    v.push(0x73);
    v.push(0x73);
    v.push(0x61);
    v.push(0x67);
    v.push(0x65);
    v.push(0x5f);
    v.push(0x69);
    v.push(0x64);
    v.push(0x22);
    v.push(0x3a);
    assert(v@ =~= lit_ack_head_spec());
    v
}
/// The bytes of `,"received":`.
pub open spec fn lit_received_key_spec() -> Seq<u8> {
    seq![0x2cu8, 0x22u8, 0x72u8, 0x65u8, 0x63u8, 0x65u8, 0x69u8, 0x76u8, 0x65u8, 0x64u8, 0x22u8, 0x3au8]
}

/// Builds the literal `,"received":`.
pub fn lit_received_key() -> (r: Vec<u8>)
    ensures
        r@ == lit_received_key_spec(),
{
    let mut v: Vec<u8> = Vec::new();
    v.push(0x2c);
    v.push(0x22);
    v.push(0x72);
    v.push(0x65);
    v.push(0x63);
    v.push(0x65);
    v.push(0x69);
    v.push(0x76);
    v.push(0x65);
    v.push(0x64);
    v.push(0x22);
    v.push(0x3a);
    assert(v@ =~= lit_received_key_spec());
    v
}
/// The bytes of `{"received":`.
pub open spec fn lit_response_head_spec() -> Seq<u8> {
    seq![0x7bu8, 0x22u8, 0x72u8, 0x65u8, 0x63u8, 0x65u8, 0x69u8, 0x76u8, 0x65u8, 0x64u8, 0x22u8, 0x3au8]
}

/// Builds the literal `{"received":`.
pub fn lit_response_head() -> (r: Vec<u8>)
    ensures
        r@ == lit_response_head_spec(),
{
    let mut v: Vec<u8> = Vec::new();
    v.push(0x7b);
    v.push(0x22);
    v.push(0x72);
    v.push(0x65);
    v.push(0x63);
    v.push(0x65);
    v.push(0x69);
    v.push(0x76);
    v.push(0x65);
    v.push(0x64);
    v.push(0x22);
    v.push(0x3a);
    assert(v@ =~= lit_response_head_spec());
    v
}
/// The bytes of `{"device_name":`.
pub open spec fn lit_device_key_spec() -> Seq<u8> {
    seq![0x7bu8, 0x22u8, 0x64u8, 0x65u8, 0x76u8, 0x69u8, 0x63u8, 0x65u8, 0x5fu8, 0x6eu8, 0x61u8, 0x6du8, 0x65u8, 0x22u8, 0x3au8]
}

/// Builds the literal `{"device_name":`.
pub fn lit_device_key() -> (r: Vec<u8>)
    ensures
        r@ == lit_device_key_spec(),
{
    let mut v: Vec<u8> = Vec::new();
    v.push(0x7b);
    v.push(0x22);
    v.push(0x64);
    v.push(0x65);
    v.push(0x76);
    v.push(0x69);
    v.push(0x63);
    v.push(0x65);
    v.push(0x5f);
    v.push(0x6e);
    v.push(0x61);
    v.push(0x6d);
    v.push(0x65);
    v.push(0x22);
    v.push(0x3a);
    assert(v@ =~= lit_device_key_spec());
    v
}
/// The bytes of `,"nickname":`.
pub open spec fn lit_nickname_key_spec() -> Seq<u8> {
    seq![0x2cu8, 0x22u8, 0x6eu8, 0x69u8, 0x63u8, 0x6bu8, 0x6eu8, 0x61u8, 0x6du8, 0x65u8, 0x22u8, 0x3au8]
}

/// Builds the literal `,"nickname":`.
pub fn lit_nickname_key() -> (r: Vec<u8>)
    ensures
        r@ == lit_nickname_key_spec(),
{
    let mut v: Vec<u8> = Vec::new();
    v.push(0x2c);
    v.push(0x22);
    v.push(0x6e);
    v.push(0x69);
    v.push(0x63);
    v.push(0x6b);
    v.push(0x6e);
    v.push(0x61);
    v.push(0x6d);
    v.push(0x65);
    v.push(0x22);
    v.push(0x3a);
    assert(v@ =~= lit_nickname_key_spec());
    v
}
/// The bytes of `,"avatar_url":`.
pub open spec fn lit_avatar_key_spec() -> Seq<u8> {
    seq![0x2cu8, 0x22u8, 0x61u8, 0x76u8, 0x61u8, 0x74u8, 0x61u8, 0x72u8, 0x5fu8, 0x75u8, 0x72u8, 0x6cu8, 0x22u8, 0x3au8]
}

/// Builds the literal `,"avatar_url":`.
pub fn lit_avatar_key() -> (r: Vec<u8>)
    ensures
        r@ == lit_avatar_key_spec(),
{
    let mut v: Vec<u8> = Vec::new();
    v.push(0x2c);
    v.push(0x22);
    v.push(0x61);
    v.push(0x76);
    v.push(0x61);
    v.push(0x74);
    v.push(0x61);
    v.push(0x72);
    v.push(0x5f);
    v.push(0x75);
    v.push(0x72);
    v.push(0x6c);
    v.push(0x22);
    v.push(0x3a);
    assert(v@ =~= lit_avatar_key_spec());
    v
}
/// The bytes of `,"status":`.
pub open spec fn lit_status_key_spec() -> Seq<u8> {
    seq![0x2cu8, 0x22u8, 0x73u8, 0x74u8, 0x61u8, 0x74u8, 0x75u8, 0x73u8, 0x22u8, 0x3au8]
}

/// Builds the literal `,"status":`.
pub fn lit_status_key() -> (r: Vec<u8>)
    ensures
        r@ == lit_status_key_spec(),
{
    let mut v: Vec<u8> = Vec::new();
    v.push(0x2c);
    v.push(0x22);
    v.push(0x73);
    v.push(0x74);
    v.push(0x61);
    v.push(0x74);
    v.push(0x75);
    v.push(0x73);
    v.push(0x22);
    v.push(0x3a);
    assert(v@ =~= lit_status_key_spec());
    v
}
/// A string field that may be absent: `null` or a JSON string.
pub open spec fn enc_opt_str(o: Option<Seq<u8>>) -> Seq<u8> {
    match o {
        Some(s) => enc_str(s),
        None => enc_null(),
    }
}

/// The encoding of a text message.
pub open spec fn enc_text_v(t: TextMessageView) -> Seq<u8> {
    lit_text_head_spec() + enc_str(t.id) + lit_sender_key_spec() + enc_str(t.sender_peer_id)
        + lit_content_key_spec() + enc_str(t.content) + lit_timestamp_key_spec() + dec_i64(
        t.timestamp,
    ) + lit_reply_key_spec() + enc_opt_str(t.reply_to) + lit_obj_end_spec()
}

/// The encoding of a typing indicator.
pub open spec fn enc_typing_v(t: TypingIndicatorView) -> Seq<u8> {
    lit_typing_head_spec() + enc_str(t.sender_peer_id) + lit_is_typing_key_spec() + enc_bool(
        t.is_typing,
    ) + lit_obj_end_spec()
}

/// The encoding of an acknowledgement.
pub open spec fn enc_ack_v(a: MessageAckView) -> Seq<u8> {
    lit_ack_head_spec() + enc_str(a.message_id) + lit_received_key_spec() + enc_bool(a.received)
        + lit_timestamp_key_spec() + dec_i64(a.timestamp) + lit_obj_end_spec()
}

/// The encoding of a chat message: a one-key object named after the variant.
pub open spec fn enc_chat_v(m: ChatMessageView) -> Seq<u8> {
    match m {
        ChatMessageView::Text(t) => enc_text_v(t),
        ChatMessageView::TypingIndicator(t) => enc_typing_v(t),
        ChatMessageView::Ack(a) => enc_ack_v(a),
    }
}

/// The encoding of a chat response.
pub open spec fn enc_response_v(received: bool) -> Seq<u8> {
    lit_response_head_spec() + enc_bool(received) + seq![0x7du8]
}

/// The encoding of the custom fields of a profile: `,"key":"value"` pairs.
pub open spec fn enc_pairs(ps: Seq<(Seq<u8>, Seq<u8>)>) -> Seq<u8>
    decreases ps.len(),
{
    if ps.len() == 0 {
        Seq::empty()
    } else {
        seq![0x2cu8] + enc_str(ps[0].0) + seq![0x3au8] + enc_str(ps[0].1) + enc_pairs(ps.skip(1))
    }
}

/// The encoding of a profile: the fixed fields, then the custom pairs.
pub open spec fn enc_user_info_v(u: UserInfoView) -> Seq<u8> {
    lit_device_key_spec() + enc_str(u.device_name) + lit_nickname_key_spec() + enc_opt_str(
        u.nickname,
    ) + lit_avatar_key_spec() + enc_opt_str(u.avatar_url) + lit_status_key_spec() + enc_opt_str(
        u.status,
    ) + enc_pairs(u.custom_data) + seq![0x7du8]
}

/// The encoding of a user-info request: the empty request is `null`.
pub open spec fn enc_user_info_request() -> Seq<u8> {
    enc_null()
}


/// Peel one piece off the front of a suffix of `data`.
proof fn lemma_piece(data: Seq<u8>, i: int, piece: Seq<u8>, rest: Seq<u8>)
    requires
        0 <= i <= data.len(),
        data.skip(i) == piece + rest,
    ensures
        data.subrange(i, i + piece.len()) == piece,
        data.skip(i + piece.len()) == rest,
        data.len() == i + piece.len() + rest.len(),
        i + piece.len() <= data.len(),
{
    assert(data.skip(i).len() == data.len() - i);
    assert(data.len() == i + piece.len() + rest.len());
    assert forall|j: int| 0 <= j < piece.len() implies #[trigger] data.subrange(
        i,
        i + piece.len() as int,
    )[j] == piece[j] by {
        assert(data.subrange(i, i + piece.len() as int)[j] == data[i + j]);
        assert(data.skip(i)[j] == data[j + i]);
        assert((piece + rest)[j] == piece[j]);
    }
    assert(data.subrange(i, i + piece.len() as int) =~= piece);
    assert forall|j: int| 0 <= j < rest.len() implies #[trigger] data.skip(
        i + piece.len() as int,
    )[j] == rest[j] by {
        assert(data.skip(i + piece.len() as int)[j] == data[j + i + piece.len()]);
        assert(data.skip(i)[j + piece.len()] == data[j + piece.len() + i]);
        assert((piece + rest)[j + piece.len()] == rest[j]);
    }
    assert(data.skip(i + piece.len() as int) =~= rest);
}


/// Parse the tail of a text message at `q9`: the reply field, the closing
/// braces, and the end of input.
pub open spec fn sps_text_tail(
    data: Seq<u8>,
    q9: int,
    id: Seq<u8>,
    spid: Seq<u8>,
    content: Seq<u8>,
    ts: int,
) -> Option<TextMessageView> {
    let reply: Option<(Option<Seq<u8>>, int)> = if 0 <= q9 < data.len() && data[q9] == 0x6e {
        if q9 + 4 <= data.len() && data.subrange(q9, q9 + 4) == enc_null() {
            Some((None, q9 + 4))
        } else {
            None
        }
    } else {
        match sps_string(data, q9) {
            Some((rp, q10)) => Some((Some(rp), q10)),
            None => None,
        }
    };
    match reply {
        Some((rp, q10)) => if q10 + 2 <= data.len() && data.subrange(q10, q10 + 2)
            == lit_obj_end_spec() && q10 + 2 == data.len() {
            Some(
                TextMessageView {
                    id,
                    sender_peer_id: spid,
                    content,
                    timestamp: ts,
                    reply_to: rp,
                },
            )
        } else {
            None
        },
        None => None,
    }
}

/// Parse the fields of a text message after its head literal.
pub open spec fn sps_text_from(data: Seq<u8>) -> Option<TextMessageView> {
    let p1 = lit_text_head_spec().len() as int;
    match sps_string(data, p1) {
        Some((id, q2)) => if q2 + lit_sender_key_spec().len() <= data.len() && data.subrange(
            q2,
            q2 + lit_sender_key_spec().len(),
        ) == lit_sender_key_spec() {
            match sps_string(data, q2 + lit_sender_key_spec().len()) {
                Some((spid, q4)) => if q4 + lit_content_key_spec().len() <= data.len()
                    && data.subrange(q4, q4 + lit_content_key_spec().len())
                    == lit_content_key_spec() {
                    match sps_string(data, q4 + lit_content_key_spec().len()) {
                        Some((content, q6)) => if q6 + lit_timestamp_key_spec().len()
                            <= data.len() && data.subrange(
                            q6,
                            q6 + lit_timestamp_key_spec().len(),
                        ) == lit_timestamp_key_spec() {
                            match sps_i64(data, q6 + lit_timestamp_key_spec().len()) {
                                Some((ts, q8)) => if q8 + lit_reply_key_spec().len()
                                    <= data.len() && data.subrange(
                                    q8,
                                    q8 + lit_reply_key_spec().len(),
                                ) == lit_reply_key_spec() {
                                    sps_text_tail(
                                        data,
                                        q8 + lit_reply_key_spec().len(),
                                        id,
                                        spid,
                                        content,
                                        ts,
                                    )
                                } else {
                                    None
                                },
                                None => None,
                            }
                        } else {
                            None
                        },
                        None => None,
                    }
                } else {
                    None
                },
                None => None,
            }
        } else {
            None
        },
        None => None,
    }
}

/// Parse the fields of a typing indicator after its head literal.
pub open spec fn sps_typing_from(data: Seq<u8>) -> Option<TypingIndicatorView> {
    let p1 = lit_typing_head_spec().len() as int;
    match sps_string(data, p1) {
        Some((spid, q2)) => if q2 + lit_is_typing_key_spec().len() <= data.len()
            && data.subrange(q2, q2 + lit_is_typing_key_spec().len())
            == lit_is_typing_key_spec() {
            let q3 = q2 + lit_is_typing_key_spec().len();
            let b: Option<(bool, int)> = if q3 + enc_bool(true).len() <= data.len()
                && data.subrange(q3, q3 + enc_bool(true).len()) == enc_bool(true) {
                Some((true, q3 + enc_bool(true).len()))
            } else if q3 + enc_bool(false).len() <= data.len() && data.subrange(
                q3,
                q3 + enc_bool(false).len(),
            ) == enc_bool(false) {
                Some((false, q3 + enc_bool(false).len()))
            } else {
                None
            };
            match b {
                Some((ty, q4)) => if q4 + 2 <= data.len() && data.subrange(q4, q4 + 2)
                    == lit_obj_end_spec() && q4 + 2 == data.len() {
                    Some(TypingIndicatorView { sender_peer_id: spid, is_typing: ty })
                } else {
                    None
                },
                None => None,
            }
        } else {
            None
        },
        None => None,
    }
}

/// Parse the tail of an acknowledgement at `q4`: the timestamp, the
/// closing braces, and the end of input.
pub open spec fn sps_ack_tail(data: Seq<u8>, q4: int, mid: Seq<u8>, rec: bool) -> Option<
    MessageAckView,
> {
    if q4 + lit_timestamp_key_spec().len() <= data.len() && data.subrange(
        q4,
        q4 + lit_timestamp_key_spec().len(),
    ) == lit_timestamp_key_spec() {
        match sps_i64(data, q4 + lit_timestamp_key_spec().len()) {
            Some((ts, q6)) => if q6 + 2 <= data.len() && data.subrange(q6, q6 + 2)
                == lit_obj_end_spec() && q6 + 2 == data.len() {
                Some(MessageAckView { message_id: mid, received: rec, timestamp: ts })
            } else {
                None
            },
            None => None,
        }
    } else {
        None
    }
}

/// Parse the fields of an acknowledgement after its head literal.
pub open spec fn sps_ack_from(data: Seq<u8>) -> Option<MessageAckView> {
    let p1 = lit_ack_head_spec().len() as int;
    match sps_string(data, p1) {
        Some((mid, q2)) => if q2 + lit_received_key_spec().len() <= data.len() && data.subrange(
            q2,
            q2 + lit_received_key_spec().len(),
        ) == lit_received_key_spec() {
            let q3 = q2 + lit_received_key_spec().len();
            let b: Option<(bool, int)> = if q3 + enc_bool(true).len() <= data.len()
                && data.subrange(q3, q3 + enc_bool(true).len()) == enc_bool(true) {
                Some((true, q3 + enc_bool(true).len()))
            } else if q3 + enc_bool(false).len() <= data.len() && data.subrange(
                q3,
                q3 + enc_bool(false).len(),
            ) == enc_bool(false) {
                Some((false, q3 + enc_bool(false).len()))
            } else {
                None
            };
            match b {
                Some((rec, q4)) => sps_ack_tail(data, q4, mid, rec),
                None => None,
            }
        } else {
            None
        },
        None => None,
    }
}

/// The wire grammar of a chat message: the head literal picks the variant,
/// the rest parses the fields, and the whole input must be consumed.  The
/// decoder accepts exactly this grammar.
pub open spec fn sps_chat(data: Seq<u8>) -> Option<ChatMessageView> {
    if lit_text_head_spec().len() <= data.len() && data.subrange(
        0,
        lit_text_head_spec().len() as int,
    ) == lit_text_head_spec() {
        match sps_text_from(data) {
            Some(t) => Some(ChatMessageView::Text(t)),
            None => None,
        }
    } else if lit_typing_head_spec().len() <= data.len() && data.subrange(
        0,
        lit_typing_head_spec().len() as int,
    ) == lit_typing_head_spec() {
        match sps_typing_from(data) {
            Some(t) => Some(ChatMessageView::TypingIndicator(t)),
            None => None,
        }
    } else if lit_ack_head_spec().len() <= data.len() && data.subrange(
        0,
        lit_ack_head_spec().len() as int,
    ) == lit_ack_head_spec() {
        match sps_ack_from(data) {
            Some(a) => Some(ChatMessageView::Ack(a)),
            None => None,
        }
    } else {
        None
    }
}

/// Where each piece of an encoded text message sits, and how it parses.
#[verifier::rlimit(100)]
proof fn lemma_text_layout(data: Seq<u8>, t: TextMessageView)
    requires
        t.wf(),
        data == enc_text_v(t),
    ensures
        ({
            let p1 = lit_text_head_spec().len() as int;
            let p2 = p1 + enc_str(t.id).len();
            let p3 = p2 + lit_sender_key_spec().len();
            let p4 = p3 + enc_str(t.sender_peer_id).len();
            let p5 = p4 + lit_content_key_spec().len();
            let p6 = p5 + enc_str(t.content).len();
            let p7 = p6 + lit_timestamp_key_spec().len();
            let p8 = p7 + dec_i64(t.timestamp).len();
            let p9 = p8 + lit_reply_key_spec().len();
            let p10 = p9 + enc_opt_str(t.reply_to).len();
            &&& data.subrange(0, p1) == lit_text_head_spec()
            &&& sps_string(data, p1) == Some((t.id, p2))
            &&& data.subrange(p2, p3) == lit_sender_key_spec()
            &&& sps_string(data, p3) == Some((t.sender_peer_id, p4))
            &&& data.subrange(p4, p5) == lit_content_key_spec()
            &&& sps_string(data, p5) == Some((t.content, p6))
            &&& data.subrange(p6, p7) == lit_timestamp_key_spec()
            &&& sps_i64(data, p7) == Some((t.timestamp, p8))
            &&& data.subrange(p8, p9) == lit_reply_key_spec()
            &&& (match t.reply_to {
                Some(r) => data[p9] == 0x22 && sps_string(data, p9) == Some((r, p10)),
                None => data[p9] == 0x6e && data.subrange(p9, p10) == enc_null(),
            })
            &&& data.subrange(p10, p10 + 2) == lit_obj_end_spec()
            &&& data.len() == p10 + 2
        }),
{
    let a1 = lit_text_head_spec();
    let e1 = enc_str(t.id);
    let a2 = lit_sender_key_spec();
    let e2 = enc_str(t.sender_peer_id);
    let a3 = lit_content_key_spec();
    let e3 = enc_str(t.content);
    let a4 = lit_timestamp_key_spec();
    let d4 = dec_i64(t.timestamp);
    let a5 = lit_reply_key_spec();
    let e5 = enc_opt_str(t.reply_to);
    let a6 = lit_obj_end_spec();
    let r11 = Seq::<u8>::empty();
    let r10 = a6 + r11;
    let r9 = e5 + r10;
    let r8 = a5 + r9;
    let r7 = d4 + r8;
    let r6 = a4 + r7;
    let r5 = e3 + r6;
    let r4 = a3 + r5;
    let r3 = e2 + r4;
    let r2 = a2 + r3;
    let r1 = e1 + r2;
    let q0: int = 0;
    let q1 = q0 + a1.len();
    let q2 = q1 + e1.len();
    let q3 = q2 + a2.len();
    let q4 = q3 + e2.len();
    let q5 = q4 + a3.len();
    let q6 = q5 + e3.len();
    let q7 = q6 + a4.len();
    let q8 = q7 + d4.len();
    let q9 = q8 + a5.len();
    let q10 = q9 + e5.len();
    let q11 = q10 + a6.len();
    assert(data.skip(0) =~= a1 + r1);
    lemma_piece(data, q0, a1, r1);
    lemma_piece(data, q1, e1, r2);
    lemma_piece(data, q2, a2, r3);
    lemma_piece(data, q3, e2, r4);
    lemma_piece(data, q4, a3, r5);
    lemma_piece(data, q5, e3, r6);
    lemma_piece(data, q6, a4, r7);
    lemma_piece(data, q7, d4, r8);
    lemma_piece(data, q8, a5, r9);
    lemma_piece(data, q9, e5, r10);
    lemma_piece(data, q10, a6, r11);
    lemma_sps_string_enc(data, q1, t.id);
    lemma_sps_string_enc(data, q3, t.sender_peer_id);
    lemma_sps_string_enc(data, q5, t.content);
    assert(data[q8] == data.subrange(q8, q9)[0]);
    assert(data[q8] == 0x2c);
    lemma_sps_i64_enc(data, q7, t.timestamp);
    match t.reply_to {
        Some(r) => {
            lemma_sps_string_enc(data, q9, r);
            assert(data[q9] == data.subrange(q9, q10)[0]);
            assert(enc_str(r)[0] == 0x22);
        },
        None => {
            assert(data[q9] == data.subrange(q9, q10)[0]);
            assert(enc_null()[0] == 0x6e);
        },
    }
}

/// Where each piece of an encoded typing indicator sits, and how it parses.
#[verifier::rlimit(80)]
proof fn lemma_typing_layout(data: Seq<u8>, t: TypingIndicatorView)
    requires
        data == enc_typing_v(t),
    ensures
        ({
            let p1 = lit_typing_head_spec().len() as int;
            let p2 = p1 + enc_str(t.sender_peer_id).len();
            let p3 = p2 + lit_is_typing_key_spec().len();
            let p4 = p3 + enc_bool(t.is_typing).len();
            &&& data.subrange(0, p1) == lit_typing_head_spec()
            &&& sps_string(data, p1) == Some((t.sender_peer_id, p2))
            &&& data.subrange(p2, p3) == lit_is_typing_key_spec()
            &&& data.subrange(p3, p4) == enc_bool(t.is_typing)
            &&& data.subrange(p4, p4 + 2) == lit_obj_end_spec()
            &&& data.len() == p4 + 2
            &&& data[3] == 0x79
        }),
{
    let a1 = lit_typing_head_spec();
    let e1 = enc_str(t.sender_peer_id);
    let a2 = lit_is_typing_key_spec();
    let b1 = enc_bool(t.is_typing);
    let a3 = lit_obj_end_spec();
    let r5 = Seq::<u8>::empty();
    let r4 = a3 + r5;
    let r3 = b1 + r4;
    let r2 = a2 + r3;
    let r1 = e1 + r2;
    let q0: int = 0;
    let q1 = q0 + a1.len();
    let q2 = q1 + e1.len();
    let q3 = q2 + a2.len();
    let q4 = q3 + b1.len();
    let q5 = q4 + a3.len();
    assert(data.skip(0) =~= a1 + r1);
    lemma_piece(data, q0, a1, r1);
    lemma_piece(data, q1, e1, r2);
    lemma_piece(data, q2, a2, r3);
    lemma_piece(data, q3, b1, r4);
    lemma_piece(data, q4, a3, r5);
    lemma_sps_string_enc(data, q1, t.sender_peer_id);
    assert(data[3] == data.subrange(q0, q1)[3]);
    assert(a1[3] == 0x79);
}

/// Where each piece of an encoded acknowledgement sits, and how it parses.
#[verifier::rlimit(80)]
proof fn lemma_ack_layout(data: Seq<u8>, a: MessageAckView)
    requires
        a.wf(),
        data == enc_ack_v(a),
    ensures
        ({
            let p1 = lit_ack_head_spec().len() as int;
            let p2 = p1 + enc_str(a.message_id).len();
            let p3 = p2 + lit_received_key_spec().len();
            let p4 = p3 + enc_bool(a.received).len();
            let p5 = p4 + lit_timestamp_key_spec().len();
            let p6 = p5 + dec_i64(a.timestamp).len();
            &&& data.subrange(0, p1) == lit_ack_head_spec()
            &&& sps_string(data, p1) == Some((a.message_id, p2))
            &&& data.subrange(p2, p3) == lit_received_key_spec()
            &&& data.subrange(p3, p4) == enc_bool(a.received)
            &&& data.subrange(p4, p5) == lit_timestamp_key_spec()
            &&& sps_i64(data, p5) == Some((a.timestamp, p6))
            &&& data.subrange(p6, p6 + 2) == lit_obj_end_spec()
            &&& data.len() == p6 + 2
            &&& data[2] == 0x41
        }),
{
    let a1 = lit_ack_head_spec();
    let e1 = enc_str(a.message_id);
    let a2 = lit_received_key_spec();
    let b1 = enc_bool(a.received);
    let a3 = lit_timestamp_key_spec();
    let d1 = dec_i64(a.timestamp);
    let a4 = lit_obj_end_spec();
    let r7 = Seq::<u8>::empty();
    let r6 = a4 + r7;
    let r5 = d1 + r6;
    let r4 = a3 + r5;
    let r3 = b1 + r4;
    let r2 = a2 + r3;
    let r1 = e1 + r2;
    let q0: int = 0;
    let q1 = q0 + a1.len();
    let q2 = q1 + e1.len();
    let q3 = q2 + a2.len();
    let q4 = q3 + b1.len();
    let q5 = q4 + a3.len();
    let q6 = q5 + d1.len();
    let q7 = q6 + a4.len();
    assert(data.skip(0) =~= a1 + r1);
    lemma_piece(data, q0, a1, r1);
    lemma_piece(data, q1, e1, r2);
    lemma_piece(data, q2, a2, r3);
    lemma_piece(data, q3, b1, r4);
    lemma_piece(data, q4, a3, r5);
    lemma_piece(data, q5, d1, r6);
    lemma_piece(data, q6, a4, r7);
    lemma_sps_string_enc(data, q1, a.message_id);
    assert(data[q6] == data.subrange(q6, q7)[0]);
    assert(data[q6] == 0x7d);
    lemma_sps_i64_enc(data, q5, a.timestamp);
    assert(data[2] == data.subrange(q0, q1)[2]);
    assert(a1[2] == 0x41);
}

/// Append `null` or an encoded string.
fn enc_opt_str_push(out: &mut Vec<u8>, o: &Option<Vec<u8>>)
    ensures
        final(out)@ == old(out)@ + enc_opt_str(match o {
            Some(s) => Some(s@),
            None => None,
        }),
{
    match o {
        Some(s) => enc_str_push(out, s),
        None => enc_null_push(out),
    }
}

impl ChatMessage {
    /// Encode this message as its canonical JSON object.
    pub fn encode(&self) -> (r: Result<Vec<u8>, crate::message::ChatError>)
        ensures
            r matches Ok(b) && b@ == enc_chat_v(self@),
    {
        let mut out: Vec<u8> = Vec::new();
        match self {
            ChatMessage::Text(t) => {
                let l = lit_text_head();
                push_all(&mut out, &l);
                enc_str_push(&mut out, &t.id);
                let l = lit_sender_key();
                push_all(&mut out, &l);
                enc_str_push(&mut out, &t.sender_peer_id);
                let l = lit_content_key();
                push_all(&mut out, &l);
                enc_str_push(&mut out, &t.content);
                let l = lit_timestamp_key();
                push_all(&mut out, &l);
                enc_i64_push(&mut out, t.timestamp);
                let l = lit_reply_key();
                push_all(&mut out, &l);
                enc_opt_str_push(&mut out, &t.reply_to);
                let l = lit_obj_end();
                push_all(&mut out, &l);
                assert(out@ =~= enc_text_v(t@));
            },
            ChatMessage::TypingIndicator(t) => {
                let l = lit_typing_head();
                push_all(&mut out, &l);
                enc_str_push(&mut out, &t.sender_peer_id);
                let l = lit_is_typing_key();
                push_all(&mut out, &l);
                enc_bool_push(&mut out, t.is_typing);
                let l = lit_obj_end();
                push_all(&mut out, &l);
                assert(out@ =~= enc_typing_v(t@));
            },
            ChatMessage::Ack(a) => {
                let l = lit_ack_head();
                push_all(&mut out, &l);
                enc_str_push(&mut out, &a.message_id);
                let l = lit_received_key();
                push_all(&mut out, &l);
                enc_bool_push(&mut out, a.received);
                let l = lit_timestamp_key();
                push_all(&mut out, &l);
                enc_i64_push(&mut out, a.timestamp);
                let l = lit_obj_end();
                push_all(&mut out, &l);
                assert(out@ =~= enc_ack_v(a@));
            },
        }
        Ok(out)
    }

    /// Decode a message from its canonical JSON object.  Whenever the bytes
    /// are the encoding of some message, exactly that message comes back.
    pub fn decode(data: &Vec<u8>) -> (r: Result<ChatMessage, crate::message::ChatError>)
        ensures
            forall|m: ChatMessageView|
                m.wf() && data@ == enc_chat_v(m) ==> (r matches Ok(x) && x@ == m),
            r matches Ok(x) ==> sps_chat(data@) == Some(x@),
            r is Err <==> sps_chat(data@) is None,
            r matches Err(e) ==> e is Deserialization,
    {
        match decode_chat(data) {
            Some(m) => Ok(m),
            None => Err(crate::message::ChatError::Deserialization(Vec::new())),
        }
    }
}

/// Decode a chat message; inverts `enc_chat_v`.
#[verifier::rlimit(100)]
fn decode_chat(data: &Vec<u8>) -> (r: Option<ChatMessage>)
    ensures
        forall|m: ChatMessageView|
            m.wf() && data@ == enc_chat_v(m) ==> (r matches Some(x) && x@ == m),
        match r {
            Some(x) => sps_chat(data@) == Some(x@),
            None => sps_chat(data@) is None,
        },
{
    let l1 = lit_text_head();
    let r = match parse_lit(data, 0, &l1) {
        Some(p1) => decode_text_fields(data, p1),
        None => {
            let t1 = lit_typing_head();
            match parse_lit(data, 0, &t1) {
                Some(p1) => decode_typing_fields(data, p1),
                None => {
                    let a1 = lit_ack_head();
                    match parse_lit(data, 0, &a1) {
                        Some(p1) => decode_ack_fields(data, p1),
                        None => None,
                    }
                },
            }
        },
    };
    proof {
        assert forall|m: ChatMessageView| m.wf() && data@ == enc_chat_v(m) implies (match r {
            Some(x) => x@ == m,
            None => false,
        }) by {
            match m {
                ChatMessageView::Text(t) => {
                    lemma_text_layout(data@, t);
                },
                ChatMessageView::TypingIndicator(t) => {
                    lemma_typing_layout(data@, t);
                    assert(lit_text_head_spec()[3] == 0x65);
                    if data@.len() >= 14 {
                        assert(data@.subrange(0, 14)[3] == data@[3]);
                    }
                },
                ChatMessageView::Ack(a) => {
                    lemma_ack_layout(data@, a);
                    assert(lit_text_head_spec()[2] == 0x54);
                    assert(lit_typing_head_spec()[2] == 0x54);
                    if data@.len() >= 14 {
                        assert(data@.subrange(0, 14)[2] == data@[2]);
                    }
                    if data@.len() >= 37 {
                        assert(data@.subrange(0, 37)[2] == data@[2]);
                    }
                },
            }
        }
    }
    r
}

/// Decode the fields of a text message after its head literal.
#[verifier::rlimit(100)]
fn decode_text_fields(data: &Vec<u8>, p1: usize) -> (r: Option<ChatMessage>)
    requires
        p1 == lit_text_head_spec().len(),
    ensures
        forall|t: TextMessageView|
            t.wf() && data@ == enc_text_v(t) ==> (r matches Some(x) && x@
                == ChatMessageView::Text(t)),
        match r {
            Some(x) => x matches ChatMessage::Text(t) && sps_text_from(data@) == Some(t@),
            None => sps_text_from(data@) is None,
        },
{
    let r = match parse_string(data, p1) {
        Some((id, q2)) => {
            let lsk = lit_sender_key();
            match parse_lit(data, q2, &lsk) {
                Some(q3) => match parse_string(data, q3) {
                    Some((spid, q4)) => {
                        let lck = lit_content_key();
                        match parse_lit(data, q4, &lck) {
                            Some(q5) => match parse_string(data, q5) {
                                Some((content, q6)) => {
                                    let ltk = lit_timestamp_key();
                                    match parse_lit(data, q6, &ltk) {
                                        Some(q7) => match parse_i64(data, q7) {
                                            Some((ts, q8)) => {
                                                let lrk = lit_reply_key();
                                                match parse_lit(data, q8, &lrk) {
                                                    Some(q9) => decode_text_tail(
                                                        data,
                                                        id,
                                                        spid,
                                                        content,
                                                        ts,
                                                        q9,
                                                    ),
                                                    None => None,
                                                }
                                            },
                                            None => None,
                                        },
                                        None => None,
                                    }
                                },
                                None => None,
                            },
                            None => None,
                        }
                    },
                    None => None,
                },
                None => None,
            }
        },
        None => None,
    };
    proof {
        assert forall|t: TextMessageView| t.wf() && data@ == enc_text_v(t) implies (match r {
            Some(x) => x@ == ChatMessageView::Text(t),
            None => false,
        }) by {
            lemma_text_layout(data@, t);
        }
    }
    r
}

/// Decode the reply field and closing braces of a text message.
#[verifier::rlimit(100)]
fn decode_text_tail(
    data: &Vec<u8>,
    id: Vec<u8>,
    spid: Vec<u8>,
    content: Vec<u8>,
    ts: i64,
    q9: usize,
) -> (r: Option<ChatMessage>)
    ensures
        forall|t: TextMessageView|
            #![trigger enc_text_v(t)]
            {
                let p9 = lit_text_head_spec().len() + enc_str(t.id).len()
                    + lit_sender_key_spec().len() + enc_str(t.sender_peer_id).len()
                    + lit_content_key_spec().len() + enc_str(t.content).len()
                    + lit_timestamp_key_spec().len() + dec_i64(t.timestamp).len()
                    + lit_reply_key_spec().len();
                t.wf() && data@ == enc_text_v(t) && id@ == t.id && spid@ == t.sender_peer_id
                    && content@ == t.content && ts as int == t.timestamp && q9 == p9
            } ==> (r matches Some(x) && x@ == ChatMessageView::Text(t)),
        match r {
            Some(x) => x matches ChatMessage::Text(t2) && sps_text_tail(
                data@,
                q9 as int,
                id@,
                spid@,
                content@,
                ts as int,
            ) == Some(t2@),
            None => sps_text_tail(data@, q9 as int, id@, spid@, content@, ts as int) is None,
        },
{
    let reply_step: Option<(Option<Vec<u8>>, usize)> = if q9 < data.len() && data[q9] == 0x6e {
        let nul = lit_null();
        match parse_lit(data, q9, &nul) {
            Some(q10) => Some((None, q10)),
            None => None,
        }
    } else {
        match parse_string(data, q9) {
            Some((rp, q10)) => Some((Some(rp), q10)),
            None => None,
        }
    };
    let r = match reply_step {
        Some((reply, q10)) => {
            let loe = lit_obj_end();
            match parse_lit(data, q10, &loe) {
                Some(q11) => if q11 == data.len() {
                    Some(
                        ChatMessage::Text(
                            TextMessage {
                                id,
                                sender_peer_id: spid,
                                content,
                                timestamp: ts,
                                reply_to: reply,
                            },
                        ),
                    )
                } else {
                    None
                },
                None => None,
            }
        },
        None => None,
    };
    proof {
        assert forall|t: TextMessageView|
            #![trigger enc_text_v(t)]
            {
                let p9 = lit_text_head_spec().len() + enc_str(t.id).len()
                    + lit_sender_key_spec().len() + enc_str(t.sender_peer_id).len()
                    + lit_content_key_spec().len() + enc_str(t.content).len()
                    + lit_timestamp_key_spec().len() + dec_i64(t.timestamp).len()
                    + lit_reply_key_spec().len();
                t.wf() && data@ == enc_text_v(t) && id@ == t.id && spid@ == t.sender_peer_id
                    && content@ == t.content && ts as int == t.timestamp && q9 == p9
            } implies (match r {
            Some(x) => x@ == ChatMessageView::Text(t),
            None => false,
        }) by {
            lemma_text_layout(data@, t);
            match t.reply_to {
                Some(rp) => {
                    assert(enc_str(rp)[0] == 0x22);
                },
                None => {},
            }
        }
    }
    r
}

/// Decode the fields of a typing indicator after its head literal.
#[verifier::rlimit(100)]
fn decode_typing_fields(data: &Vec<u8>, p1: usize) -> (r: Option<ChatMessage>)
    requires
        p1 == lit_typing_head_spec().len(),
    ensures
        forall|t: TypingIndicatorView|
            data@ == enc_typing_v(t) ==> (r matches Some(x) && x@
                == ChatMessageView::TypingIndicator(t)),
        match r {
            Some(x) => x matches ChatMessage::TypingIndicator(t) && sps_typing_from(data@)
                == Some(t@),
            None => sps_typing_from(data@) is None,
        },
{
    let r = match parse_string(data, p1) {
        Some((spid, q2)) => {
            let lit = lit_is_typing_key();
            match parse_lit(data, q2, &lit) {
                Some(q3) => match parse_bool(data, q3) {
                    Some((b, q4)) => {
                        let loe = lit_obj_end();
                        match parse_lit(data, q4, &loe) {
                            Some(q5) => if q5 == data.len() {
                                Some(
                                    ChatMessage::TypingIndicator(
                                        TypingIndicator { sender_peer_id: spid, is_typing: b },
                                    ),
                                )
                            } else {
                                None
                            },
                            None => None,
                        }
                    },
                    None => None,
                },
                None => None,
            }
        },
        None => None,
    };
    proof {
        assert forall|t: TypingIndicatorView| data@ == enc_typing_v(t) implies (match r {
            Some(x) => x@ == ChatMessageView::TypingIndicator(t),
            None => false,
        }) by {
            lemma_typing_layout(data@, t);
        }
    }
    r
}

/// Decode the fields of an acknowledgement after its head literal.
#[verifier::rlimit(100)]
fn decode_ack_fields(data: &Vec<u8>, p1: usize) -> (r: Option<ChatMessage>)
    requires
        p1 == lit_ack_head_spec().len(),
    ensures
        forall|a: MessageAckView|
            a.wf() && data@ == enc_ack_v(a) ==> (r matches Some(x) && x@ == ChatMessageView::Ack(
                a,
            )),
        match r {
            Some(x) => x matches ChatMessage::Ack(a2) && sps_ack_from(data@) == Some(a2@),
            None => sps_ack_from(data@) is None,
        },
{
    let r = match parse_string(data, p1) {
        Some((mid, q2)) => {
            let lrc = lit_received_key();
            match parse_lit(data, q2, &lrc) {
                Some(q3) => match parse_bool(data, q3) {
                    Some((b, q4)) => decode_ack_tail(data, mid, b, q4),
                    None => None,
                },
                None => None,
            }
        },
        None => None,
    };
    proof {
        assert forall|a: MessageAckView| a.wf() && data@ == enc_ack_v(a) implies (match r {
            Some(x) => x@ == ChatMessageView::Ack(a),
            None => false,
        }) by {
            lemma_ack_layout(data@, a);
        }
    }
    r
}

/// Decode the timestamp and closing braces of an acknowledgement.
#[verifier::rlimit(100)]
fn decode_ack_tail(data: &Vec<u8>, mid: Vec<u8>, b: bool, q4: usize) -> (r: Option<ChatMessage>)
    ensures
        forall|a: MessageAckView|
            #![trigger enc_ack_v(a)]
            {
                let p4 = lit_ack_head_spec().len() + enc_str(a.message_id).len()
                    + lit_received_key_spec().len() + enc_bool(a.received).len();
                a.wf() && data@ == enc_ack_v(a) && mid@ == a.message_id && b == a.received && q4
                    == p4
            } ==> (r matches Some(x) && x@ == ChatMessageView::Ack(a)),
        match r {
            Some(x) => x matches ChatMessage::Ack(a2) && sps_ack_tail(data@, q4 as int, mid@, b)
                == Some(a2@),
            None => sps_ack_tail(data@, q4 as int, mid@, b) is None,
        },
{
    let r = {
        let ltk = lit_timestamp_key();
        match parse_lit(data, q4, &ltk) {
            Some(q5) => match parse_i64(data, q5) {
                Some((ts, q6)) => {
                    let loe = lit_obj_end();
                    match parse_lit(data, q6, &loe) {
                        Some(q7) => if q7 == data.len() {
                            Some(
                                ChatMessage::Ack(
                                    MessageAck { message_id: mid, received: b, timestamp: ts },
                                ),
                            )
                        } else {
                            None
                        },
                        None => None,
                    }
                },
                None => None,
            },
            None => None,
        }
    };
    proof {
        assert forall|a: MessageAckView|
            #![trigger enc_ack_v(a)]
            {
                let p4 = lit_ack_head_spec().len() + enc_str(a.message_id).len()
                    + lit_received_key_spec().len() + enc_bool(a.received).len();
                a.wf() && data@ == enc_ack_v(a) && mid@ == a.message_id && b == a.received && q4
                    == p4
            } implies (match r {
            Some(x) => x@ == ChatMessageView::Ack(a),
            None => false,
        }) by {
            lemma_ack_layout(data@, a);
        }
    }
    r
}

/// The view of a list of custom fields.
pub open spec fn pairs_view(s: Seq<(Vec<u8>, Vec<u8>)>) -> Seq<(Seq<u8>, Seq<u8>)> {
    s.map_values(|p: (Vec<u8>, Vec<u8>)| (p.0@, p.1@))
}

/// Parse custom fields up to and including the closing brace: either `}`
/// at once, or `,"key":"value"` repeated.
pub open spec fn sps_pairs(data: Seq<u8>, i: int) -> Option<(Seq<(Seq<u8>, Seq<u8>)>, int)>
    decreases data.len() - i,
    via sps_pairs_dec
{
    if i < 0 || i >= data.len() {
        None
    } else if data[i] == 0x7d {
        Some((Seq::empty(), i + 1))
    } else if data[i] == 0x2c {
        match sps_string(data, i + 1) {
            Some((k, j)) => if j < data.len() && data[j] == 0x3a {
                match sps_string(data, j + 1) {
                    Some((v, j2)) => match sps_pairs(data, j2) {
                        Some((ps, e)) => Some((seq![(k, v)] + ps, e)),
                        None => None,
                    },
                    None => None,
                }
            } else {
                None
            },
            None => None,
        }
    } else {
        None
    }
}

#[via_fn]
proof fn sps_pairs_dec(data: Seq<u8>, i: int) {
    if 0 <= i && i < data.len() && data[i] == 0x2c {
        lemma_sps_string_bounds(data, i + 1);
        match sps_string(data, i + 1) {
            Some(p) => {
                lemma_sps_string_bounds(data, p.1 + 1);
            },
            None => {},
        }
    }
}

/// Parse custom fields; succeeds exactly when the pair grammar matches.
fn parse_pairs(data: &Vec<u8>, pos: usize) -> (r: Option<(Vec<(Vec<u8>, Vec<u8>)>, usize)>)
    ensures
        match r {
            Some(v) => sps_pairs(data@, pos as int) == Some((pairs_view(v.0@), v.1 as int))
                && pos < v.1 <= data@.len(),
            None => sps_pairs(data@, pos as int) is None,
        },
{
    if pos >= data.len() {
        return None;
    }
    let mut cur: usize = pos;
    let mut acc: Vec<(Vec<u8>, Vec<u8>)> = Vec::new();
    proof {
        let r0 = sps_pairs(data@, cur as int);
        match r0 {
            Some(p) => {
                assert(pairs_view(acc@) =~= Seq::<(Seq<u8>, Seq<u8>)>::empty());
                assert(pairs_view(acc@) + p.0 =~= p.0);
                lemma_sps_pairs_bounds(data@, cur as int);
            },
            None => {},
        }
    }
    loop
        invariant
            pos <= cur <= data@.len(),
            data@.len() <= usize::MAX,
            match sps_pairs(data@, cur as int) {
                Some((ps, e)) => sps_pairs(data@, pos as int) == Some(
                    (pairs_view(acc@) + ps, e),
                ) && cur as int <= e <= data@.len(),
                None => sps_pairs(data@, pos as int) is None,
            },
        decreases data@.len() - cur,
    {
        if cur == data.len() {
            return None;
        }
        let b = data[cur];
        if b == 0x7d {
            proof {
                assert(sps_pairs(data@, cur as int) == Some(
                    (Seq::<(Seq<u8>, Seq<u8>)>::empty(), cur + 1 as int),
                ));
                assert(pairs_view(acc@) + Seq::<(Seq<u8>, Seq<u8>)>::empty() =~= pairs_view(
                    acc@,
                ));
            }
            return Some((acc, cur + 1));
        } else if b == 0x2c {
            match parse_string(data, cur + 1) {
                Some((k, j)) => {
                    if j < data.len() && data[j] == 0x3a {
                        match parse_string(data, j + 1) {
                            Some((v, j2)) => {
                                proof {
                                    let r2 = sps_pairs(data@, j2 as int);
                                    match r2 {
                                        Some(p) => {
                                            assert(pairs_view(acc@.push((k, v))) =~= pairs_view(
                                                acc@,
                                            ).push((k@, v@)));
                                            assert(pairs_view(acc@) + (seq![(k@, v@)] + p.0)
                                                =~= pairs_view(acc@).push((k@, v@)) + p.0);
                                            lemma_sps_pairs_bounds(data@, j2 as int);
                                        },
                                        None => {},
                                    }
                                }
                                acc.push((k, v));
                                cur = j2;
                            },
                            None => {
                                return None;
                            },
                        }
                    } else {
                        return None;
                    }
                },
                None => {
                    return None;
                },
            }
        } else {
            return None;
        }
    }
}

/// A successful pair parse ends inside the data, past its start.
proof fn lemma_sps_pairs_bounds(data: Seq<u8>, i: int)
    ensures
        match sps_pairs(data, i) {
            Some(p) => i < p.1 <= data.len(),
            None => true,
        },
    decreases data.len() - i,
{
    if 0 <= i < data.len() && data[i] == 0x2c {
        lemma_sps_string_bounds(data, i + 1);
        match sps_string(data, i + 1) {
            Some(p) => {
                lemma_sps_string_bounds(data, p.1 + 1);
                match sps_string(data, p.1 + 1) {
                    Some(p2) => {
                        lemma_sps_pairs_bounds(data, p2.1);
                    },
                    None => {},
                }
            },
            None => {},
        }
    }
}

/// Encoded custom fields, followed by the closing brace, parse back to the
/// fields.
proof fn lemma_sps_pairs_enc(data: Seq<u8>, i: int, ps: Seq<(Seq<u8>, Seq<u8>)>)
    requires
        0 <= i,
        i + enc_pairs(ps).len() + 1 <= data.len(),
        data.subrange(i, i + enc_pairs(ps).len() + 1) == enc_pairs(ps) + seq![0x7du8],
    ensures
        sps_pairs(data, i) == Some((ps, i + enc_pairs(ps).len() + 1)),
    decreases ps.len(),
{
    let pl = enc_pairs(ps).len() as int;
    if ps.len() == 0 {
        assert(enc_pairs(ps) =~= Seq::<u8>::empty());
        assert(data[i] == data.subrange(i, i + 1)[0]);
        assert(data[i] == 0x7d);
        assert(seq![(Seq::<u8>::empty(), Seq::<u8>::empty())].len() == 1);
    } else {
        let k = ps[0].0;
        let v = ps[0].1;
        let ek = enc_str(k);
        let ev = enc_str(v);
        let rest = enc_pairs(ps.skip(1));
        assert(enc_pairs(ps) == seq![0x2cu8] + ek + seq![0x3au8] + ev + rest);
        let whole = enc_pairs(ps) + seq![0x7du8];
        let jk = i + 1 + ek.len();
        let jv = jk + 1;
        let j2 = jv + ev.len();
        assert forall|x: int| 0 <= x < whole.len() implies #[trigger] data[i + x] == whole[x] by {
            assert(data[i + x] == data.subrange(i, i + pl + 1)[x]);
        }
        assert(data[i + 0] == whole[0]);
        assert(whole[0] == 0x2c);
        assert forall|x: int| 0 <= x < ek.len() implies #[trigger] data.subrange(
            i + 1,
            i + 1 + ek.len() as int,
        )[x] == ek[x] by {
            assert(data.subrange(i + 1, i + 1 + ek.len() as int)[x] == data[i + (1 + x)]);
            assert(whole[1 + x] == ek[x]);
        }
        assert(data.subrange(i + 1, i + 1 + ek.len() as int) =~= ek);
        lemma_sps_string_enc(data, i + 1, k);
        assert(data[i + (jk - i)] == whole[jk - i]);
        assert(whole[jk - i] == 0x3a);
        assert(data[jk] == 0x3a);
        assert forall|x: int| 0 <= x < ev.len() implies #[trigger] data.subrange(
            jv,
            jv + ev.len() as int,
        )[x] == ev[x] by {
            assert(data.subrange(jv, jv + ev.len() as int)[x] == data[i + (jv - i + x)]);
            assert(whole[jv - i + x] == ev[x]);
        }
        assert(data.subrange(jv, jv + ev.len() as int) =~= ev);
        lemma_sps_string_enc(data, jv, v);
        assert forall|x: int| 0 <= x < rest.len() + 1 implies #[trigger] data.subrange(
            j2,
            j2 + rest.len() + 1,
        )[x] == (rest + seq![0x7du8])[x] by {
            assert(data.subrange(j2, j2 + rest.len() + 1)[x] == data[i + (j2 - i + x)]);
            assert(whole[j2 - i + x] == (rest + seq![0x7du8])[x]);
        }
        assert(data.subrange(j2, j2 + rest.len() + 1) =~= rest + seq![0x7du8]);
        lemma_sps_pairs_enc(data, j2, ps.skip(1));
        assert(seq![(k, v)] + ps.skip(1) =~= ps);
    }
}

/// Appending one custom field extends its encoding at the end.
proof fn lemma_enc_pairs_snoc(ps: Seq<(Seq<u8>, Seq<u8>)>, p: (Seq<u8>, Seq<u8>))
    ensures
        enc_pairs(ps.push(p)) == enc_pairs(ps) + (seq![0x2cu8] + enc_str(p.0) + seq![0x3au8]
            + enc_str(p.1)),
    decreases ps.len(),
{
    if ps.len() == 0 {
        assert(ps.push(p).skip(1) =~= Seq::<(Seq<u8>, Seq<u8>)>::empty());
        assert(ps.push(p)[0] == p);
        assert(enc_pairs(Seq::<(Seq<u8>, Seq<u8>)>::empty()) =~= Seq::<u8>::empty());
        assert(enc_pairs(ps.push(p)) == seq![0x2cu8] + enc_str(p.0) + seq![0x3au8] + enc_str(p.1)
            + enc_pairs(ps.push(p).skip(1)));
        assert(enc_pairs(ps.push(p)) =~= enc_pairs(ps) + (seq![0x2cu8] + enc_str(p.0)
            + seq![0x3au8] + enc_str(p.1)));
    } else {
        lemma_enc_pairs_snoc(ps.skip(1), p);
        assert(ps.push(p)[0] == ps[0]);
        assert(ps.push(p).skip(1) =~= ps.skip(1).push(p));
        assert(enc_pairs(ps.push(p)) == seq![0x2cu8] + enc_str(ps[0].0) + seq![0x3au8] + enc_str(
            ps[0].1,
        ) + enc_pairs(ps.skip(1).push(p)));
        assert(enc_pairs(ps.push(p)) =~= enc_pairs(ps) + (seq![0x2cu8] + enc_str(p.0)
            + seq![0x3au8] + enc_str(p.1)));
    }
}

/// Where each piece of an encoded profile sits, and how it parses.
#[verifier::rlimit(100)]
proof fn lemma_user_info_layout(data: Seq<u8>, u: UserInfoView)
    requires
        data == enc_user_info_v(u),
    ensures
        ({
            let p1 = lit_device_key_spec().len() as int;
            let p2 = p1 + enc_str(u.device_name).len();
            let p3 = p2 + lit_nickname_key_spec().len();
            let p4 = p3 + opt_str_len(u.nickname);
            let p5 = p4 + lit_avatar_key_spec().len();
            let p6 = p5 + opt_str_len(u.avatar_url);
            let p7 = p6 + lit_status_key_spec().len();
            let p8 = p7 + opt_str_len(u.status);
            let p9 = p8 + enc_pairs(u.custom_data).len();
            &&& data.subrange(0, p1) == lit_device_key_spec()
            &&& sps_string(data, p1) == Some((u.device_name, p2))
            &&& data.subrange(p2, p3) == lit_nickname_key_spec()
            &&& sps_opt_str(data, p3) == Some((u.nickname, p4))
            &&& data.subrange(p4, p5) == lit_avatar_key_spec()
            &&& sps_opt_str(data, p5) == Some((u.avatar_url, p6))
            &&& data.subrange(p6, p7) == lit_status_key_spec()
            &&& sps_opt_str(data, p7) == Some((u.status, p8))
            &&& sps_pairs(data, p8) == Some((u.custom_data, p9 + 1))
            &&& data.len() == p9 + 1
        }),
{
    let a1 = lit_device_key_spec();
    let e1 = enc_str(u.device_name);
    let a2 = lit_nickname_key_spec();
    let o1 = enc_opt_str(u.nickname);
    let a3 = lit_avatar_key_spec();
    let o2 = enc_opt_str(u.avatar_url);
    let a4 = lit_status_key_spec();
    let o3 = enc_opt_str(u.status);
    let pp = enc_pairs(u.custom_data);
    let cl = seq![0x7du8];
    let s9 = Seq::<u8>::empty();
    let s8 = cl + s9;
    let s7 = pp + s8;
    let s6 = o3 + s7;
    let s5 = a4 + s6;
    let s4 = o2 + s5;
    let s3 = a3 + s4;
    let s2 = o1 + s3;
    let s1 = a2 + s2;
    let s0 = e1 + s1;
    let q0: int = 0;
    let q1 = q0 + a1.len();
    let q2 = q1 + e1.len();
    let q3 = q2 + a2.len();
    let q4 = q3 + o1.len();
    let q5 = q4 + a3.len();
    let q6 = q5 + o2.len();
    let q7 = q6 + a4.len();
    let q8 = q7 + o3.len();
    let q9 = q8 + pp.len();
    assert(data.skip(0) =~= a1 + s0);
    lemma_piece(data, q0, a1, s0);
    lemma_piece(data, q1, e1, s1);
    lemma_piece(data, q2, a2, s2);
    lemma_piece(data, q3, o1, s3);
    lemma_piece(data, q4, a3, s4);
    lemma_piece(data, q5, o2, s5);
    lemma_piece(data, q6, a4, s6);
    lemma_piece(data, q7, o3, s7);
    lemma_piece(data, q8, pp, s8);
    lemma_piece(data, q9, cl, s9);
    lemma_sps_string_enc(data, q1, u.device_name);
    lemma_sps_opt_str_enc(data, q3, u.nickname);
    lemma_sps_opt_str_enc(data, q5, u.avatar_url);
    lemma_sps_opt_str_enc(data, q7, u.status);
    assert forall|x: int| 0 <= x < pp.len() + 1 implies #[trigger] data.subrange(
        q8,
        q8 + pp.len() + 1,
    )[x] == (pp + cl)[x] by {
        if x < pp.len() {
            assert(data.subrange(q8, q8 + pp.len() + 1)[x] == data[q8 + x]);
            assert(data[q8 + x] == data.subrange(q8, q9)[x]);
        } else {
            assert(data.subrange(q8, q8 + pp.len() + 1)[x] == data[q9]);
            assert(data[q9] == data.subrange(q9, q9 + 1)[0]);
        }
    }
    assert(data.subrange(q8, q8 + pp.len() + 1) =~= pp + cl);
    lemma_sps_pairs_enc(data, q8, u.custom_data);
}

impl UserInfo {
    /// Encode this profile as its canonical JSON object: the fixed fields
    /// in order, then the custom fields.
    pub fn encode(&self) -> (r: Vec<u8>)
        ensures
            r@ == enc_user_info_v(self@),
    {
        let mut out: Vec<u8> = Vec::new();
        let l = lit_device_key();
        push_all(&mut out, &l);
        enc_str_push(&mut out, &self.device_name);
        let l = lit_nickname_key();
        push_all(&mut out, &l);
        enc_opt_str_push(&mut out, &self.nickname);
        let l = lit_avatar_key();
        push_all(&mut out, &l);
        enc_opt_str_push(&mut out, &self.avatar_url);
        let l = lit_status_key();
        push_all(&mut out, &l);
        enc_opt_str_push(&mut out, &self.status);
        let ghost head = out@;
        let mut i: usize = 0;
        while i < self.custom_data.len()
            invariant
                i <= self.custom_data@.len(),
                out@ == head + enc_pairs(pairs_view(self.custom_data@.take(i as int))),
            decreases self.custom_data@.len() - i,
        {
            proof {
                lemma_enc_pairs_snoc(
                    pairs_view(self.custom_data@.take(i as int)),
                    (self.custom_data@[i as int].0@, self.custom_data@[i as int].1@),
                );
                assert(pairs_view(self.custom_data@.take(i + 1 as int)) =~= pairs_view(
                    self.custom_data@.take(i as int),
                ).push((self.custom_data@[i as int].0@, self.custom_data@[i as int].1@)));
            }
            out.push(0x2c);
            enc_str_push(&mut out, &self.custom_data[i].0);
            out.push(0x3a);
            enc_str_push(&mut out, &self.custom_data[i].1);
            proof {
                assert(out@ =~= head + enc_pairs(pairs_view(self.custom_data@.take(i + 1 as int))));
            }
            i += 1;
        }
        out.push(0x7d);
        proof {
            assert(self.custom_data@.take(self.custom_data@.len() as int) =~= self.custom_data@);
            assert(out@ =~= enc_user_info_v(self@));
        }
        out
    }

    /// Decode a profile from its canonical JSON object.  Whenever the bytes
    /// are the encoding of a profile, exactly that profile comes back.
    #[verifier::rlimit(100)]
    pub fn decode(data: &Vec<u8>) -> (r: Result<UserInfo, crate::message::ChatError>)
        ensures
            forall|u: UserInfoView|
                data@ == enc_user_info_v(u) ==> (r matches Ok(x) && x@ == u),
    {
        let ldk = lit_device_key();
        let res = match parse_lit(data, 0, &ldk) {
            Some(p1) => match parse_string(data, p1) {
                Some((dn, q2)) => {
                    let lnk = lit_nickname_key();
                    match parse_lit(data, q2, &lnk) {
                        Some(q3) => match parse_opt_str(data, q3) {
                            Some((nick, q4)) => decode_user_info_tail(data, dn, nick, q4),
                            None => None,
                        },
                        None => None,
                    }
                },
                None => None,
            },
            None => None,
        };
        proof {
            assert forall|u: UserInfoView| data@ == enc_user_info_v(u) implies (match res {
                Some(x) => x@ == u,
                None => false,
            }) by {
                lemma_user_info_layout(data@, u);
            }
        }
        match res {
            Some(x) => Ok(x),
            None => Err(crate::message::ChatError::Deserialization(Vec::new())),
        }
    }
}

/// Decode the avatar, status and custom fields of a profile.
#[verifier::rlimit(100)]
fn decode_user_info_tail(
    data: &Vec<u8>,
    dn: Vec<u8>,
    nick: Option<Vec<u8>>,
    q4: usize,
) -> (r: Option<UserInfo>)
    ensures
        forall|u: UserInfoView|
            #![trigger enc_user_info_v(u)]
            {
                let p4 = lit_device_key_spec().len() + enc_str(u.device_name).len()
                    + lit_nickname_key_spec().len() + opt_str_len(u.nickname);
                data@ == enc_user_info_v(u) && dn@ == u.device_name && (match nick {
                    Some(s) => u.nickname == Some(s@),
                    None => u.nickname is None,
                }) && q4 == p4
            } ==> (r matches Some(x) && x@ == u),
{
    let lak = lit_avatar_key();
    let r = match parse_lit(data, q4, &lak) {
        Some(q5) => match parse_opt_str(data, q5) {
            Some((avatar, q6)) => {
                let lsk = lit_status_key();
                match parse_lit(data, q6, &lsk) {
                    Some(q7) => match parse_opt_str(data, q7) {
                        Some((status, q8)) => match parse_pairs(data, q8) {
                            Some((custom, q9)) => if q9 == data.len() {
                                Some(
                                    UserInfo {
                                        device_name: dn,
                                        nickname: nick,
                                        avatar_url: avatar,
                                        status,
                                        custom_data: custom,
                                    },
                                )
                            } else {
                                None
                            },
                            None => None,
                        },
                        None => None,
                    },
                    None => None,
                }
            },
            None => None,
        },
        None => None,
    };
    proof {
        assert forall|u: UserInfoView|
            #![trigger enc_user_info_v(u)]
            {
                let p4 = lit_device_key_spec().len() + enc_str(u.device_name).len()
                    + lit_nickname_key_spec().len() + opt_str_len(u.nickname);
                data@ == enc_user_info_v(u) && dn@ == u.device_name && (match nick {
                    Some(s) => u.nickname == Some(s@),
                    None => u.nickname is None,
                }) && q4 == p4
            } implies (match r {
            Some(x) => x@ == u,
            None => false,
        }) by {
            lemma_user_info_layout(data@, u);
        }
    }
    r
}

} // verus!
