//! Length-prefixed framing and the request/response codecs.
//!
//! A frame is a 4-byte big-endian length followed by that many body bytes.
//! The chat protocol caps requests at 1 MiB and responses at 1 KiB; the
//! user-info protocol carries an empty request (`null`) and a profile as
//! response.

use vstd::prelude::*;

use crate::codec::{enc_chat_v, enc_response_v, lit_response_head, lit_response_head_spec};
use crate::json::{enc_bool, lit_null, parse_bool, parse_lit};
use crate::message::{ChatError, ChatMessage, ChatMessageView};

verus! {

/// The four big-endian bytes of a 32-bit length.
pub open spec fn be32_spec(n: int) -> Seq<u8> {
    seq![
        ((n / 0x1000000) % 256) as u8,
        ((n / 0x10000) % 256) as u8,
        ((n / 0x100) % 256) as u8,
        (n % 256) as u8,
    ]
}

/// A frame: the body's length in four big-endian bytes, then the body.
pub open spec fn frame_spec(body: Seq<u8>) -> Seq<u8> {
    be32_spec(body.len() as int) + body
}

/// The value read back from four big-endian bytes.
pub open spec fn be32_val(b0: u8, b1: u8, b2: u8, b3: u8) -> int {
    b0 * 0x1000000 + b1 * 0x10000 + b2 * 0x100 + b3
}

/// Reading the four bytes of a length gives the length back.
pub proof fn lemma_be32_roundtrip(n: int)
    requires
        0 <= n <= u32::MAX,
    ensures
        be32_val(be32_spec(n)[0], be32_spec(n)[1], be32_spec(n)[2], be32_spec(n)[3]) == n,
{
    let nu = n as u32;
    assert(((nu / 0x1000000) % 256) * 0x1000000 + ((nu / 0x10000) % 256) * 0x10000 + ((nu
        / 0x100) % 256) * 0x100 + (nu % 256) == nu) by (bit_vector);
}

/// Wrap a body in a length-prefixed frame.
pub fn encode_frame(body: &Vec<u8>) -> (r: Vec<u8>)
    requires
        body@.len() <= u32::MAX,
    ensures
        r@ == frame_spec(body@),
{
    let len: u32 = body.len() as u32;
    let mut out: Vec<u8> = Vec::new();
    let b0 = (len >> 24) as u8;
    let b1 = ((len >> 16) & 0xff) as u8;
    let b2 = ((len >> 8) & 0xff) as u8;
    let b3 = (len & 0xff) as u8;
    proof {
        let l = len;
        assert((l >> 24) == (l / 0x1000000) % 256 && ((l >> 16) & 0xff) == (l / 0x10000) % 256
            && ((l >> 8) & 0xff) == (l / 0x100) % 256 && (l & 0xff) == l % 256) by (bit_vector);
    }
    out.push(b0);
    out.push(b1);
    out.push(b2);
    out.push(b3);
    crate::agent::push_all(&mut out, body);
    proof {
        assert(out@ =~= frame_spec(body@));
    }
    out
}

/// The length carried by a frame's first four bytes.
pub fn be_u32(b0: u8, b1: u8, b2: u8, b3: u8) -> (r: u32)
    ensures
        r as int == be32_val(b0, b1, b2, b3),
{
    let r = ((b0 as u32) << 24) | ((b1 as u32) << 16) | ((b2 as u32) << 8) | (b3 as u32);
    proof {
        let x0 = b0 as u32;
        let x1 = b1 as u32;
        let x2 = b2 as u32;
        let x3 = b3 as u32;
        assert((x0 << 24) | (x1 << 16) | (x2 << 8) | x3 == x0 * 0x1000000 + x1 * 0x10000 + x2
            * 0x100 + x3) by (bit_vector)
            requires
                x0 < 256,
                x1 < 256,
                x2 < 256,
                x3 < 256,
        ;
    }
    r
}

/// Unwrap a length-prefixed frame: at least four bytes, a complete body.
/// Trailing bytes after the body are tolerated, as the stream codec reads
/// exactly one frame.  Whenever the data is a well-formed frame, exactly
/// its body comes back.
pub fn decode_frame(data: &Vec<u8>) -> (r: Result<Vec<u8>, ChatError>)
    ensures
        forall|body: Seq<u8>|
            body.len() <= u32::MAX && data@ == frame_spec(body) ==> (r matches Ok(x) && x@
                == body),
        r is Err <==> (data@.len() < 4 || 4 + be32_val(data@[0], data@[1], data@[2], data@[3])
            > data@.len()),
        r matches Err(e) ==> e is Deserialization,
        r matches Ok(x) ==> data@.len() >= 4 && x@ == data@.subrange(
            4,
            4 + be32_val(data@[0], data@[1], data@[2], data@[3]),
        ),
{
    if data.len() < 4 {
        return Err(ChatError::Deserialization(Vec::new()));
    }
    let len = be_u32(data[0], data[1], data[2], data[3]) as usize;
    if data.len() - 4 < len {
        proof {
            assert forall|body: Seq<u8>|
                body.len() <= u32::MAX && data@ == frame_spec(body) implies false by {
                lemma_be32_roundtrip(body.len() as int);
                assert(data@[0] == be32_spec(body.len() as int)[0]);
                assert(data@[1] == be32_spec(body.len() as int)[1]);
                assert(data@[2] == be32_spec(body.len() as int)[2]);
                assert(data@[3] == be32_spec(body.len() as int)[3]);
                assert(data@.len() == 4 + body.len());
            }
        }
        return Err(ChatError::Deserialization(Vec::new()));
    }
    let body = crate::bytes::subrange_vec(data, 4, 4 + len);
    proof {
        assert forall|b: Seq<u8>|
            b.len() <= u32::MAX && data@ == frame_spec(b) implies body@ == b by {
            lemma_be32_roundtrip(b.len() as int);
            assert(data@[0] == be32_spec(b.len() as int)[0]);
            assert(data@[1] == be32_spec(b.len() as int)[1]);
            assert(data@[2] == be32_spec(b.len() as int)[2]);
            assert(data@[3] == be32_spec(b.len() as int)[3]);
            assert(len == b.len());
            assert(body@ =~= b);
        }
    }
    Ok(body)
}

/// An acknowledging response on the chat protocol.
#[derive(Debug)]
pub struct ChatResponse {
    /// Whether the request was received.
    pub received: bool,
}

impl ChatResponse {
    /// The positive acknowledgement.
    pub fn received() -> (r: Self)
        ensures
            r.received == true,
    {
        Self { received: true }
    }

    /// Encode this response as its canonical JSON object.
    pub fn encode(&self) -> (r: Vec<u8>)
        ensures
            r@ == enc_response_v(self.received),
    {
        let mut out: Vec<u8> = Vec::new();
        let l = lit_response_head();
        crate::agent::push_all(&mut out, &l);
        crate::json::enc_bool_push(&mut out, self.received);
        out.push(0x7d);
        assert(out@ =~= enc_response_v(self.received));
        out
    }

    /// Decode a response from its canonical JSON object.  Whenever the
    /// bytes are the encoding of a response, exactly it comes back.
    pub fn decode(data: &Vec<u8>) -> (r: Result<ChatResponse, ChatError>)
        ensures
            forall|b: bool|
                data@ == enc_response_v(b) ==> (r matches Ok(x) && x.received == b),
    {
        let head = lit_response_head();
        let res = match parse_lit(data, 0, &head) {
            Some(p1) => match parse_bool(data, p1) {
                Some((b, p2)) => if p2 < data.len() && data[p2] == 0x7d && p2 + 1 == data.len() {
                    Some(ChatResponse { received: b })
                } else {
                    None
                },
                None => None,
            },
            None => None,
        };
        proof {
            assert forall|b: bool| data@ == enc_response_v(b) implies (match res {
                Some(x) => x.received == b,
                None => false,
            }) by {
                let a1 = lit_response_head_spec();
                let e1 = enc_bool(b);
                let p1 = a1.len() as int;
                let p2 = p1 + e1.len();
                assert(data@.subrange(0, p1) =~= a1);
                assert(data@.subrange(p1, p2) =~= e1);
                assert(data@[p2] == 0x7d);
                assert(data@.len() == p2 + 1);
            }
        }
        match res {
            Some(x) => Ok(x),
            None => Err(ChatError::Deserialization(Vec::new())),
        }
    }
}

/// The chat protocol marker; its identifier is `/localp2p/chat/1.0.0`.
#[derive(Debug, Clone, Default)]
pub struct ChatProtocol;

impl ChatProtocol {
    /// The protocol identifier string.
    pub fn as_str(&self) -> (r: &'static str)
        ensures
            r@ == "/localp2p/chat/1.0.0"@,
    {
        "/localp2p/chat/1.0.0"
    }
}

/// The user-info protocol marker; its identifier is
/// `/localp2p/user-info/1.0.0`.
#[derive(Debug, Clone, Default)]
pub struct UserInfoProtocol;

impl UserInfoProtocol {
    /// The protocol identifier string.
    pub fn as_str(&self) -> (r: &'static str)
        ensures
            r@ == "/localp2p/user-info/1.0.0"@,
    {
        "/localp2p/user-info/1.0.0"
    }
}

/// An empty request on the user-info protocol.
#[derive(Debug, Clone, Default)]
pub struct UserInfoRequest;

/// The codec of the chat protocol: JSON over length-prefixed frames, with
/// a 1 MiB cap on requests and a 1 KiB cap on responses.
#[derive(Debug, Clone, Default)]
pub struct ChatCodec;

impl ChatCodec {
    /// The protocol this codec serves.
    pub fn protocol(&self) -> (r: ChatProtocol)
    {
        ChatProtocol
    }

    /// Largest request body accepted, in bytes.
    pub fn max_request_len() -> (r: usize)
        ensures
            r == 1048576,
    {
        1048576
    }

    /// Largest response body accepted, in bytes.
    pub fn max_response_len() -> (r: usize)
        ensures
            r == 1024,
    {
        1024
    }

    /// Decode a framed chat request: the length prefix must be within the
    /// cap and the body must be a chat message.  A frame holding the
    /// encoding of a message within the cap decodes to that message.
    pub fn decode_request(data: &Vec<u8>) -> (r: Result<ChatMessage, ChatError>)
        ensures
            forall|m: ChatMessageView|
                m.wf() && enc_chat_v(m).len() <= 1048576 && data@ == frame_spec(enc_chat_v(m))
                    ==> (r matches Ok(x) && x@ == m),
            data@.len() < 4 ==> r is Err,
            data@.len() >= 4 && be32_val(data@[0], data@[1], data@[2], data@[3]) > 1048576
                ==> r is Err,
            data@.len() >= 4 && 4 + be32_val(data@[0], data@[1], data@[2], data@[3])
                > data@.len() ==> r is Err,
            r matches Err(e) ==> e is Deserialization,
    {
        if data.len() < 4 {
            return Err(ChatError::Deserialization(Vec::new()));
        }
        let len = be_u32(data[0], data[1], data[2], data[3]) as usize;
        if len > Self::max_request_len() {
            proof {
                assert forall|m: ChatMessageView|
                    m.wf() && enc_chat_v(m).len() <= 1048576 && data@ == frame_spec(
                        enc_chat_v(m),
                    ) implies false by {
                    lemma_frame_len(data@, enc_chat_v(m));
                }
            }
            return Err(ChatError::Deserialization(Vec::new()));
        }
        let body = match decode_frame(data) {
            Ok(b) => b,
            Err(e) => {
                return Err(e);
            },
        };
        ChatMessage::decode(&body)
    }

    /// Encode a chat message as a framed request.
    pub fn encode_request(msg: &ChatMessage) -> (r: Result<Vec<u8>, ChatError>)
        ensures
            enc_chat_v(msg@).len() <= u32::MAX ==> (r matches Ok(b) && b@ == frame_spec(
                enc_chat_v(msg@),
            )),
    {
        let body = match msg.encode() {
            Ok(b) => b,
            Err(e) => {
                return Err(e);
            },
        };
        if body.len() > (u32::MAX as usize) {
            return Err(ChatError::Serialization(Vec::new()));
        }
        Ok(encode_frame(&body))
    }

    /// Decode a framed chat response, capped at 1 KiB.
    pub fn decode_response(data: &Vec<u8>) -> (r: Result<ChatResponse, ChatError>)
        ensures
            forall|b: bool|
                data@ == frame_spec(enc_response_v(b)) ==> (r matches Ok(x) && x.received == b),
            data@.len() < 4 ==> r is Err,
            data@.len() >= 4 && be32_val(data@[0], data@[1], data@[2], data@[3]) > 1024 ==> r
                is Err,
            data@.len() >= 4 && 4 + be32_val(data@[0], data@[1], data@[2], data@[3])
                > data@.len() ==> r is Err,
    {
        if data.len() < 4 {
            return Err(ChatError::Deserialization(Vec::new()));
        }
        let len = be_u32(data[0], data[1], data[2], data[3]) as usize;
        if len > Self::max_response_len() {
            proof {
                assert forall|b: bool| data@ == frame_spec(enc_response_v(b)) implies false by {
                    lemma_frame_len(data@, enc_response_v(b));
                }
            }
            return Err(ChatError::Deserialization(Vec::new()));
        }
        let body = match decode_frame(data) {
            Ok(b) => b,
            Err(e) => {
                return Err(e);
            },
        };
        ChatResponse::decode(&body)
    }

    /// Encode a chat response as a framed message.
    pub fn encode_response(res: &ChatResponse) -> (r: Vec<u8>)
        ensures
            r@ == frame_spec(enc_response_v(res.received)),
    {
        let body = res.encode();
        encode_frame(&body)
    }
}

/// The first four bytes of a frame carry the body's length.
proof fn lemma_frame_len(data: Seq<u8>, body: Seq<u8>)
    requires
        body.len() <= u32::MAX,
        data == frame_spec(body),
    ensures
        be32_val(data[0], data[1], data[2], data[3]) == body.len(),
        data.len() == body.len() + 4,
{
    lemma_be32_roundtrip(body.len() as int);
    assert(data[0] == be32_spec(body.len() as int)[0]);
    assert(data[1] == be32_spec(body.len() as int)[1]);
    assert(data[2] == be32_spec(body.len() as int)[2]);
    assert(data[3] == be32_spec(body.len() as int)[3]);
}

} // verus!
