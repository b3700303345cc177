//! The bridge surface for foreign-function consumers.
//!
//! Events are flattened to a numeric kind and a small JSON payload, and
//! queued until the consumer polls them.  The global plumbing that hands
//! these to a foreign runtime lives outside the library.

use vstd::prelude::*;

use crate::agent::push_all;
use crate::engine::DiscoveryEvent;
use crate::json::{dec_i64, enc_bool, enc_bool_push, enc_i64_push, enc_str, enc_str_push};
use crate::manager::{ChatEvent, clone_bytes};
use crate::message::ChatMessage;
use crate::user_info::UserInfo;

verus! {

/// The bytes of `{"peer_id":`.
pub open spec fn blit_peer_id_spec() -> Seq<u8> {
    seq![0x7bu8, 0x22u8, 0x70u8, 0x65u8, 0x65u8, 0x72u8, 0x5fu8, 0x69u8, 0x64u8, 0x22u8, 0x3au8]
}

/// Builds the literal `{"peer_id":`.
fn blit_peer_id() -> (r: Vec<u8>)
    ensures
        r@ == blit_peer_id_spec(),
{
    let mut v: Vec<u8> = Vec::new();
    v.push(0x7b);
    v.push(0x22);
    v.push(0x70);
    v.push(0x65);
    v.push(0x65);
    v.push(0x72);
    v.push(0x5f);
    v.push(0x69);
    v.push(0x64);
    v.push(0x22);
    v.push(0x3a);
    assert(v@ =~= blit_peer_id_spec());
    v
}

/// The bytes of `,"addr":`.
pub open spec fn blit_addr_spec() -> Seq<u8> {
    seq![0x2cu8, 0x22u8, 0x61u8, 0x64u8, 0x64u8, 0x72u8, 0x22u8, 0x3au8]
}

/// Builds the literal `,"addr":`.
fn blit_addr() -> (r: Vec<u8>)
    ensures
        r@ == blit_addr_spec(),
{
    let mut v: Vec<u8> = Vec::new();
    v.push(0x2c);
    v.push(0x22);
    v.push(0x61);
    v.push(0x64);
    v.push(0x64);
    v.push(0x72);
    v.push(0x22);
    v.push(0x3a);
    assert(v@ =~= blit_addr_spec());
    v
}

/// The bytes of `,"display_name":`.
pub open spec fn blit_display_name_spec() -> Seq<u8> {
    seq![0x2cu8, 0x22u8, 0x64u8, 0x69u8, 0x73u8, 0x70u8, 0x6cu8, 0x61u8, 0x79u8, 0x5fu8, 0x6eu8, 0x61u8, 0x6du8, 0x65u8, 0x22u8, 0x3au8]
}

/// Builds the literal `,"display_name":`.
fn blit_display_name() -> (r: Vec<u8>)
    ensures
        r@ == blit_display_name_spec(),
{
    let mut v: Vec<u8> = Vec::new();
    v.push(0x2c);
    v.push(0x22);
    v.push(0x64);
    v.push(0x69);
    v.push(0x73);
    v.push(0x70);
    v.push(0x6c);
    v.push(0x61);
    v.push(0x79);
    v.push(0x5f);
    v.push(0x6e);
    v.push(0x61);
    v.push(0x6d);
    v.push(0x65);
    v.push(0x22);
    v.push(0x3a);
    assert(v@ =~= blit_display_name_spec());
    v
}

/// The bytes of `,"device_name":`.
pub open spec fn blit_device_name_spec() -> Seq<u8> {
    seq![0x2cu8, 0x22u8, 0x64u8, 0x65u8, 0x76u8, 0x69u8, 0x63u8, 0x65u8, 0x5fu8, 0x6eu8, 0x61u8, 0x6du8, 0x65u8, 0x22u8, 0x3au8]
}

/// Builds the literal `,"device_name":`.
fn blit_device_name() -> (r: Vec<u8>)
    ensures
        r@ == blit_device_name_spec(),
{
    let mut v: Vec<u8> = Vec::new();
    v.push(0x2c);
    v.push(0x22);
    v.push(0x64);
    v.push(0x65);
    v.push(0x76);
    v.push(0x69);
    v.push(0x63);
    v.push(0x65);
    v.push(0x5f);
    v.push(0x6e);
    v.push(0x61);
    v.push(0x6d);
    v.push(0x65);
    v.push(0x22);
    v.push(0x3a);
    assert(v@ =~= blit_device_name_spec());
    v
}

/// The bytes of `,"nickname":`.
pub open spec fn blit_nickname_spec() -> Seq<u8> {
    seq![0x2cu8, 0x22u8, 0x6eu8, 0x69u8, 0x63u8, 0x6bu8, 0x6eu8, 0x61u8, 0x6du8, 0x65u8, 0x22u8, 0x3au8]
}

/// Builds the literal `,"nickname":`.
fn blit_nickname() -> (r: Vec<u8>)
    ensures
        r@ == blit_nickname_spec(),
{
    let mut v: Vec<u8> = Vec::new();
    v.push(0x2c);
    v.push(0x22);
    v.push(0x6e);
    v.push(0x69);
    v.push(0x63);
    v.push(0x6b);
    v.push(0x6e);
    v.push(0x61);
    v.push(0x6d);
    v.push(0x65);
    v.push(0x22);
    v.push(0x3a);
    assert(v@ =~= blit_nickname_spec());
    v
}

/// The bytes of `,"status":`.
pub open spec fn blit_status_spec() -> Seq<u8> {
    seq![0x2cu8, 0x22u8, 0x73u8, 0x74u8, 0x61u8, 0x74u8, 0x75u8, 0x73u8, 0x22u8, 0x3au8]
}

/// Builds the literal `,"status":`.
fn blit_status() -> (r: Vec<u8>)
    ensures
        r@ == blit_status_spec(),
{
    let mut v: Vec<u8> = Vec::new();
    v.push(0x2c);
    v.push(0x22);
    v.push(0x73);
    v.push(0x74);
    v.push(0x61);
    v.push(0x74);
    v.push(0x75);
    v.push(0x73);
    v.push(0x22);
    v.push(0x3a);
    assert(v@ =~= blit_status_spec());
    v
}

/// The bytes of `,"avatar_url":`.
pub open spec fn blit_avatar_url_spec() -> Seq<u8> {
    seq![0x2cu8, 0x22u8, 0x61u8, 0x76u8, 0x61u8, 0x74u8, 0x61u8, 0x72u8, 0x5fu8, 0x75u8, 0x72u8, 0x6cu8, 0x22u8, 0x3au8]
}

/// Builds the literal `,"avatar_url":`.
fn blit_avatar_url() -> (r: Vec<u8>)
    ensures
        r@ == blit_avatar_url_spec(),
{
    let mut v: Vec<u8> = Vec::new();
    v.push(0x2c);
    v.push(0x22);
    v.push(0x61);
    v.push(0x76);
    v.push(0x61);
    v.push(0x74);
    v.push(0x61);
    v.push(0x72);
    v.push(0x5f);
    v.push(0x75);
    v.push(0x72);
    v.push(0x6c);
    v.push(0x22);
    v.push(0x3a);
    assert(v@ =~= blit_avatar_url_spec());
    v
}

/// The bytes of `{"from":`.
pub open spec fn blit_from_spec() -> Seq<u8> {
    seq![0x7bu8, 0x22u8, 0x66u8, 0x72u8, 0x6fu8, 0x6du8, 0x22u8, 0x3au8]
}

/// Builds the literal `{"from":`.
fn blit_from() -> (r: Vec<u8>)
    ensures
        r@ == blit_from_spec(),
{
    let mut v: Vec<u8> = Vec::new();
    v.push(0x7b);
    v.push(0x22);
    v.push(0x66);
    v.push(0x72);
    v.push(0x6f);
    v.push(0x6d);
    v.push(0x22);
    v.push(0x3a);
    assert(v@ =~= blit_from_spec());
    v
}

/// The bytes of `,"content":`.
pub open spec fn blit_content_spec() -> Seq<u8> {
    seq![0x2cu8, 0x22u8, 0x63u8, 0x6fu8, 0x6eu8, 0x74u8, 0x65u8, 0x6eu8, 0x74u8, 0x22u8, 0x3au8]
}

/// Builds the literal `,"content":`.
fn blit_content() -> (r: Vec<u8>)
    ensures
        r@ == blit_content_spec(),
{
    let mut v: Vec<u8> = Vec::new();
    v.push(0x2c);
    v.push(0x22);
    v.push(0x63);
    v.push(0x6f);
    v.push(0x6e);
    v.push(0x74);
    v.push(0x65);
    v.push(0x6e);
    v.push(0x74);
    v.push(0x22);
    v.push(0x3a);
    assert(v@ =~= blit_content_spec());
    v
}

/// The bytes of `,"timestamp":`.
pub open spec fn blit_timestamp_spec() -> Seq<u8> {
    seq![0x2cu8, 0x22u8, 0x74u8, 0x69u8, 0x6du8, 0x65u8, 0x73u8, 0x74u8, 0x61u8, 0x6du8, 0x70u8, 0x22u8, 0x3au8]
}

/// Builds the literal `,"timestamp":`.
fn blit_timestamp() -> (r: Vec<u8>)
    ensures
        r@ == blit_timestamp_spec(),
{
    let mut v: Vec<u8> = Vec::new();
    v.push(0x2c);
    v.push(0x22);
    v.push(0x74);
    v.push(0x69);
    v.push(0x6d);
    v.push(0x65);
    v.push(0x73);
    v.push(0x74);
    v.push(0x61);
    v.push(0x6d);
    v.push(0x70);
    v.push(0x22);
    v.push(0x3a);
    assert(v@ =~= blit_timestamp_spec());
    v
}

/// The bytes of `{"to":`.
pub open spec fn blit_to_spec() -> Seq<u8> {
    seq![0x7bu8, 0x22u8, 0x74u8, 0x6fu8, 0x22u8, 0x3au8]
}

/// Builds the literal `{"to":`.
fn blit_to() -> (r: Vec<u8>)
    ensures
        r@ == blit_to_spec(),
{
    let mut v: Vec<u8> = Vec::new();
    v.push(0x7b);
    v.push(0x22);
    v.push(0x74);
    v.push(0x6f);
    v.push(0x22);
    v.push(0x3a);
    assert(v@ =~= blit_to_spec());
    v
}

/// The bytes of `,"message_id":`.
pub open spec fn blit_message_id_spec() -> Seq<u8> {
    seq![0x2cu8, 0x22u8, 0x6du8, 0x65u8, 0x73u8, 0x73u8, 0x61u8, 0x67u8, 0x65u8, 0x5fu8, 0x69u8, 0x64u8, 0x22u8, 0x3au8]
}

/// Builds the literal `,"message_id":`.
fn blit_message_id() -> (r: Vec<u8>)
    ensures
        r@ == blit_message_id_spec(),
{
    let mut v: Vec<u8> = Vec::new();
    v.push(0x2c);
    v.push(0x22);
    v.push(0x6d);
    v.push(0x65);
    v.push(0x73);
    v.push(0x73);
    v.push(0x61);
    v.push(0x67);
    v.push(0x65);
    v.push(0x5f);
    v.push(0x69);
    v.push(0x64);
    v.push(0x22);
    v.push(0x3a);
    assert(v@ =~= blit_message_id_spec());
    v
}

/// The bytes of `,"is_typing":`.
pub open spec fn blit_is_typing_spec() -> Seq<u8> {
    seq![0x2cu8, 0x22u8, 0x69u8, 0x73u8, 0x5fu8, 0x74u8, 0x79u8, 0x70u8, 0x69u8, 0x6eu8, 0x67u8, 0x22u8, 0x3au8]
}

/// Builds the literal `,"is_typing":`.
fn blit_is_typing() -> (r: Vec<u8>)
    ensures
        r@ == blit_is_typing_spec(),
{
    let mut v: Vec<u8> = Vec::new();
    v.push(0x2c);
    v.push(0x22);
    v.push(0x69);
    v.push(0x73);
    v.push(0x5f);
    v.push(0x74);
    v.push(0x79);
    v.push(0x70);
    v.push(0x69);
    v.push(0x6e);
    v.push(0x67);
    v.push(0x22);
    v.push(0x3a);
    assert(v@ =~= blit_is_typing_spec());
    v
}

/// An opaque handle identifying a running service instance.
#[derive(Debug, Clone, Copy)]
pub struct P2PHandle {
    /// Internal instance tag.
    pub instance: i32,
}

/// Error codes crossing the foreign boundary.
#[derive(Debug, Clone, Copy, PartialEq, Eq, Structural)]
pub enum P2PErrorCode {
    Success,
    NotInitialized,
    InvalidArgument,
    SendFailed,
    NodeNotVerified,
    OutOfMemory,
    Unknown,
}

impl P2PErrorCode {
    /// The numeric value crossing the boundary.
    pub fn code(&self) -> (r: i32)
        ensures
            r == match self {
                P2PErrorCode::Success => 0int,
                P2PErrorCode::NotInitialized => -1int,
                P2PErrorCode::InvalidArgument => -2int,
                P2PErrorCode::SendFailed => -3int,
                P2PErrorCode::NodeNotVerified => -4int,
                P2PErrorCode::OutOfMemory => -5int,
                P2PErrorCode::Unknown => -99int,
            },
    {
        match self {
            P2PErrorCode::Success => 0,
            P2PErrorCode::NotInitialized => -1,
            P2PErrorCode::InvalidArgument => -2,
            P2PErrorCode::SendFailed => -3,
            P2PErrorCode::NodeNotVerified => -4,
            P2PErrorCode::OutOfMemory => -5,
            P2PErrorCode::Unknown => -99,
        }
    }
}

/// Errors of the foreign-function layer.
#[derive(Debug)]
pub enum FFIError {
    /// The service was not initialised.
    NotInitialized,
    /// A malformed argument, with a description.
    InvalidArgument(Vec<u8>),
    /// A send failed, with a description.
    SendFailed(Vec<u8>),
    /// The target node is not verified; carries its identifier.
    NodeNotVerified(Vec<u8>),
    /// Allocation failed.
    OutOfMemory,
    /// Any other failure, with a description.
    Other(Vec<u8>),
}

impl FFIError {
    /// The error code this failure maps to.
    pub fn error_code(&self) -> (r: P2PErrorCode)
        ensures
            r == match self {
                FFIError::NotInitialized => P2PErrorCode::NotInitialized,
                FFIError::InvalidArgument(_) => P2PErrorCode::InvalidArgument,
                FFIError::SendFailed(_) => P2PErrorCode::SendFailed,
                FFIError::NodeNotVerified(_) => P2PErrorCode::NodeNotVerified,
                FFIError::OutOfMemory => P2PErrorCode::OutOfMemory,
                FFIError::Other(_) => P2PErrorCode::Unknown,
            },
    {
        match self {
            FFIError::NotInitialized => P2PErrorCode::NotInitialized,
            FFIError::InvalidArgument(_) => P2PErrorCode::InvalidArgument,
            FFIError::SendFailed(_) => P2PErrorCode::SendFailed,
            FFIError::NodeNotVerified(_) => P2PErrorCode::NodeNotVerified,
            FFIError::OutOfMemory => P2PErrorCode::OutOfMemory,
            FFIError::Other(_) => P2PErrorCode::Unknown,
        }
    }
}

/// Event kinds crossing the foreign boundary.
#[derive(Debug, Clone, Copy, PartialEq, Eq, Structural)]
pub enum P2PEventType {
    NodeDiscovered,
    NodeExpired,
    NodeVerified,
    NodeOffline,
    UserInfoReceived,
    MessageReceived,
    MessageSent,
    PeerTyping,
}

impl P2PEventType {
    /// The numeric value crossing the boundary.
    pub fn code(&self) -> (r: i32)
        ensures
            r == match self {
                P2PEventType::NodeDiscovered => 1int,
                P2PEventType::NodeExpired => 2int,
                P2PEventType::NodeVerified => 3int,
                P2PEventType::NodeOffline => 4int,
                P2PEventType::UserInfoReceived => 5int,
                P2PEventType::MessageReceived => 6int,
                P2PEventType::MessageSent => 7int,
                P2PEventType::PeerTyping => 8int,
            },
    {
        match self {
            P2PEventType::NodeDiscovered => 1,
            P2PEventType::NodeExpired => 2,
            P2PEventType::NodeVerified => 3,
            P2PEventType::NodeOffline => 4,
            P2PEventType::UserInfoReceived => 5,
            P2PEventType::MessageReceived => 6,
            P2PEventType::MessageSent => 7,
            P2PEventType::PeerTyping => 8,
        }
    }
}

/// A profile flattened for the boundary.
#[derive(Debug)]
pub struct UserInfoJson {
    pub device_name: Vec<u8>,
    pub nickname: Option<Vec<u8>>,
    pub avatar_url: Option<Vec<u8>>,
    pub status: Option<Vec<u8>>,
}

/// A chat message flattened for the boundary.
#[derive(Debug)]
pub struct ChatMessageJson {
    pub id: Vec<u8>,
    pub sender_peer_id: Vec<u8>,
    pub content: Vec<u8>,
    pub timestamp: i64,
}

/// A node's identity and profile flattened for the boundary.
#[derive(Debug)]
pub struct P2PBridgeNodeInfo {
    pub peer_id: Vec<u8>,
    pub display_name: Vec<u8>,
    pub device_name: Vec<u8>,
    pub nickname: Option<Vec<u8>>,
    pub status: Option<Vec<u8>>,
    pub avatar_url: Option<Vec<u8>>,
}

impl P2PBridgeNodeInfo {
    /// Flatten a peer identifier and its profile.
    pub fn from_peer_id_and_info(peer_id: Vec<u8>, info: &UserInfo) -> (r: Self)
        ensures
            r.peer_id == peer_id,
            r.display_name@ == info@.display_name(),
            r.device_name@ == info.device_name@,
    {
        Self {
            peer_id,
            display_name: clone_bytes(info.display_name()),
            device_name: clone_bytes(&info.device_name),
            nickname: match &info.nickname {
                Some(n) => Some(clone_bytes(n)),
                None => None,
            },
            status: match &info.status {
                Some(s) => Some(clone_bytes(s)),
                None => None,
            },
            avatar_url: match &info.avatar_url {
                Some(a) => Some(clone_bytes(a)),
                None => None,
            },
        }
    }

    /// Flatten the basic fields alone.
    pub fn from_basic_info(peer_id: Vec<u8>, display_name: Vec<u8>, device_name: Vec<u8>) -> (r:
        Self)
        ensures
            r.peer_id == peer_id,
            r.display_name == display_name,
            r.device_name == device_name,
            r.nickname is None,
            r.status is None,
            r.avatar_url is None,
    {
        Self { peer_id, display_name, device_name, nickname: None, status: None, avatar_url: None }
    }
}

/// An event flattened for the boundary: a kind and a JSON payload.
#[derive(Debug)]
pub struct P2PBridgeEvent {
    /// The kind's numeric value.
    pub event_type: i32,
    /// The payload, as JSON text bytes.
    pub data: Vec<u8>,
}

/// The payload of a discovery bridge event.
pub open spec fn bridge_discovery_data_spec(e: DiscoveryEvent) -> Seq<u8> {
    match e {
        DiscoveryEvent::Discovered(p, a) => blit_peer_id_spec() + enc_str(p@) + blit_addr_spec()
            + enc_str(a@) + seq![0x7du8],
        DiscoveryEvent::Verified(p) => blit_peer_id_spec() + enc_str(p@)
            + blit_display_name_spec() + enc_str(p@) + seq![0x7du8],
        DiscoveryEvent::NodeOffline(p) => blit_peer_id_spec() + enc_str(p@) + seq![0x7du8],
        DiscoveryEvent::UserInfoReceived(p, info) => blit_peer_id_spec() + enc_str(p@)
            + blit_device_name_spec() + enc_str(info.device_name@) + blit_nickname_spec()
            + enc_str(opt_view(info.nickname)) + blit_status_spec() + enc_str(
            opt_view(info.status),
        ) + blit_avatar_url_spec() + enc_str(opt_view(info.avatar_url)) + seq![0x7du8],
        _ => Seq::empty(),
    }
}

/// An optional byte string read as its text, empty when absent.
pub open spec fn opt_view(o: Option<Vec<u8>>) -> Seq<u8> {
    match o {
        Some(v) => v@,
        None => Seq::empty(),
    }
}

/// Flatten a discovery event for the boundary; the kinds the boundary does
/// not carry give nothing.
pub fn bridge_event_of_discovery(e: &DiscoveryEvent) -> (r: Option<P2PBridgeEvent>)
    ensures
        match e {
            DiscoveryEvent::Discovered(_, _) => r matches Some(b) && b.event_type == 1
                && b.data@ == bridge_discovery_data_spec(*e),
            DiscoveryEvent::Verified(_) => r matches Some(b) && b.event_type == 3 && b.data@
                == bridge_discovery_data_spec(*e),
            DiscoveryEvent::NodeOffline(_) => r matches Some(b) && b.event_type == 4 && b.data@
                == bridge_discovery_data_spec(*e),
            DiscoveryEvent::UserInfoReceived(_, _) => r matches Some(b) && b.event_type == 5
                && b.data@ == bridge_discovery_data_spec(*e),
            _ => r is None,
        },
{
    match e {
        DiscoveryEvent::Discovered(p, a) => {
            let mut data: Vec<u8> = Vec::new();
            let l = blit_peer_id();
            push_all(&mut data, &l);
            enc_str_push(&mut data, p);
            let l = blit_addr();
            push_all(&mut data, &l);
            enc_str_push(&mut data, a);
            data.push(0x7d);
            assert(data@ =~= bridge_discovery_data_spec(*e));
            Some(P2PBridgeEvent { event_type: 1, data })
        },
        DiscoveryEvent::Verified(p) => {
            let mut data: Vec<u8> = Vec::new();
            let l = blit_peer_id();
            push_all(&mut data, &l);
            enc_str_push(&mut data, p);
            let l = blit_display_name();
            push_all(&mut data, &l);
            enc_str_push(&mut data, p);
            data.push(0x7d);
            assert(data@ =~= bridge_discovery_data_spec(*e));
            Some(P2PBridgeEvent { event_type: 3, data })
        },
        DiscoveryEvent::NodeOffline(p) => {
            let mut data: Vec<u8> = Vec::new();
            let l = blit_peer_id();
            push_all(&mut data, &l);
            enc_str_push(&mut data, p);
            data.push(0x7d);
            assert(data@ =~= bridge_discovery_data_spec(*e));
            Some(P2PBridgeEvent { event_type: 4, data })
        },
        DiscoveryEvent::UserInfoReceived(p, info) => {
            let mut data: Vec<u8> = Vec::new();
            let l = blit_peer_id();
            push_all(&mut data, &l);
            enc_str_push(&mut data, p);
            let l = blit_device_name();
            push_all(&mut data, &l);
            enc_str_push(&mut data, &info.device_name);
            let l = blit_nickname();
            push_all(&mut data, &l);
            push_opt_str(&mut data, &info.nickname);
            let l = blit_status();
            push_all(&mut data, &l);
            push_opt_str(&mut data, &info.status);
            let l = blit_avatar_url();
            push_all(&mut data, &l);
            push_opt_str(&mut data, &info.avatar_url);
            data.push(0x7d);
            assert(data@ =~= bridge_discovery_data_spec(*e));
            Some(P2PBridgeEvent { event_type: 5, data })
        },
        _ => None,
    }
}

/// Append an optional text as a JSON string, empty when absent.
fn push_opt_str(out: &mut Vec<u8>, o: &Option<Vec<u8>>)
    ensures
        final(out)@ == old(out)@ + enc_str(match o {
            Some(v) => v@,
            None => Seq::empty(),
        }),
{
    match o {
        Some(v) => enc_str_push(out, v),
        None => {
            let empty: Vec<u8> = Vec::new();
            enc_str_push(out, &empty);
        },
    }
}

/// The payload of a chat bridge event.
pub open spec fn bridge_chat_data_spec(e: ChatEvent) -> Seq<u8> {
    match e {
        ChatEvent::MessageReceived { from, message } => match message {
            ChatMessage::Text(t) => blit_from_spec() + enc_str(from@) + blit_content_spec()
                + enc_str(t.content@) + blit_timestamp_spec() + dec_i64(t.timestamp as int)
                + seq![0x7du8],
            _ => Seq::empty(),
        },
        ChatEvent::MessageSent { to, message_id } => blit_to_spec() + enc_str(to@)
            + blit_message_id_spec() + enc_str(message_id@) + seq![0x7du8],
        ChatEvent::PeerTyping { from, is_typing } => blit_from_spec() + enc_str(from@)
            + blit_is_typing_spec() + enc_bool(is_typing) + seq![0x7du8],
        _ => Seq::empty(),
    }
}

/// Flatten a chat event for the boundary; the kinds the boundary does not
/// carry give nothing.
pub fn bridge_event_of_chat(e: &ChatEvent) -> (r: Option<P2PBridgeEvent>)
    ensures
        match e {
            ChatEvent::MessageReceived { from, message } => match message {
                ChatMessage::Text(_) => r matches Some(b) && b.event_type == 6 && b.data@
                    == bridge_chat_data_spec(*e),
                _ => r is None,
            },
            ChatEvent::MessageSent { .. } => r matches Some(b) && b.event_type == 7 && b.data@
                == bridge_chat_data_spec(*e),
            ChatEvent::PeerTyping { .. } => r matches Some(b) && b.event_type == 8 && b.data@
                == bridge_chat_data_spec(*e),
            _ => r is None,
        },
{
    match e {
        ChatEvent::MessageReceived { from, message } => match message {
            ChatMessage::Text(t) => {
                let mut data: Vec<u8> = Vec::new();
                let l = blit_from();
                push_all(&mut data, &l);
                enc_str_push(&mut data, from);
                let l = blit_content();
                push_all(&mut data, &l);
                enc_str_push(&mut data, &t.content);
                let l = blit_timestamp();
                push_all(&mut data, &l);
                enc_i64_push(&mut data, t.timestamp);
                data.push(0x7d);
                assert(data@ =~= bridge_chat_data_spec(*e));
                Some(P2PBridgeEvent { event_type: 6, data })
            },
            _ => None,
        },
        ChatEvent::MessageSent { to, message_id } => {
            let mut data: Vec<u8> = Vec::new();
            let l = blit_to();
            push_all(&mut data, &l);
            enc_str_push(&mut data, to);
            let l = blit_message_id();
            push_all(&mut data, &l);
            enc_str_push(&mut data, message_id);
            data.push(0x7d);
            assert(data@ =~= bridge_chat_data_spec(*e));
            Some(P2PBridgeEvent { event_type: 7, data })
        },
        ChatEvent::PeerTyping { from, is_typing } => {
            let mut data: Vec<u8> = Vec::new();
            let l = blit_from();
            push_all(&mut data, &l);
            enc_str_push(&mut data, from);
            let l = blit_is_typing();
            push_all(&mut data, &l);
            enc_bool_push(&mut data, *is_typing);
            data.push(0x7d);
            assert(data@ =~= bridge_chat_data_spec(*e));
            Some(P2PBridgeEvent { event_type: 8, data })
        },
        _ => None,
    }
}

/// The queue of bridge events awaiting a poll.
pub struct EventQueue {
    /// Pending events, oldest first.
    pub events: Vec<P2PBridgeEvent>,
}

impl EventQueue {
    /// An empty queue.
    pub fn new() -> (r: Self)
        ensures
            r.events@.len() == 0,
    {
        Self { events: Vec::new() }
    }

    /// Queue one event.
    pub fn push_event(&mut self, event: P2PBridgeEvent)
        ensures
            final(self).events@ == old(self).events@.push(event),
    {
        self.events.push(event);
    }

    /// Take every pending event, oldest first.
    pub fn poll_events(&mut self) -> (r: Vec<P2PBridgeEvent>)
        ensures
            r == old(self).events,
            final(self).events@.len() == 0,
    {
        let mut out: Vec<P2PBridgeEvent> = Vec::new();
        std::mem::swap(&mut out, &mut self.events);
        out
    }
}

/// Flatten every verified node for the boundary, joining the registry
/// with the profiles on file: the profile's names win where one is known,
/// the node's own display name stands in otherwise.
pub fn bridge_nodes(engine: &crate::engine::Engine) -> (r: Vec<P2PBridgeNodeInfo>)
    ensures
        r@.len() == engine.registry.nodes_spec().len(),
{
    let nodes = engine.list_verified_nodes();
    let mut out: Vec<P2PBridgeNodeInfo> = Vec::new();
    let mut i: usize = 0;
    while i < nodes.len()
        invariant
            i <= nodes@.len(),
            out@.len() == i,
        decreases nodes@.len() - i,
    {
        let node = &nodes[i];
        let entry = match engine.get_user_info(&node.peer_id) {
            Some(info) => P2PBridgeNodeInfo::from_peer_id_and_info(
                clone_bytes(&node.peer_id),
                info,
            ),
            None => P2PBridgeNodeInfo::from_basic_info(
                clone_bytes(&node.peer_id),
                node.display_name(),
                match &node.name {
                    Some(n) => clone_bytes(n),
                    None => Vec::new(),
                },
            ),
        };
        out.push(entry);
        i += 1;
    }
    out
}

} // verus!
