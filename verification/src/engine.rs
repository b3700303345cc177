//! The managed discovery engine.
//!
//! One state machine multiplexes the four sub-protocols: multicast
//! discovery, identity verification, liveness probing, and the user-info
//! and chat request/response exchanges.  The unverified event loop hands
//! every network event to [`Engine::handle_net_event`] and every command to
//! [`Engine::handle_command`], performs the returned actions, and forwards
//! the emitted events to consumers.  The sequence of emitted events is
//! tracked in a ghost log, over which the ordering laws at the bottom of
//! this file are proved.

use vstd::prelude::*;

use crate::bytes::bytes_eq;
use crate::health::{HealthCheckConfig, HealthStatus, NodeHealth, rtt_bound};
use crate::manager::{ChatManager, clone_bytes, clone_message};
use crate::message::ChatMessage;
use crate::node::{NodeManager, VerifiedNode};
use crate::user_info::UserInfo;

verus! {

/// An event of the discovery stream, as consumers see it.
#[derive(Debug)]
pub enum DiscoveryEvent {
    /// A peer was found by multicast, at an address.
    Discovered(Vec<u8>, Vec<u8>),
    /// A peer's multicast record expired.
    Expired(Vec<u8>),
    /// A peer passed admission for the first time since discovery.
    Verified(Vec<u8>),
    /// A peer failed admission, with a reason.
    VerificationFailed(Vec<u8>, Vec<u8>),
    /// An unhealthy peer answered a probe again; carries the round-trip
    /// time in milliseconds.
    NodeRecovered(Vec<u8>, u64),
    /// A peer went offline.
    NodeOffline(Vec<u8>),
    /// A peer's profile arrived for the first time.
    UserInfoReceived(Vec<u8>, UserInfo),
}

/// Ghost record of one emitted event, by peer.
pub enum EventRec {
    Discovered(Seq<u8>),
    Expired(Seq<u8>),
    Verified(Seq<u8>),
    VerificationFailed(Seq<u8>),
    NodeRecovered(Seq<u8>),
    NodeOffline(Seq<u8>),
    UserInfoReceived(Seq<u8>),
}

/// A network event handed in by the loop.
#[derive(Debug)]
pub enum NetEvent {
    /// Multicast found a peer at an address.
    Discovered { peer: Vec<u8>, addr: Vec<u8> },
    /// A multicast record expired.
    Expired { peer: Vec<u8> },
    /// The identity exchange with a peer completed.
    IdentifyReceived {
        peer: Vec<u8>,
        protocol_version: Vec<u8>,
        agent_version: Vec<u8>,
        listen_addrs: Vec<Vec<u8>>,
    },
    /// A liveness probe returned, with its round-trip time in milliseconds.
    PingSuccess { peer: Vec<u8>, rtt: u64 },
    /// A liveness probe failed.
    PingFailure { peer: Vec<u8> },
    /// A connection to a peer was established.
    ConnectionEstablished { peer: Vec<u8> },
    /// A connection to a peer was closed.
    ConnectionClosed { peer: Vec<u8> },
    /// A peer asked for this node's profile.
    UserInfoRequestArrived { peer: Vec<u8> },
    /// A peer sent its profile.
    UserInfoResponseArrived { peer: Vec<u8>, info: UserInfo },
    /// A peer sent a chat message.
    ChatRequestArrived { peer: Vec<u8>, message: ChatMessage },
    /// A peer acknowledged a chat request.
    ChatResponseArrived { peer: Vec<u8>, received: bool },
}

/// What the loop must do after a step.
#[derive(Debug)]
pub enum Action {
    /// Dial an address.
    Dial(Vec<u8>),
    /// Hand an event to the consumers.
    Emit(DiscoveryEvent),
    /// Ask a peer for its profile.
    SendUserInfoRequest(Vec<u8>),
    /// Answer a peer's profile request with this node's profile.
    SendUserInfoResponse(Vec<u8>, UserInfo),
    /// Acknowledge a peer's chat request.
    SendChatResponse(Vec<u8>),
    /// Put a chat message on the wire to a peer.
    SendChatRequest(Vec<u8>, ChatMessage),
}

/// A command submitted by a consumer.
#[derive(Debug)]
pub enum Command {
    /// Send a text to one peer.
    SendMessage { target: Vec<u8>, text: Vec<u8> },
    /// Send a text to many peers.
    BroadcastMessage { targets: Vec<Vec<u8>>, text: Vec<u8> },
    /// Prove the loop is alive.
    Ping,
    /// Leave the loop.
    Stop,
}

/// The failure kinds surfaced to command submitters.
#[derive(Debug)]
pub enum EngineError {
    /// The engine is not running.
    NotInitialized,
    /// A peer identifier could not be parsed; carries the offending text.
    InvalidArgument(Vec<u8>),
    /// The send could not be carried out.
    SendFailed(Vec<u8>),
    /// The target is not in the registry.
    NodeNotVerified(Vec<u8>),
    /// Some broadcast targets failed; carries how many.
    PartialFailure(usize),
}

/// A reply to a command.
#[derive(Debug)]
pub enum CommandReply {
    /// The command was carried out.
    Accepted,
    /// The command failed.
    Failed(EngineError),
}

/// How many events in the log report the peer's profile.
pub open spec fn count_uir(log: Seq<EventRec>, p: Seq<u8>) -> int
    decreases log.len(),
{
    if log.len() == 0 {
        0
    } else {
        count_uir(log.drop_last(), p) + if log.last() == EventRec::UserInfoReceived(p) {
            1int
        } else {
            0int
        }
    }
}

/// How many events in the log report the peer offline.
pub open spec fn count_off(log: Seq<EventRec>, p: Seq<u8>) -> int
    decreases log.len(),
{
    if log.len() == 0 {
        0
    } else {
        count_off(log.drop_last(), p) + if log.last() == EventRec::NodeOffline(p) {
            1int
        } else {
            0int
        }
    }
}

/// The peer was discovered and has not been reported offline since.
pub open spec fn live_since(log: Seq<EventRec>, p: Seq<u8>) -> bool {
    exists|j: int|
        0 <= j < log.len() && log[j] == EventRec::Discovered(p) && (forall|k: int|
            j < k < log.len() ==> log[k] != EventRec::NodeOffline(p))
}

/// The event at `i` reports the peer verified after a discovery with no
/// offline report in between.
pub open spec fn verified_ok_at(log: Seq<EventRec>, i: int, p: Seq<u8>) -> bool {
    exists|j: int|
        0 <= j < i && log[j] == EventRec::Discovered(p) && (forall|k: int|
            j < k < i ==> log[k] != EventRec::NodeOffline(p))
}

/// Every verification in the log was preceded by a discovery of the same
/// peer with no offline report in between.
pub open spec fn log_ok(log: Seq<EventRec>) -> bool {
    forall|i: int, p: Seq<u8>|
        0 <= i < log.len() && log[i] == EventRec::Verified(p) ==> verified_ok_at(log, i, p)
}

/// Counts are never negative.
pub proof fn lemma_counts_nonneg(log: Seq<EventRec>, p: Seq<u8>)
    ensures
        count_uir(log, p) >= 0,
        count_off(log, p) >= 0,
    decreases log.len(),
{
    if log.len() > 0 {
        lemma_counts_nonneg(log.drop_last(), p);
    }
}

/// Appending one event changes each count by its own contribution.
pub proof fn lemma_count_push(log: Seq<EventRec>, e: EventRec, p: Seq<u8>)
    ensures
        count_uir(log.push(e), p) == count_uir(log, p) + if e == EventRec::UserInfoReceived(p) {
            1int
        } else {
            0int
        },
        count_off(log.push(e), p) == count_off(log, p) + if e == EventRec::NodeOffline(p) {
            1int
        } else {
            0int
        },
{
    assert(log.push(e).drop_last() =~= log);
    assert(log.push(e).last() == e);
}

/// A live discovery survives any appended event that does not report the
/// peer offline.
pub proof fn lemma_live_push(log: Seq<EventRec>, e: EventRec, p: Seq<u8>)
    requires
        live_since(log, p),
        e != EventRec::NodeOffline(p),
    ensures
        live_since(log.push(e), p),
{
    let j = choose|j: int|
        0 <= j < log.len() && log[j] == EventRec::Discovered(p) && (forall|k: int|
            j < k < log.len() ==> log[k] != EventRec::NodeOffline(p));
    assert(log.push(e)[j] == EventRec::Discovered(p));
    assert forall|k: int| j < k < log.push(e).len() implies log.push(e)[k]
        != EventRec::NodeOffline(p) by {
        if k < log.len() {
            assert(log.push(e)[k] == log[k]);
        } else {
            assert(log.push(e)[k] == e);
        }
    }
}

/// Appending an event keeps the log lawful, provided a verification is
/// only appended for a peer whose discovery is still live.
pub proof fn lemma_log_ok_push(log: Seq<EventRec>, e: EventRec)
    requires
        log_ok(log),
        forall|p: Seq<u8>| e == EventRec::Verified(p) ==> live_since(log, p),
    ensures
        log_ok(log.push(e)),
{
    let log2 = log.push(e);
    assert forall|i: int, p: Seq<u8>|
        0 <= i < log2.len() && log2[i] == EventRec::Verified(p) implies verified_ok_at(
        log2,
        i,
        p,
    ) by {
        if i < log.len() {
            assert(log2[i] == log[i]);
            assert(verified_ok_at(log, i, p));
            let j = choose|j: int|
                0 <= j < i && log[j] == EventRec::Discovered(p) && (forall|k: int|
                    j < k < i ==> log[k] != EventRec::NodeOffline(p));
            assert(log2[j] == EventRec::Discovered(p));
            assert forall|k: int| j < k < i implies log2[k] != EventRec::NodeOffline(p) by {
                assert(log2[k] == log[k]);
            }
        } else {
            assert(log2[i] == e);
            assert(live_since(log, p));
            let j = choose|j: int|
                0 <= j < log.len() && log[j] == EventRec::Discovered(p) && (forall|k: int|
                    j < k < log.len() ==> log[k] != EventRec::NodeOffline(p));
            assert(log2[j] == EventRec::Discovered(p));
            assert forall|k: int| j < k < i implies log2[k] != EventRec::NodeOffline(p) by {
                assert(log2[k] == log[k]);
            }
        }
    }
}

/// The ghost view of one emitted event.
pub open spec fn rec_of(e: DiscoveryEvent) -> EventRec {
    match e {
        DiscoveryEvent::Discovered(p, _) => EventRec::Discovered(p@),
        DiscoveryEvent::Expired(p) => EventRec::Expired(p@),
        DiscoveryEvent::Verified(p) => EventRec::Verified(p@),
        DiscoveryEvent::VerificationFailed(p, _) => EventRec::VerificationFailed(p@),
        DiscoveryEvent::NodeRecovered(p, _) => EventRec::NodeRecovered(p@),
        DiscoveryEvent::NodeOffline(p) => EventRec::NodeOffline(p@),
        DiscoveryEvent::UserInfoReceived(p, _) => EventRec::UserInfoReceived(p@),
    }
}

/// The engine: the registry, the chat layer, the per-peer maps, and the
/// ghost log of everything emitted so far.
pub struct Engine {
    /// The verified-node registry.
    pub registry: NodeManager,
    /// The chat session layer.
    pub chat: ChatManager,
    /// Health records, one per probed peer; keys unique.
    pub health: Vec<(Vec<u8>, NodeHealth)>,
    /// The liveness configuration.
    pub health_config: HealthCheckConfig,
    /// Open connection counts, one per peer; keys unique.
    pub active_connections: Vec<(Vec<u8>, u32)>,
    /// Profiles received from peers; keys unique.
    pub peer_user_info: Vec<(Vec<u8>, UserInfo)>,
    /// Peers currently past discovery and not yet reported offline.
    pub discovered: Vec<Vec<u8>>,
    /// This node's peer identifier.
    pub local_peer_id: Vec<u8>,
    /// This node's profile.
    pub local_user_info: UserInfo,
    /// The protocol version announced and required.
    pub protocol_version: Vec<u8>,
    /// The agent string announced.
    pub agent_version: Vec<u8>,
    /// False once `Stop` was processed.
    pub running: bool,
    /// Everything emitted so far, in order.
    pub log: Ghost<Seq<EventRec>>,
}

/// A keyed map (a list of pairs) holds the key.
pub open spec fn kv_has<T>(m: Seq<(Vec<u8>, T)>, p: Seq<u8>) -> bool {
    exists|i: int| 0 <= i < m.len() && m[i].0@ == p
}

/// The value under a key of a keyed map.
pub open spec fn kv_get<T>(m: Seq<(Vec<u8>, T)>, p: Seq<u8>) -> T {
    m[choose|i: int| 0 <= i < m.len() && m[i].0@ == p].1
}

/// A set of peer identifiers holds the peer.
pub open spec fn ids_has(s: Seq<Vec<u8>>, p: Seq<u8>) -> bool {
    exists|i: int| 0 <= i < s.len() && s[i]@ == p
}

impl Engine {
    /// A profile is on file for the peer.
    pub open spec fn has_info(self, p: Seq<u8>) -> bool {
        kv_has(self.peer_user_info@, p)
    }

    /// The peer is in the discovered set.
    pub open spec fn is_discovered(self, p: Seq<u8>) -> bool {
        ids_has(self.discovered@, p)
    }

    /// The peer's open connection count, zero when untracked.
    pub open spec fn conn_count(self, p: Seq<u8>) -> int {
        if kv_has(self.active_connections@, p) {
            kv_get(self.active_connections@, p) as int
        } else {
            0
        }
    }

    /// The peer's consecutive probe failures, zero when untracked.
    pub open spec fn health_failures(self, p: Seq<u8>) -> int {
        if kv_has(self.health@, p) {
            kv_get(self.health@, p).consecutive_failures as int
        } else {
            0
        }
    }

    /// The peer's health status, Unknown when untracked.
    pub open spec fn health_status(self, p: Seq<u8>) -> HealthStatus {
        if kv_has(self.health@, p) {
            kv_get(self.health@, p).status
        } else {
            HealthStatus::Unknown
        }
    }

    /// Well-formedness: the parts are well formed, the maps have unique
    /// keys, and the event log obeys the ordering and counting laws.
    pub open spec fn wf(self) -> bool {
        &&& self.registry.wf()
        &&& self.chat.wf()
        &&& forall|i: int, j: int|
            0 <= i < j < self.health@.len() ==> self.health@[i].0@ != self.health@[j].0@
        &&& forall|i: int|
            0 <= i < self.health@.len() ==> (#[trigger] self.health@[i]).1.wf(
                self.health_config.max_failures,
            )
        &&& forall|i: int, j: int|
            0 <= i < j < self.active_connections@.len() ==> self.active_connections@[i].0@
                != self.active_connections@[j].0@
        &&& forall|i: int, j: int|
            0 <= i < j < self.peer_user_info@.len() ==> self.peer_user_info@[i].0@
                != self.peer_user_info@[j].0@
        &&& forall|i: int, j: int|
            0 <= i < j < self.discovered@.len() ==> self.discovered@[i]@ != self.discovered@[j]@
        &&& log_ok(self.log@)
        &&& forall|p: Seq<u8>|
            #![trigger count_uir(self.log@, p)]
            count_uir(self.log@, p) <= count_off(self.log@, p) + if self.has_info(p) {
                1int
            } else {
                0int
            }
        &&& forall|p: Seq<u8>| self.is_discovered(p) ==> live_since(self.log@, p)
    }

    /// A fresh engine around a registry and this node's identity.
    pub fn new(
        registry: NodeManager,
        health_config: HealthCheckConfig,
        local_user_info: UserInfo,
        local_peer_id: Vec<u8>,
    ) -> (r: Engine)
        requires
            registry.wf(),
        ensures
            r.wf(),
            r.running,
            r.log@.len() == 0,
            r.registry == registry,
            r.local_peer_id == local_peer_id,
            r.local_user_info == local_user_info,
            r.health_config == health_config,
            r.protocol_version@ == registry.config_spec().expected_protocol_version@,
            r.agent_version@ == crate::agent::build_agent_version_spec(
                registry.config_spec().effective_prefix_spec(),
                match registry.config_spec().device_name {
                    Some(n) => Some(n@),
                    None => None,
                },
            ),
            r.health@.len() == 0,
            r.active_connections@.len() == 0,
            r.peer_user_info@.len() == 0,
            r.discovered@.len() == 0,
            r.chat.local_peer_id@ == local_peer_id@,
            r.chat.sessions@.len() == 0,
            r.chat.events@.len() == 0,
    {
        let protocol_version = clone_bytes(&registry.config().expected_protocol_version);
        let agent_version = registry.config().build_agent_version();
        let chat = ChatManager::new(clone_bytes(&local_peer_id));
        Engine {
            registry,
            chat,
            health: Vec::new(),
            health_config,
            active_connections: Vec::new(),
            peer_user_info: Vec::new(),
            discovered: Vec::new(),
            local_peer_id,
            local_user_info,
            protocol_version,
            agent_version,
            running: true,
            log: Ghost(Seq::empty()),
        }
    }

    /// Index of the peer in the profile map.
    fn find_info(&self, peer: &Vec<u8>) -> (r: Option<usize>)
        ensures
            match r {
                Some(i) => i < self.peer_user_info@.len() && self.peer_user_info@[i as int].0@
                    == peer@,
                None => !self.has_info(peer@),
            },
    {
        let mut i: usize = 0;
        while i < self.peer_user_info.len()
            invariant
                i <= self.peer_user_info@.len(),
                forall|j: int| 0 <= j < i ==> self.peer_user_info@[j].0@ != peer@,
            decreases self.peer_user_info@.len() - i,
        {
            if bytes_eq(&self.peer_user_info[i].0, peer) {
                return Some(i);
            }
            i += 1;
        }
        None
    }

    /// Index of the peer in the connection-count map.
    fn find_conn(&self, peer: &Vec<u8>) -> (r: Option<usize>)
        ensures
            match r {
                Some(i) => i < self.active_connections@.len()
                    && self.active_connections@[i as int].0@ == peer@,
                None => forall|j: int|
                    0 <= j < self.active_connections@.len()
                        ==> (#[trigger] self.active_connections@[j]).0@ != peer@,
            },
    {
        let mut i: usize = 0;
        while i < self.active_connections.len()
            invariant
                i <= self.active_connections@.len(),
                forall|j: int| 0 <= j < i ==> self.active_connections@[j].0@ != peer@,
            decreases self.active_connections@.len() - i,
        {
            if bytes_eq(&self.active_connections[i].0, peer) {
                return Some(i);
            }
            i += 1;
        }
        None
    }

    /// Index of the peer in the health map.
    fn find_health(&self, peer: &Vec<u8>) -> (r: Option<usize>)
        ensures
            match r {
                Some(i) => i < self.health@.len() && self.health@[i as int].0@ == peer@,
                None => forall|j: int|
                    0 <= j < self.health@.len() ==> (#[trigger] self.health@[j]).0@ != peer@,
            },
    {
        let mut i: usize = 0;
        while i < self.health.len()
            invariant
                i <= self.health@.len(),
                forall|j: int| 0 <= j < i ==> self.health@[j].0@ != peer@,
            decreases self.health@.len() - i,
        {
            if bytes_eq(&self.health[i].0, peer) {
                return Some(i);
            }
            i += 1;
        }
        None
    }

    /// Index of the peer in the discovered set.
    fn find_discovered(&self, peer: &Vec<u8>) -> (r: Option<usize>)
        ensures
            match r {
                Some(i) => i < self.discovered@.len() && self.discovered@[i as int]@ == peer@,
                None => !self.is_discovered(peer@),
            },
    {
        let mut i: usize = 0;
        while i < self.discovered.len()
            invariant
                i <= self.discovered@.len(),
                forall|j: int| 0 <= j < i ==> self.discovered@[j]@ != peer@,
            decreases self.discovered@.len() - i,
        {
            if bytes_eq(&self.discovered[i], peer) {
                return Some(i);
            }
            i += 1;
        }
        None
    }

    /// The health records the engine tracks.
    pub fn get_health(&self, peer: &Vec<u8>) -> (r: Option<&NodeHealth>)
        ensures
            r is Some <==> exists|i: int|
                0 <= i < self.health@.len() && (#[trigger] self.health@[i]).0@ == peer@,
    {
        match self.find_health(peer) {
            Some(i) => Some(&self.health[i].1),
            None => None,
        }
    }

    /// The profile on file for a peer.
    pub fn get_user_info(&self, peer: &Vec<u8>) -> (r: Option<&UserInfo>)
        ensures
            r is Some <==> self.has_info(peer@),
    {
        match self.find_info(peer) {
            Some(i) => Some(&self.peer_user_info[i].1),
            None => None,
        }
    }

    /// This node's peer identifier.
    pub fn local_peer_id(&self) -> (r: &Vec<u8>)
        ensures
            r == self.local_peer_id,
    {
        &self.local_peer_id
    }

    /// This node's profile.
    pub fn local_user_info(&self) -> (r: &UserInfo)
        ensures
            r == self.local_user_info,
    {
        &self.local_user_info
    }

    /// The protocol version announced and required.
    pub fn protocol_version(&self) -> (r: &Vec<u8>)
        ensures
            r == self.protocol_version,
    {
        &self.protocol_version
    }

    /// The agent string announced.
    pub fn agent_version(&self) -> (r: &Vec<u8>)
        ensures
            r == self.agent_version,
    {
        &self.agent_version
    }
}

/// Copy of a profile, equal under the view.
pub fn clone_user_info(u: &UserInfo) -> (r: UserInfo)
    ensures
        r@ == u@,
{
    let mut custom: Vec<(Vec<u8>, Vec<u8>)> = Vec::new();
    let mut i: usize = 0;
    while i < u.custom_data.len()
        invariant
            i <= u.custom_data@.len(),
            custom@.len() == i,
            forall|j: int|
                0 <= j < i ==> (#[trigger] custom@[j]).0@ == u.custom_data@[j].0@
                    && custom@[j].1@ == u.custom_data@[j].1@,
        decreases u.custom_data@.len() - i,
    {
        custom.push((clone_bytes(&u.custom_data[i].0), clone_bytes(&u.custom_data[i].1)));
        i += 1;
    }
    let r = UserInfo {
        device_name: clone_bytes(&u.device_name),
        nickname: match &u.nickname {
            Some(n) => Some(clone_bytes(n)),
            None => None,
        },
        avatar_url: match &u.avatar_url {
            Some(n) => Some(clone_bytes(n)),
            None => None,
        },
        status: match &u.status {
            Some(n) => Some(clone_bytes(n)),
            None => None,
        },
        custom_data: custom,
    };
    proof {
        assert(r@.custom_data =~= u@.custom_data);
    }
    r
}

/// Pushing a neutral event (neither a profile report nor an offline
/// report, and a verification only for a live discovery) keeps every law
/// of the log.
proof fn lemma_neutral_push(eng: Engine, e: EventRec)
    requires
        eng.wf(),
        forall|p: Seq<u8>| e != EventRec::UserInfoReceived(p),
        forall|p: Seq<u8>| e != EventRec::NodeOffline(p),
        forall|p: Seq<u8>| e == EventRec::Verified(p) ==> live_since(eng.log@, p),
    ensures
        log_ok(eng.log@.push(e)),
        forall|p: Seq<u8>|
            #![trigger count_uir(eng.log@.push(e), p)]
            count_uir(eng.log@.push(e), p) <= count_off(eng.log@.push(e), p) + if eng.has_info(
                p,
            ) {
                1int
            } else {
                0int
            },
        forall|p: Seq<u8>| eng.is_discovered(p) ==> live_since(eng.log@.push(e), p),
{
    lemma_log_ok_push(eng.log@, e);
    assert forall|p: Seq<u8>|
        #![trigger count_uir(eng.log@.push(e), p)]
        count_uir(eng.log@.push(e), p) <= count_off(eng.log@.push(e), p) + if eng.has_info(p) {
            1int
        } else {
            0int
        } by {
        lemma_count_push(eng.log@, e, p);
    }
    assert forall|p: Seq<u8>| eng.is_discovered(p) implies live_since(eng.log@.push(e), p) by {
        lemma_live_push(eng.log@, e, p);
    }
}


/// Equal profile maps say the same about every peer.
proof fn lemma_same_info(a: Engine, b: Engine)
    requires
        a.peer_user_info@ == b.peer_user_info@,
    ensures
        forall|p: Seq<u8>| a.has_info(p) == b.has_info(p),
{
    assert forall|p: Seq<u8>| a.has_info(p) == b.has_info(p) by {
        if a.has_info(p) {
            let w = choose|i: int|
                0 <= i < a.peer_user_info@.len() && a.peer_user_info@[i].0@ == p;
            assert(b.peer_user_info@[w].0@ == p);
        }
        if b.has_info(p) {
            let w = choose|i: int|
                0 <= i < b.peer_user_info@.len() && b.peer_user_info@[i].0@ == p;
            assert(a.peer_user_info@[w].0@ == p);
        }
    }
}

/// Equal discovered sets say the same about every peer.
proof fn lemma_same_discovered(a: Engine, b: Engine)
    requires
        a.discovered@ == b.discovered@,
    ensures
        forall|p: Seq<u8>| a.is_discovered(p) == b.is_discovered(p),
{
    assert forall|p: Seq<u8>| a.is_discovered(p) == b.is_discovered(p) by {
        if a.is_discovered(p) {
            let w = choose|i: int| 0 <= i < a.discovered@.len() && a.discovered@[i]@ == p;
            assert(b.discovered@[w]@ == p);
        }
        if b.is_discovered(p) {
            let w = choose|i: int| 0 <= i < b.discovered@.len() && b.discovered@[i]@ == p;
            assert(a.discovered@[w]@ == p);
        }
    }
}

impl Engine {
    /// Multicast found a peer: record the discovery, report it, and dial
    /// the address.
    pub fn on_discovered(&mut self, peer: &Vec<u8>, addr: Vec<u8>) -> (actions: Vec<Action>)
        requires
            old(self).wf(),
        ensures
            final(self).wf(),
            *final(self) == (Engine {
                discovered: final(self).discovered,
                log: final(self).log,
                ..*old(self)
            }),
            final(self).log@ == old(self).log@.push(EventRec::Discovered(peer@)),
            final(self).is_discovered(peer@),
            actions@.len() == 2,
            actions@[0] matches Action::Emit(e) && rec_of(e) == EventRec::Discovered(peer@),
            actions@[1] matches Action::Dial(a) && a@ == addr@,
    {
        let ghost ev = EventRec::Discovered(peer@);
        match self.find_discovered(peer) {
            Some(i) => {
                proof {
                    assert(self.discovered@[i as int]@ == peer@);
                    assert(self.is_discovered(peer@));
                }
            },
            None => {
                self.discovered.push(clone_bytes(peer));
                proof {
                    assert(self.discovered@[self.discovered@.len() - 1]@ == peer@);
                    assert(self.is_discovered(peer@));
                    assert forall|a: int, b: int|
                        0 <= a < b < self.discovered@.len() implies self.discovered@[a]@
                        != self.discovered@[b]@ by {
                        if b < self.discovered@.len() - 1 {
                            assert(self.discovered@[a] == old(self).discovered@[a]);
                            assert(self.discovered@[b] == old(self).discovered@[b]);
                        } else {
                            assert(self.discovered@[a] == old(self).discovered@[a]);
                        }
                    }
                }
            },
        }
        proof {
            lemma_neutral_push(*old(self), ev);
            self.log = Ghost(old(self).log@.push(ev));
            assert forall|p: Seq<u8>| self.is_discovered(p) implies live_since(self.log@, p) by {
                if p == peer@ {
                    let n = old(self).log@.len() as int;
                    assert(self.log@[n] == EventRec::Discovered(peer@));
                } else {
                    let w = choose|i: int|
                        0 <= i < self.discovered@.len() && self.discovered@[i]@ == p;
                    assert(old(self).discovered@[w]@ == p);
                    assert(old(self).is_discovered(p));
                    lemma_live_push(old(self).log@, ev, p);
                }
            }
            lemma_same_info(*self, *old(self));
        }
        let mut actions: Vec<Action> = Vec::new();
        actions.push(
            Action::Emit(DiscoveryEvent::Discovered(clone_bytes(peer), clone_bytes(&addr))),
        );
        actions.push(Action::Dial(addr));
        actions
    }

    /// A multicast record expired: purely informational, the registry is
    /// untouched.
    pub fn on_expired(&mut self, peer: &Vec<u8>) -> (actions: Vec<Action>)
        requires
            old(self).wf(),
        ensures
            final(self).wf(),
            *final(self) == (Engine { log: final(self).log, ..*old(self) }),
            final(self).log@ == old(self).log@.push(EventRec::Expired(peer@)),
            actions@.len() == 1,
            actions@[0] matches Action::Emit(e) && rec_of(e) == EventRec::Expired(peer@),
    {
        let ghost ev = EventRec::Expired(peer@);
        proof {
            lemma_neutral_push(*old(self), ev);
            self.log = Ghost(old(self).log@.push(ev));
            lemma_same_info(*self, *old(self));
            lemma_same_discovered(*self, *old(self));
        }
        let mut actions: Vec<Action> = Vec::new();
        actions.push(Action::Emit(DiscoveryEvent::Expired(clone_bytes(peer))));
        actions
    }

    /// An identity exchange completed: admission is checked; a failure is
    /// reported with a reason naming the failed check; a pass inserts or
    /// refreshes the peer, and the first pass since discovery is reported
    /// as `Verified`.  This node's own identity is skipped.  A peer that
    /// was never discovered (or has been offline since) is ignored even
    /// when it passes admission: the event stream promises that every
    /// `Verified` report is preceded by a live `Discovered` report, and an
    /// identity exchange alone cannot honour that; such a peer is admitted
    /// by its first exchange after discovery instead.
    pub fn on_identify(
        &mut self,
        peer: &Vec<u8>,
        protocol_version: &Vec<u8>,
        agent_version: &Vec<u8>,
        listen_addrs: Vec<Vec<u8>>,
        now: u64,
    ) -> (actions: Vec<Action>)
        requires
            old(self).wf(),
        ensures
            final(self).wf(),
            peer@ == old(self).local_peer_id@ ==> *final(self) == *old(self) && actions@.len()
                == 0,
            peer@ != old(self).local_peer_id@ && !crate::node::admission_ok_spec(
                old(self).registry.config_spec(),
                protocol_version@,
                agent_version@,
            ) ==> final(self).registry == old(self).registry && actions@.len() == 1
                && (actions@[0] matches Action::Emit(e) && e matches
                DiscoveryEvent::VerificationFailed(p, reason) && p@ == peer@ && reason@
                == crate::node::admission_failure_reason(
                old(self).registry.config_spec(),
                protocol_version@,
                agent_version@,
            )),
            peer@ != old(self).local_peer_id@ && crate::node::admission_ok_spec(
                old(self).registry.config_spec(),
                protocol_version@,
                agent_version@,
            ) && old(self).is_discovered(peer@) ==> final(self).registry.has_peer(peer@),
            peer@ != old(self).local_peer_id@ && crate::node::admission_ok_spec(
                old(self).registry.config_spec(),
                protocol_version@,
                agent_version@,
            ) && old(self).is_discovered(peer@) && old(self).registry.has_peer(peer@) ==> ({
                let idx = old(self).registry.peer_index(peer@);
                &&& final(self).registry.nodes_spec().len() == old(self).registry.nodes_spec().len()
                &&& final(self).registry.nodes_spec()[idx] == (VerifiedNode {
                    addresses: listen_addrs,
                    last_seen: now,
                    ..old(self).registry.nodes_spec()[idx]
                })
                &&& forall|j: int|
                    0 <= j < old(self).registry.nodes_spec().len() && j != idx ==> final(self).registry.nodes_spec()[j] == old(self).registry.nodes_spec()[j]
            }),
            peer@ != old(self).local_peer_id@ && crate::node::admission_ok_spec(
                old(self).registry.config_spec(),
                protocol_version@,
                agent_version@,
            ) && old(self).is_discovered(peer@) && !old(self).registry.has_peer(peer@) ==> ({
                let n = final(self).registry.nodes_spec().last();
                &&& final(self).registry.nodes_spec().len() == old(self).registry.nodes_spec().len() + 1
                &&& (forall|j: int|
                    0 <= j < old(self).registry.nodes_spec().len() ==> final(self).registry.nodes_spec()[j] == old(self).registry.nodes_spec()[j])
                &&& n.peer_id@ == peer@
                &&& n.protocol_version@ == protocol_version@
                &&& n.agent_version@ == agent_version@
                &&& n.addresses == listen_addrs
                &&& n.first_seen == now
                &&& n.last_seen == now
            }),
            peer@ != old(self).local_peer_id@ && crate::node::admission_ok_spec(
                old(self).registry.config_spec(),
                protocol_version@,
                agent_version@,
            ) && old(self).is_discovered(peer@) && !old(self).registry.has_peer(peer@) ==> (
            actions@.len() == 1 && (actions@[0] matches Action::Emit(e) && rec_of(e)
                == EventRec::Verified(peer@))),
            peer@ != old(self).local_peer_id@ && crate::node::admission_ok_spec(
                old(self).registry.config_spec(),
                protocol_version@,
                agent_version@,
            ) && old(self).is_discovered(peer@) && old(self).registry.has_peer(peer@)
                ==> actions@.len() == 0,
            !old(self).is_discovered(peer@) && peer@ != old(self).local_peer_id@
                && crate::node::admission_ok_spec(
                old(self).registry.config_spec(),
                protocol_version@,
                agent_version@,
            ) ==> final(self).registry == old(self).registry && actions@.len() == 0,
    {
        let mut actions: Vec<Action> = Vec::new();
        if bytes_eq(peer, &self.local_peer_id) {
            return actions;
        }
        match self.registry.verify_node_info(protocol_version, agent_version) {
            Err(e) => {
                let reason = match e {
                    crate::MdnsError::SwarmBuild(m) => m,
                    _ => Vec::new(),
                };
                let ghost ev = EventRec::VerificationFailed(peer@);
                proof {
                    lemma_neutral_push(*old(self), ev);
                    self.log = Ghost(old(self).log@.push(ev));
                    lemma_same_info(*self, *old(self));
                    lemma_same_discovered(*self, *old(self));
                }
                actions.push(
                    Action::Emit(
                        DiscoveryEvent::VerificationFailed(clone_bytes(peer), reason),
                    ),
                );
                actions
            },
            Ok(()) => {
                match self.find_discovered(peer) {
                    None => actions,
                    Some(di) => {
                        proof {
                            assert(self.discovered@[di as int]@ == peer@);
                            assert(self.is_discovered(peer@));
                        }
                        let already = self.registry.is_node_verified(peer);
                        let node = VerifiedNode::new(
                            clone_bytes(peer),
                            listen_addrs,
                            clone_bytes(protocol_version),
                            clone_bytes(agent_version),
                            now,
                        );
                        self.registry.add_or_update_node(node, now);
                        proof {
                            lemma_same_info(*self, *old(self));
                            lemma_same_discovered(*self, *old(self));
                        }
                        if !already {
                            let ghost ev = EventRec::Verified(peer@);
                            proof {
                                assert(old(self).is_discovered(peer@));
                                assert(live_since(old(self).log@, peer@));
                                lemma_neutral_push(*old(self), ev);
                                self.log = Ghost(old(self).log@.push(ev));
                                lemma_same_info(*self, *old(self));
                                lemma_same_discovered(*self, *old(self));
                                assert forall|p: Seq<u8>| self.is_discovered(p) implies
                                    live_since(self.log@, p) by {
                                    assert(old(self).is_discovered(p));
                                    assert(live_since(old(self).log@, p));
                                    lemma_live_push(old(self).log@, ev, p);
                                }
                            }
                            actions.push(
                                Action::Emit(DiscoveryEvent::Verified(clone_bytes(peer))),
                            );
                        }
                        actions
                    },
                }
            },
        }
    }
}

impl Engine {
    /// Remove the peer's profile, leaving every other profile in place.
    fn remove_info(&mut self, peer: &Vec<u8>)
        requires
            forall|i: int, j: int|
                0 <= i < j < old(self).peer_user_info@.len() ==> old(self).peer_user_info@[i].0@ != old(self).peer_user_info@[j].0@,
        ensures
            *final(self) == (Engine { peer_user_info: final(self).peer_user_info, ..*old(self) }),
            !kv_has(final(self).peer_user_info@, peer@),
            forall|i: int, j: int|
                0 <= i < j < final(self).peer_user_info@.len() ==> final(self).peer_user_info@[i].0@ != final(self).peer_user_info@[j].0@,
            forall|q: Seq<u8>|
                #![trigger kv_has(final(self).peer_user_info@, q)]
                #![trigger kv_has(old(self).peer_user_info@, q)]
                q != peer@ ==> (kv_has(final(self).peer_user_info@, q) <==> kv_has(
                    old(self).peer_user_info@,
                    q,
                )),
    {
        match self.find_info(peer) {
            Some(i) => {
                let ghost pre = self.peer_user_info@;
                let _ = self.peer_user_info.remove(i);
                proof {
                    pre.remove_ensures(i as int);
                    assert forall|a: int|
                        0 <= a < self.peer_user_info@.len() implies (
                    #[trigger] self.peer_user_info@[a]).0@ != peer@ by {
                        if a < i as int {
                            assert(self.peer_user_info@[a] == pre[a]);
                        } else {
                            assert(self.peer_user_info@[a] == pre[a + 1]);
                        }
                    }
                    assert forall|a: int, b: int|
                        0 <= a < b < self.peer_user_info@.len() implies
                        self.peer_user_info@[a].0@ != self.peer_user_info@[b].0@ by {}
                    if self.has_info(peer@) {
                        let w = choose|a: int|
                            0 <= a < self.peer_user_info@.len() && self.peer_user_info@[a].0@
                                == peer@;
                        assert(false);
                    }
                    assert forall|q: Seq<u8>|
                        q != peer@ implies ((#[trigger] kv_has(self.peer_user_info@, q))
                        <==> kv_has(old(self).peer_user_info@, q)) by {
                        if self.has_info(q) {
                            let w = choose|a: int|
                                0 <= a < self.peer_user_info@.len()
                                    && self.peer_user_info@[a].0@ == q;
                            if w < i as int {
                                assert(pre[w].0@ == q);
                            } else {
                                assert(pre[w + 1].0@ == q);
                            }
                        }
                        if old(self).has_info(q) {
                            let w = choose|a: int| 0 <= a < pre.len() && pre[a].0@ == q;
                            if w < i as int {
                                assert(self.peer_user_info@[w].0@ == q);
                            } else {
                                assert(self.peer_user_info@[w - 1].0@ == q);
                            }
                        }
                    }
                }
            },
            None => {
                proof {
                    if self.has_info(peer@) {
                        let w = choose|a: int|
                            0 <= a < self.peer_user_info@.len() && self.peer_user_info@[a].0@
                                == peer@;
                        assert(false);
                    }
                }
            },
        }
    }

    /// Remove the peer from the discovered set, leaving the rest in place.
    fn remove_discovered(&mut self, peer: &Vec<u8>)
        requires
            forall|i: int, j: int|
                0 <= i < j < old(self).discovered@.len() ==> old(self).discovered@[i]@ != old(self).discovered@[j]@,
        ensures
            *final(self) == (Engine { discovered: final(self).discovered, ..*old(self) }),
            !ids_has(final(self).discovered@, peer@),
            forall|i: int, j: int|
                0 <= i < j < final(self).discovered@.len() ==> final(self).discovered@[i]@
                    != final(self).discovered@[j]@,
            forall|q: Seq<u8>|
                #![trigger ids_has(final(self).discovered@, q)]
                #![trigger ids_has(old(self).discovered@, q)]
                q != peer@ ==> (ids_has(final(self).discovered@, q) <==> ids_has(
                    old(self).discovered@,
                    q,
                )),
    {
        match self.find_discovered(peer) {
            Some(i) => {
                let ghost pre = self.discovered@;
                let _ = self.discovered.remove(i);
                proof {
                    pre.remove_ensures(i as int);
                    assert forall|a: int|
                        0 <= a < self.discovered@.len() implies (
                    #[trigger] self.discovered@[a])@ != peer@ by {
                        if a < i as int {
                            assert(self.discovered@[a] == pre[a]);
                        } else {
                            assert(self.discovered@[a] == pre[a + 1]);
                        }
                    }
                    assert forall|a: int, b: int|
                        0 <= a < b < self.discovered@.len() implies self.discovered@[a]@
                        != self.discovered@[b]@ by {}
                    if self.is_discovered(peer@) {
                        let w = choose|a: int|
                            0 <= a < self.discovered@.len() && self.discovered@[a]@ == peer@;
                        assert(false);
                    }
                    assert forall|q: Seq<u8>|
                        q != peer@ implies ((#[trigger] ids_has(self.discovered@, q))
                        <==> ids_has(old(self).discovered@, q)) by {
                        if self.is_discovered(q) {
                            let w = choose|a: int|
                                0 <= a < self.discovered@.len() && self.discovered@[a]@ == q;
                            if w < i as int {
                                assert(pre[w]@ == q);
                            } else {
                                assert(pre[w + 1]@ == q);
                            }
                        }
                        if old(self).is_discovered(q) {
                            let w = choose|a: int| 0 <= a < pre.len() && pre[a]@ == q;
                            if w < i as int {
                                assert(self.discovered@[w]@ == q);
                            } else {
                                assert(self.discovered@[w - 1]@ == q);
                            }
                        }
                    }
                }
            },
            None => {
                proof {
                    if self.is_discovered(peer@) {
                        let w = choose|a: int|
                            0 <= a < self.discovered@.len() && self.discovered@[a]@ == peer@;
                        assert(false);
                    }
                }
            },
        }
    }

    /// Take the peer offline: it leaves the registry, its profile and its
    /// discovery record are dropped, and one `NodeOffline` is logged.
    fn apply_offline(&mut self, peer: &Vec<u8>)
        requires
            old(self).wf(),
        ensures
            final(self).wf(),
            !final(self).registry.has_peer(peer@),
            !kv_has(final(self).peer_user_info@, peer@),
            !final(self).is_discovered(peer@),
            final(self).log@ == old(self).log@.push(EventRec::NodeOffline(peer@)),
            final(self).chat == old(self).chat,
            final(self).health@ == old(self).health@,
            final(self).active_connections@ == old(self).active_connections@,
            final(self).running == old(self).running,
            final(self).registry.config_spec() == old(self).registry.config_spec(),
    {
        let _ = self.registry.remove_node(peer);
        let ghost info_before = self.peer_user_info@;
        proof {
            assert(info_before == old(self).peer_user_info@);
        }
        self.remove_info(peer);
        let ghost info_after = self.peer_user_info@;
        self.remove_discovered(peer);
        proof {
            assert(self.peer_user_info@ == info_after);
        }
        let ghost ev = EventRec::NodeOffline(peer@);
        proof {
            self.log = Ghost(old(self).log@.push(ev));
            lemma_log_ok_push(old(self).log@, ev);
            assert forall|p: Seq<u8>|
                #![trigger count_uir(self.log@, p)]
                count_uir(self.log@, p) <= count_off(self.log@, p) + if self.has_info(p) {
                    1int
                } else {
                    0int
                } by {
                lemma_count_push(old(self).log@, ev, p);
                assert(count_uir(self.log@, p) == count_uir(old(self).log@, p));
                if p == peer@ {
                    lemma_counts_nonneg(old(self).log@, p);
                    assert(!kv_has(self.peer_user_info@, p));
                    assert(count_off(self.log@, p) == count_off(old(self).log@, p) + 1);
                } else {
                    assert(count_off(self.log@, p) == count_off(old(self).log@, p));
                    assert(kv_has(info_after, p) <==> kv_has(info_before, p));
                    assert(kv_has(self.peer_user_info@, p) == kv_has(
                        old(self).peer_user_info@,
                        p,
                    ));
                    assert(self.has_info(p) == old(self).has_info(p));
                }
            }
            assert forall|p: Seq<u8>| self.is_discovered(p) implies live_since(self.log@, p) by {
                assert(p != peer@);
                assert(old(self).is_discovered(p));
                lemma_live_push(old(self).log@, ev, p);
            }
        }
    }

    /// A probe succeeded: the peer's failure count resets and it turns
    /// Healthy; a peer that was Unhealthy is reported recovered.
    pub fn on_ping_success(&mut self, peer: &Vec<u8>, rtt: u64, now: u64) -> (actions: Vec<
        Action,
    >)
        requires
            old(self).wf(),
            rtt < rtt_bound(),
        ensures
            final(self).wf(),
            final(self).registry == old(self).registry,
            final(self).health_status(peer@) is Healthy,
            old(self).health_status(peer@) is Unhealthy <==> (actions@.len() == 1
                && (actions@[0] matches Action::Emit(e) && rec_of(e) == EventRec::NodeRecovered(
                peer@,
            ))),
            !(old(self).health_status(peer@) is Unhealthy) ==> actions@.len() == 0,
    {
        let mut actions: Vec<Action> = Vec::new();
        let idx = self.find_health(peer);
        let (i, mut entry): (usize, NodeHealth) = match idx {
            Some(i) => {
                proof {
                    let k = choose|k: int|
                        0 <= k < self.health@.len() && self.health@[k].0@ == peer@;
                    assert(k == i as int);
                }
                let e = self.health.remove(i);
                (i, e.1)
            },
            None => (self.health.len(), NodeHealth::new()),
        };
        let was_offline = entry.is_offline();
        entry.record_success(rtt, now);
        let key = clone_bytes(peer);
        self.health.insert(i, (key, entry));
        proof {
            assert(self.health@[i as int].0@ == peer@);
            assert forall|a: int, b: int|
                0 <= a < b < self.health@.len() implies self.health@[a].0@
                != self.health@[b].0@ by {}
            assert forall|a: int|
                0 <= a < self.health@.len() implies (#[trigger] self.health@[a]).1.wf(
                self.health_config.max_failures,
            ) by {}
            let k2 = choose|k: int| 0 <= k < self.health@.len() && self.health@[k].0@ == peer@;
            assert(k2 == i as int);
            assert(self.health_status(peer@) is Healthy);
            lemma_same_info(*self, *old(self));
            lemma_same_discovered(*self, *old(self));
        }
        if was_offline {
            let ghost ev = EventRec::NodeRecovered(peer@);
            proof {
                lemma_neutral_push(*old(self), ev);
                self.log = Ghost(old(self).log@.push(ev));
                lemma_same_info(*self, *old(self));
                lemma_same_discovered(*self, *old(self));
            }
            actions.push(Action::Emit(DiscoveryEvent::NodeRecovered(clone_bytes(peer), rtt)));
        }
        actions
    }

    /// A probe failed: the failure count grows, and the threshold turns
    /// the peer Unhealthy; the transition out of Healthy takes the peer
    /// offline and reports it.
    pub fn on_ping_failure(&mut self, peer: &Vec<u8>, now: u64) -> (actions: Vec<Action>)
        requires
            old(self).wf(),
        ensures
            final(self).wf(),
            final(self).chat == old(self).chat,
            final(self).active_connections@ == old(self).active_connections@,
            ({
                let oldc = old(self).health_failures(peer@);
                &&& final(self).health_failures(peer@) == if oldc < u32::MAX {
                    oldc + 1
                } else {
                    oldc
                }
                &&& (oldc < u32::MAX ==> kv_get(final(self).health@, peer@).last_failure
                    == Some(now))
                &&& (final(self).health_status(peer@) is Unhealthy <==> (old(self).health_status(peer@) is Unhealthy || (oldc < u32::MAX && oldc + 1 >= old(self).health_config.max_failures)))
                &&& ((old(self).health_status(peer@) is Healthy && oldc < u32::MAX && oldc + 1
                    >= old(self).health_config.max_failures) <==> actions@.len() == 1)
            }),
            actions@.len() <= 1,
            actions@.len() == 1 ==> (actions@[0] matches Action::Emit(e) && rec_of(e)
                == EventRec::NodeOffline(peer@)) && old(self).health_status(peer@) is Healthy
                && final(self).health_status(peer@) is Unhealthy && !final(self).registry.has_peer(peer@)
                && final(self).log@ == old(self).log@.push(EventRec::NodeOffline(peer@)),
            actions@.len() == 0 ==> final(self).registry == old(self).registry && final(self).log@ == old(self).log@,
    {
        let mut actions: Vec<Action> = Vec::new();
        let idx = self.find_health(peer);
        let (i, mut entry): (usize, NodeHealth) = match idx {
            Some(i) => {
                proof {
                    let k = choose|k: int|
                        0 <= k < self.health@.len() && self.health@[k].0@ == peer@;
                    assert(k == i as int);
                    assert(old(self).health_failures(peer@)
                        == self.health@[i as int].1.consecutive_failures as int);
                }
                let e = self.health.remove(i);
                (i, e.1)
            },
            None => {
                proof {
                    assert(!kv_has(self.health@, peer@));
                    assert(old(self).health_failures(peer@) == 0);
                    assert(old(self).health_status(peer@) is Unknown);
                }
                (self.health.len(), NodeHealth::new())
            },
        };
        let was_healthy = match entry.status {
            HealthStatus::Healthy => true,
            _ => false,
        };
        // the failure counter saturates; at its ceiling the peer has long
        // been Unhealthy and another increment would change nothing
        if entry.consecutive_failures < u32::MAX {
            entry.record_failure(self.health_config.max_failures, now);
        }
        let offline_now = entry.is_offline();
        let key = clone_bytes(peer);
        self.health.insert(i, (key, entry));
        proof {
            assert(self.health@[i as int].0@ == peer@);
            assert forall|a: int, b: int|
                0 <= a < b < self.health@.len() implies self.health@[a].0@
                != self.health@[b].0@ by {}
            assert forall|a: int|
                0 <= a < self.health@.len() implies (#[trigger] self.health@[a]).1.wf(
                self.health_config.max_failures,
            ) by {}
            let k2 = choose|k: int| 0 <= k < self.health@.len() && self.health@[k].0@ == peer@;
            assert(k2 == i as int);
            lemma_same_info(*self, *old(self));
            lemma_same_discovered(*self, *old(self));
        }
        if offline_now && was_healthy {
            self.apply_offline(peer);
            proof {
                let k3 = choose|k: int|
                    0 <= k < self.health@.len() && self.health@[k].0@ == peer@;
                assert(k3 == i as int);
                assert(self.health_status(peer@) is Unhealthy);
            }
            actions.push(Action::Emit(DiscoveryEvent::NodeOffline(clone_bytes(peer))));
        }
        actions
    }

    /// A connection opened: the peer's count grows, and the first
    /// connection triggers one profile request.
    pub fn on_connection_established(&mut self, peer: &Vec<u8>) -> (actions: Vec<Action>)
        requires
            old(self).wf(),
        ensures
            final(self).wf(),
            *final(self) == (Engine {
                active_connections: final(self).active_connections,
                ..*old(self)
            }),
            final(self).conn_count(peer@) == if old(self).conn_count(peer@) < u32::MAX {
                old(self).conn_count(peer@) + 1
            } else {
                old(self).conn_count(peer@)
            },
            old(self).conn_count(peer@) == 0 <==> (actions@.len() == 1 && (actions@[0] matches
                Action::SendUserInfoRequest(p) && p@ == peer@)),
            old(self).conn_count(peer@) != 0 ==> actions@.len() == 0,
    {
        let mut actions: Vec<Action> = Vec::new();
        let idx = self.find_conn(peer);
        let (i, count): (usize, u32) = match idx {
            Some(i) => {
                proof {
                    let k = choose|k: int|
                        0 <= k < self.active_connections@.len()
                            && self.active_connections@[k].0@ == peer@;
                    assert(k == i as int);
                }
                let e = self.active_connections.remove(i);
                (i, e.1)
            },
            None => {
                proof {
                    assert(old(self).conn_count(peer@) == 0);
                }
                (self.active_connections.len(), 0u32)
            },
        };
        proof {
            if idx is Some {
                assert(old(self).conn_count(peer@) == count as int);
            }
        }
        let first = count == 0;
        let new_count = if count < u32::MAX {
            count + 1
        } else {
            count
        };
        let key = clone_bytes(peer);
        self.active_connections.insert(i, (key, new_count));
        proof {
            assert(self.active_connections@[i as int].0@ == peer@);
            assert forall|a: int, b: int|
                0 <= a < b < self.active_connections@.len() implies
                self.active_connections@[a].0@ != self.active_connections@[b].0@ by {}
            let k2 = choose|k: int|
                0 <= k < self.active_connections@.len() && self.active_connections@[k].0@
                    == peer@;
            assert(k2 == i as int);
            assert(self.conn_count(peer@) == new_count as int);
            lemma_same_info(*self, *old(self));
            lemma_same_discovered(*self, *old(self));
        }
        if first {
            actions.push(Action::SendUserInfoRequest(clone_bytes(peer)));
        }
        actions
    }

    /// A connection closed: the peer's count shrinks; at zero the peer is
    /// taken offline and reported, unless another path already removed it.
    pub fn on_connection_closed(&mut self, peer: &Vec<u8>) -> (actions: Vec<Action>)
        requires
            old(self).wf(),
        ensures
            final(self).wf(),
            final(self).chat == old(self).chat,
            final(self).conn_count(peer@) == if old(self).conn_count(peer@) > 0 {
                old(self).conn_count(peer@) - 1
            } else {
                0
            },
            final(self).conn_count(peer@) == 0 ==> !final(self).registry.has_peer(peer@),
            actions@.len() <= 1,
            actions@.len() == 1 <==> (final(self).conn_count(peer@) == 0 && old(self).registry.has_peer(peer@)),
            actions@.len() == 1 ==> (actions@[0] matches Action::Emit(e) && rec_of(e)
                == EventRec::NodeOffline(peer@)) && final(self).log@ == old(self).log@.push(
                EventRec::NodeOffline(peer@),
            ),
            actions@.len() == 0 ==> final(self).registry == old(self).registry && final(self).log@ == old(self).log@,
    {
        let mut actions: Vec<Action> = Vec::new();
        let idx = self.find_conn(peer);
        let (i, count): (usize, u32) = match idx {
            Some(i) => {
                proof {
                    let k = choose|k: int|
                        0 <= k < self.active_connections@.len()
                            && self.active_connections@[k].0@ == peer@;
                    assert(k == i as int);
                    assert(old(self).conn_count(peer@)
                        == self.active_connections@[i as int].1 as int);
                }
                let e = self.active_connections.remove(i);
                (i, e.1)
            },
            None => {
                proof {
                    assert(!kv_has(self.active_connections@, peer@));
                    assert(old(self).conn_count(peer@) == 0);
                }
                (self.active_connections.len(), 0u32)
            },
        };
        let new_count = if count > 0 {
            count - 1
        } else {
            0
        };
        let key = clone_bytes(peer);
        self.active_connections.insert(i, (key, new_count));
        proof {
            assert(self.active_connections@[i as int].0@ == peer@);
            assert forall|a: int, b: int|
                0 <= a < b < self.active_connections@.len() implies
                self.active_connections@[a].0@ != self.active_connections@[b].0@ by {}
            let k2 = choose|k: int|
                0 <= k < self.active_connections@.len() && self.active_connections@[k].0@
                    == peer@;
            assert(k2 == i as int);
            assert(self.conn_count(peer@) == new_count as int);
            lemma_same_info(*self, *old(self));
            lemma_same_discovered(*self, *old(self));
        }
        if new_count == 0 {
            if self.registry.is_node_verified(peer) {
                self.apply_offline(peer);
                actions.push(Action::Emit(DiscoveryEvent::NodeOffline(clone_bytes(peer))));
                proof {
                    let k3 = choose|k: int|
                        0 <= k < self.active_connections@.len()
                            && self.active_connections@[k].0@ == peer@;
                    assert(k3 == i as int);
                }
            }
        }
        actions
    }

    /// A peer asked for this node's profile: answer with it.
    pub fn on_user_info_request(&self, peer: &Vec<u8>) -> (actions: Vec<Action>)
        ensures
            actions@.len() == 1,
            actions@[0] matches Action::SendUserInfoResponse(p, info) && p@ == peer@ && info@
                == self.local_user_info@,
    {
        let mut actions: Vec<Action> = Vec::new();
        actions.push(
            Action::SendUserInfoResponse(
                clone_bytes(peer),
                clone_user_info(&self.local_user_info),
            ),
        );
        actions
    }

    /// A peer sent its profile: the first profile since the peer was last
    /// seen offline is reported; later ones replace it silently.
    pub fn on_user_info_response(&mut self, peer: &Vec<u8>, info: UserInfo) -> (actions: Vec<
        Action,
    >)
        requires
            old(self).wf(),
        ensures
            final(self).wf(),
            final(self).registry == old(self).registry,
            final(self).has_info(peer@),
            !old(self).has_info(peer@) <==> (actions@.len() == 1 && (actions@[0] matches
                Action::Emit(e) && rec_of(e) == EventRec::UserInfoReceived(peer@))),
    {
        let mut actions: Vec<Action> = Vec::new();
        let idx = self.find_info(peer);
        match idx {
            Some(i) => {
                proof {
                    assert(old(self).has_info(peer@));
                }
                let _ = self.peer_user_info.remove(i);
                self.peer_user_info.insert(i, (clone_bytes(peer), info));
                proof {
                    assert(self.peer_user_info@[i as int].0@ == peer@);
                    assert(self.has_info(peer@));
                    assert forall|a: int, b: int|
                        0 <= a < b < self.peer_user_info@.len() implies
                        self.peer_user_info@[a].0@ != self.peer_user_info@[b].0@ by {}
                    lemma_same_discovered(*self, *old(self));
                    assert forall|p: Seq<u8>| self.has_info(p) == old(self).has_info(p) by {
                        if self.has_info(p) {
                            let w = choose|a: int|
                                0 <= a < self.peer_user_info@.len()
                                    && self.peer_user_info@[a].0@ == p;
                            if w == i as int {
                                assert(old(self).peer_user_info@[i as int].0@ == p);
                            } else {
                                assert(old(self).peer_user_info@[w].0@ == p);
                            }
                        }
                        if old(self).has_info(p) {
                            let w = choose|a: int|
                                0 <= a < old(self).peer_user_info@.len() && old(self).peer_user_info@[a].0@ == p;
                            if w == i as int {
                                assert(self.peer_user_info@[i as int].0@ == p);
                            } else {
                                assert(self.peer_user_info@[w].0@ == p);
                            }
                        }
                    }
                }
            },
            None => {
                self.peer_user_info.push((clone_bytes(peer), info));
                let ghost ev = EventRec::UserInfoReceived(peer@);
                proof {
                    assert(self.peer_user_info@[self.peer_user_info@.len() - 1].0@ == peer@);
                    assert(self.has_info(peer@));
                    assert forall|a: int, b: int|
                        0 <= a < b < self.peer_user_info@.len() implies
                        self.peer_user_info@[a].0@ != self.peer_user_info@[b].0@ by {
                        if b < self.peer_user_info@.len() - 1 {
                            assert(self.peer_user_info@[a] == old(self).peer_user_info@[a]);
                            assert(self.peer_user_info@[b] == old(self).peer_user_info@[b]);
                        } else {
                            assert(self.peer_user_info@[a] == old(self).peer_user_info@[a]);
                        }
                    }
                    lemma_log_ok_push(old(self).log@, ev);
                    self.log = Ghost(old(self).log@.push(ev));
                    lemma_same_discovered(*self, *old(self));
                    assert forall|p: Seq<u8>|
                        #![trigger count_uir(self.log@, p)]
                        count_uir(self.log@, p) <= count_off(self.log@, p) + if self.has_info(
                            p,
                        ) {
                            1int
                        } else {
                            0int
                        } by {
                        lemma_count_push(old(self).log@, ev, p);
                        if p == peer@ {
                            assert(self.peer_user_info@[self.peer_user_info@.len() - 1].0@
                                == p);
                            assert(self.has_info(p));
                        } else {
                            if self.has_info(p) {
                                let w = choose|a: int|
                                    0 <= a < self.peer_user_info@.len()
                                        && self.peer_user_info@[a].0@ == p;
                                assert(old(self).peer_user_info@[w].0@ == p);
                            }
                            if old(self).has_info(p) {
                                let w = choose|a: int|
                                    0 <= a < old(self).peer_user_info@.len() && old(self).peer_user_info@[a].0@ == p;
                                assert(self.peer_user_info@[w].0@ == p);
                                assert(self.has_info(p));
                            }
                        }
                    }
                    assert forall|p: Seq<u8>| self.is_discovered(p) implies live_since(
                        self.log@,
                        p,
                    ) by {
                        lemma_live_push(old(self).log@, ev, p);
                    }
                }
                actions.push(
                    Action::Emit(
                        DiscoveryEvent::UserInfoReceived(clone_bytes(peer), clone_user_info(&self.peer_user_info[self.peer_user_info.len() - 1].1)),
                    ),
                );
            },
        }
        actions
    }

    /// A chat request arrived: the message is recorded in the session and
    /// an acknowledgement goes back.
    pub fn on_chat_request(&mut self, peer: &Vec<u8>, message: ChatMessage) -> (actions: Vec<
        Action,
    >)
        requires
            old(self).wf(),
        ensures
            final(self).wf(),
            final(self).registry == old(self).registry,
            final(self).log@ == old(self).log@,
            final(self).chat.events@.len() == old(self).chat.events@.len() + 1,
            final(self).chat.has_session(peer@),
            ({
                let s = final(self).chat.sessions@[final(self).chat.session_index(peer@)];
                s.history@.len() > 0 && s.history@.last()@ == message@
            }),
            match message {
                ChatMessage::Text(_) => final(self).chat.events@.last() matches
                    crate::manager::ChatEvent::MessageReceived { from: f, message: m } && f@
                    == peer@ && m@ == message@,
                ChatMessage::TypingIndicator(t) => final(self).chat.events@.last() matches
                    crate::manager::ChatEvent::PeerTyping { from: f, is_typing: ty } && f@
                    == peer@ && ty == t.is_typing,
                ChatMessage::Ack(a) => final(self).chat.events@.last() matches
                    crate::manager::ChatEvent::MessageAcknowledged { from: f, message_id: id }
                    && f@ == peer@ && id@ == a.message_id@,
            },
            actions@.len() == 1,
            actions@[0] matches Action::SendChatResponse(p) && p@ == peer@,
    {
        self.chat.handle_received_message(peer, message);
        proof {
            lemma_same_info(*self, *old(self));
            lemma_same_discovered(*self, *old(self));
        }
        let mut actions: Vec<Action> = Vec::new();
        actions.push(Action::SendChatResponse(clone_bytes(peer)));
        actions
    }

    /// Dispatch one network event to its step function.  Each variant's
    /// clauses below restate that step's contract, so the dispatcher
    /// promises the same result and state change as the step itself.
    pub fn handle_net_event(&mut self, event: NetEvent, now: u64) -> (actions: Vec<Action>)
        requires
            old(self).wf(),
        ensures
            final(self).wf(),
            match event {
                NetEvent::Discovered { peer, addr } => {
                    &&& final(self).log@ == old(self).log@.push(EventRec::Discovered(peer@))
                    &&& final(self).is_discovered(peer@)
                    &&& *final(self) == (Engine {
                        discovered: final(self).discovered,
                        log: final(self).log,
                        ..*old(self)
                    })
                    &&& actions@.len() == 2
                    &&& (actions@[0] matches Action::Emit(e) && rec_of(e)
                        == EventRec::Discovered(peer@))
                    &&& (actions@[1] matches Action::Dial(a) && a@ == addr@)
                },
                NetEvent::Expired { peer } => {
                    &&& *final(self) == (Engine { log: final(self).log, ..*old(self) })
                    &&& final(self).log@ == old(self).log@.push(EventRec::Expired(peer@))
                    &&& actions@.len() == 1
                    &&& (actions@[0] matches Action::Emit(e) && rec_of(e) == EventRec::Expired(
                        peer@,
                    ))
                },
                NetEvent::IdentifyReceived { peer, protocol_version, agent_version, listen_addrs } => {
                    &&& (peer@ == old(self).local_peer_id@ ==> *final(self) == *old(self)
                        && actions@.len() == 0)
                    &&& (peer@ != old(self).local_peer_id@ && !crate::node::admission_ok_spec(
                        old(self).registry.config_spec(),
                        protocol_version@,
                        agent_version@,
                    ) ==> final(self).registry == old(self).registry && actions@.len() == 1
                        && (actions@[0] matches Action::Emit(e) && e matches
                        DiscoveryEvent::VerificationFailed(p, reason) && p@ == peer@ && reason@
                        == crate::node::admission_failure_reason(
                        old(self).registry.config_spec(),
                        protocol_version@,
                        agent_version@,
                    )))
                    &&& (peer@ != old(self).local_peer_id@ && crate::node::admission_ok_spec(
                        old(self).registry.config_spec(),
                        protocol_version@,
                        agent_version@,
                    ) && old(self).is_discovered(peer@) ==> final(self).registry.has_peer(
                        peer@,
                    ) && (!old(self).registry.has_peer(peer@) ==> actions@.len() == 1 && (
                    actions@[0] matches Action::Emit(e) && rec_of(e) == EventRec::Verified(
                        peer@,
                    ))) && (old(self).registry.has_peer(peer@) ==> actions@.len() == 0))
                    &&& (!old(self).is_discovered(peer@) && peer@ != old(self).local_peer_id@
                        && crate::node::admission_ok_spec(
                        old(self).registry.config_spec(),
                        protocol_version@,
                        agent_version@,
                    ) ==> final(self).registry == old(self).registry && actions@.len() == 0)
                },
                NetEvent::PingSuccess { peer, rtt } => {
                    &&& final(self).registry == old(self).registry
                    &&& final(self).health_status(peer@) is Healthy
                    &&& (old(self).health_status(peer@) is Unhealthy <==> (actions@.len() == 1
                        && (actions@[0] matches Action::Emit(e) && rec_of(e)
                        == EventRec::NodeRecovered(peer@))))
                    &&& (!(old(self).health_status(peer@) is Unhealthy) ==> actions@.len()
                        == 0)
                },
                NetEvent::PingFailure { peer } => {
                    let oldc = old(self).health_failures(peer@);
                    &&& final(self).health_failures(peer@) == if oldc < u32::MAX {
                        oldc + 1
                    } else {
                        oldc
                    }
                    &&& (final(self).health_status(peer@) is Unhealthy <==> (old(
                        self,
                    ).health_status(peer@) is Unhealthy || (oldc < u32::MAX && oldc + 1 >= old(
                        self,
                    ).health_config.max_failures)))
                    &&& ((old(self).health_status(peer@) is Healthy && oldc < u32::MAX && oldc
                        + 1 >= old(self).health_config.max_failures) <==> actions@.len() == 1)
                    &&& (actions@.len() == 1 ==> (actions@[0] matches Action::Emit(e) && rec_of(
                        e,
                    ) == EventRec::NodeOffline(peer@)) && !final(self).registry.has_peer(
                        peer@,
                    ))
                    &&& (actions@.len() == 0 ==> final(self).registry == old(self).registry)
                },
                NetEvent::ConnectionEstablished { peer } => {
                    &&& *final(self) == (Engine {
                        active_connections: final(self).active_connections,
                        ..*old(self)
                    })
                    &&& final(self).conn_count(peer@) == if old(self).conn_count(peer@)
                        < u32::MAX {
                        old(self).conn_count(peer@) + 1
                    } else {
                        old(self).conn_count(peer@)
                    }
                    &&& (old(self).conn_count(peer@) == 0 <==> (actions@.len() == 1 && (
                    actions@[0] matches Action::SendUserInfoRequest(p) && p@ == peer@)))
                },
                NetEvent::ConnectionClosed { peer } => {
                    &&& final(self).conn_count(peer@) == if old(self).conn_count(peer@) > 0 {
                        old(self).conn_count(peer@) - 1
                    } else {
                        0
                    }
                    &&& (final(self).conn_count(peer@) == 0 ==> !final(self).registry.has_peer(
                        peer@,
                    ))
                    &&& (actions@.len() == 1 <==> (final(self).conn_count(peer@) == 0 && old(
                        self,
                    ).registry.has_peer(peer@)))
                    &&& (actions@.len() == 1 ==> (actions@[0] matches Action::Emit(e) && rec_of(
                        e,
                    ) == EventRec::NodeOffline(peer@)))
                    &&& (actions@.len() == 0 ==> final(self).registry == old(self).registry)
                },
                NetEvent::UserInfoRequestArrived { peer } => {
                    &&& *final(self) == *old(self)
                    &&& actions@.len() == 1
                    &&& (actions@[0] matches Action::SendUserInfoResponse(p, info) && p@
                        == peer@ && info@ == old(self).local_user_info@)
                },
                NetEvent::UserInfoResponseArrived { peer, info } => {
                    &&& final(self).registry == old(self).registry
                    &&& final(self).has_info(peer@)
                    &&& (!old(self).has_info(peer@) <==> (actions@.len() == 1 && (actions@[0]
                        matches Action::Emit(e) && rec_of(e) == EventRec::UserInfoReceived(
                        peer@,
                    ))))
                },
                NetEvent::ChatRequestArrived { peer, message } => {
                    &&& final(self).registry == old(self).registry
                    &&& final(self).log@ == old(self).log@
                    &&& final(self).chat.events@.len() == old(self).chat.events@.len() + 1
                    &&& final(self).chat.has_session(peer@)
                    &&& ({
                        let s = final(self).chat.sessions@[final(self).chat.session_index(
                            peer@,
                        )];
                        s.history@.len() > 0 && s.history@.last()@ == message@
                    })
                    &&& (match message {
                        ChatMessage::Text(_) => final(self).chat.events@.last() matches
                            crate::manager::ChatEvent::MessageReceived { from: f, message: m }
                            && f@ == peer@ && m@ == message@,
                        ChatMessage::TypingIndicator(t) => final(self).chat.events@.last()
                            matches crate::manager::ChatEvent::PeerTyping {
                            from: f,
                            is_typing: ty,
                        } && f@ == peer@ && ty == t.is_typing,
                        ChatMessage::Ack(a) => final(self).chat.events@.last() matches
                            crate::manager::ChatEvent::MessageAcknowledged {
                            from: f,
                            message_id: id,
                        } && f@ == peer@ && id@ == a.message_id@,
                    })
                    &&& actions@.len() == 1
                    &&& (actions@[0] matches Action::SendChatResponse(p) && p@ == peer@)
                },
                NetEvent::ChatResponseArrived { .. } => *final(self) == *old(self)
                    && actions@.len() == 0,
            },
    {
        match event {
            NetEvent::Discovered { peer, addr } => self.on_discovered(&peer, addr),
            NetEvent::Expired { peer } => self.on_expired(&peer),
            NetEvent::IdentifyReceived { peer, protocol_version, agent_version, listen_addrs } =>
                self.on_identify(&peer, &protocol_version, &agent_version, listen_addrs, now),
            NetEvent::PingSuccess { peer, rtt } => {
                // a round-trip time is capped so the moving average stays
                // within its range
                let capped = if rtt < 0x8000_0000_0000_0000u64 {
                    rtt
                } else {
                    0x7fff_ffff_ffff_ffffu64
                };
                self.on_ping_success(&peer, capped, now)
            },
            NetEvent::PingFailure { peer } => self.on_ping_failure(&peer, now),
            NetEvent::ConnectionEstablished { peer } => self.on_connection_established(&peer),
            NetEvent::ConnectionClosed { peer } => self.on_connection_closed(&peer),
            NetEvent::UserInfoRequestArrived { peer } => self.on_user_info_request(&peer),
            NetEvent::UserInfoResponseArrived { peer, info } => self.on_user_info_response(
                &peer,
                info,
            ),
            NetEvent::ChatRequestArrived { peer, message } => self.on_chat_request(
                &peer,
                message,
            ),
            NetEvent::ChatResponseArrived { peer: _, received: _ } => Vec::new(),
        }
    }
}

/// The canonical form of a target that parses as a peer identifier.
pub open spec fn parsed_target(t: Vec<u8>) -> Seq<u8> {
    crate::identity::parsed_peer_id(t@)->Some_0
}

/// How many of the given raw targets name peers outside the registry,
/// counting each by its canonical form.
pub open spec fn count_unverified_targets(registry: NodeManager, ts: Seq<Vec<u8>>) -> int
    decreases ts.len(),
{
    if ts.len() == 0 {
        0
    } else {
        count_unverified_targets(registry, ts.drop_last()) + if registry.has_peer(
            parsed_target(ts.last()),
        ) {
            0int
        } else {
            1int
        }
    }
}

/// How many wire sends a list of actions carries.
pub open spec fn count_chat_sends(acts: Seq<Action>) -> int
    decreases acts.len(),
{
    if acts.len() == 0 {
        0
    } else {
        count_chat_sends(acts.drop_last()) + if acts.last() is SendChatRequest {
            1int
        } else {
            0int
        }
    }
}

/// A raw-target count agrees with the count over the parsed forms.
proof fn lemma_counts_match(registry: NodeManager, targets: Seq<Vec<u8>>, parsed: Seq<Vec<u8>>)
    requires
        parsed.len() == targets.len(),
        forall|k: int|
            0 <= k < targets.len() ==> (#[trigger] parsed[k])@ == parsed_target(targets[k]),
    ensures
        crate::manager::count_unverified(registry, parsed) == count_unverified_targets(
            registry,
            targets,
        ),
    decreases targets.len(),
{
    if targets.len() > 0 {
        assert forall|k: int|
            0 <= k < targets.drop_last().len() implies (#[trigger] parsed.drop_last()[k])@
            == parsed_target(targets.drop_last()[k]) by {
            assert(parsed.drop_last()[k] == parsed[k]);
            assert(targets.drop_last()[k] == targets[k]);
        }
        lemma_counts_match(registry, targets.drop_last(), parsed.drop_last());
        assert(parsed.last()@ == parsed_target(targets.last()));
    }
}

/// Appending one action changes the send count by its own contribution.
proof fn lemma_count_sends_snoc(acts: Seq<Action>, a: Action)
    ensures
        count_chat_sends(acts.push(a)) == count_chat_sends(acts) + if a is SendChatRequest {
            1int
        } else {
            0int
        },
{
    assert(acts.push(a).drop_last() =~= acts);
    assert(acts.push(a).last() == a);
}

/// Extending a list of actions with dial actions alone keeps its send
/// count.
proof fn lemma_count_sends_dials(pre: Seq<Action>, post: Seq<Action>)
    requires
        post.len() >= pre.len(),
        forall|i: int| 0 <= i < pre.len() ==> post[i] == pre[i],
        forall|k: int| pre.len() <= k < post.len() ==> (#[trigger] post[k]) is Dial,
    ensures
        count_chat_sends(post) == count_chat_sends(pre),
    decreases post.len() - pre.len(),
{
    if post.len() == pre.len() {
        assert(post =~= pre);
    } else {
        assert(post.last() is Dial);
        lemma_count_sends_dials(pre, post.drop_last());
        assert(count_chat_sends(post) == count_chat_sends(post.drop_last()));
    }
}

impl Engine {
    /// Handle one consumer command.  A stopped engine refuses everything
    /// with `NotInitialized`; `Ping` always succeeds on a running engine;
    /// `Stop` stops it; sends are validated, queued in the chat layer, and
    /// turned into wire actions.
    pub fn handle_command(&mut self, command: Command) -> (r: (CommandReply, Vec<Action>))
        requires
            old(self).wf(),
        ensures
            final(self).wf(),
            !old(self).running ==> (r.0 matches CommandReply::Failed(e) && e is NotInitialized)
                && *final(self) == *old(self) && r.1@.len() == 0,
            old(self).running ==> match command {
                Command::Ping => (r.0 is Accepted) && *final(self) == *old(self) && r.1@.len()
                    == 0,
                Command::Stop => (r.0 is Accepted) && !final(self).running && r.1@.len() == 0,
                Command::SendMessage { target, text } => ({
                    let pr = crate::identity::parsed_peer_id(target@);
                    &&& (pr is None ==> (r.0 matches CommandReply::Failed(e) && e matches
                        EngineError::InvalidArgument(t) && t@ == target@) && r.1@.len() == 0
                        && *final(self) == *old(self))
                    &&& (pr matches Some(c) ==> {
                        &&& (!old(self).registry.has_peer(c) ==> (r.0 matches
                            CommandReply::Failed(e) && e matches EngineError::NodeNotVerified(
                            v,
                        ) && v@ == c) && r.1@.len() == 0 && *final(self) == *old(self))
                        &&& (old(self).registry.has_peer(c) ==> (r.0 is Accepted) && r.1@.len()
                            >= 1 && (r.1@.last() matches Action::SendChatRequest(p, m) && p@
                            == c && (m matches ChatMessage::Text(t2) && t2.content@ == text@
                            && t2.reply_to is None)) && (forall|i: int|
                            0 <= i < r.1@.len() - 1 ==> (#[trigger] r.1@[i]) is Dial) && (old(self).conn_count(c) != 0 ==> r.1@.len() == 1) && (old(self).conn_count(c)
                            == 0 ==> ({
                            let addrs = old(self).registry.nodes_spec()[old(self).registry.peer_index(c)].addresses@;
                            &&& r.1@.len() == addrs.len() + 1
                            &&& forall|k: int|
                                0 <= k < addrs.len() ==> ((#[trigger] r.1@[k]) matches
                                    Action::Dial(a) && a@ == addrs[k]@)
                        })) && final(self).chat.has_session(c) && final(self).chat.events@.len()
                            == old(self).chat.events@.len() + 1 && (final(self).chat.events@.last() matches crate::manager::ChatEvent::MessageSent {
                            to,
                            ..
                        } && to@ == c))
                    })
                }),
                Command::BroadcastMessage { targets, text } => ({
                    &&& ((exists|j: int|
                        0 <= j < targets@.len() && crate::identity::parsed_peer_id(
                            (#[trigger] targets@[j])@,
                        ) is None) ==> (r.0 matches CommandReply::Failed(e) && e matches
                        EngineError::InvalidArgument(t) && (exists|j: int|
                        {
                            &&& 0 <= j < targets@.len()
                            &&& crate::identity::parsed_peer_id((#[trigger] targets@[j])@)
                                is None
                            &&& t@ == targets@[j]@
                            &&& forall|k: int|
                                0 <= k < j ==> crate::identity::parsed_peer_id(
                                    (#[trigger] targets@[k])@,
                                ) is Some
                        })) && r.1@.len() == 0 && *final(self) == *old(self))
                    &&& ((forall|j: int|
                        0 <= j < targets@.len() ==> crate::identity::parsed_peer_id(
                            (#[trigger] targets@[j])@,
                        ) is Some) ==> ({
                        let n = count_unverified_targets(old(self).registry, targets@);
                        &&& (r.0 is Accepted <==> n == 0)
                        &&& (r.0 matches CommandReply::Failed(e) ==> e matches
                            EngineError::PartialFailure(k) && k == n && n > 0)
                        &&& count_chat_sends(r.1@) == targets@.len() - n
                        &&& (forall|i: int|
                            0 <= i < r.1@.len() ==> ((#[trigger] r.1@[i]) is Dial || r.1@[i]
                                is SendChatRequest))
                        &&& (forall|i: int|
                            0 <= i < r.1@.len() ==> ((#[trigger] r.1@[i]) matches
                                Action::SendChatRequest(p, m) ==> (old(self).registry.has_peer(p@) && (exists|j: int|
                                0 <= j < targets@.len() && p@ == parsed_target(
                                    #[trigger] targets@[j],
                                )) && (m matches ChatMessage::Text(t2) && t2.content@
                                == text@))))
                    }))
                }),
            },
    {
        let mut actions: Vec<Action> = Vec::new();
        if !self.running {
            return (CommandReply::Failed(EngineError::NotInitialized), actions);
        }
        match command {
            Command::Ping => (CommandReply::Accepted, actions),
            Command::Stop => {
                self.running = false;
                proof {
                    lemma_same_info(*self, *old(self));
                    lemma_same_discovered(*self, *old(self));
                }
                (CommandReply::Accepted, actions)
            },
            Command::SendMessage { target, text } => {
                let canonical = match crate::identity::parse_peer_id(&target) {
                    Some(c) => c,
                    None => {
                        return (
                            CommandReply::Failed(EngineError::InvalidArgument(target)),
                            actions,
                        );
                    },
                };
                let message = ChatMessage::text(text);
                let copy = clone_message(&message);
                match self.chat.send(&self.registry, &canonical, copy) {
                    Err(e) => {
                        proof {
                            lemma_same_info(*self, *old(self));
                            lemma_same_discovered(*self, *old(self));
                        }
                        (CommandReply::Failed(EngineError::NodeNotVerified(canonical)), actions)
                    },
                    Ok(()) => {
                        proof {
                            lemma_same_info(*self, *old(self));
                            lemma_same_discovered(*self, *old(self));
                            assert(crate::manager::msg_id_view(copy@) is Some);
                        }
                        let ghost pre_dials = actions@;
                        self.push_dials(&canonical, &mut actions);
                        proof {
                            assert(pre_dials.len() == 0);
                            let pv = canonical@;
                            assert(self.conn_count(pv) == old(self).conn_count(pv));
                            if self.conn_count(pv) == 0 && self.registry.has_peer(pv) {
                                let addrs = self.registry.nodes_spec()[self.registry.peer_index(
                                    pv,
                                )].addresses@;
                                assert(actions@.len() == addrs.len());
                                assert forall|k: int|
                                    0 <= k < addrs.len() implies ((#[trigger] actions@[k])
                                    matches Action::Dial(a) && a@ == addrs[k]@) by {
                                    assert(actions@[pre_dials.len() + k] matches Action::Dial(
                                        a2,
                                    ) && a2@ == addrs[k]@);
                                    assert(pre_dials.len() + k == k);
                                }
                            } else {
                                assert(actions@ == pre_dials);
                            }
                        }
                        actions.push(Action::SendChatRequest(canonical, message));
                        (CommandReply::Accepted, actions)
                    },
                }
            },
            Command::BroadcastMessage { targets, text } => {
                let mut parsed: Vec<Vec<u8>> = Vec::new();
                let mut i: usize = 0;
                while i < targets.len()
                    invariant
                        old(self).running,
                        command == (Command::BroadcastMessage { targets, text }),
                        i <= targets@.len(),
                        parsed@.len() == i,
                        actions@.len() == 0,
                        self.wf(),
                        *self == *old(self),
                        forall|k: int|
                            0 <= k < i ==> crate::identity::parsed_peer_id(
                                (#[trigger] targets@[k])@,
                            ) is Some,
                        forall|k: int|
                            0 <= k < i ==> (#[trigger] parsed@[k])@ == parsed_target(
                                targets@[k],
                            ),
                    decreases targets@.len() - i,
                {
                    match crate::identity::parse_peer_id(&targets[i]) {
                        Some(c) => {
                            parsed.push(c);
                        },
                        None => {
                            return (
                                CommandReply::Failed(
                                    EngineError::InvalidArgument(
                                        crate::manager::clone_bytes(&targets[i]),
                                    ),
                                ),
                                actions,
                            );
                        },
                    }
                    i += 1;
                }
                let message = ChatMessage::text(text);
                let copy = clone_message(&message);
                let sent = self.chat.broadcast(&self.registry, &parsed, copy);
                proof {
                    lemma_same_info(*self, *old(self));
                    lemma_same_discovered(*self, *old(self));
                    lemma_counts_match(old(self).registry, targets@, parsed@);
                }
                let mut j: usize = 0;
                proof {
                    assert(parsed@.take(0int) =~= Seq::<Vec<u8>>::empty());
                }
                while j < parsed.len()
                    invariant
                        old(self).running,
                        command == (Command::BroadcastMessage { targets, text }),
                        j <= parsed@.len(),
                        parsed@.len() == targets@.len(),
                        self.wf(),
                        self.registry == old(self).registry,
                        self.peer_user_info@ == old(self).peer_user_info@,
                        self.discovered@ == old(self).discovered@,
                        self.log@ == old(self).log@,
                        message matches ChatMessage::Text(mt) && mt.content@ == text@
                            && mt.reply_to is None,
                        forall|k: int|
                            0 <= k < targets@.len() ==> crate::identity::parsed_peer_id(
                                (#[trigger] targets@[k])@,
                            ) is Some,
                        forall|k: int|
                            0 <= k < targets@.len() ==> (#[trigger] parsed@[k])@
                                == parsed_target(targets@[k]),
                        count_chat_sends(actions@) == j - crate::manager::count_unverified(
                            old(self).registry,
                            parsed@.take(j as int),
                        ),
                        forall|a: int|
                            0 <= a < actions@.len() ==> ((#[trigger] actions@[a]) is Dial
                                || actions@[a] is SendChatRequest),
                        forall|a: int|
                            0 <= a < actions@.len() ==> ((#[trigger] actions@[a]) matches
                                Action::SendChatRequest(p, m) ==> (old(self).registry.has_peer(p@) && (exists|jj: int|
                                0 <= jj < targets@.len() && p@ == parsed_target(
                                    #[trigger] targets@[jj],
                                )) && (m matches ChatMessage::Text(t2) && t2.content@
                                == text@))),
                    decreases parsed@.len() - j,
                {
                    proof {
                        assert(parsed@.take(j + 1 as int).drop_last() =~= parsed@.take(
                            j as int,
                        ));
                        assert(parsed@.take(j + 1 as int).last() == parsed@[j as int]);
                    }
                    if self.registry.is_node_verified(&parsed[j]) {
                        let ghost pre = actions@;
                        self.push_dials(&crate::manager::clone_bytes(&parsed[j]), &mut actions);
                        proof {
                            let pv = parsed@[j as int]@;
                            if self.conn_count(pv) == 0 && self.registry.has_peer(pv) {
                                let addrs = self.registry.nodes_spec()[self.registry.peer_index(
                                    pv,
                                )].addresses@;
                                assert(actions@.len() == pre.len() + addrs.len());
                                assert forall|a: int|
                                    pre.len() <= a < actions@.len() implies (
                                #[trigger] actions@[a]) is Dial by {
                                    let k2 = a - pre.len();
                                    assert(actions@[pre.len() + k2] matches Action::Dial(x)
                                        && x@ == addrs[k2]@);
                                }
                            } else {
                                assert(actions@ == pre);
                            }
                            lemma_count_sends_dials(pre, actions@);
                            assert forall|a: int|
                                0 <= a < actions@.len() implies ((#[trigger] actions@[a])
                                is Dial || actions@[a] is SendChatRequest) by {
                                if a < pre.len() {
                                    assert(actions@[a] == pre[a]);
                                }
                            }
                            assert forall|a: int|
                                0 <= a < actions@.len() && !((#[trigger] actions@[a])
                                is Dial) implies actions@[a] == pre[a] by {}
                        }
                        let ghost pre2 = actions@;
                        actions.push(
                            Action::SendChatRequest(
                                crate::manager::clone_bytes(&parsed[j]),
                                clone_message(&message),
                            ),
                        );
                        proof {
                            lemma_count_sends_snoc(pre2, actions@.last());
                            assert(actions@ == pre2.push(actions@.last()));
                            let last = actions@.last();
                            assert(last matches Action::SendChatRequest(p, m) && p@
                                == parsed@[j as int]@);
                            assert(parsed@[j as int]@ == parsed_target(targets@[j as int]));
                        }
                    }
                    j += 1;
                }
                proof {
                    assert(parsed@.take(parsed@.len() as int) =~= parsed@);
                }
                match sent {
                    Ok(()) => (CommandReply::Accepted, actions),
                    Err(crate::message::ChatError::PartialFailure(n)) => (
                        CommandReply::Failed(EngineError::PartialFailure(n)),
                        actions,
                    ),
                    Err(_) => (
                        CommandReply::Failed(EngineError::SendFailed(Vec::new())),
                        actions,
                    ),
                }
            },
        }
    }

    /// Queue one dial action per known address of a peer that has no open
    /// connection, so a send can reach it; a connected or unknown peer
    /// gets none.
    fn push_dials(&self, peer: &Vec<u8>, actions: &mut Vec<Action>)
        requires
            self.wf(),
        ensures
            self.conn_count(peer@) != 0 || !self.registry.has_peer(peer@) ==> final(actions)@
                == old(actions)@,
            self.conn_count(peer@) == 0 && self.registry.has_peer(peer@) ==> ({
                let addrs = self.registry.nodes_spec()[self.registry.peer_index(
                    peer@,
                )].addresses@;
                &&& final(actions)@.len() == old(actions)@.len() + addrs.len()
                &&& (forall|i: int|
                    0 <= i < old(actions)@.len() ==> final(actions)@[i] == old(actions)@[i])
                &&& (forall|k: int|
                    0 <= k < addrs.len() ==> ((#[trigger] final(actions)@[old(actions)@.len()
                        + k]) matches Action::Dial(a) && a@ == addrs[k]@))
            }),
    {
        let connected = match self.find_conn(peer) {
            Some(i) => {
                proof {
                    let k = choose|k: int|
                        0 <= k < self.active_connections@.len()
                            && self.active_connections@[k].0@ == peer@;
                    assert(k == i as int);
                    assert(self.conn_count(peer@) == self.active_connections@[i as int].1
                        as int);
                }
                self.active_connections[i].1 > 0
            },
            None => {
                proof {
                    assert(!kv_has(self.active_connections@, peer@));
                    assert(self.conn_count(peer@) == 0);
                }
                false
            },
        };
        if !connected {
            match self.registry.get_node(peer) {
                Some(node) => {
                    let mut i: usize = 0;
                    while i < node.addresses.len()
                        invariant
                            i <= node.addresses@.len(),
                            self.wf(),
                            self.registry.has_peer(peer@),
                            *node == self.registry.nodes_spec()[self.registry.peer_index(
                                peer@,
                            )],
                            actions@.len() == old(actions)@.len() + i,
                            forall|j: int|
                                0 <= j < old(actions)@.len() ==> actions@[j] == old(
                                    actions,
                                )@[j],
                            forall|k: int|
                                0 <= k < i ==> ((#[trigger] actions@[old(actions)@.len() + k])
                                    matches Action::Dial(a) && a@ == node.addresses@[k]@),
                        decreases node.addresses@.len() - i,
                    {
                        actions.push(
                            Action::Dial(crate::manager::clone_bytes(&node.addresses[i])),
                        );
                        i += 1;
                    }
                },
                None => {},
            }
        }
    }

    /// Drain the chat events recorded so far, oldest first.
    pub fn take_chat_events(&mut self) -> (r: Vec<crate::manager::ChatEvent>)
        requires
            old(self).wf(),
        ensures
            final(self).wf(),
            r == old(self).chat.events,
            final(self).chat.events@.len() == 0,
    {
        let r = self.chat.take_events();
        proof {
            lemma_same_info(*self, *old(self));
            lemma_same_discovered(*self, *old(self));
        }
        r
    }

    /// Drop the health record kept for a peer.
    pub fn remove_health(&mut self, peer: &Vec<u8>)
        requires
            old(self).wf(),
        ensures
            final(self).wf(),
            forall|j: int|
                0 <= j < final(self).health@.len() ==> (#[trigger] final(self).health@[j]).0@
                    != peer@,
    {
        match self.find_health(peer) {
            Some(i) => {
                let ghost pre = self.health@;
                let _ = self.health.remove(i);
                proof {
                    pre.remove_ensures(i as int);
                    assert forall|a: int|
                        0 <= a < self.health@.len() implies (#[trigger] self.health@[a]).0@
                        != peer@ by {
                        if a < i as int {
                            assert(self.health@[a] == pre[a]);
                        } else {
                            assert(self.health@[a] == pre[a + 1]);
                        }
                    }
                    assert forall|a: int, b: int|
                        0 <= a < b < self.health@.len() implies self.health@[a].0@
                        != self.health@[b].0@ by {}
                    assert forall|a: int|
                        0 <= a < self.health@.len() implies (#[trigger] self.health@[a]).1.wf(
                        self.health_config.max_failures,
                    ) by {}
                    lemma_same_info(*self, *old(self));
                    lemma_same_discovered(*self, *old(self));
                }
            },
            None => {},
        }
    }

    /// The liveness configuration in effect.
    pub fn health_config(&self) -> (r: &HealthCheckConfig)
        ensures
            r == self.health_config,
    {
        &self.health_config
    }

    /// Every profile on file, by peer.
    pub fn list_user_info(&self) -> (r: &Vec<(Vec<u8>, UserInfo)>)
        ensures
            r@ == self.peer_user_info@,
    {
        &self.peer_user_info
    }

    /// The verified nodes, as the registry holds them.
    pub fn list_verified_nodes(&self) -> (r: &Vec<VerifiedNode>)
        ensures
            r@ == self.registry.nodes_spec(),
    {
        self.registry.list_nodes()
    }
}

/// The loop-health decision: the loop counts as alive exactly when its
/// ping command was answered within 100 milliseconds and some discovery
/// event was observed within the last 10 seconds.  Either failing means
/// the loop should be restarted.
pub fn is_event_loop_alive(
    ping_reply_millis: Option<u64>,
    millis_since_last_event: u64,
) -> (r: bool)
    ensures
        r == (ping_reply_millis matches Some(t) && t <= 100 && millis_since_last_event
            <= 10_000),
{
    match ping_reply_millis {
        Some(t) => t <= 100 && millis_since_last_event <= 10_000,
        None => false,
    }
}

/// Every `Verified` event in an engine's stream was preceded by a
/// `Discovered` event for the same peer, with no `NodeOffline` for that
/// peer in between.
pub proof fn lemma_verified_preceded_by_discovery(eng: Engine, i: int, p: Seq<u8>)
    requires
        eng.wf(),
        0 <= i < eng.log@.len(),
        eng.log@[i] == EventRec::Verified(p),
    ensures
        verified_ok_at(eng.log@, i, p),
{
}

/// For any peer, the stream holds at most one `UserInfoReceived` more
/// than it holds `NodeOffline` events for that peer: a profile is
/// reported once per discovery cycle.
pub proof fn lemma_user_info_reported_once(eng: Engine, p: Seq<u8>)
    requires
        eng.wf(),
    ensures
        count_uir(eng.log@, p) <= 1 + count_off(eng.log@, p),
{
    assert(count_uir(eng.log@, p) <= count_off(eng.log@, p) + if eng.has_info(p) {
        1int
    } else {
        0int
    });
}

} // verus!
