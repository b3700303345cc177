//! The verified-node registry.
//!
//! Peers that passed admission (protocol version equality and agent-prefix
//! match) are kept here with their addresses and liveness timestamps.  Nodes
//! idle past the configured timeout are reaped.  Times are plain
//! milliseconds; peer identifiers and text are UTF-8 bytes.

use vstd::prelude::*;

use crate::MdnsError;
use crate::agent::{build_agent_version, build_agent_version_spec, parse_device_name,
    parse_device_name_spec, push_all};
use crate::bytes::{bytes_eq, starts_with, starts_with_spec};

verus! {

/// The bytes of `"/localp2p/1.0.0"`, the default protocol version.
pub open spec fn default_protocol_version_spec() -> Seq<u8> {
    seq![47u8, 108u8, 111u8, 99u8, 97u8, 108u8, 112u8, 50u8, 112u8, 47u8, 49u8, 46u8, 48u8, 46u8, 48u8]
}

/// The bytes of `"localp2p-rust/"`, the default agent prefix.
pub open spec fn default_agent_prefix_spec() -> Seq<u8> {
    seq![108u8, 111u8, 99u8, 97u8, 108u8, 112u8, 50u8, 112u8, 45u8, 114u8, 117u8, 115u8, 116u8, 47u8]
}

/// The default protocol version string, `"/localp2p/1.0.0"`.
pub fn default_protocol_version() -> (r: Vec<u8>)
    ensures
        r@ == default_protocol_version_spec(),
{
    let mut v: Vec<u8> = Vec::new();
    v.push(47u8);
    v.push(108u8);
    v.push(111u8);
    v.push(99u8);
    v.push(97u8);
    v.push(108u8);
    v.push(112u8);
    v.push(50u8);
    v.push(112u8);
    v.push(47u8);
    v.push(49u8);
    v.push(46u8);
    v.push(48u8);
    v.push(46u8);
    v.push(48u8);
    assert(v@ =~= default_protocol_version_spec());
    v
}

/// The default agent prefix, `"localp2p-rust/"`.
pub fn default_agent_prefix() -> (r: Vec<u8>)
    ensures
        r@ == default_agent_prefix_spec(),
{
    let mut v: Vec<u8> = Vec::new();
    v.push(108u8);
    v.push(111u8);
    v.push(99u8);
    v.push(97u8);
    v.push(108u8);
    v.push(112u8);
    v.push(50u8);
    v.push(112u8);
    v.push(45u8);
    v.push(114u8);
    v.push(117u8);
    v.push(115u8);
    v.push(116u8);
    v.push(47u8);
    assert(v@ =~= default_agent_prefix_spec());
    v
}

/// Configuration of the node manager.
#[derive(Debug, Clone)]
pub struct NodeManagerConfig {
    /// A node idle for at least this long (milliseconds) is reaped.
    pub node_timeout: u64,
    /// Cadence of the reaper, in milliseconds.
    pub cleanup_interval: u64,
    /// Protocol version a peer must match exactly.
    pub expected_protocol_version: Vec<u8>,
    /// Prefix a peer's agent string must carry, if set.
    pub expected_agent_prefix: Option<Vec<u8>>,
    /// This device's name, woven into the local agent string.
    pub device_name: Option<Vec<u8>>,
}

impl Default for NodeManagerConfig {
    /// Five-minute timeout, one-minute reap cadence, the default protocol
    /// version and agent prefix, and no device name.
    fn default() -> (r: Self)
        ensures
            r.node_timeout == 300_000,
            r.cleanup_interval == 60_000,
            r.expected_protocol_version@ == default_protocol_version_spec(),
            r.expected_agent_prefix matches Some(p) && p@ == default_agent_prefix_spec(),
            r.device_name is None,
    {
        Self {
            node_timeout: 300_000,
            cleanup_interval: 60_000,
            expected_protocol_version: default_protocol_version(),
            expected_agent_prefix: Some(default_agent_prefix()),
            device_name: None,
        }
    }
}

impl NodeManagerConfig {
    /// The agent prefix in effect: the configured one, or the default.
    pub open spec fn effective_prefix_spec(self) -> Seq<u8> {
        match self.expected_agent_prefix {
            Some(p) => p@,
            None => default_agent_prefix_spec(),
        }
    }

    /// The default configuration.
    pub fn new() -> (r: Self)
        ensures
            r.node_timeout == 300_000,
            r.cleanup_interval == 60_000,
            r.expected_protocol_version@ == default_protocol_version_spec(),
            r.expected_agent_prefix matches Some(p) && p@ == default_agent_prefix_spec(),
            r.device_name is None,
    {
        Self::default()
    }

    /// Set the reap timeout, in milliseconds.
    pub fn with_node_timeout(self, timeout: u64) -> (r: Self)
        ensures
            r == (Self { node_timeout: timeout, ..self }),
    {
        Self { node_timeout: timeout, ..self }
    }

    /// Set the reap cadence, in milliseconds.
    pub fn with_cleanup_interval(self, interval: u64) -> (r: Self)
        ensures
            r == (Self { cleanup_interval: interval, ..self }),
    {
        Self { cleanup_interval: interval, ..self }
    }

    /// Set the protocol version peers must match.
    pub fn with_protocol_version(self, version: Vec<u8>) -> (r: Self)
        ensures
            r == (Self { expected_protocol_version: version, ..self }),
    {
        Self { expected_protocol_version: version, ..self }
    }

    /// Set (or clear) the required agent prefix.
    pub fn with_agent_prefix(self, prefix: Option<Vec<u8>>) -> (r: Self)
        ensures
            r == (Self { expected_agent_prefix: prefix, ..self }),
    {
        Self { expected_agent_prefix: prefix, ..self }
    }

    /// Set this device's name.
    pub fn with_device_name(self, name: Vec<u8>) -> (r: Self)
        ensures
            r == (Self { device_name: Some(name), ..self }),
    {
        Self { device_name: Some(name), ..self }
    }

    /// Build the local agent string: the effective prefix, the version tag,
    /// and the device name in parentheses when one is set.
    pub fn build_agent_version(&self) -> (r: Vec<u8>)
        ensures
            r@ == build_agent_version_spec(
                self.effective_prefix_spec(),
                match self.device_name {
                    Some(n) => Some(n@),
                    None => None,
                },
            ),
    {
        let prefix = match &self.expected_agent_prefix {
            Some(p) => {
                let mut c: Vec<u8> = Vec::new();
                push_all(&mut c, p);
                assert(c@ =~= p@);
                c
            },
            None => default_agent_prefix(),
        };
        build_agent_version(&prefix, &self.device_name)
    }
}

/// A peer that passed admission.
#[derive(Debug)]
pub struct VerifiedNode {
    /// The peer's identifier, as text bytes.
    pub peer_id: Vec<u8>,
    /// Network addresses the peer reported, as text bytes.
    pub addresses: Vec<Vec<u8>>,
    /// The protocol version the peer presented.
    pub protocol_version: Vec<u8>,
    /// The agent string the peer presented.
    pub agent_version: Vec<u8>,
    /// Device name parsed from the agent string, if present.
    pub name: Option<Vec<u8>>,
    /// When the peer was first admitted, in milliseconds.
    pub first_seen: u64,
    /// Last time the peer showed life, in milliseconds.
    pub last_seen: u64,
    /// Custom attributes, key/value pairs.
    pub attributes: Vec<(Vec<u8>, Vec<u8>)>,
}

impl VerifiedNode {
    /// Make a node record at time `now`; the device name is parsed from the
    /// agent string.
    pub fn new(
        peer_id: Vec<u8>,
        addresses: Vec<Vec<u8>>,
        protocol_version: Vec<u8>,
        agent_version: Vec<u8>,
        now: u64,
    ) -> (r: Self)
        ensures
            r.peer_id == peer_id,
            r.addresses == addresses,
            r.protocol_version == protocol_version,
            r.agent_version == agent_version,
            match r.name {
                Some(n) => parse_device_name_spec(agent_version@) == Some(n@),
                None => parse_device_name_spec(agent_version@) is None,
            },
            r.first_seen == now,
            r.last_seen == now,
            r.attributes@.len() == 0,
    {
        let name = parse_device_name(&agent_version);
        Self {
            peer_id,
            addresses,
            protocol_version,
            agent_version,
            name,
            first_seen: now,
            last_seen: now,
            attributes: Vec::new(),
        }
    }

    /// The name shown for this node: `"{name} ({peer_id})"` when a device
    /// name is known, otherwise the peer identifier alone.
    pub fn display_name(&self) -> (r: Vec<u8>)
        ensures
            match self.name {
                Some(n) => r@ == n@ + seq![32u8, 40u8] + self.peer_id@ + seq![41u8],
                None => r@ == self.peer_id@,
            },
    {
        match &self.name {
            Some(n) => {
                let mut out: Vec<u8> = Vec::new();
                push_all(&mut out, n);
                out.push(32u8);
                out.push(40u8);
                push_all(&mut out, &self.peer_id);
                out.push(41u8);
                assert(out@ =~= n@ + seq![32u8, 40u8] + self.peer_id@ + seq![41u8]);
                out
            },
            None => {
                let mut out: Vec<u8> = Vec::new();
                push_all(&mut out, &self.peer_id);
                assert(out@ =~= self.peer_id@);
                out
            },
        }
    }

    /// Refresh the liveness timestamp.
    pub fn update_last_seen(&mut self, now: u64)
        ensures
            *final(self) == (VerifiedNode { last_seen: now, ..*old(self) }),
    {
        self.last_seen = now;
    }

    /// Whether the node has been idle for at least `timeout` milliseconds
    /// at time `now`.
    pub open spec fn timed_out(self, now: u64, timeout: u64) -> bool {
        self.last_seen + timeout <= now
    }

    /// Idleness test against a timeout.
    pub fn is_timeout(&self, now: u64, timeout: u64) -> (r: bool)
        ensures
            r == self.timed_out(now, timeout),
    {
        if now < self.last_seen {
            false
        } else {
            now - self.last_seen >= timeout
        }
    }

    /// Milliseconds since the node was first admitted.
    pub fn age(&self, now: u64) -> (r: u64)
        requires
            self.first_seen <= now,
        ensures
            r == now - self.first_seen,
    {
        now - self.first_seen
    }

    /// Milliseconds since the node last showed life.
    pub fn idle_time(&self, now: u64) -> (r: u64)
        requires
            self.last_seen <= now,
        ensures
            r == now - self.last_seen,
    {
        now - self.last_seen
    }
}

/// The bytes of `"protocol version mismatch: "`, the reason prefix for a failed
/// protocol-version check.
pub open spec fn proto_mismatch_reason_spec() -> Seq<u8> {
    seq![0x70u8, 0x72u8, 0x6fu8, 0x74u8, 0x6fu8, 0x63u8, 0x6fu8, 0x6cu8, 0x20u8, 0x76u8, 0x65u8, 0x72u8, 0x73u8, 0x69u8, 0x6fu8, 0x6eu8, 0x20u8, 0x6du8, 0x69u8, 0x73u8, 0x6du8, 0x61u8, 0x74u8, 0x63u8, 0x68u8, 0x3au8, 0x20u8]
}

/// The bytes of `"agent prefix mismatch: "`, the reason prefix for a failed
/// agent-prefix check.
pub open spec fn agent_mismatch_reason_spec() -> Seq<u8> {
    seq![0x61u8, 0x67u8, 0x65u8, 0x6eu8, 0x74u8, 0x20u8, 0x70u8, 0x72u8, 0x65u8, 0x66u8, 0x69u8, 0x78u8, 0x20u8, 0x6du8, 0x69u8, 0x73u8, 0x6du8, 0x61u8, 0x74u8, 0x63u8, 0x68u8, 0x3au8, 0x20u8]
}

/// The reason reported for a failed admission: it names the check that
/// failed and carries the offending value.  The protocol version is
/// checked first.
pub open spec fn admission_failure_reason(
    cfg: NodeManagerConfig,
    protocol_version: Seq<u8>,
    agent_version: Seq<u8>,
) -> Seq<u8> {
    if protocol_version != cfg.expected_protocol_version@ {
        proto_mismatch_reason_spec() + protocol_version
    } else {
        agent_mismatch_reason_spec() + agent_version
    }
}

/// The reason prefix for a failed protocol-version check.
fn proto_mismatch_reason() -> (r: Vec<u8>)
    ensures
        r@ == proto_mismatch_reason_spec(),
{
    let mut v: Vec<u8> = Vec::new();
    v.push(0x70);
    v.push(0x72);
    v.push(0x6f);
    v.push(0x74);
    v.push(0x6f);
    v.push(0x63);
    v.push(0x6f);
    v.push(0x6c);
    v.push(0x20);
    v.push(0x76);
    v.push(0x65);
    v.push(0x72);
    v.push(0x73);
    v.push(0x69);
    v.push(0x6f);
    v.push(0x6e);
    v.push(0x20);
    v.push(0x6d);
    v.push(0x69);
    v.push(0x73);
    v.push(0x6d);
    v.push(0x61);
    v.push(0x74);
    v.push(0x63);
    v.push(0x68);
    v.push(0x3a);
    v.push(0x20);
    assert(v@ =~= proto_mismatch_reason_spec());
    v
}

/// The reason prefix for a failed agent-prefix check.
fn agent_mismatch_reason() -> (r: Vec<u8>)
    ensures
        r@ == agent_mismatch_reason_spec(),
{
    let mut v: Vec<u8> = Vec::new();
    v.push(0x61);
    v.push(0x67);
    v.push(0x65);
    v.push(0x6e);
    v.push(0x74);
    v.push(0x20);
    v.push(0x70);
    v.push(0x72);
    v.push(0x65);
    v.push(0x66);
    v.push(0x69);
    v.push(0x78);
    v.push(0x20);
    v.push(0x6d);
    v.push(0x69);
    v.push(0x73);
    v.push(0x6d);
    v.push(0x61);
    v.push(0x74);
    v.push(0x63);
    v.push(0x68);
    v.push(0x3a);
    v.push(0x20);
    assert(v@ =~= agent_mismatch_reason_spec());
    v
}

/// Admission: the protocol version matches exactly, and the agent string
/// carries the required prefix when one is configured.
pub open spec fn admission_ok_spec(
    cfg: NodeManagerConfig,
    protocol_version: Seq<u8>,
    agent_version: Seq<u8>,
) -> bool {
    &&& protocol_version == cfg.expected_protocol_version@
    &&& match cfg.expected_agent_prefix {
        Some(p) => starts_with_spec(agent_version, p@),
        None => true,
    }
}

/// The registry of verified nodes.
pub struct NodeManager {
    /// The admitted nodes; peer identifiers are unique.
    pub nodes: Vec<VerifiedNode>,
    /// The configuration the registry was made with.
    pub config: NodeManagerConfig,
}

impl NodeManager {
    /// The nodes currently in the registry.
    pub open spec fn nodes_spec(self) -> Seq<VerifiedNode> {
        self.nodes@
    }

    /// The configuration.
    pub open spec fn config_spec(self) -> NodeManagerConfig {
        self.config
    }

    /// A peer is present in the registry.
    pub open spec fn has_peer(self, id: Seq<u8>) -> bool {
        exists|i: int| 0 <= i < self.nodes@.len() && self.nodes@[i].peer_id@ == id
    }

    /// Index of a peer in the registry.
    pub open spec fn peer_index(self, id: Seq<u8>) -> int {
        choose|i: int| 0 <= i < self.nodes@.len() && self.nodes@[i].peer_id@ == id
    }

    /// Well-formed: peer identifiers are unique, and every node passed
    /// admission when it entered.
    pub open spec fn wf(self) -> bool {
        &&& forall|i: int, j: int|
            0 <= i < j < self.nodes@.len() ==> self.nodes@[i].peer_id@ != self.nodes@[j].peer_id@
        &&& forall|i: int|
            0 <= i < self.nodes@.len() ==> admission_ok_spec(
                self.config,
                #[trigger] self.nodes@[i].protocol_version@,
                self.nodes@[i].agent_version@,
            )
    }

    /// An empty registry under the given configuration.
    pub fn new(config: NodeManagerConfig) -> (r: Self)
        ensures
            r.wf(),
            r.nodes_spec().len() == 0,
            r.config_spec() == config,
    {
        Self { nodes: Vec::new(), config }
    }

    /// An empty registry under the default configuration.
    pub fn with_default_config() -> (r: Self)
        ensures
            r.wf(),
            r.nodes_spec().len() == 0,
            r.config_spec().node_timeout == 300_000,
    {
        Self::new(NodeManagerConfig::default())
    }

    /// The configuration the registry was made with.
    pub fn config(&self) -> (r: &NodeManagerConfig)
        ensures
            *r == self.config_spec(),
    {
        &self.config
    }

    /// Index of the peer in the node list, if present.
    fn find_peer(&self, peer_id: &Vec<u8>) -> (r: Option<usize>)
        ensures
            match r {
                Some(i) => i < self.nodes@.len() && self.nodes@[i as int].peer_id@ == peer_id@,
                None => !self.has_peer(peer_id@),
            },
    {
        let mut i: usize = 0;
        while i < self.nodes.len()
            invariant
                i <= self.nodes@.len(),
                forall|j: int| 0 <= j < i ==> self.nodes@[j].peer_id@ != peer_id@,
            decreases self.nodes@.len() - i,
        {
            if bytes_eq(&self.nodes[i].peer_id, peer_id) {
                return Some(i);
            }
            i += 1;
        }
        None
    }

    /// Admission check: exact protocol version, required agent prefix.
    /// A failure carries a reason naming the check that failed and the
    /// offending value.
    pub fn verify_node_info(
        &self,
        protocol_version: &Vec<u8>,
        agent_version: &Vec<u8>,
    ) -> (r: Result<(), MdnsError>)
        ensures
            r is Ok <==> admission_ok_spec(self.config, protocol_version@, agent_version@),
            r matches Err(e) ==> (e matches MdnsError::SwarmBuild(m) && m@
                == admission_failure_reason(self.config, protocol_version@, agent_version@)),
    {
        if !bytes_eq(protocol_version, &self.config.expected_protocol_version) {
            let mut msg = proto_mismatch_reason();
            push_all(&mut msg, protocol_version);
            return Err(MdnsError::SwarmBuild(msg));
        }
        match &self.config.expected_agent_prefix {
            Some(prefix) => {
                if !starts_with(agent_version, prefix) {
                    let mut msg = agent_mismatch_reason();
                    push_all(&mut msg, agent_version);
                    return Err(MdnsError::SwarmBuild(msg));
                }
            },
            None => {},
        }
        Ok(())
    }

    /// Insert a node, or refresh it: an already-present peer gets its
    /// liveness timestamp and addresses replaced, everything else kept.
    pub fn add_or_update_node(&mut self, node: VerifiedNode, now: u64)
        requires
            old(self).wf(),
            admission_ok_spec(old(self).config, node.protocol_version@, node.agent_version@),
        ensures
            final(self).wf(),
            final(self).config_spec() == old(self).config_spec(),
            final(self).has_peer(node.peer_id@),
            old(self).has_peer(node.peer_id@) ==> {
                let i = old(self).peer_index(node.peer_id@);
                &&& final(self).nodes_spec().len() == old(self).nodes_spec().len()
                &&& final(self).nodes_spec()[i] == (VerifiedNode {
                    addresses: node.addresses,
                    last_seen: now,
                    ..old(self).nodes_spec()[i]
                })
                &&& forall|j: int|
                    0 <= j < old(self).nodes_spec().len() && j != i
                        ==> final(self).nodes_spec()[j] == old(self).nodes_spec()[j]
            },
            !old(self).has_peer(node.peer_id@) ==> final(self).nodes_spec() == old(self).nodes_spec().push(node),
    {
        let idx = self.find_peer(&node.peer_id);
        match idx {
            Some(i) => {
                proof {
                    assert(old(self).has_peer(node.peer_id@));
                    let k = old(self).peer_index(node.peer_id@);
                    assert(0 <= k < old(self).nodes@.len() && old(self).nodes@[k].peer_id@ == node.peer_id@);
                    assert(k == i as int);
                }
                let VerifiedNode { addresses, .. } = node;
                let mut entry = self.nodes.remove(i);
                entry.addresses = addresses;
                entry.last_seen = now;
                let ghost e = entry;
                self.nodes.insert(i, entry);
                proof {
                    let orig = old(self).nodes@;
                    assert(self.nodes@ == orig.remove(i as int).insert(i as int, e));
                    orig.remove_ensures(i as int);
                    orig.remove(i as int).insert_ensures(i as int, e);
                    assert(self.nodes@.len() == orig.len());
                    assert(self.nodes@[i as int] == e);
                    assert forall|j: int|
                        0 <= j < orig.len() && j != i as int implies self.nodes@[j] == orig[j] by {
                        if j < i as int {
                            assert(self.nodes@[j] == orig.remove(i as int)[j]);
                        } else {
                            assert(self.nodes@[j] == orig.remove(i as int)[j - 1]);
                            assert(orig.remove(i as int)[j - 1] == orig[j]);
                        }
                    }
                    assert(e == (VerifiedNode { addresses: node.addresses, last_seen: now, ..orig[i as int] }));
                    assert(self.nodes@[i as int].peer_id@ == node.peer_id@);
                    assert(self.has_peer(node.peer_id@));
                    assert forall|a: int, b: int|
                        0 <= a < b < self.nodes@.len() implies self.nodes@[a].peer_id@
                        != self.nodes@[b].peer_id@ by {}
                }
            },
            None => {
                let ghost n = node;
                self.nodes.push(node);
                proof {
                    assert(self.nodes@ == old(self).nodes@.push(n));
                    assert(self.nodes@[self.nodes@.len() - 1] == n);
                    assert(self.nodes@[self.nodes@.len() - 1].peer_id@ == n.peer_id@);
                    assert(self.has_peer(n.peer_id@));
                    assert forall|a: int, b: int|
                        0 <= a < b < self.nodes@.len() implies self.nodes@[a].peer_id@
                        != self.nodes@[b].peer_id@ by {
                        if b < self.nodes@.len() - 1 {
                            assert(self.nodes@[a] == old(self).nodes@[a]);
                            assert(self.nodes@[b] == old(self).nodes@[b]);
                        } else {
                            assert(self.nodes@[a] == old(self).nodes@[a]);
                        }
                    }
                }
            },
        }
    }

    /// Remove a peer, returning its record.
    pub fn remove_node(&mut self, peer_id: &Vec<u8>) -> (r: Option<VerifiedNode>)
        requires
            old(self).wf(),
        ensures
            final(self).wf(),
            final(self).config_spec() == old(self).config_spec(),
            !final(self).has_peer(peer_id@),
            match r {
                Some(node) => {
                    let i = old(self).peer_index(peer_id@);
                    &&& old(self).has_peer(peer_id@)
                    &&& node == old(self).nodes_spec()[i]
                    &&& final(self).nodes_spec() == old(self).nodes_spec().remove(i)
                },
                None => !old(self).has_peer(peer_id@) && *final(self) == *old(self),
            },
    {
        let idx = self.find_peer(peer_id);
        match idx {
            Some(i) => {
                proof {
                    assert(old(self).has_peer(peer_id@));
                    let k = old(self).peer_index(peer_id@);
                    assert(0 <= k < old(self).nodes@.len() && old(self).nodes@[k].peer_id@ == peer_id@);
                    assert(k == i as int);
                }
                let node = self.nodes.remove(i);
                proof {
                    assert forall|a: int, b: int|
                        0 <= a < b < self.nodes@.len() implies self.nodes@[a].peer_id@
                        != self.nodes@[b].peer_id@ by {}
                    if self.has_peer(peer_id@) {
                        let m = choose|m: int|
                            0 <= m < self.nodes@.len() && self.nodes@[m].peer_id@ == peer_id@;
                        if m < i as int {
                            assert(old(self).nodes@[m].peer_id@ == old(self).nodes@[i as int].peer_id@);
                            assert(false);
                        } else {
                            assert(old(self).nodes@[m + 1].peer_id@ == old(self).nodes@[i as int].peer_id@);
                            assert(false);
                        }
                    }
                }
                Some(node)
            },
            None => None,
        }
    }

    /// Shared view of a peer's record.
    pub fn get_node(&self, peer_id: &Vec<u8>) -> (r: Option<&VerifiedNode>)
        requires
            self.wf(),
        ensures
            match r {
                Some(node) => self.has_peer(peer_id@) && *node == self.nodes_spec()[self.peer_index(
                    peer_id@,
                )],
                None => !self.has_peer(peer_id@),
            },
    {
        let idx = self.find_peer(peer_id);
        match idx {
            Some(i) => {
                proof {
                    assert(self.has_peer(peer_id@));
                    let k = self.peer_index(peer_id@);
                    assert(0 <= k < self.nodes@.len() && self.nodes@[k].peer_id@ == peer_id@);
                    assert(k == i as int);
                }
                Some(&self.nodes[i])
            },
            None => None,
        }
    }

    /// Whether the peer is in the registry.
    pub fn is_node_verified(&self, peer_id: &Vec<u8>) -> (r: bool)
        ensures
            r == self.has_peer(peer_id@),
    {
        match self.find_peer(peer_id) {
            Some(_) => true,
            None => false,
        }
    }

    /// All nodes in the registry.
    pub fn list_nodes(&self) -> (r: &Vec<VerifiedNode>)
        ensures
            r@ == self.nodes_spec(),
    {
        &self.nodes
    }

    /// Number of nodes in the registry.
    pub fn node_count(&self) -> (r: usize)
        ensures
            r == self.nodes_spec().len(),
    {
        self.nodes.len()
    }

    /// Reap every node idle for at least the configured timeout.  The
    /// survivors are exactly the nodes that were still fresh, in their old
    /// order, and the identifiers of the reaped nodes come back.
    pub fn cleanup_inactive(&mut self, now: u64) -> (removed: Vec<Vec<u8>>)
        requires
            old(self).wf(),
        ensures
            final(self).wf(),
            final(self).config_spec() == old(self).config_spec(),
            forall|i: int|
                0 <= i < final(self).nodes_spec().len()
                    ==> !(#[trigger] final(self).nodes_spec()[i]).timed_out(
                    now,
                    old(self).config_spec().node_timeout,
                ),
            forall|i: int|
                0 <= i < final(self).nodes_spec().len() ==> old(self).nodes_spec().contains(
                    #[trigger] final(self).nodes_spec()[i],
                ),
            forall|j: int|
                0 <= j < old(self).nodes_spec().len() && !(#[trigger] old(
                    self,
                ).nodes_spec()[j]).timed_out(now, old(self).config_spec().node_timeout)
                    ==> final(self).nodes_spec().contains(old(self).nodes_spec()[j]),
            forall|j: int|
                0 <= j < old(self).nodes_spec().len() && (#[trigger] old(
                    self,
                ).nodes_spec()[j]).timed_out(now, old(self).config_spec().node_timeout)
                    ==> exists|m: int|
                    0 <= m < removed@.len() && #[trigger] removed@[m]@ == old(
                        self,
                    ).nodes_spec()[j].peer_id@,
            final(self).nodes_spec().len() + removed@.len() == old(self).nodes_spec().len(),
    {
        let timeout = self.config.node_timeout;
        let mut removed: Vec<Vec<u8>> = Vec::new();
        let mut i: usize = 0;
        let ghost orig = self.nodes@;
        let ghost mut k: int = 0;
        while i < self.nodes.len()
            invariant
                0 <= i as int <= self.nodes@.len(),
                0 <= k <= orig.len(),
                i as int + removed@.len() == k,
                self.nodes@.len() + removed@.len() == orig.len(),
                self.nodes@.skip(i as int) =~= orig.skip(k),
                forall|m: int|
                    0 <= m < i as int ==> !(#[trigger] self.nodes@[m]).timed_out(now, timeout),
                forall|m: int| 0 <= m < i as int ==> orig.contains(#[trigger] self.nodes@[m]),
                forall|j: int|
                    0 <= j < k && !(#[trigger] orig[j]).timed_out(now, timeout) ==> exists|m: int|
                        0 <= m < i as int && #[trigger] self.nodes@[m] == orig[j],
                forall|j: int|
                    0 <= j < k && (#[trigger] orig[j]).timed_out(now, timeout) ==> exists|m: int|
                        0 <= m < removed@.len() && #[trigger] removed@[m]@ == orig[j].peer_id@,
                forall|m: int, j: int|
                    0 <= m < j < self.nodes@.len() ==> self.nodes@[m].peer_id@
                        != self.nodes@[j].peer_id@,
                forall|m: int|
                    0 <= m < self.nodes@.len() ==> admission_ok_spec(
                        self.config,
                        #[trigger] self.nodes@[m].protocol_version@,
                        self.nodes@[m].agent_version@,
                    ),
                self.config == old(self).config,
                timeout == self.config.node_timeout,
            decreases self.nodes@.len() - i,
        {
            let ghost prev = self.nodes@;
            proof {
                assert(prev[i as int] == prev.skip(i as int)[0]);
                assert(prev[i as int] == orig[k]);
                assert(orig.contains(orig[k]));
            }
            if self.nodes[i].is_timeout(now, timeout) {
                let node = self.nodes.remove(i);
                let ghost rprev = removed@;
                removed.push(node.peer_id);
                proof {
                    prev.remove_ensures(i as int);
                    assert forall|m: int|
                        0 <= m < self.nodes@.len() - i as int implies self.nodes@.skip(
                        i as int,
                    )[m] == orig.skip(k + 1)[m] by {
                        assert(self.nodes@[i as int + m] == prev[i as int + m + 1]);
                        assert(prev[i as int + m + 1] == prev.skip(i as int)[m + 1]);
                        assert(prev.skip(i as int)[m + 1] == orig.skip(k)[m + 1]);
                        assert(orig.skip(k)[m + 1] == orig[k + m + 1]);
                    }
                    assert(self.nodes@.skip(i as int) =~= orig.skip(k + 1));
                    assert(forall|m: int|
                        0 <= m < i as int ==> self.nodes@[m] == prev[m]);
                    assert(removed@[removed@.len() - 1]@ == orig[k].peer_id@);
                    assert forall|j: int|
                        0 <= j < k + 1 && (#[trigger] orig[j]).timed_out(now, timeout) implies
                        exists|m: int|
                        0 <= m < removed@.len() && #[trigger] removed@[m]@ == orig[j].peer_id@ by {
                        if j < k {
                            let m0 = choose|m: int|
                                0 <= m < rprev.len() && #[trigger] rprev[m]@ == orig[j].peer_id@;
                            assert(removed@[m0]@ == orig[j].peer_id@);
                        } else {
                            assert(removed@[removed@.len() - 1]@ == orig[j].peer_id@);
                        }
                    }
                    k = k + 1;
                }
            } else {
                proof {
                    assert(self.nodes@[i as int] == orig[k]);
                    assert(!self.nodes@[i as int].timed_out(now, timeout));
                    assert forall|m: int|
                        0 <= m < self.nodes@.len() - (i + 1) implies #[trigger] self.nodes@.skip(
                        i + 1 as int,
                    )[m] == orig.skip(k + 1)[m] by {
                        assert(self.nodes@.skip(i + 1 as int)[m] == self.nodes@[i + 1 + m]);
                        assert(self.nodes@[i + 1 + m] == self.nodes@.skip(i as int)[m + 1]);
                        assert(self.nodes@.skip(i as int)[m + 1] == orig.skip(k)[m + 1]);
                        assert(orig.skip(k)[m + 1] == orig[k + m + 1]);
                    }
                    assert(self.nodes@.skip(i + 1 as int) =~= orig.skip(k + 1));
                    k = k + 1;
                }
                i += 1;
            }
        }
        removed
    }
}

} // verus!
