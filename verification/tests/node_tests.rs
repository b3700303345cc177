use localp2p::agent::parse_device_name;
use localp2p::node::{NodeManager, NodeManagerConfig, VerifiedNode};

fn b(s: &str) -> Vec<u8> {
    s.as_bytes().to_vec()
}

#[test]
fn test_parse_device_name_with_name() {
    let agent = b("localp2p-rust/1.0.0 (我的电脑)");
    let name = parse_device_name(&agent);
    assert_eq!(name, Some(b("我的电脑")));
}

#[test]
fn test_parse_device_name_without_name() {
    let agent = b("localp2p-rust/1.0.0");
    let name = parse_device_name(&agent);
    assert_eq!(name, None);
}

#[test]
fn test_parse_device_name_empty_parens() {
    let agent = b("localp2p-rust/1.0.0 ()");
    let name = parse_device_name(&agent);
    assert_eq!(name, None);
}

#[test]
fn test_node_manager_config_build_agent_version() {
    let config = NodeManagerConfig::new().with_device_name(b("我的设备"));
    assert_eq!(config.build_agent_version(), b("localp2p-rust/1.0.0 (我的设备)"));
}

#[test]
fn test_node_manager_config_build_agent_version_without_name() {
    let config = NodeManagerConfig::new();
    assert_eq!(config.build_agent_version(), b("localp2p-rust/1.0.0"));
}

#[test]
fn test_verified_node_without_name() {
    let peer_id = b("12D3KooWExamplePeer");
    let node = VerifiedNode::new(
        peer_id.clone(),
        Vec::new(),
        b("/localp2p/1.0.0"),
        b("localp2p-rust/1.0.0"),
        0,
    );
    assert_eq!(node.name, None);
    assert_eq!(node.display_name(), peer_id);
}

#[test]
fn test_verified_node_with_name() {
    let peer_id = b("12D3KooWExamplePeer");
    let node = VerifiedNode::new(
        peer_id.clone(),
        Vec::new(),
        b("/localp2p/1.0.0"),
        b("localp2p-rust/1.0.0 (测试设备)"),
        0,
    );
    assert_eq!(node.name, Some(b("测试设备")));
    let shown = node.display_name();
    assert!(shown.starts_with("测试设备 (".as_bytes()));
    assert!(shown.ends_with(b")"));
}

#[test]
fn test_node_timeout() {
    let peer_id = b("12D3KooWExamplePeer");
    let mut node = VerifiedNode::new(
        peer_id,
        Vec::new(),
        b("/localp2p/1.0.0"),
        b("localp2p-rust/1.0.0"),
        1_000_000,
    );
    assert!(!node.is_timeout(1_000_000, 10_000));

    node.first_seen = 900_000;
    node.last_seen = 900_000;
    assert!(node.is_timeout(1_000_000, 10_000));
}

#[test]
fn test_add_and_get_node() {
    let mut manager = NodeManager::with_default_config();
    let peer_id = b("12D3KooWExamplePeer");
    let node = VerifiedNode::new(
        peer_id.clone(),
        Vec::new(),
        b("/localp2p/1.0.0"),
        b("localp2p-rust/1.0.0"),
        0,
    );

    manager.add_or_update_node(node, 0);
    assert!(manager.is_node_verified(&peer_id));

    let retrieved = manager.get_node(&peer_id);
    assert!(retrieved.is_some());
    assert_eq!(retrieved.unwrap().peer_id, peer_id);
}

#[test]
fn test_remove_node() {
    let mut manager = NodeManager::with_default_config();
    let peer_id = b("12D3KooWExamplePeer");
    let node = VerifiedNode::new(
        peer_id.clone(),
        Vec::new(),
        b("/localp2p/1.0.0"),
        b("localp2p-rust/1.0.0"),
        0,
    );

    manager.add_or_update_node(node, 0);
    assert!(manager.is_node_verified(&peer_id));

    manager.remove_node(&peer_id);
    assert!(!manager.is_node_verified(&peer_id));
}

#[test]
fn test_verify_node_info_accepts_and_rejects() {
    let manager = NodeManager::with_default_config();
    assert!(manager
        .verify_node_info(&b("/localp2p/1.0.0"), &b("localp2p-rust/1.0.0 (x)"))
        .is_ok());
    assert!(manager
        .verify_node_info(&b("/localp2p/2.0.0"), &b("localp2p-rust/1.0.0"))
        .is_err());
    assert!(manager
        .verify_node_info(&b("/localp2p/1.0.0"), &b("otherapp/1.0.0"))
        .is_err());
}

#[test]
fn test_cleanup_inactive_reaps_only_stale_nodes() {
    let config = NodeManagerConfig::new().with_node_timeout(10_000);
    let mut manager = NodeManager::new(config);
    let fresh = b("12D3KooWFresh");
    let stale = b("12D3KooWStale");
    let mk = |id: &Vec<u8>, seen: u64| {
        let mut n = VerifiedNode::new(
            id.clone(),
            Vec::new(),
            b("/localp2p/1.0.0"),
            b("localp2p-rust/1.0.0"),
            seen,
        );
        n.last_seen = seen;
        n
    };
    manager.add_or_update_node(mk(&fresh, 95_000), 95_000);
    manager.add_or_update_node(mk(&stale, 50_000), 50_000);

    let removed = manager.cleanup_inactive(100_000);
    assert_eq!(removed, vec![stale.clone()]);
    assert!(manager.is_node_verified(&fresh));
    assert!(!manager.is_node_verified(&stale));
    // every survivor is fresher than the timeout
    for node in manager.list_nodes() {
        assert!(100_000 - node.last_seen < 10_000);
    }
}

#[test]
fn parse_inverts_build_for_ordinary_names() {
    for name in ["A", "kitchen laptop", "第三台机器", "a(b)c"] {
        let config = NodeManagerConfig::new().with_device_name(b(name));
        let agent = config.build_agent_version();
        assert_eq!(parse_device_name(&agent), Some(b(name)));
    }
}
