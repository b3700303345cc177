use localp2p::engine::{Action, Command, CommandReply, DiscoveryEvent, Engine, EngineError, NetEvent};
use localp2p::health::HealthCheckConfig;
use localp2p::identity::IdentityManager;
use localp2p::node::{NodeManager, NodeManagerConfig};
use localp2p::user_info::UserInfo;

fn b(s: &str) -> Vec<u8> {
    s.as_bytes().to_vec()
}

fn new_engine() -> Engine {
    let registry = NodeManager::new(NodeManagerConfig::new());
    Engine::new(
        registry,
        HealthCheckConfig::default(),
        UserInfo::new(b("local device")),
        b("12D3KooWLocal"),
    )
}

fn emitted(actions: &[Action]) -> Vec<&DiscoveryEvent> {
    actions
        .iter()
        .filter_map(|a| match a {
            Action::Emit(e) => Some(e),
            _ => None,
        })
        .collect()
}

fn identify(peer: &str, proto: &str, agent: &str) -> NetEvent {
    NetEvent::IdentifyReceived {
        peer: b(peer),
        protocol_version: b(proto),
        agent_version: b(agent),
        listen_addrs: vec![b("/ip4/192.0.2.1/tcp/4001")],
    }
}

#[test]
fn discovery_then_identify_emits_verified_once() {
    let mut eng = new_engine();

    let acts = eng.handle_net_event(
        NetEvent::Discovered { peer: b("peerB"), addr: b("/ip4/192.0.2.1/tcp/4001") },
        1_000,
    );
    let evs = emitted(&acts);
    assert_eq!(evs.len(), 1);
    assert!(matches!(evs[0], DiscoveryEvent::Discovered(p, _) if *p == b("peerB")));
    assert!(acts.iter().any(|a| matches!(a, Action::Dial(_))));

    let acts = eng.handle_net_event(identify("peerB", "/localp2p/1.0.0", "localp2p-rust/1.0.0 (B)"), 2_000);
    let evs = emitted(&acts);
    assert_eq!(evs.len(), 1);
    assert!(matches!(evs[0], DiscoveryEvent::Verified(p) if *p == b("peerB")));
    assert_eq!(eng.list_verified_nodes().len(), 1);

    // a second identify refreshes silently
    let acts = eng.handle_net_event(identify("peerB", "/localp2p/1.0.0", "localp2p-rust/1.0.0 (B)"), 3_000);
    assert!(emitted(&acts).is_empty());
    assert_eq!(eng.list_verified_nodes().len(), 1);
}

#[test]
fn admission_rejection_emits_verification_failed() {
    let mut eng = new_engine();
    eng.handle_net_event(
        NetEvent::Discovered { peer: b("peerC"), addr: b("/ip4/192.0.2.2/tcp/4001") },
        1_000,
    );
    let acts = eng.handle_net_event(identify("peerC", "/localp2p/2.0.0", "localp2p-rust/1.0.0"), 2_000);
    let evs = emitted(&acts);
    assert_eq!(evs.len(), 1);
    assert!(matches!(evs[0], DiscoveryEvent::VerificationFailed(p, _) if *p == b("peerC")));
    assert!(eng.list_verified_nodes().is_empty());
}

#[test]
fn own_identity_is_skipped() {
    let mut eng = new_engine();
    eng.handle_net_event(
        NetEvent::Discovered { peer: b("12D3KooWLocal"), addr: b("/ip4/127.0.0.1/tcp/1") },
        0,
    );
    let acts = eng.handle_net_event(
        identify("12D3KooWLocal", "/localp2p/1.0.0", "localp2p-rust/1.0.0"),
        0,
    );
    assert!(acts.is_empty());
    assert!(eng.list_verified_nodes().is_empty());
}

#[test]
fn health_transitions_drive_offline_and_recovery() {
    let mut eng = new_engine();
    eng.handle_net_event(NetEvent::Discovered { peer: b("peerB"), addr: b("/a") }, 0);
    eng.handle_net_event(identify("peerB", "/localp2p/1.0.0", "localp2p-rust/1.0.0"), 0);
    // one success makes the peer Healthy
    let acts = eng.handle_net_event(NetEvent::PingSuccess { peer: b("peerB"), rtt: 20 }, 1_000);
    assert!(emitted(&acts).is_empty());

    // three failures in a row cross the threshold: exactly one NodeOffline
    let mut offline = 0;
    for t in 0..4 {
        let acts = eng.handle_net_event(NetEvent::PingFailure { peer: b("peerB") }, 2_000 + t);
        offline += emitted(&acts)
            .iter()
            .filter(|e| matches!(e, DiscoveryEvent::NodeOffline(_)))
            .count();
    }
    assert_eq!(offline, 1);
    assert!(eng.list_verified_nodes().is_empty());

    // a later success reports recovery
    let acts = eng.handle_net_event(NetEvent::PingSuccess { peer: b("peerB"), rtt: 30 }, 9_000);
    let evs = emitted(&acts);
    assert_eq!(evs.len(), 1);
    assert!(matches!(evs[0], DiscoveryEvent::NodeRecovered(p, 30) if *p == b("peerB")));
}

#[test]
fn connection_count_zero_removes_peer() {
    let mut eng = new_engine();
    eng.handle_net_event(NetEvent::Discovered { peer: b("peerB"), addr: b("/a") }, 0);
    eng.handle_net_event(identify("peerB", "/localp2p/1.0.0", "localp2p-rust/1.0.0"), 0);

    // first connection asks for the profile, the second does not
    let acts = eng.handle_net_event(NetEvent::ConnectionEstablished { peer: b("peerB") }, 1);
    assert!(matches!(acts.as_slice(), [Action::SendUserInfoRequest(p)] if *p == b("peerB")));
    let acts = eng.handle_net_event(NetEvent::ConnectionEstablished { peer: b("peerB") }, 2);
    assert!(acts.is_empty());

    // closing one of two connections changes nothing
    let acts = eng.handle_net_event(NetEvent::ConnectionClosed { peer: b("peerB") }, 3);
    assert!(emitted(&acts).is_empty());
    assert_eq!(eng.list_verified_nodes().len(), 1);

    // the last close takes the peer offline, exactly once
    let acts = eng.handle_net_event(NetEvent::ConnectionClosed { peer: b("peerB") }, 4);
    let evs = emitted(&acts);
    assert_eq!(evs.len(), 1);
    assert!(matches!(evs[0], DiscoveryEvent::NodeOffline(p) if *p == b("peerB")));
    assert!(eng.list_verified_nodes().is_empty());

    // a further close finds the peer already absent and stays silent
    let acts = eng.handle_net_event(NetEvent::ConnectionClosed { peer: b("peerB") }, 5);
    assert!(emitted(&acts).is_empty());
}

#[test]
fn user_info_reported_once_per_cycle() {
    let mut eng = new_engine();
    let info = || UserInfo::new(b("remote")).with_nickname(b("nick"));

    let acts = eng.handle_net_event(
        NetEvent::UserInfoResponseArrived { peer: b("peerB"), info: info() },
        1,
    );
    let evs = emitted(&acts);
    assert_eq!(evs.len(), 1);
    assert!(matches!(evs[0], DiscoveryEvent::UserInfoReceived(p, _) if *p == b("peerB")));

    // a replacement is silent
    let acts = eng.handle_net_event(
        NetEvent::UserInfoResponseArrived { peer: b("peerB"), info: info() },
        2,
    );
    assert!(emitted(&acts).is_empty());
    assert!(eng.get_user_info(&b("peerB")).is_some());
}

#[test]
fn user_info_request_is_answered_with_local_profile() {
    let eng = new_engine();
    let acts = eng.on_user_info_request(&b("peerB"));
    match acts.as_slice() {
        [Action::SendUserInfoResponse(p, info)] => {
            assert_eq!(*p, b("peerB"));
            assert_eq!(info.device_name, b("local device"));
        }
        _ => panic!("expected one profile response"),
    }
}

#[test]
fn chat_request_is_acknowledged_and_recorded() {
    let mut eng = new_engine();
    let msg = localp2p::message::ChatMessage::text(b("ping"));
    let acts = eng.handle_net_event(
        NetEvent::ChatRequestArrived { peer: b("peerB"), message: msg },
        1,
    );
    assert!(matches!(acts.as_slice(), [Action::SendChatResponse(p)] if *p == b("peerB")));
    let events = eng.take_chat_events();
    assert_eq!(events.len(), 1);
}

#[test]
fn commands_ping_stop_and_not_initialized() {
    let mut eng = new_engine();
    let (reply, _) = eng.handle_command(Command::Ping);
    assert!(matches!(reply, CommandReply::Accepted));

    let (reply, _) = eng.handle_command(Command::Stop);
    assert!(matches!(reply, CommandReply::Accepted));

    // after Stop every command fails with NotInitialized
    let (reply, _) = eng.handle_command(Command::Ping);
    assert!(matches!(reply, CommandReply::Failed(EngineError::NotInitialized)));
}

#[test]
fn send_command_rejects_bad_target_and_unverified_peer() {
    let mut eng = new_engine();
    let (reply, acts) = eng.handle_command(Command::SendMessage {
        target: b("not-a-peer-id"),
        text: b("x"),
    });
    assert!(matches!(reply, CommandReply::Failed(EngineError::InvalidArgument(_))));
    assert!(acts.is_empty());

    // a syntactically valid identifier that is not in the registry
    let valid = b("12D3KooWDpJ7As7BWAwRMfu1VU2WCqNjvq387JEYKDBj4kx6nh6o");
    let (reply, _) = eng.handle_command(Command::SendMessage { target: valid, text: b("x") });
    assert!(matches!(reply, CommandReply::Failed(EngineError::NodeNotVerified(_))));
}

#[test]
fn broadcast_command_parse_failure_sends_nothing() {
    let mut eng = new_engine();
    let valid = b("12D3KooWDpJ7As7BWAwRMfu1VU2WCqNjvq387JEYKDBj4kx6nh6o");
    let (reply, acts) = eng.handle_command(Command::BroadcastMessage {
        targets: vec![valid, b("not-a-peer-id")],
        text: b("x"),
    });
    assert!(matches!(reply, CommandReply::Failed(EngineError::InvalidArgument(_))));
    assert!(acts.is_empty());
    assert!(eng.take_chat_events().is_empty());
}

#[test]
fn broadcast_command_partial_failure_counts_unreachable() {
    let mut eng = new_engine();
    // admit one peer whose identifier parses
    let good = b("12D3KooWDpJ7As7BWAwRMfu1VU2WCqNjvq387JEYKDBj4kx6nh6o");
    eng.handle_net_event(NetEvent::Discovered { peer: good.clone(), addr: b("/a") }, 0);
    eng.handle_net_event(
        NetEvent::IdentifyReceived {
            peer: good.clone(),
            protocol_version: b("/localp2p/1.0.0"),
            agent_version: b("localp2p-rust/1.0.0"),
            listen_addrs: Vec::new(),
        },
        0,
    );
    let unknown = b("12D3KooWQYV9dGMFoRzNStwpXztXaBUjtPqi6aomikwBM3ZMAbam");
    let (reply, acts) = eng.handle_command(Command::BroadcastMessage {
        targets: vec![good.clone(), unknown],
        text: b("x"),
    });
    assert!(matches!(reply, CommandReply::Failed(EngineError::PartialFailure(1))));
    // exactly one wire send, to the reachable peer
    let sends: Vec<_> = acts
        .iter()
        .filter(|a| matches!(a, Action::SendChatRequest(p, _) if *p == good))
        .collect();
    assert_eq!(sends.len(), 1);
    // and exactly one MessageSent chat event
    let events = eng.take_chat_events();
    let sent = events
        .iter()
        .filter(|e| matches!(e, localp2p::manager::ChatEvent::MessageSent { .. }))
        .count();
    assert_eq!(sent, 1);
}

#[test]
fn identity_load_or_generate_is_stable() {
    // first start: nothing stored, a fresh keypair must be written back
    let first = IdentityManager::load_or_generate(None);
    assert!(first.write_back);
    assert!(!first.load_failed);
    let id1 = localp2p::identity::peer_id_of_keypair(&first.keypair_bytes).unwrap();

    // second start: the stored bytes decode and are kept as they are
    let second = IdentityManager::load_or_generate(Some(first.keypair_bytes.clone()));
    assert!(!second.write_back);
    assert_eq!(second.keypair_bytes, first.keypair_bytes);
    let id2 = localp2p::identity::peer_id_of_keypair(&second.keypair_bytes).unwrap();
    assert_eq!(id1, id2);

    // corrupt bytes degrade to a fresh ephemeral identity: the failure is
    // reported and the store is not overwritten
    let third = IdentityManager::load_or_generate(Some(b("corrupt")));
    assert!(third.load_failed);
    assert!(!third.write_back);
    assert!(localp2p::identity::keypair_bytes_decode(&third.keypair_bytes));
}

#[test]
fn engine_uses_registry_configuration() {
    let registry = NodeManager::new(
        NodeManagerConfig::new()
            .with_protocol_version(b("/custom/9.9.9"))
            .with_device_name(b("kiosk")),
    );
    let eng = Engine::new(
        registry,
        HealthCheckConfig::default(),
        UserInfo::new(b("kiosk")),
        b("12D3KooWLocal"),
    );
    assert_eq!(eng.protocol_version(), &b("/custom/9.9.9"));
    assert_eq!(eng.agent_version(), &b("localp2p-rust/1.0.0 (kiosk)"));
    assert_eq!(eng.local_peer_id(), &b("12D3KooWLocal"));
}

#[test]
fn message_travels_between_two_engines() {
    // engine A queues a send; the frame it would put on the wire decodes
    // on engine B into the same text
    let mut a = new_engine();
    let peer_b = b("12D3KooWDpJ7As7BWAwRMfu1VU2WCqNjvq387JEYKDBj4kx6nh6o");
    a.handle_net_event(NetEvent::Discovered { peer: peer_b.clone(), addr: b("/a") }, 0);
    a.handle_net_event(
        NetEvent::IdentifyReceived {
            peer: peer_b.clone(),
            protocol_version: b("/localp2p/1.0.0"),
            agent_version: b("localp2p-rust/1.0.0 (B)"),
            listen_addrs: Vec::new(),
        },
        0,
    );
    let (reply, acts) = a.handle_command(Command::SendMessage {
        target: peer_b.clone(),
        text: b("hello"),
    });
    assert!(matches!(reply, CommandReply::Accepted));
    let message = acts
        .iter()
        .find_map(|act| match act {
            Action::SendChatRequest(_, m) => Some(localp2p::manager::clone_message(m)),
            _ => None,
        })
        .expect("a wire send was queued");

    let mut b_eng = new_engine();
    let acts = b_eng.handle_net_event(
        NetEvent::ChatRequestArrived { peer: b("12D3KooWLocalA"), message },
        1,
    );
    assert!(matches!(acts.as_slice(), [Action::SendChatResponse(_)]));
    let events = b_eng.take_chat_events();
    assert_eq!(events.len(), 1);
    match &events[0] {
        localp2p::manager::ChatEvent::MessageReceived { message, .. } => match message {
            localp2p::message::ChatMessage::Text(t) => assert_eq!(t.content, b("hello")),
            _ => panic!("expected a text message"),
        },
        _ => panic!("expected MessageReceived"),
    }
}

#[test]
fn rediscovery_allows_second_user_info_report() {
    // one profile report per discovery cycle: after an offline and a new
    // response, the report fires again, but never twice within a cycle
    let mut eng = new_engine();
    let peer = b("peerB");
    let info = || UserInfo::new(b("remote"));

    let acts = eng.handle_net_event(
        NetEvent::UserInfoResponseArrived { peer: peer.clone(), info: info() },
        1,
    );
    assert_eq!(emitted(&acts).len(), 1);
    let acts = eng.handle_net_event(
        NetEvent::UserInfoResponseArrived { peer: peer.clone(), info: info() },
        2,
    );
    assert_eq!(emitted(&acts).len(), 0);

    // the peer goes offline: its profile is dropped with it
    eng.handle_net_event(NetEvent::Discovered { peer: peer.clone(), addr: b("/a") }, 3);
    eng.handle_net_event(identify("peerB", "/localp2p/1.0.0", "localp2p-rust/1.0.0"), 3);
    eng.handle_net_event(NetEvent::ConnectionEstablished { peer: peer.clone() }, 4);
    let acts = eng.handle_net_event(NetEvent::ConnectionClosed { peer: peer.clone() }, 5);
    assert!(emitted(&acts)
        .iter()
        .any(|e| matches!(e, DiscoveryEvent::NodeOffline(_))));
    assert!(eng.get_user_info(&peer).is_none());

    // a fresh response is reported again
    let acts = eng.handle_net_event(
        NetEvent::UserInfoResponseArrived { peer: peer.clone(), info: info() },
        6,
    );
    assert_eq!(emitted(&acts).len(), 1);
}

#[test]
fn verification_failed_reason_names_the_check() {
    let mut eng = new_engine();
    eng.handle_net_event(NetEvent::Discovered { peer: b("peerC"), addr: b("/a") }, 0);
    // wrong protocol version: the reason names the protocol check
    let acts = eng.handle_net_event(identify("peerC", "/localp2p/2.0.0", "localp2p-rust/1.0.0"), 1);
    match emitted(&acts).as_slice() {
        [DiscoveryEvent::VerificationFailed(_, reason)] => {
            assert!(reason.starts_with(b"protocol version mismatch: "));
            assert!(reason.ends_with(b"/localp2p/2.0.0"));
        }
        _ => panic!("expected one VerificationFailed"),
    }
    // wrong agent prefix: the reason names the agent check
    let acts = eng.handle_net_event(identify("peerC", "/localp2p/1.0.0", "otherapp/1.0.0"), 2);
    match emitted(&acts).as_slice() {
        [DiscoveryEvent::VerificationFailed(_, reason)] => {
            assert!(reason.starts_with(b"agent prefix mismatch: "));
            assert!(reason.ends_with(b"otherapp/1.0.0"));
        }
        _ => panic!("expected one VerificationFailed"),
    }
}

#[test]
fn loop_health_needs_both_conditions() {
    assert!(localp2p::engine::is_event_loop_alive(Some(50), 5_000));
    assert!(!localp2p::engine::is_event_loop_alive(Some(150), 5_000), "slow ping means restart");
    assert!(!localp2p::engine::is_event_loop_alive(Some(50), 20_000), "stale events mean restart");
    assert!(!localp2p::engine::is_event_loop_alive(None, 5_000), "an unanswered ping means restart");
}
