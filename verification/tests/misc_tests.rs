use localp2p::bridge::{bridge_event_of_chat, bridge_event_of_discovery, EventQueue, FFIError,
    P2PBridgeNodeInfo, P2PErrorCode};
use localp2p::config::ServiceInfo;
use localp2p::engine::DiscoveryEvent;
use localp2p::health::{HealthCheckConfig, HealthStatus, NodeHealth};
use localp2p::logging::{LogLevel, LoggingConfig};
use localp2p::manager::ChatEvent;
use localp2p::ui::{AppTab, NodeStatus, Tabs};
use localp2p::user_info::UserInfo;

fn b(s: &str) -> Vec<u8> {
    s.as_bytes().to_vec()
}

#[test]
fn test_user_info_creation() {
    let info = UserInfo::new(b("我的电脑"))
        .with_nickname(b("开发者"))
        .with_status(b("在线"));

    assert_eq!(info.device_name, b("我的电脑"));
    assert_eq!(info.nickname, Some(b("开发者")));
    assert_eq!(info.status, Some(b("在线")));
}

#[test]
fn test_display_name() {
    let info1 = UserInfo::new(b("设备")).with_nickname(b("昵称"));
    assert_eq!(info1.display_name(), &b("昵称"));

    let info2 = UserInfo::new(b("设备"));
    assert_eq!(info2.display_name(), &b("设备"));
}

#[test]
fn user_info_custom_data_replaces_existing_key() {
    let info = UserInfo::new(b("pc"))
        .with_custom_data(b("k"), b("v1"))
        .with_custom_data(b("k"), b("v2"))
        .with_custom_data(b("other"), b("x"));
    assert_eq!(info.custom_data.len(), 2);
    assert_eq!(info.custom_data[0], (b("k"), b("v2")));
}

#[test]
fn health_record_success_and_failure() {
    let mut h = NodeHealth::new();
    assert_eq!(h.status, HealthStatus::Unknown);
    assert!(!h.is_offline());

    h.record_failure(3, 1_000);
    h.record_failure(3, 2_000);
    assert_eq!(h.consecutive_failures, 2);
    assert!(!h.is_offline());
    h.record_failure(3, 3_000);
    assert_eq!(h.status, HealthStatus::Unhealthy);
    assert!(h.is_offline());

    h.record_success(40, 4_000);
    assert_eq!(h.status, HealthStatus::Healthy);
    assert_eq!(h.consecutive_failures, 0);
    assert_eq!(h.last_success, Some(4_000));
    assert_eq!(h.last_failure, None);
    assert_eq!(h.average_rtt, Some(40));

    // the moving average halves old and new
    h.record_success(20, 5_000);
    assert_eq!(h.average_rtt, Some(30));
}

#[test]
fn health_config_defaults() {
    let c = HealthCheckConfig::default();
    assert_eq!(c.heartbeat_interval, 10_000);
    assert_eq!(c.max_failures, 3);
}

#[test]
fn test_config_builder() {
    let config = LoggingConfig::new()
        .with_log_dir(b("/tmp/logs"))
        .with_level(LogLevel::Debug)
        .with_console_output(true)
        .with_ansi(true);

    assert_eq!(config.log_dir, b("/tmp/logs"));
    assert_eq!(config.level, LogLevel::Debug);
    assert_eq!(config.console_output, true);
    assert_eq!(config.ansi, true);
}

#[test]
fn service_info_builder() {
    let info = ServiceInfo::new(b("svc"), b("_p2p._tcp"), 4001)
        .with_attribute(b("a"), b("1"));
    assert_eq!(info.name, b("svc"));
    assert_eq!(info.service_type, b("_p2p._tcp"));
    assert_eq!(info.port, 4001);
    assert_eq!(info.attributes, vec![(b("a"), b("1"))]);
}

#[test]
fn tabs_cycle_in_both_directions() {
    assert_eq!(AppTab::Panel1.title(), "[1] 设备列表");
    assert_eq!(AppTab::all(), vec![AppTab::Panel1, AppTab::Panel2, AppTab::Panel3]);
    assert_eq!(AppTab::Panel2.index(), 1);
    assert_eq!(AppTab::from_index(2), Some(AppTab::Panel3));
    assert_eq!(AppTab::from_index(3), None);
    assert_eq!(AppTab::Panel3.next(), AppTab::Panel1);
    assert_eq!(AppTab::Panel1.previous(), AppTab::Panel3);

    let mut tabs = Tabs::new(AppTab::Panel1);
    tabs.next();
    assert_eq!(tabs.current, AppTab::Panel2);
    tabs.previous();
    assert_eq!(tabs.current, AppTab::Panel1);
    tabs.set_current(AppTab::Panel3);
    assert_eq!(tabs.current, AppTab::Panel3);
    assert_eq!(tabs.titles().len(), 3);
}

#[test]
fn node_status_labels() {
    assert_eq!(NodeStatus::Online.as_str(), "在线");
    assert_eq!(NodeStatus::Offline.as_str(), "离线");
    assert_eq!(NodeStatus::Unknown.as_str(), "未知");
}

#[test]
fn bridge_error_codes() {
    assert_eq!(P2PErrorCode::Success.code(), 0);
    assert_eq!(P2PErrorCode::NotInitialized.code(), -1);
    assert_eq!(FFIError::NodeNotVerified(b("p")).error_code(), P2PErrorCode::NodeNotVerified);
    assert_eq!(FFIError::Other(b("x")).error_code(), P2PErrorCode::Unknown);
}

#[test]
fn bridge_node_info_prefers_nickname() {
    let info = UserInfo::new(b("device")).with_nickname(b("nick"));
    let n = P2PBridgeNodeInfo::from_peer_id_and_info(b("peer"), &info);
    assert_eq!(n.display_name, b("nick"));
    assert_eq!(n.device_name, b("device"));

    let basic = P2PBridgeNodeInfo::from_basic_info(b("peer"), b("shown"), b("device"));
    assert_eq!(basic.display_name, b("shown"));
    assert!(basic.nickname.is_none());
}

#[test]
fn bridge_events_carry_json_payloads() {
    let e = DiscoveryEvent::Discovered(b("peerX"), b("/ip4/1.2.3.4/tcp/1"));
    let be = bridge_event_of_discovery(&e).unwrap();
    assert_eq!(be.event_type, 1);
    let v: serde_json::Value = serde_json::from_slice(&be.data).unwrap();
    assert_eq!(v.get("peer_id").unwrap().as_str().unwrap(), "peerX");
    assert_eq!(v.get("addr").unwrap().as_str().unwrap(), "/ip4/1.2.3.4/tcp/1");

    let e = DiscoveryEvent::UserInfoReceived(b("peerX"), UserInfo::new(b("dev")));
    let be = bridge_event_of_discovery(&e).unwrap();
    assert_eq!(be.event_type, 5);
    let v: serde_json::Value = serde_json::from_slice(&be.data).unwrap();
    assert_eq!(v.get("device_name").unwrap().as_str().unwrap(), "dev");
    assert_eq!(v.get("nickname").unwrap().as_str().unwrap(), "");

    // kinds the bridge does not carry give nothing
    assert!(bridge_event_of_discovery(&DiscoveryEvent::Expired(b("p"))).is_none());

    let ce = ChatEvent::MessageSent { to: b("peerY"), message_id: b("m1") };
    let be = bridge_event_of_chat(&ce).unwrap();
    assert_eq!(be.event_type, 7);
    let v: serde_json::Value = serde_json::from_slice(&be.data).unwrap();
    assert_eq!(v.get("to").unwrap().as_str().unwrap(), "peerY");
    assert_eq!(v.get("message_id").unwrap().as_str().unwrap(), "m1");
}

#[test]
fn event_queue_polls_in_order() {
    let mut q = EventQueue::new();
    let e1 = bridge_event_of_discovery(&DiscoveryEvent::Discovered(b("a"), b("/x"))).unwrap();
    let e2 = bridge_event_of_discovery(&DiscoveryEvent::NodeOffline(b("a"))).unwrap();
    q.push_event(e1);
    q.push_event(e2);
    let polled = q.poll_events();
    assert_eq!(polled.len(), 2);
    assert_eq!(polled[0].event_type, 1);
    assert_eq!(polled[1].event_type, 4);
    assert!(q.poll_events().is_empty());
}

#[test]
fn display_name_ignores_empty_nickname() {
    let info = UserInfo::new(b("设备")).with_nickname(Vec::new());
    assert_eq!(info.display_name(), &b("设备"));
}
