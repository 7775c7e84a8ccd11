use peacock::discovery::device::{DiscoveryState, RESTRICTED_THRESHOLD_SECS};
use peacock::discovery::listener::{
    beacon_payload_at, classify_datagram, classify_presence_datagram, lists_device, on_announce_at,
    on_announce_response_at, on_presence_announce_at, record_outcome, response_payload,
    DatagramAction, PresenceAction, FEATURES,
};
use peacock::clipboard::{enable_clipboard_sync, push_clipboard};
use peacock::discovery::presence;
use peacock::error::PeacockError;
use peacock::net_util::{
    bind_to_wifi, detect_platform, probe_targets, probe_wanted, select_lan_ipv4, subnet_broadcast,
    InterfaceAddr,
};
use peacock::protocol::types::{AnnouncePayload, PacketType, PeerInfo};
use peacock::protocol::wire::{build_packet, build_typed_packet};
use peacock::text::{ipv4_text, uuid_from_bytes};

fn upsert(d: &mut DiscoveryState, id: &str, ip: &str, now: u64) -> bool {
    d.upsert_from_response_at(
        id.to_string(),
        format!("name-{}", id),
        ip.to_string(),
        52001,
        "linux".to_string(),
        now,
    )
}

#[test]
fn upsert_then_get() {
    let mut d = DiscoveryState::new();
    assert!(d.get_device("a").is_none());
    assert!(upsert(&mut d, "a", "10.0.0.2", 100));
    let dev = d.get_device("a").unwrap();
    assert_eq!(dev.device_name, "name-a");
    assert_eq!(dev.ip_addr, "10.0.0.2");
    assert_eq!(dev.tcp_port, 52001);
    assert_eq!(dev.last_seen, 100);
    assert!(dev.is_online);
    assert_eq!(dev.last_broadcast_at, 0);
    assert!(!dev.is_restricted);
    // Seen again while online: not reported as new, details refreshed.
    assert!(!upsert(&mut d, "a", "10.0.0.3", 110));
    assert_eq!(d.get_device("a").unwrap().ip_addr, "10.0.0.3");
    assert_eq!(d.get_device_with_status("a").unwrap().last_seen, 110);
}

#[test]
fn timeouts_after_thirty_seconds() {
    let mut d = DiscoveryState::new();
    upsert(&mut d, "a", "10.0.0.2", 100);
    upsert(&mut d, "b", "10.0.0.3", 120);
    assert!(d.check_timeouts_at(130).is_empty());
    assert_eq!(d.check_timeouts_at(131), vec!["a".to_string()]);
    assert!(!d.get_device("a").unwrap().is_online);
    assert_eq!(d.get_online_devices().len(), 1);
    // Already offline: not reported again.
    assert_eq!(d.check_timeouts_at(151), vec!["b".to_string()]);
    assert!(d.check_timeouts_at(1000).is_empty());
    assert!(d.get_online_devices().is_empty());
    // Coming back is reported as new.
    assert!(upsert(&mut d, "a", "10.0.0.2", 1001));
}

#[test]
fn mark_offline_reports_once() {
    let mut d = DiscoveryState::new();
    upsert(&mut d, "a", "10.0.0.2", 5);
    d.mark_received_broadcast_at("a", 6);
    assert_eq!(d.get_device("a").unwrap().last_broadcast_at, 6);
    assert!(d.mark_offline("a"));
    assert_eq!(d.get_device("a").unwrap().last_broadcast_at, 0);
    assert!(!d.mark_offline("a"));
    assert!(!d.mark_offline("nobody"));
}

#[test]
fn restricted_until_heard_broadcasting() {
    let mut d = DiscoveryState::new();
    upsert(&mut d, "ios", "10.0.0.9", 100);
    d.refresh_restricted_status_at(101);
    assert!(d.get_device("ios").unwrap().is_restricted);
    let peers = d.get_restricted_peers();
    assert_eq!(peers.len(), 1);
    assert_eq!(peers[0].device_id, "ios");
    assert_eq!(peers[0].ip_addr, "10.0.0.9");

    d.mark_received_broadcast_at("ios", 102);
    d.refresh_restricted_status_at(102 + RESTRICTED_THRESHOLD_SECS);
    assert!(!d.get_device("ios").unwrap().is_restricted);
    assert!(d.get_restricted_peers().is_empty());
    d.refresh_restricted_status_at(103 + RESTRICTED_THRESHOLD_SECS);
    assert!(d.get_device("ios").unwrap().is_restricted);
}

#[test]
fn broadcast_from_unknown_device_adds_nothing() {
    let mut d = DiscoveryState::new();
    d.mark_received_broadcast_at("ghost", 10);
    assert!(d.get_device("ghost").is_none());
}

#[test]
fn presence_registry() {
    let mut p = presence::DiscoveryState::new();
    assert!(p.upsert_device_at("x".into(), "X".into(), "10.1.1.1".into(), 52001, "macos".into(), 50));
    assert!(!p.upsert_device_at("x".into(), "X2".into(), "10.1.1.1".into(), 52001, "macos".into(), 60));
    assert_eq!(p.get_device("x").unwrap().device_name, "X2");
    assert_eq!(p.get_online_devices().len(), 1);
    assert!(p.check_timeouts_at(90).is_empty());
    assert_eq!(p.check_timeouts_at(91), vec!["x".to_string()]);
    assert!(!p.mark_offline("x"));
    assert!(p.get_online_devices().is_empty());
}

fn ann(restricted: Vec<PeerInfo>) -> AnnouncePayload {
    AnnouncePayload {
        device_name: "Peer".to_string(),
        platform: "windows".to_string(),
        tcp_port: 52001,
        features: FEATURES,
        restricted_peers: restricted,
    }
}

fn peer(id: &str) -> PeerInfo {
    PeerInfo {
        device_id: id.to_string(),
        device_name: "n".to_string(),
        ip_addr: "1.2.3.4".to_string(),
        tcp_port: 1,
        platform: "ios".to_string(),
    }
}

#[test]
fn announce_adds_a_peer_only_when_it_lists_us() {
    let mut d = DiscoveryState::new();
    assert!(on_announce_at(&mut d, "p".into(), "10.0.0.5".into(), &ann(vec![]), "me", 10).is_none());
    assert!(d.get_device("p").is_none());
    let added = on_announce_at(&mut d, "p".into(), "10.0.0.5".into(), &ann(vec![peer("me")]), "me", 11)
        .expect("listed us: added");
    assert_eq!(added.ip_addr, "10.0.0.5");
    assert_eq!(added.device_name, "Peer");
    // Known now: a later broadcast is stamped.
    assert!(on_announce_at(&mut d, "p".into(), "10.0.0.5".into(), &ann(vec![]), "me", 20).is_none());
    assert_eq!(d.get_device("p").unwrap().last_broadcast_at, 20);
    assert!(lists_device(&vec![peer("a"), peer("me")], "me"));
    assert!(!lists_device(&vec![peer("a")], "me"));
}

#[test]
fn announce_response_adds_or_refreshes() {
    let mut d = DiscoveryState::new();
    assert!(on_announce_response_at(&mut d, "q".into(), "10.0.0.6".into(), &ann(vec![]), 1).is_some());
    assert!(on_announce_response_at(&mut d, "q".into(), "10.0.0.6".into(), &ann(vec![]), 2).is_none());
    assert_eq!(d.get_device("q").unwrap().last_seen, 2);
}

#[test]
fn beacon_carries_restricted_peers() {
    let mut d = DiscoveryState::new();
    upsert(&mut d, "r", "10.0.0.7", 100);
    let b = beacon_payload_at(&mut d, "Me".into(), "linux".into(), 52001, 100);
    assert_eq!(b.device_name, "Me");
    assert_eq!(b.features, 0xFFFF);
    assert_eq!(b.restricted_peers.len(), 1);
    assert_eq!(b.restricted_peers[0].device_id, "r");
    let r = response_payload("Me".into(), "linux".into(), 52001);
    assert!(r.restricted_peers.is_empty());
    assert_eq!(r.features, FEATURES);
}

#[test]
fn datagrams_are_classified() {
    let me = [1u8; 16];
    let them = [2u8; 16];
    let them_text = uuid_from_bytes(&them);
    assert_eq!(them_text, "02020202-0202-0202-0202-020202020202");

    let own = build_packet(PacketType::Bye, &me, &[]);
    assert!(matches!(classify_datagram(&own, &me), DatagramAction::Ignore));
    let bye = build_packet(PacketType::Bye, &them, &[]);
    assert!(matches!(classify_datagram(&bye, &me), DatagramAction::Bye { ref device_id } if *device_id == them_text));
    let a = build_typed_packet(PacketType::Announce, &them, &ann(vec![])).unwrap();
    match classify_datagram(&a, &me) {
        DatagramAction::Announce { device_id, payload } => {
            assert_eq!(device_id, them_text);
            assert_eq!(payload, a[32..].to_vec());
        }
        other => panic!("unexpected {:?}", other),
    }
    let r = build_typed_packet(PacketType::AnnounceResponse, &them, &ann(vec![])).unwrap();
    assert!(matches!(classify_datagram(&r, &me), DatagramAction::AnnounceResponse { .. }));
    let t = build_packet(PacketType::Text, &them, &[7, 7]);
    assert!(matches!(classify_datagram(&t, &me), DatagramAction::Message { ref payload, .. } if *payload == vec![7u8, 7]));
    let ack = build_packet(PacketType::Ack, &them, &[]);
    assert!(matches!(classify_datagram(&ack, &me), DatagramAction::Ignore));
    assert!(matches!(classify_datagram(&[0u8; 10], &me), DatagramAction::Ignore));
}

#[test]
fn socket_failures_are_counted() {
    assert_eq!(record_outcome(4, true, 5), (0, false));
    assert_eq!(record_outcome(3, false, 5), (4, false));
    assert_eq!(record_outcome(4, false, 5), (5, true));
    assert_eq!(record_outcome(u32::MAX, false, 5), (u32::MAX, true));
}

#[test]
fn lan_address_prefers_wifi_then_private() {
    let ifs = vec![
        ("lo".to_string(), InterfaceAddr::V4([127, 0, 0, 1])),
        ("eth0".to_string(), InterfaceAddr::V4([169, 254, 3, 3])),
        ("eth1".to_string(), InterfaceAddr::V4([8, 8, 8, 8])),
        ("eth2".to_string(), InterfaceAddr::V4([172, 20, 0, 5])),
        ("eth3".to_string(), InterfaceAddr::V4([192, 168, 1, 5])),
        ("v6".to_string(), InterfaceAddr::V6 { loopback: false }),
    ];
    assert_eq!(select_lan_ipv4(&ifs), Some([172, 20, 0, 5]));
    let mut with_wifi = ifs.clone();
    with_wifi.push(("en0".to_string(), InterfaceAddr::V4([10, 0, 0, 8])));
    assert_eq!(select_lan_ipv4(&with_wifi), Some([10, 0, 0, 8]));
    let none = vec![("eth1".to_string(), InterfaceAddr::V4([8, 8, 8, 8]))];
    assert_eq!(select_lan_ipv4(&none), None);
}

#[test]
fn broadcast_address_and_probe_targets() {
    assert_eq!(subnet_broadcast([192, 168, 1, 23]), [192, 168, 1, 255]);
    let t = probe_targets(
        [192, 168, 1, 23],
        &vec!["192.168.1.5".to_string(), "10.0.0.1".to_string(), "192.168.1.050".to_string()],
    );
    assert_eq!(t.len(), 252);
    assert_eq!(t[0], [192, 168, 1, 1]);
    assert!(!t.contains(&[192, 168, 1, 23]));
    assert!(!t.contains(&[192, 168, 1, 5]));
    assert_eq!(*t.last().unwrap(), [192, 168, 1, 254]);
}

#[test]
fn platform_names() {
    for os in ["windows", "macos", "linux", "android", "ios"] {
        assert_eq!(detect_platform(os), os);
    }
    assert_eq!(detect_platform("freebsd"), "unknown");
    assert!(bind_to_wifi(3).is_ok());
}

#[test]
fn address_text() {
    assert_eq!(ipv4_text([192, 168, 1, 20]), "192.168.1.20");
    assert_eq!(ipv4_text([0, 0, 0, 0]), "0.0.0.0");
    assert_eq!(ipv4_text([255, 10, 100, 7]), "255.10.100.7");
}

#[test]
fn presence_listener_classifies() {
    let me = [9u8; 16];
    let them = [4u8; 16];
    let a = build_typed_packet(PacketType::Announce, &them, &ann(vec![])).unwrap();
    match classify_presence_datagram(&a, &me) {
        PresenceAction::Announce { device_id, payload } => {
            assert_eq!(device_id, uuid_from_bytes(&them));
            assert_eq!(payload, a[32..].to_vec());
        }
        other => panic!("unexpected {:?}", other),
    }
    // An announcement cut short is dropped; a bye needs no payload.
    assert!(matches!(classify_presence_datagram(&a[..a.len() - 1], &me), PresenceAction::Ignore));
    let mut bye = build_packet(PacketType::Bye, &them, &[]);
    bye[27] = 50;
    assert!(matches!(classify_presence_datagram(&bye, &me), PresenceAction::Bye { .. }));
    assert!(matches!(classify_datagram(&bye, &me), DatagramAction::Ignore));
    let own = build_packet(PacketType::Bye, &me, &[]);
    assert!(matches!(classify_presence_datagram(&own, &me), PresenceAction::Ignore));
    let text = build_packet(PacketType::Text, &them, &[]);
    assert!(matches!(classify_presence_datagram(&text, &me), PresenceAction::Ignore));
    assert!(matches!(classify_presence_datagram(&[0u8; 31], &me), PresenceAction::Ignore));

    let mut p = presence::DiscoveryState::new();
    let d = on_presence_announce_at(&mut p, "x".into(), "10.0.0.1".into(), &ann(vec![]), 5).unwrap();
    assert_eq!(d.device_name, "Peer");
    assert!(on_presence_announce_at(&mut p, "x".into(), "10.0.0.1".into(), &ann(vec![]), 6).is_none());
}

#[test]
fn clipboard_commands_are_not_offered_yet() {
    assert!(matches!(enable_clipboard_sync(true), Err(PeacockError::General(ref m)) if m == "Clipboard sync not yet implemented"));
    assert!(matches!(push_clipboard("d".into()), Err(PeacockError::General(ref m)) if m == "Clipboard sync not yet implemented"));
}

#[test]
fn refresh_leaves_offline_devices_alone() {
    let mut d = DiscoveryState::new();
    upsert(&mut d, "a", "10.0.0.2", 100);
    d.refresh_restricted_status_at(100);
    assert!(d.get_device("a").unwrap().is_restricted);
    d.mark_received_broadcast_at("a", 101);
    assert!(d.mark_offline("a"));
    d.refresh_restricted_status_at(105);
    let a = d.get_device("a").unwrap();
    assert!(!a.is_online);
    assert!(a.is_restricted);
    assert!(d.get_restricted_peers().is_empty());
}

#[test]
fn probe_decides_host_by_host() {
    let local = [192, 168, 1, 23];
    let online = vec!["192.168.1.7".to_string()];
    assert!(probe_wanted(local, &online, 1));
    assert!(probe_wanted(local, &online, 254));
    assert!(!probe_wanted(local, &online, 0));
    assert!(!probe_wanted(local, &online, 255));
    assert!(!probe_wanted(local, &online, 23));
    assert!(!probe_wanted(local, &online, 7));
    assert!(probe_wanted(local, &vec![], 7));
}
