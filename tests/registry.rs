use lanshare::{
    broadcast_targets, handle_presence, heartbeat, is_local_address, should_notify, Peer,
    settings_for_host, PeerRegistry, UpsertOutcome, UserSettings, PEER_TIMEOUT_MS,
};

fn settings(enabled: bool, address: &str) -> UserSettings {
    UserSettings {
        username: "me".to_string(),
        broadcasting_enabled: enabled,
        broadcast_address: address.to_string(),
    }
}

fn peer(username: &str, address: &str, last_seen: Option<u64>) -> Peer {
    Peer { username: username.to_string(), address: address.to_string(), last_seen }
}

#[test]
fn upsert_reports_insert_change_and_no_change() {
    let mut reg = PeerRegistry::new(settings(true, "255.255.255.255"));
    assert_eq!(reg.upsert_peer(peer("alice", "10.0.0.2", Some(0))), UpsertOutcome::Inserted);
    assert_eq!(reg.upsert_peer(peer("alice", "10.0.0.2", Some(5))), UpsertOutcome::UpdatedNoChange);
    assert_eq!(reg.upsert_peer(peer("alicia", "10.0.0.2", Some(6))), UpsertOutcome::UpdatedWithChange);
    let peers = reg.list_peers();
    assert_eq!(peers.len(), 1);
    assert_eq!(peers[0].username, "alicia");
    assert_eq!(peers[0].last_seen, Some(6));
}

#[test]
fn peers_are_equal_by_address() {
    assert!(peer("a", "10.0.0.2", None) == peer("b", "10.0.0.2", Some(3)));
    assert!(peer("a", "10.0.0.2", None) != peer("a", "10.0.0.3", None));
}

#[test]
fn one_entry_per_address() {
    let mut reg = PeerRegistry::new(settings(true, "255.255.255.255"));
    reg.upsert_peer(peer("a", "10.0.0.2", Some(0)));
    reg.upsert_peer(peer("b", "10.0.0.3", Some(0)));
    reg.upsert_peer(peer("c", "10.0.0.2", Some(1)));
    let peers = reg.list_peers();
    assert_eq!(peers.len(), 2);
    assert_eq!(peers[0].username, "c");
    assert_eq!(peers[1].username, "b");
}

#[test]
fn peer_is_evicted_exactly_at_timeout() {
    let mut reg = PeerRegistry::new(settings(true, "255.255.255.255"));
    reg.upsert_peer(peer("a", "10.0.0.2", Some(1000)));
    assert_eq!(reg.evict_stale(1000 + PEER_TIMEOUT_MS - 1, PEER_TIMEOUT_MS), 0);
    assert_eq!(reg.list_peers().len(), 1);
    assert_eq!(reg.evict_stale(1000 + PEER_TIMEOUT_MS, PEER_TIMEOUT_MS), 1);
    assert_eq!(reg.list_peers().len(), 0);
}

#[test]
fn refreshed_peer_survives_and_unstamped_peer_goes() {
    let mut reg = PeerRegistry::new(settings(true, "255.255.255.255"));
    reg.upsert_peer(peer("a", "10.0.0.2", Some(0)));
    reg.upsert_peer(peer("b", "10.0.0.3", None));
    reg.upsert_peer(peer("a", "10.0.0.2", Some(1500)));
    assert_eq!(reg.evict_stale(2500, 2000), 1);
    let peers = reg.list_peers();
    assert_eq!(peers.len(), 1);
    assert_eq!(peers[0].address, "10.0.0.2");
    // A stamp later than the clock counts as fresh.
    assert_eq!(reg.evict_stale(100, 2000), 0);
}

#[test]
fn reannouncement_with_same_name_is_quiet() {
    let mut reg = PeerRegistry::new(settings(true, "255.255.255.255"));
    let local = vec!["192.168.1.5".to_string()];
    assert!(handle_presence(&mut reg, "10.0.0.2".to_string(), "bob".to_string(), &local, 0));
    assert!(!handle_presence(&mut reg, "10.0.0.2".to_string(), "bob".to_string(), &local, 1000));
    assert!(handle_presence(&mut reg, "10.0.0.2".to_string(), "robert".to_string(), &local, 1100));
    assert!(!should_notify(UpsertOutcome::UpdatedNoChange));
    assert!(should_notify(UpsertOutcome::Inserted));
    assert!(should_notify(UpsertOutcome::UpdatedWithChange));
}

#[test]
fn own_announcement_is_never_added() {
    let mut reg = PeerRegistry::new(settings(true, "255.255.255.255"));
    let local = vec!["127.0.0.1".to_string(), "192.168.1.5".to_string()];
    assert!(!handle_presence(&mut reg, "192.168.1.5".to_string(), "me".to_string(), &local, 0));
    assert!(reg.list_peers().is_empty());
    assert!(is_local_address(&"127.0.0.1".to_string(), &local));
    assert!(!is_local_address(&"10.0.0.9".to_string(), &local));
}

#[test]
fn heartbeat_evicts_and_announces() {
    let mut reg = PeerRegistry::new(settings(true, "255.255.255.255"));
    reg.upsert_peer(peer("a", "10.0.0.2", Some(0)));
    let ifaces = vec!["192.168.1.255".to_string(), "10.0.0.255".to_string()];
    let quiet = heartbeat(&mut reg, 1000, PEER_TIMEOUT_MS, &ifaces);
    assert!(!quiet.membership_changed);
    assert_eq!(quiet.username, "me");
    assert_eq!(quiet.targets, ifaces);
    let tick = heartbeat(&mut reg, 2000, PEER_TIMEOUT_MS, &ifaces);
    assert!(tick.membership_changed);
    assert!(reg.list_peers().is_empty());
}

#[test]
fn broadcast_targets_follow_settings() {
    let ifaces = vec!["192.168.1.255".to_string()];
    assert!(broadcast_targets(&settings(false, "255.255.255.255"), &ifaces).is_empty());
    assert_eq!(broadcast_targets(&settings(true, "255.255.255.255"), &ifaces), ifaces);
    assert_eq!(
        broadcast_targets(&settings(true, "10.0.0.255"), &ifaces),
        vec!["10.0.0.255".to_string()]
    );
}

#[test]
fn settings_are_replaced_wholesale() {
    let mut reg = PeerRegistry::new(UserSettings::default());
    let d = reg.get_settings();
    assert!(d.broadcasting_enabled);
    assert_eq!(d.broadcast_address, "255.255.255.255");
    assert!(!d.username.is_empty());
    reg.upsert_peer(peer("a", "10.0.0.2", Some(0)));
    reg.set_settings(settings(false, "10.0.0.255"));
    let s = reg.get_settings();
    assert_eq!(s.username, "me");
    assert!(!s.broadcasting_enabled);
    assert_eq!(s.broadcast_address, "10.0.0.255");
    assert_eq!(reg.list_peers().len(), 1);
}

#[test]
fn default_settings_use_the_host_name() {
    let named = settings_for_host(Some("workstation".to_string()));
    assert_eq!(named.username, "workstation");
    assert!(named.broadcasting_enabled);
    assert_eq!(named.broadcast_address, "255.255.255.255");
    let unnamed = settings_for_host(None);
    assert_eq!(unnamed.username, "Unknown");
    assert!(unnamed.broadcasting_enabled);
    assert_eq!(unnamed.broadcast_address, "255.255.255.255");
}
