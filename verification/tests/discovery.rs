use aetherlink::codes::{contains_text, insert_sorted, normalize_targets, remove_sorted, trim};
use aetherlink::discovery::{
    announced_peer, device_record_key, ensure_addr_has_peer_id, extract_peer_id,
    plan_discovery_dial, AnnouncementFault, DeviceAnnouncement, Discovery, DiscoveryConfig,
    DiscoveryPlan, LookupState,
};
use aetherlink::identity::PeerId;
use libp2p::identity;

fn peer_of(seed: u8) -> PeerId {
    let key = identity::Keypair::ed25519_from_bytes([seed; 32]).unwrap();
    PeerId::from_public_key(&key.public().encode_protobuf()).unwrap()
}

fn strings(items: &[&str]) -> Vec<String> {
    items.iter().map(|s| s.to_string()).collect()
}

#[test]
fn trimming_agrees_with_the_standard_library() {
    for text in ["", " ", "a", " a", "a ", "  a b  ", "\u{3000}x\u{a0}", "\t\n", "é é "] {
        assert_eq!(trim(text), text.trim(), "{:?}", text);
    }
}

#[test]
fn sorted_lists_behave_like_sets() {
    let mut list: Vec<String> = Vec::new();
    for text in ["m", "a", "z", "m", "b", "", "a"] {
        insert_sorted(&mut list, text);
    }
    assert_eq!(list, ["", "a", "b", "m", "z"]);
    assert!(contains_text(&list, "b"));
    assert!(!contains_text(&list, "c"));
    remove_sorted(&mut list, "m");
    remove_sorted(&mut list, "q");
    remove_sorted(&mut list, "");
    assert_eq!(list, ["a", "b", "z"]);
    assert_eq!(
        normalize_targets(&strings(&[" b", "a ", "me", "b", " ", "é"]), "me"),
        ["a", "b", "é"]
    );
}

#[test]
fn record_key_is_the_prefix_and_the_trimmed_code() {
    assert_eq!(device_record_key(" dev-1 \n"), "/aetherlink/device/v1/dev-1");
    assert_eq!(device_record_key(""), "/aetherlink/device/v1/");
}

#[test]
fn addresses_are_made_to_name_the_peer() {
    let peer = peer_of(1);
    let other = peer_of(2);
    let bare = "/ip4/10.0.0.1/udp/9000/quic-v1";
    let named = format!("{}/p2p/{}", bare, other.as_str());
    assert_eq!(
        ensure_addr_has_peer_id(bare, &peer),
        Some(format!("{}/p2p/{}", bare, peer.as_str()))
    );
    assert_eq!(ensure_addr_has_peer_id(&named, &peer), Some(named.clone()));
    assert_eq!(ensure_addr_has_peer_id("not an address", &peer), None);
    assert_eq!(extract_peer_id(&named), Some(other));
    assert_eq!(extract_peer_id(bare), None);
    assert_eq!(extract_peer_id("nonsense"), None);
}

fn announcement(code: &str, peer: &PeerId, addrs: &[&str]) -> DeviceAnnouncement {
    DeviceAnnouncement {
        version: 1,
        device_code: code.to_string(),
        peer_id: peer.as_str().to_string(),
        addrs: strings(addrs),
        unix_ms: 5,
    }
}

#[test]
fn announcements_are_sifted() {
    let local = peer_of(1);
    let remote = peer_of(2);
    let good = announcement("dev", &remote, &["/ip4/10.0.0.1/tcp/1", "bogus", "/ip6/::1/tcp/2"]);
    assert_eq!(
        plan_discovery_dial("dev", &good, &local, true),
        DiscoveryPlan::Dial {
            peer: remote.duplicate(),
            addresses: vec![
                format!("/ip4/10.0.0.1/tcp/1/p2p/{}", remote.as_str()),
                format!("/ip6/::1/tcp/2/p2p/{}", remote.as_str()),
            ],
        }
    );
    assert_eq!(
        plan_discovery_dial("dev", &good, &local, false),
        DiscoveryPlan::Ignore(AnnouncementFault::Throttled)
    );
    assert_eq!(
        plan_discovery_dial("other", &good, &local, true),
        DiscoveryPlan::Ignore(AnnouncementFault::MismatchedDeviceCode)
    );
    let mut old = good.clone();
    old.version = 2;
    assert_eq!(
        plan_discovery_dial("other", &old, &local, true),
        DiscoveryPlan::Ignore(AnnouncementFault::UnsupportedVersion)
    );
    let mut unreadable = good.clone();
    unreadable.peer_id = "peer-a".to_string();
    assert_eq!(announced_peer("dev", &unreadable, &local), Err(AnnouncementFault::InvalidPeerId));
    let own = announcement("dev", &local, &[]);
    assert_eq!(
        plan_discovery_dial("dev", &own, &local, true),
        DiscoveryPlan::Ignore(AnnouncementFault::OwnRecord)
    );
    assert_eq!(announced_peer("dev", &good, &local), Ok(remote));
}

#[test]
fn publishing_is_rate_limited_and_merges_addresses() {
    let local = peer_of(1);
    let mut discovery = Discovery::new(true, 15_000, 2_500);
    assert_eq!(
        discovery.config_values(),
        DiscoveryConfig {
            publish_device_record: true,
            device_record_republish_ms: 15_000,
            device_lookup_interval_ms: 2_500
        }
    );
    discovery.note_local_addr("/ip4/1.1.1.1/tcp/1");
    discovery.note_local_addr("/ip4/2.2.2.2/tcp/2");
    discovery.note_local_addr("/ip4/1.1.1.1/tcp/1");
    assert_eq!(discovery.maybe_publish_local_device_record(&local, 14_999, &[]), None);
    let external = strings(&["/ip4/3.3.3.3/tcp/3", "/ip4/2.2.2.2/tcp/2", "/ip4/3.3.3.3/tcp/3"]);
    assert_eq!(
        discovery.maybe_publish_local_device_record(&local, 15_000, &external),
        Some(DeviceAnnouncement {
            version: 1,
            device_code: local.as_str().to_string(),
            peer_id: local.as_str().to_string(),
            addrs: strings(&["/ip4/1.1.1.1/tcp/1", "/ip4/2.2.2.2/tcp/2", "/ip4/3.3.3.3/tcp/3"]),
            unix_ms: 15_000,
        })
    );
    assert_eq!(discovery.maybe_publish_local_device_record(&local, 29_999, &external), None);
    assert!(discovery.maybe_publish_local_device_record(&local, 30_000, &[]).is_some());

    let mut silent = Discovery::new(false, 0, 0);
    assert_eq!(silent.config_values().device_record_republish_ms, 2_000);
    assert_eq!(silent.config_values().device_lookup_interval_ms, 500);
    assert_eq!(silent.maybe_publish_local_device_record(&local, 1_000_000, &[]), None);
}

#[test]
fn lookups_are_started_once_per_interval_and_never_twice_at_a_time() {
    let mut discovery = Discovery::new(true, 15_000, 2_500);
    let targets = strings(&["a", "b", "a"]);
    assert!(discovery.maybe_start_device_code_lookups(&targets, 2_499).is_empty());
    assert_eq!(discovery.maybe_start_device_code_lookups(&targets, 2_500), ["a", "b"]);
    assert_eq!(
        discovery.lookup_state("a"),
        LookupState { last_lookup_unix_ms: 2_500, in_flight: true }
    );
    assert_eq!(
        discovery.lookup_state("c"),
        LookupState { last_lookup_unix_ms: 0, in_flight: false }
    );
    // while a lookup is under way none is started, however long it takes
    assert!(discovery.maybe_start_device_code_lookups(&targets, 100_000).is_empty());
    discovery.finish_lookup("a");
    assert!(discovery.maybe_start_device_code_lookups(&targets, 4_999).is_empty());
    assert_eq!(discovery.maybe_start_device_code_lookups(&targets, 5_000), ["a"]);
    discovery.finish_lookup("b");
    discovery.finish_lookup("zzz");
    assert_eq!(discovery.maybe_start_device_code_lookups(&targets, 5_001), ["b"]);
}
