use advanced_dtn_node::peers::PeerDirectory;

#[test]
fn test_add_and_get_peer() {
    let mut dir = PeerDirectory::new();
    dir.add("eid1".to_string(), "addr1".to_string());
    assert_eq!(dir.get(&"eid1".to_string()), Some("addr1".to_string()));
}

#[test]
fn peers_test_add_and_get_peer() {
    let mut dir = PeerDirectory::new();
    dir.add("eid1".to_string(), "addr1".to_string());
    assert_eq!(dir.get(&"eid1".to_string()), Some("addr1".to_string()));
}

#[test]
fn test_all_peers() {
    let mut dir = PeerDirectory::new();
    dir.add("eid2".to_string(), "addr2".to_string());
    dir.add("eid3".to_string(), "addr3".to_string());
    let all = dir.all();
    assert!(all.contains(&("eid2".to_string(), "addr2".to_string())));
    assert!(all.contains(&("eid3".to_string(), "addr3".to_string())));
}

#[test]
fn test_get_absent_peer() {
    let dir = PeerDirectory::new();
    assert_eq!(dir.get(&"nobody".to_string()), None);
}

#[test]
fn test_add_overwrites_and_all_has_latest() {
    let mut dir = PeerDirectory::new();
    dir.add("e".to_string(), "first".to_string());
    dir.add("e".to_string(), "second".to_string());
    dir.add("other".to_string(), "addr".to_string());
    assert_eq!(dir.get(&"e".to_string()), Some("second".to_string()));
    let all = dir.all();
    assert_eq!(all.len(), 2);
    assert!(all.contains(&("e".to_string(), "second".to_string())));
    assert!(!all.contains(&("e".to_string(), "first".to_string())));
}

#[test]
fn test_record_discovery_only_when_absent() {
    let mut dir = PeerDirectory::new();
    dir.record_discovery("peerA".to_string(), "ble:3000".to_string());
    assert_eq!(dir.get(&"peerA".to_string()), Some("ble:3000".to_string()));
    dir.record_discovery("peerA".to_string(), "ble:9999".to_string());
    assert_eq!(dir.get(&"peerA".to_string()), Some("ble:3000".to_string()));
}

#[test]
fn test_learn_address_replaces_only_ble() {
    let mut dir = PeerDirectory::new();
    dir.add("radio".to_string(), "ble:3000".to_string());
    dir.add("wired".to_string(), "dtn://wired".to_string());
    dir.learn_address(&"radio".to_string(), "addr_learned_from_bundle".to_string());
    dir.learn_address(&"wired".to_string(), "addr_learned_from_bundle".to_string());
    dir.learn_address(&"absent".to_string(), "addr_learned_from_bundle".to_string());
    assert_eq!(
        dir.get(&"radio".to_string()),
        Some("addr_learned_from_bundle".to_string())
    );
    assert_eq!(dir.get(&"wired".to_string()), Some("dtn://wired".to_string()));
    assert_eq!(dir.get(&"absent".to_string()), None);
}

#[test]
fn test_discovery_candidate_parses_prefixed_names() {
    assert_eq!(
        advanced_dtn_node::peers::discovery_candidate(&"DTN:peerB".to_string(), &"me".to_string()),
        Some("peerB".to_string())
    );
    assert_eq!(
        advanced_dtn_node::peers::discovery_candidate(&"DTN:me".to_string(), &"me".to_string()),
        None
    );
    assert_eq!(
        advanced_dtn_node::peers::discovery_candidate(&"printer".to_string(), &"me".to_string()),
        None
    );
    assert_eq!(
        advanced_dtn_node::peers::discovery_candidate(&"DT".to_string(), &"me".to_string()),
        None
    );
}
