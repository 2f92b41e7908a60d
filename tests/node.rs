use boxpeer::node::{fallback_store_path, seed_key_bytes};
use boxpeer::{boxpeer_dir, NodeType, PeerInfo};

#[test]
fn store_dir_is_fixed() {
    assert_eq!(boxpeer_dir(), Ok("home/Boxpeer".to_string()));
}

#[test]
fn fallback_is_sibling() {
    assert_eq!(fallback_store_path("home/Boxpeer"), "home/Boxpeer_fallback");
}

#[test]
fn seed_key_layout() {
    let k = seed_key_bytes(7);
    assert_eq!(k.len(), 32);
    assert_eq!(k[0], 7);
    assert!(k[1..].iter().all(|b| *b == 0));
}

#[test]
fn peer_info_holds_fields() {
    let p = PeerInfo::new("id".to_string(), "/ip4/1.2.3.4".to_string(), Some(NodeType::Provider));
    assert_eq!(p.peer_id, "id");
    assert_eq!(p.listening_addr, "/ip4/1.2.3.4");
    assert_eq!(p.node_type, Some(NodeType::Provider));
}
