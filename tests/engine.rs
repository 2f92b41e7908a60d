use boxpeer::engine::{EPHEMERAL_LISTEN_ADDR, TIMEOUT_CAUSE};
use boxpeer::{Engine, EngineAction, Fingerprint, OverlayEvent};

fn fp(data: &[u8]) -> Fingerprint {
    Fingerprint::of_bytes(data)
}

#[test]
fn new_engine_is_empty() {
    let e: Engine<u32, u32> = Engine::new();
    assert_eq!(e.pending_fetches(), 0);
    assert_eq!(e.pending_lookups(), 0);
}

#[test]
fn register_and_deliver_data() {
    let mut e: Engine<u32, u32> = Engine::new();
    assert!(e.register_fetch(7, 70, fp(b"hello world"), 1).is_ok());
    assert_eq!(e.pending_fetches(), 1);
    match e.handle_event(OverlayEvent::ExchangeData { query: 7, data: b"hello world".to_vec() }) {
        EngineAction::Deliver { reply, result } => {
            assert_eq!(reply, 1);
            assert_eq!(result.unwrap(), b"hello world".to_vec());
        }
        _ => panic!("expected a delivery"),
    }
    assert_eq!(e.pending_fetches(), 0);
}

#[test]
fn duplicate_query_is_refused() {
    let mut e: Engine<u32, u32> = Engine::new();
    assert!(e.register_fetch(3, 30, fp(b"a"), 1).is_ok());
    assert_eq!(e.register_fetch(3, 31, fp(b"b"), 2), Err(2));
    assert_eq!(e.pending_fetches(), 1);
}

#[test]
fn exchange_error_names_fingerprint() {
    let mut e: Engine<u32, u32> = Engine::new();
    let f = fp(b"missing");
    e.register_fetch(5, 50, f.clone(), 9).unwrap();
    match e.handle_event(OverlayEvent::ExchangeError { query: 5, cause: "no peer".to_string() }) {
        EngineAction::Deliver { reply, result } => {
            assert_eq!(reply, 9);
            let err = result.unwrap_err();
            assert!(err.fingerprint.same_as(&f));
            assert_eq!(err.cause, "no peer");
            assert_eq!(err.message(), format!("Error for CID {}: no peer", f.to_text()));
        }
        _ => panic!("expected a delivery"),
    }
}

#[test]
fn timeout_completes_with_error() {
    let mut e: Engine<u32, u32> = Engine::new();
    e.register_fetch(11, 110, fp(b"never announced"), 4).unwrap();
    match e.handle_event(OverlayEvent::ExchangeTimedOut { query: 11 }) {
        EngineAction::Deliver { reply, result } => {
            assert_eq!(reply, 4);
            assert_eq!(result.unwrap_err().cause, TIMEOUT_CAUSE);
        }
        _ => panic!("expected a delivery"),
    }
    assert_eq!(e.pending_fetches(), 0);
}

#[test]
fn unknown_query_is_ignored() {
    let mut e: Engine<u32, u32> = Engine::new();
    e.register_fetch(1, 10, fp(b"a"), 1).unwrap();
    assert!(matches!(e.handle_event(OverlayEvent::ExchangeData { query: 2, data: vec![] }), EngineAction::Ignore));
    assert_eq!(e.pending_fetches(), 1);
}

#[test]
fn resolving_twice_delivers_once() {
    let mut e: Engine<u32, u32> = Engine::new();
    e.register_fetch(1, 10, fp(b"a"), 1).unwrap();
    assert!(matches!(e.handle_event(OverlayEvent::ExchangeData { query: 1, data: vec![1] }), EngineAction::Deliver { .. }));
    assert!(matches!(e.handle_event(OverlayEvent::ExchangeData { query: 1, data: vec![1] }), EngineAction::Ignore));
}

#[test]
fn out_of_order_completion() {
    let mut e: Engine<u32, u32> = Engine::new();
    e.register_fetch(1, 10, fp(b"a"), 100).unwrap();
    e.register_fetch(2, 20, fp(b"b"), 200).unwrap();
    match e.handle_event(OverlayEvent::ExchangeData { query: 2, data: vec![2] }) {
        EngineAction::Deliver { reply, .. } => assert_eq!(reply, 200),
        _ => panic!("expected a delivery"),
    }
    match e.handle_event(OverlayEvent::ExchangeData { query: 1, data: vec![1] }) {
        EngineAction::Deliver { reply, .. } => assert_eq!(reply, 100),
        _ => panic!("expected a delivery"),
    }
}

#[test]
fn providers_lookup_flow() {
    let mut e: Engine<u32, u32> = Engine::new();
    assert!(e.register_providers_lookup(8, 3).is_ok());
    assert_eq!(e.register_providers_lookup(8, 4), Err(4));
    assert_eq!(e.pending_lookups(), 1);
    match e.handle_event(OverlayEvent::ProvidersFound { query: 8, providers: vec!["peerA".to_string()] }) {
        EngineAction::DeliverProviders { reply, providers, finish } => {
            assert_eq!(reply, 3);
            assert_eq!(providers, vec!["peerA".to_string()]);
            assert_eq!(finish, 8);
        }
        _ => panic!("expected providers"),
    }
    assert_eq!(e.pending_lookups(), 0);
}

#[test]
fn routing_update_dials_first_address() {
    let mut e: Engine<u32, u32> = Engine::new();
    let ev = OverlayEvent::RoutingUpdated {
        peer: "p".to_string(),
        addresses: vec!["/ip4/1.2.3.4/udp/9090/quic-v1".to_string(), "/ip4/5.6.7.8/udp/1/quic-v1".to_string()],
    };
    match e.handle_event(ev) {
        EngineAction::Dial { address } => assert_eq!(address, "/ip4/1.2.3.4/udp/9090/quic-v1"),
        _ => panic!("expected a dial"),
    }
    let empty = OverlayEvent::RoutingUpdated { peer: "p".to_string(), addresses: vec![] };
    assert!(matches!(e.handle_event(empty), EngineAction::Ignore));
}

#[test]
fn discovered_peers_are_registered() {
    let mut e: Engine<u32, u32> = Engine::new();
    let peers = vec![("p1".to_string(), "/ip4/10.0.0.1/udp/9090/quic-v1".to_string())];
    match e.handle_event(OverlayEvent::PeersDiscovered { peers: peers.clone() }) {
        EngineAction::AddAddresses { peers: p } => assert_eq!(p, peers),
        _ => panic!("expected addresses"),
    }
}

#[test]
fn expired_listen_address_relistens() {
    let mut e: Engine<u32, u32> = Engine::new();
    let ev = OverlayEvent::ListenAddrExpired { address: "/ip4/0.0.0.0/udp/9090/quic-v1".to_string() };
    match e.handle_event(ev) {
        EngineAction::Relisten { address, fallback } => {
            assert_eq!(address, "/ip4/0.0.0.0/udp/9090/quic-v1");
            assert_eq!(fallback, EPHEMERAL_LISTEN_ADDR);
            assert_eq!(fallback, "/ip4/0.0.0.0/udp/0/quic-v1");
        }
        _ => panic!("expected a relisten"),
    }
    assert!(matches!(e.handle_event(OverlayEvent::Other), EngineAction::Ignore));
}
