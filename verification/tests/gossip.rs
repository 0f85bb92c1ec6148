use rustorium::dag::graph::TransactionId;
use rustorium::gossip::message::{GossipMessage, PingMessage, QueryType, ResponseType};
use rustorium::gossip::peer::{PeerInfo, PeerManager};
use rustorium::gossip::protocol::{peer_address, AvalancheParams, AvalancheProtocol, AvalancheState};

fn peer(id: &str, port: u16, last_seen: u64) -> PeerInfo {
    PeerInfo { id: id.to_string(), address: "10.0.0.1".to_string(), port, last_seen }
}

#[test]
fn pong_carries_ping_id_and_time() {
    let ping = PingMessage { id: 42, sender: "a".to_string(), timestamp: 1000 };
    match GossipMessage::<(), ()>::new_pong_at(&ping, "b".to_string(), 2000) {
        GossipMessage::Pong(p) => {
            assert_eq!(p.id, 42);
            assert_eq!(p.original_timestamp, 1000);
            assert_eq!(p.timestamp, 2000);
            assert_eq!(p.sender, "b");
        }
        _ => panic!("not a pong"),
    }
    match GossipMessage::<(), ()>::new_pong(&ping, "b".to_string()) {
        GossipMessage::Pong(p) => assert_eq!(p.id, 42),
        _ => panic!("not a pong"),
    }
}

#[test]
fn query_has_the_given_type() {
    match GossipMessage::<(), ()>::new_query(QueryType::GetPeers, "n".to_string()) {
        GossipMessage::Query(q) => {
            assert_eq!(q.query_type, QueryType::GetPeers);
            assert_eq!(q.sender, "n");
        }
        _ => panic!("not a query"),
    }
}

#[test]
fn peer_manager_skips_itself_and_caps_connections() {
    let mut m = PeerManager::new("me".to_string(), 1);
    m.add_peer(peer("me", 1, 0));
    m.add_peer(peer("p1", 2, 0));
    m.add_peer(peer("p2", 3, 0));
    assert!(m.get_peer(&"me".to_string()).is_none());
    assert_eq!(m.get_all_peers().len(), 2);
    assert!(!m.connect_peer(&"zz".to_string()));
    assert!(m.connect_peer(&"p1".to_string()));
    assert!(!m.connect_peer(&"p2".to_string()));
    assert_eq!(m.get_connected_peers().len(), 1);
    m.disconnect_peer(&"p1".to_string());
    assert!(m.connect_peer(&"p2".to_string()));
    m.remove_peer(&"p2".to_string());
    assert_eq!(m.get_connected_peers().len(), 0);
    assert_eq!(m.get_all_peers().len(), 1);
}

#[test]
fn random_peers_are_distinct_connected_peers() {
    let mut m = PeerManager::new("me".to_string(), 10);
    for i in 0..5 {
        let id = format!("p{}", i);
        m.add_peer(peer(&id, i, 0));
        assert!(m.connect_peer(&id));
    }
    let few = m.get_random_peers(3);
    assert_eq!(few.len(), 3);
    let mut ids: Vec<String> = few.iter().map(|p| p.id.clone()).collect();
    ids.sort();
    ids.dedup();
    assert_eq!(ids.len(), 3);
    assert_eq!(m.get_random_peers(9).len(), 5);
}

#[test]
fn stale_peers_are_dropped() {
    let mut m = PeerManager::new("me".to_string(), 10);
    m.add_peer(peer("old", 1, 100));
    m.add_peer(peer("new", 2, 700));
    m.add_peer(peer("future", 3, 2000));
    assert!(m.connect_peer(&"old".to_string()));
    m.update_peer_last_seen_at(&"new".to_string(), 900);
    m.remove_stale_peers_at(1000);
    assert!(m.get_peer(&"old".to_string()).is_none());
    assert!(m.get_peer(&"future".to_string()).is_none());
    assert_eq!(m.get_peer(&"new".to_string()).unwrap().last_seen, 900);
    assert_eq!(m.get_connected_peers().len(), 0);
}

#[test]
fn avalanche_rounds_finalize_after_beta_successes() {
    let params = AvalancheParams::default();
    assert_eq!((params.k, params.alpha, params.beta), (10, 7, 5));
    let mut s = AvalancheState::new((), 0);
    for round in 0..4 {
        assert!(s.wants_round(&params));
        s.record_round(7, &params, round);
        assert!(!s.finalized);
    }
    s.record_round(9, &params, 9);
    assert!(s.finalized);
    assert_eq!(s.confidence, 5);
    assert!(!s.wants_round(&params));
}

#[test]
fn avalanche_failed_round_resets_confidence() {
    let params = AvalancheParams::default();
    let mut s = AvalancheState::new((), 0);
    s.record_round(8, &params, 1);
    s.record_round(8, &params, 2);
    s.record_round(6, &params, 3);
    assert_eq!(s.confidence, 0);
    assert_eq!(s.rounds, 3);
    s.record_round(8, &params, 4);
    s.record_round(8, &params, 5);
    assert!(!s.wants_round(&params));
    assert!(!s.finalized);
}

#[test]
fn protocol_answers_queries() {
    let mut p: AvalancheProtocol<String> = AvalancheProtocol::new("me".to_string(), AvalancheParams::default());
    let id = TransactionId::new([0xab; 32]);
    assert!(p.handle_transaction(id, "tx".to_string(), true, 0));
    assert!(!p.handle_transaction(id, "again".to_string(), true, 0));
    assert!(!p.handle_transaction(TransactionId::new([1; 32]), "bad".to_string(), false, 0));
    let hex = format!("0x{}", "ab".repeat(32));
    match p.answer_query::<()>(&QueryType::GetTransaction(hex), &[]) {
        ResponseType::Transaction(Some(t)) => assert_eq!(t, "tx"),
        _ => panic!("transaction expected"),
    }
    match p.answer_query::<()>(&QueryType::GetTransaction("cd".repeat(32)), &[]) {
        ResponseType::Transaction(None) => {}
        _ => panic!("no transaction expected"),
    }
    match p.answer_query::<()>(&QueryType::GetTransaction("xyz".to_string()), &[]) {
        ResponseType::Error(m) => assert_eq!(m, "Invalid transaction ID format"),
        _ => panic!("error expected"),
    }
    match p.answer_query::<()>(&QueryType::GetBlock(3), &[]) {
        ResponseType::Error(m) => assert_eq!(m, "Not implemented"),
        _ => panic!("error expected"),
    }
    let peers = vec![peer("p", 8080, 0)];
    match p.answer_query::<()>(&QueryType::GetPeers, &peers) {
        ResponseType::Peers(list) => assert_eq!(list, vec!["10.0.0.1:8080".to_string()]),
        _ => panic!("peers expected"),
    }
    assert_eq!(peer_address(&peer("q", 0, 0)), "10.0.0.1:0");
}

#[test]
fn protocol_rounds_are_written_back() {
    let mut p: AvalancheProtocol<u8> = AvalancheProtocol::new("me".to_string(), AvalancheParams::default());
    let id = TransactionId::new([7; 32]);
    assert!(!p.apply_round(&id, 1, 1, 0));
    assert!(p.handle_transaction(id, 1, true, 0));
    assert!(p.apply_round(&id, 4, 4, 10));
    assert!(!p.is_finalized(&id));
    assert!(!p.apply_round(&id, 5, 5, 20));
    assert!(p.is_finalized(&id));
}

#[test]
fn gossip_topics_by_kind() {
    assert_eq!(GossipMessage::<u8, u8>::new_transaction(1).topic(), Some("transactions"));
    assert_eq!(GossipMessage::<u8, u8>::new_block(2).topic(), Some("blocks"));
    assert_eq!(GossipMessage::<u8, u8>::new_ping_at("a".to_string(), 1, 5).topic(), None);
}

#[test]
fn rounds_keep_the_transaction_and_the_others() {
    let mut p: AvalancheProtocol<String> = AvalancheProtocol::new("me".to_string(), AvalancheParams::default());
    let a = TransactionId::new([0x11; 32]);
    let b = TransactionId::new([0x22; 32]);
    assert!(p.handle_transaction(a, "first".to_string(), true, 5));
    assert!(p.handle_transaction(b, "second".to_string(), true, 5));
    assert!(p.apply_round(&a, 1, 1, 9));
    match p.answer_query::<()>(&QueryType::GetTransaction("11".repeat(32)), &[]) {
        ResponseType::Transaction(Some(t)) => assert_eq!(t, "first"),
        _ => panic!("transaction expected"),
    }
    match p.answer_query::<()>(&QueryType::GetTransaction("22".repeat(32)), &[]) {
        ResponseType::Transaction(Some(t)) => assert_eq!(t, "second"),
        _ => panic!("transaction expected"),
    }
}
