use rustorium::node::token::{Token, TokenManager};
use rustorium::i18n::LocaleConfig;
use rustorium::legacy::commands::{DevCommands, DevSubCommands, TransactionCommands, TransactionSubCommands};
use rustorium::legacy::dev::TestNodeManager;
use rustorium::legacy::integrated_server::{newest_first, LIVE_LISTING_LIMIT};
use rustorium::legacy::web::{answer_static, fill_placeholders, static_path, StaticAnswer, WebConfig, WebServer};
use rustorium::node::ai::{ActionExecutor, ExecutorError, push_bounded};
use rustorium::node::discovery::{join_decision, DiscoveryConfig, JoinDecision};
use rustorium::node::time_sync::{client_packet, corrected_reading, timestamp_parts, SyncAction, SyncRun, TimeSyncConfig, TimeSyncManager};
use rustorium::node::avalanche::{Confidence, Vote, VoteTally};
use rustorium::node::dag::TxId;

#[test]
fn test_time_sync() {
    let config = TimeSyncConfig::default();
    assert_eq!(config.ntp_servers, vec!["pool.ntp.org", "time.google.com", "time.cloudflare.com"]);
    let mut manager = TimeSyncManager::new(config);
    assert!(manager.needs_sync());
    assert_eq!(manager.last_sync_time(), None);
    assert_eq!(manager.current_offset(), std::time::Duration::from_secs(0));
    manager.record_sync(std::time::Duration::from_millis(5), 1000);
    assert!(!manager.needs_sync_at(1000 + 3599));
    assert!(manager.needs_sync_at(1000 + 3600));
    assert!(manager.needs_sync_at(999));
    assert_eq!(manager.last_sync_time(), Some(1000));
}

#[test]
fn ntp_packet_and_timestamps() {
    let p = client_packet();
    assert_eq!(p[0], 0x1b);
    assert!(p[1..].iter().all(|b| *b == 0));
    let mut resp = [0u8; 48];
    resp[32..40].copy_from_slice(&[0xe8, 0x00, 0x00, 0x01, 0x80, 0x00, 0x00, 0x00]);
    assert_eq!(timestamp_parts(&resp, 32), (0xe800_0001, 0x8000_0000));
}

#[test]
fn sync_run_tries_each_server_per_attempt() {
    let mut run = SyncRun::new(2, 2);
    let mut asked = vec![];
    while let SyncAction::Query(i) = run.next_action() {
        asked.push(i);
        run.on_result(false);
    }
    assert_eq!(asked, vec![0, 1, 0, 1]);
    assert_eq!(run.next_action(), SyncAction::Failed);
    let mut run = SyncRun::new(3, 1);
    run.on_result(false);
    run.on_result(true);
    assert_eq!(run.next_action(), SyncAction::Succeeded);
    assert_eq!(SyncRun::new(0, 3).next_action(), SyncAction::Failed);
}

#[test]
fn locale_messages() {
    let en = LocaleConfig::new("en");
    assert_eq!(en.get_message("welcome"), "Welcome to Rustorium!");
    let ja = LocaleConfig::new("ja");
    assert_eq!(ja.get_message("exit"), "終了");
}

#[test]
fn commands_print_lines() {
    assert_eq!(DevCommands { command: DevSubCommands::List }.message(), "Listing devs...");
    let send = TransactionCommands { command: TransactionSubCommands::Send { to: "bob".to_string(), amount: 42 } };
    assert_eq!(send.message(), "Sending 42 to bob");
}

#[test]
fn test_nodes_get_ports_and_bootstrap() {
    let m = TestNodeManager::new(9000, "/tmp/nodes".to_string());
    let first = m.node_config(1);
    assert_eq!((first.api_port, first.frontend_port, first.p2p_port), (9003, 9004, 9005));
    assert!(first.bootstrap.is_none());
    assert_eq!(first.data_dir, "/tmp/nodes/node1");
    let third = m.node_config(3);
    assert_eq!(third.api_port, 9009);
    assert_eq!(third.bootstrap.as_deref(), Some("/ip4/127.0.0.1/tcp/9002/p2p/QmBootstrapNode"));
    let mut m = m;
    m.push_node(first);
    m.push_node(third);
    assert_eq!(m.nodes_to_start(2), vec![0]);
}

#[test]
fn web_static_files() {
    assert_eq!(static_path("/"), "index.html");
    assert_eq!(static_path("//app/main.js"), "app/main.js");
    assert_eq!(answer_static("index.html", true, true), StaticAnswer::File { html: true });
    assert_eq!(answer_static("x.css", false, true), StaticAnswer::FileNotFound);
    assert_eq!(answer_static("route", false, true), StaticAnswer::Index);
    assert_eq!(answer_static("route", false, false), StaticAnswer::IndexMissing);
    assert_eq!(
        fill_placeholders("{{API_BASE_URL}} {{WS_BASE_URL}} {{GRAPHQL_BASE_URL}}", 1, 2, 3),
        "http://localhost:1 ws://localhost:2 http://localhost:3"
    );
    let server = WebServer::new(WebConfig::default(), (), 1, 2, 3);
    assert_eq!(server.listen_address(), "127.0.0.1:53036");
}

#[test]
fn executor_cooldown() {
    let mut e = ActionExecutor::new_at(1000);
    assert_eq!(e.may_act(999), Err(ExecutorError::ClockWentBack));
    assert_eq!(e.may_act(60999), Ok(false));
    assert_eq!(e.may_act(61000), Ok(true));
    e.record_action(61000);
    assert_eq!(e.may_act(61001), Ok(false));
    let mut h = vec![1, 2];
    push_bounded(&mut h, 3, 2);
    assert_eq!(h, vec![2, 3]);
}

#[test]
fn discovery_defaults_and_join() {
    let c = DiscoveryConfig::default();
    assert_eq!((c.min_peers, c.max_peers, c.discovery_interval), (3, 25, 60));
    assert_eq!(join_decision(true, false), JoinDecision::Joined);
    assert_eq!(join_decision(false, true), JoinDecision::StartFirstNode);
    assert_eq!(join_decision(false, false), JoinDecision::Fail);
}

#[test]
fn vote_tally_counts() {
    let mut t = VoteTally::new();
    let id = TxId::new("t".to_string());
    assert_eq!(t.count_votes(&id), (0, 0));
    t.process_vote(TxId::new("t".to_string()), Vote::Accept);
    t.process_vote(TxId::new("t".to_string()), Vote::Reject);
    t.process_vote(TxId::new("t".to_string()), Vote::Accept);
    assert_eq!(t.count_votes(&id), (2, 1));
    t.cleanup_votes();
    assert_eq!(t.count_votes(&id), (0, 0));
}

#[test]
fn node_token_manager_placeholders() {
    let m = TokenManager::new(());
    let t = Token { id: vec![1], name: "A".to_string(), symbol: "A".to_string(), decimals: 2, total_supply: 5, owner: vec![2] };
    assert!(m.create_token(t).is_ok());
    assert!(m.get_token(&[1]).unwrap().is_none());
    assert!(m.transfer(&[1], &[2], 3).is_ok());
    assert_eq!(m.get_balance(&[1]).unwrap(), 0);
}

#[test]
fn corrected_time_adds_the_offset() {
    let t = std::time::UNIX_EPOCH + std::time::Duration::from_secs(100);
    let later = t + std::time::Duration::from_secs(5);
    assert_eq!(corrected_reading(Some(later), t), later);
    assert_eq!(corrected_reading(None, t), t);
    let mut manager = TimeSyncManager::new(TimeSyncConfig::default());
    manager.record_sync(std::time::Duration::from_secs(3600), 0);
    let before = std::time::SystemTime::now();
    let corrected = manager.now();
    assert!(corrected >= before + std::time::Duration::from_secs(3600));
}

#[test]
fn votes_counted_in_either_order_agree() {
    let a = TxId::new("a".to_string());
    let b = TxId::new("b".to_string());
    let mut first = VoteTally::new();
    first.process_vote(a.clone(), Vote::Accept);
    first.process_vote(b.clone(), Vote::Reject);
    first.process_vote(a.clone(), Vote::Reject);
    let mut second = VoteTally::new();
    second.process_vote(a.clone(), Vote::Reject);
    second.process_vote(b.clone(), Vote::Reject);
    second.process_vote(a.clone(), Vote::Accept);
    assert_eq!(first.count_votes(&a), (1, 1));
    assert_eq!(first.count_votes(&a), second.count_votes(&a));
    assert_eq!(first.count_votes(&b), second.count_votes(&b));
}

#[test]
fn every_supported_language_has_every_message() {
    let keys = ["welcome", "select_action", "account", "transaction", "smart_contract", "blockchain", "settings", "exit"];
    for lang in ["ja", "en", "zh", "ko"] {
        let l = LocaleConfig::new(lang);
        for k in keys {
            assert_ne!(l.get_message(k), k);
        }
    }
    assert_eq!(LocaleConfig::new("fr").get_message("welcome"), "welcome");
}

#[test]
fn newest_transactions_are_listed_first() {
    let ts = [5u64, 9, 1, 9, 7];
    assert_eq!(newest_first(&ts, 3), vec![1, 3, 4]);
    assert_eq!(newest_first(&ts, LIVE_LISTING_LIMIT), vec![1, 3, 4, 0, 2]);
    let many: Vec<u64> = (0..15).collect();
    assert_eq!(newest_first(&many, LIVE_LISTING_LIMIT), vec![14, 13, 12, 11, 10, 9, 8, 7, 6, 5]);
    assert!(newest_first(&[], LIVE_LISTING_LIMIT).is_empty());
}

#[test]
fn confidence_counts_do_not_depend_on_vote_order() {
    let votes = [Vote::Accept, Vote::Reject, Vote::Accept, Vote::Accept, Vote::Reject];
    let mut forward = Confidence::new();
    for v in votes {
        forward.add_vote(v);
    }
    let mut backward = Confidence::new();
    for v in votes.iter().rev() {
        backward.add_vote(*v);
    }
    assert_eq!((forward.accept_count, forward.reject_count), (3, 2));
    assert_eq!((backward.accept_count, backward.reject_count), (3, 2));
    assert_eq!(forward.total_votes(), 5);
}
