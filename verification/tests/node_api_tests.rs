//! The p2p decision layer, console commands, and the API handlers.

use cryptogram::api::handle_feed;
use cryptogram::api::handle_post_create;
use cryptogram::api::handle_post_detail;
use cryptogram::api::handle_user_create;
use cryptogram::api::handle_user_update;
use cryptogram::api::ApiOutcome;
use cryptogram::api::PostRequest;
use cryptogram::api::UserCreateRequest;
use cryptogram::api::UserUpdateRequest;
use cryptogram::block::BlockData;
use cryptogram::block::PendingBlock;
use cryptogram::chain::Blockchain;
use cryptogram::input::parse_command;
use cryptogram::input::Command;
use cryptogram::message::Handshake;
use cryptogram::message::Message;
use cryptogram::message::MessageData;
use cryptogram::message::PeerInfo;
use cryptogram::node::handle_message;
use cryptogram::node::sync_request;
use cryptogram::node::validate_handshake;
use cryptogram::node::NodeAction;
use cryptogram::node::PeerTable;
use cryptogram::sign::generate_keypair;
use cryptogram::sign::sign_message;

fn mine_user(chain: &mut Blockchain, username: &str) -> (String, String) {
    let (sk, pk) = generate_keypair();
    let data = BlockData::User {
        display_name: "D".to_string(),
        username: username.to_string(),
        biography: String::new(),
    };
    let sig = sign_message(&sk, &data.to_string_for_signing()).unwrap();
    chain.push_mempool(PendingBlock::new(data, pk.clone(), sig)).unwrap();
    let pending = chain.next_mpool_block().unwrap();
    chain.process_pending(pending).unwrap();
    (sk, pk)
}

#[test]
fn test_validate_handshake() {
    let good = Handshake {
        version: "1".to_string(),
        peer_id: "peer-a".to_string(),
        addr: "127.0.0.1:5000".to_string(),
    };
    assert!(validate_handshake(&good, "peer-b").is_ok());

    let wrong_version = Handshake { version: "2".to_string(), ..clone_handshake(&good) };
    assert_eq!(validate_handshake(&wrong_version, "peer-b").unwrap_err(), "Invalid handshake version");

    assert_eq!(validate_handshake(&good, "peer-a").unwrap_err(), "Cannot connect to self");
}

fn clone_handshake(h: &Handshake) -> Handshake {
    Handshake {
        version: h.version.clone(),
        peer_id: h.peer_id.clone(),
        addr: h.addr.clone(),
    }
}

fn peer(name: &str) -> PeerInfo {
    PeerInfo { name: name.to_string(), addr: format!("{}:1", name) }
}

#[test]
fn test_peer_table_operations() {
    let mut table = PeerTable::new();
    assert_eq!(table.peer_count(), 0);
    assert!(!table.has_peer("a"));
    assert!(table.choose_peer(3).is_none());

    table.add_peer(peer("a"));
    table.add_peer(peer("b"));
    table.add_peer(peer("a"));
    assert_eq!(table.peer_count(), 2);
    assert!(table.has_peer("a"));
    assert!(table.has_peer("b"));

    let names: Vec<String> = table.get_peers().into_iter().map(|p| p.name).collect();
    assert_eq!(names, vec!["a".to_string(), "b".to_string()]);

    let chosen = table.choose_peer(3).unwrap();
    assert_eq!(chosen.name, "b");

    table.rem_peer("a");
    assert!(!table.has_peer("a"));
    assert_eq!(table.peer_count(), 1);
}

#[test]
fn test_gossip_targets_counts() {
    let mut table = PeerTable::new();
    assert_eq!(table.gossip_targets(7, 11, 13).len(), 0);
    table.add_peer(peer("a"));
    table.add_peer(peer("b"));
    assert_eq!(table.gossip_targets(7, 11, 13).len(), 2);
    table.add_peer(peer("c"));
    table.add_peer(peer("d"));
    table.add_peer(peer("e"));
    for seed in 0usize..8 {
        let targets = table.gossip_targets(seed, seed.wrapping_mul(31), seed.wrapping_mul(57));
        assert_eq!(targets.len(), 3);
        let mut names: Vec<String> = targets.into_iter().map(|p| p.name).collect();
        names.sort();
        names.dedup();
        assert_eq!(names.len(), 3);
    }
}

#[test]
fn test_parse_command_variants() {
    assert!(matches!(
        parse_command("/s hello world"),
        Command::Broadcast { message } if message == "hello world"
    ));
    assert!(matches!(
        parse_command("/w bob hi there"),
        Command::Whisper { peer, message } if peer == "bob" && message == "hi there"
    ));
    assert!(matches!(
        parse_command("/connect 127.0.0.1:5000"),
        Command::Connect { addr } if addr == "127.0.0.1:5000"
    ));
    assert!(matches!(parse_command("  /chain  "), Command::ShowChain));
    assert!(matches!(parse_command("/peers"), Command::ListPeers));
    assert!(matches!(parse_command("/sync"), Command::Help));
    assert!(matches!(parse_command(""), Command::Help));
    assert!(matches!(parse_command("/connect a b"), Command::Help));
}

#[test]
fn test_handle_message_block_request() {
    let mut chain = Blockchain::new();
    mine_user(&mut chain, "alice");
    let table = PeerTable::new();
    let expected_hash = chain.at(1).unwrap().hash;

    let msg = Message {
        payload: MessageData::BlockRequest { index: 1 },
        receiver: None,
        sender: Some("peer-x".to_string()),
    };
    match handle_message(&mut chain, &table, msg) {
        NodeAction::Send { to, message } => {
            assert_eq!(to, "peer-x");
            match message {
                MessageData::BlockResponse { block } => assert_eq!(block.hash, expected_hash),
                _ => panic!("expected a block response"),
            }
        },
        _ => panic!("expected a send action"),
    }

    let beyond = Message {
        payload: MessageData::BlockRequest { index: 9 },
        receiver: None,
        sender: Some("peer-x".to_string()),
    };
    assert!(matches!(handle_message(&mut chain, &table, beyond), NodeAction::Nothing));
}

#[test]
fn test_handle_message_block_response_continues_walk() {
    let mut a = Blockchain::new();
    let mut b = Blockchain::new();
    while a.at(0).unwrap().hash != b.at(0).unwrap().hash {
        a = Blockchain::new();
        b = Blockchain::new();
    }
    mine_user(&mut a, "alice");
    let table = PeerTable::new();

    let msg = Message {
        payload: MessageData::BlockResponse { block: a.at(1).unwrap() },
        receiver: None,
        sender: Some("peer-a".to_string()),
    };
    match handle_message(&mut b, &table, msg) {
        NodeAction::RequestNext { index } => assert_eq!(index, 2),
        _ => panic!("expected the walk to continue"),
    }
    assert_eq!(b.len(), 1);

    // an unlinked block is dropped and the walk stops
    let mut c = Blockchain::new();
    mine_user(&mut a, "bob");
    let bad = Message {
        payload: MessageData::BlockResponse { block: a.at(2).unwrap() },
        receiver: None,
        sender: Some("peer-a".to_string()),
    };
    assert!(matches!(handle_message(&mut c, &table, bad), NodeAction::Nothing));
    assert_eq!(c.len(), 0);
}

#[test]
fn test_handle_message_peer_discovery() {
    let mut chain = Blockchain::new();
    let mut table = PeerTable::new();
    table.add_peer(peer("a"));
    let msg = Message {
        payload: MessageData::PeerDiscovery,
        receiver: None,
        sender: Some("peer-x".to_string()),
    };
    match handle_message(&mut chain, &table, msg) {
        NodeAction::Send { to, message } => {
            assert_eq!(to, "peer-x");
            match message {
                MessageData::PeerGossip { peers } => {
                    assert_eq!(peers.len(), 1);
                    assert_eq!(peers[0].name, "a");
                },
                _ => panic!("expected gossip"),
            }
        },
        _ => panic!("expected a send action"),
    }
}

#[test]
fn test_sync_request_asks_past_height() {
    let mut chain = Blockchain::new();
    match sync_request(&chain) {
        MessageData::BlockRequest { index } => assert_eq!(index, 1),
        _ => panic!("expected a block request"),
    }
    mine_user(&mut chain, "alice");
    match sync_request(&chain) {
        MessageData::BlockRequest { index } => assert_eq!(index, 2),
        _ => panic!("expected a block request"),
    }
}

#[test]
fn test_handle_user_post_rejects_existing_username() {
    let mut chain = Blockchain::new();
    mine_user(&mut chain, "hbackman");

    let req = UserCreateRequest {
        display_name: "Hampus Backman".to_string(),
        username: "hbackman".to_string(),
        biography: "lorem ipsum dolor sit amet".to_string(),
        public_key: "dummy_key".to_string(),
        signature: "dummy_sig".to_string(),
    };
    match handle_user_create(req, &mut chain) {
        ApiOutcome::Rejected { status, message } => {
            assert_eq!(status, 422);
            assert_eq!(message, "Username is already taken.");
        },
        _ => panic!("expected a rejection"),
    }
}

#[test]
fn test_handle_post_create_rejects_long_post() {
    let mut chain = Blockchain::new();
    let req = PostRequest {
        body: "a".repeat(320),
        reply: None,
        public_key: "dummy_key".to_string(),
        signature: "dummy_sig".to_string(),
    };
    match handle_post_create(req, &mut chain) {
        ApiOutcome::Rejected { status, message } => {
            assert_eq!(status, 422);
            assert_eq!(message, "Post body cannot exceed 300 characters.");
        },
        _ => panic!("expected a rejection"),
    }
    assert_eq!(chain.len(), 0);
}

#[test]
fn test_handle_user_create_accepts_fresh_user() {
    let mut chain = Blockchain::new();
    let (sk, pk) = generate_keypair();
    let data = BlockData::User {
        display_name: "A".to_string(),
        username: "alice".to_string(),
        biography: String::new(),
    };
    let sig = sign_message(&sk, &data.to_string_for_signing()).unwrap();
    let req = UserCreateRequest {
        display_name: "A".to_string(),
        username: "alice".to_string(),
        biography: String::new(),
        public_key: pk,
        signature: sig,
    };
    assert!(matches!(handle_user_create(req, &mut chain), ApiOutcome::NoContent));
    let pending = chain.next_mpool_block().unwrap();
    assert!(matches!(pending.data, BlockData::User { .. }));
}

#[test]
fn test_handle_user_create_rejects_taken_public_key() {
    let mut chain = Blockchain::new();
    let (_sk, pk) = mine_user(&mut chain, "alice");
    let req = UserCreateRequest {
        display_name: "B".to_string(),
        username: "bob".to_string(),
        biography: String::new(),
        public_key: pk,
        signature: "sig".to_string(),
    };
    match handle_user_create(req, &mut chain) {
        ApiOutcome::Rejected { status, message } => {
            assert_eq!(status, 422);
            assert_eq!(message, "Public key is already taken.");
        },
        _ => panic!("expected a rejection"),
    }
}

#[test]
fn test_handle_user_update_mismatched_key() {
    let mut chain = Blockchain::new();
    let req = UserUpdateRequest {
        display_name: "A".to_string(),
        biography: String::new(),
        public_key: "key-one".to_string(),
        signature: "sig".to_string(),
    };
    match handle_user_update("key-two".to_string(), req, &mut chain) {
        ApiOutcome::Rejected { status, message } => {
            assert_eq!(status, 401);
            assert_eq!(message, "Public key does not match.");
        },
        _ => panic!("expected a rejection"),
    }
}

#[test]
fn test_handle_post_detail_and_feed() {
    let mut chain = Blockchain::new();
    let (sk, pk) = mine_user(&mut chain, "alice");
    let data = BlockData::Post { body: "hi".to_string(), reply: None };
    let sig = sign_message(&sk, &data.to_string_for_signing()).unwrap();
    chain.push_mempool(PendingBlock::new(data, pk.clone(), sig)).unwrap();
    let pending = chain.next_mpool_block().unwrap();
    let post = chain.process_pending(pending).unwrap();

    assert!(handle_post_detail(&chain, "missing").is_none());
    let detail = handle_post_detail(&chain, &post.hash).unwrap();
    assert_eq!(detail.post.body, "hi");

    let feed = handle_feed(&chain, None, None, None);
    assert_eq!(feed.len(), 1);
    assert_eq!(feed[0].post.author.username, "alice");
    let empty = handle_feed(&chain, Some(vec!["nobody".to_string()]), Some(10), Some(0));
    assert_eq!(empty.len(), 0);
}

#[test]
fn test_handle_message_peer_gossip_dials_unknown() {
    let mut chain = Blockchain::new();
    let mut table = PeerTable::new();
    table.add_peer(peer("known"));
    let msg = Message {
        payload: MessageData::PeerGossip { peers: vec![peer("known"), peer("fresh")] },
        receiver: None,
        sender: Some("peer-x".to_string()),
    };
    match handle_message(&mut chain, &table, msg) {
        NodeAction::Dial { peers } => {
            assert_eq!(peers.len(), 1);
            assert_eq!(peers[0].name, "fresh");
            assert_eq!(peers[0].addr, "fresh:1");
        },
        _ => panic!("expected a dial action"),
    }
    assert_eq!(chain.len(), 0);
}

#[test]
fn test_sign_message_signature_shape() {
    let (sk, _pk) = generate_keypair();
    let sig = sign_message(&sk, "shape").unwrap();
    assert_eq!(sig.len(), 128);
    assert!(sig.chars().all(|c| c.is_ascii_hexdigit()));
}
