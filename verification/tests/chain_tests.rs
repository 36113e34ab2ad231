//! The chain manager: genesis, admission, mining, the index
//! projection and pull synchronization.

use cryptogram::block::Block;
use cryptogram::block::BlockData;
use cryptogram::block::PendingBlock;
use cryptogram::chain::Blockchain;
use cryptogram::sign::generate_keypair;
use cryptogram::sign::sign_message;

fn signed_pending(data: BlockData, sk: &str, pk: &str) -> PendingBlock {
    let msg = data.to_string_for_signing();
    let sig = sign_message(sk, &msg).unwrap();
    PendingBlock::new(data, pk.to_string(), sig)
}

fn submit_and_mine(
    chain: &mut Blockchain,
    data: BlockData,
    sk: &str,
    pk: &str,
) -> Result<Block, String> {
    chain.push_mempool(signed_pending(data, sk, pk)).unwrap();
    let pending = chain.next_mpool_block().unwrap();
    chain.process_pending(pending)
}

fn user_data(username: &str, display_name: &str) -> BlockData {
    BlockData::User {
        display_name: display_name.to_string(),
        username: username.to_string(),
        biography: String::new(),
    }
}

fn post_data(body: &str, reply: Option<&str>) -> BlockData {
    BlockData::Post { body: body.to_string(), reply: reply.map(|r| r.to_string()) }
}

#[test]
fn test_genesis_only_chain() {
    let chain = Blockchain::new();
    assert_eq!(chain.len(), 0);
    let genesis = chain.at(0).unwrap();
    assert!(matches!(genesis.data, BlockData::Genesis));
    assert_eq!(genesis.prev_hash, "0");
    assert_eq!(genesis.index, 0);
    assert!(chain.at(1).is_none());
    assert_eq!(genesis.hash, genesis.hash_block());
}

#[test]
fn test_user_registration_then_post() {
    let mut chain = Blockchain::new();
    let (sk, pk) = generate_keypair();
    let user = submit_and_mine(&mut chain, user_data("alice", "A"), &sk, &pk).unwrap();
    assert_eq!(user.index, 1);
    assert_eq!(chain.len(), 1);
    assert!(chain.index.has_username("alice"));
    assert!(chain.index.has_pubkey(&pk));

    let post = submit_and_mine(&mut chain, post_data("hi", None), &sk, &pk).unwrap();
    assert_eq!(post.index, 2);
    assert_eq!(chain.len(), 2);

    let feed = chain.index.get_feed(vec!["alice".to_string()], 32, 0);
    assert_eq!(feed.len(), 1);
    assert_eq!(feed[0].body, "hi");
    assert_eq!(feed[0].author.username, "alice");

    let found = chain.index.get_user_by_public_key(&pk).unwrap();
    assert_eq!(found.username, "alice");
}

#[test]
fn test_duplicate_username_rejected_by_chain() {
    let mut chain = Blockchain::new();
    let (sk1, pk1) = generate_keypair();
    submit_and_mine(&mut chain, user_data("alice", "A"), &sk1, &pk1).unwrap();
    let (sk2, pk2) = generate_keypair();
    let err = submit_and_mine(&mut chain, user_data("alice", "B"), &sk2, &pk2).unwrap_err();
    assert_eq!(err, "Username 'alice' is already taken.");
    assert_eq!(chain.len(), 1);
}

#[test]
fn test_duplicate_public_key_rejected_by_chain() {
    let mut chain = Blockchain::new();
    let (sk, pk) = generate_keypair();
    submit_and_mine(&mut chain, user_data("alice", "A"), &sk, &pk).unwrap();
    let err = submit_and_mine(&mut chain, user_data("bob", "B"), &sk, &pk).unwrap_err();
    assert_eq!(err, format!("Public key '{}' is already registered.", pk));
}

#[test]
fn test_post_from_unregistered_key_rejected() {
    let mut chain = Blockchain::new();
    let (sk, pk) = generate_keypair();
    let err = submit_and_mine(&mut chain, post_data("hi", None), &sk, &pk).unwrap_err();
    assert_eq!(err, format!("Public key '{}' is not registered.", pk));
    assert_eq!(chain.len(), 0);
}

#[test]
fn test_signature_over_different_body_rejected() {
    let mut chain = Blockchain::new();
    let (sk, pk) = generate_keypair();
    submit_and_mine(&mut chain, user_data("alice", "A"), &sk, &pk).unwrap();

    let other = post_data("something else", None);
    let sig = sign_message(&sk, &other.to_string_for_signing()).unwrap();
    let forged = PendingBlock::new(post_data("hi", None), pk.clone(), sig);
    let err = chain.push_mempool(forged).unwrap_err();
    assert_eq!(err, "Signature verification failed");
    assert!(chain.next_mpool_block().is_none());
    assert_eq!(chain.len(), 1);
}

fn twin_chains() -> (Blockchain, Blockchain) {
    loop {
        let a = Blockchain::new();
        let b = Blockchain::new();
        if a.at(0).unwrap().hash == b.at(0).unwrap().hash {
            return (a, b);
        }
    }
}

#[test]
fn test_pull_sync_converges() {
    let (mut a, mut b) = twin_chains();
    let (sk1, pk1) = generate_keypair();
    let (sk2, pk2) = generate_keypair();
    submit_and_mine(&mut a, user_data("alice", "A"), &sk1, &pk1).unwrap();
    submit_and_mine(&mut a, user_data("bob", "B"), &sk2, &pk2).unwrap();
    submit_and_mine(&mut a, post_data("one", None), &sk1, &pk1).unwrap();
    submit_and_mine(&mut a, post_data("two", None), &sk2, &pk2).unwrap();
    submit_and_mine(&mut a, post_data("three", None), &sk1, &pk1).unwrap();
    assert_eq!(a.len(), 5);

    while b.len() < a.len() {
        let next = b.len() + 1;
        let block = a.at(next).unwrap();
        b.add_block(block).unwrap();
    }
    assert_eq!(b.len(), a.len());
    for i in 0..=a.len() {
        assert_eq!(a.at(i).unwrap().hash, b.at(i).unwrap().hash);
    }
    assert!(b.index.has_username("alice"));
    assert!(b.index.has_username("bob"));
}

#[test]
fn test_user_update_reflected_in_index() {
    let mut chain = Blockchain::new();
    let (sk, pk) = generate_keypair();
    submit_and_mine(&mut chain, user_data("alice", "A"), &sk, &pk).unwrap();
    let update = BlockData::UserUpdate {
        display_name: "Alice Prime".to_string(),
        biography: "new bio".to_string(),
    };
    submit_and_mine(&mut chain, update, &sk, &pk).unwrap();
    let user = chain.index.get_user_by_username("alice").unwrap();
    assert_eq!(user.display_name, "Alice Prime");
    assert_eq!(user.biography, "new bio");
    assert_eq!(user.public_key, pk);
}

#[test]
fn test_user_update_from_unregistered_key_rejected() {
    let mut chain = Blockchain::new();
    let (sk, pk) = generate_keypair();
    let update = BlockData::UserUpdate {
        display_name: "X".to_string(),
        biography: String::new(),
    };
    let err = submit_and_mine(&mut chain, update, &sk, &pk).unwrap_err();
    assert_eq!(err, format!("Public key '{}' is not registered.", pk));
}

#[test]
fn test_add_block_wrong_prev_hash() {
    let (mut a, mut b) = twin_chains();
    let (sk, pk) = generate_keypair();
    submit_and_mine(&mut a, user_data("alice", "A"), &sk, &pk).unwrap();
    submit_and_mine(&mut a, post_data("one", None), &sk, &pk).unwrap();
    // b lacks block 1, so block 2 does not link to b's top
    let err = b.add_block(a.at(2).unwrap()).unwrap_err();
    assert_eq!(err, "Block hash did not match previous hash.");
    assert_eq!(b.len(), 0);
}

#[test]
fn test_add_block_difficulty_not_met() {
    let mut chain = Blockchain::new();
    let (sk, pk) = generate_keypair();
    let data = user_data("alice", "A");
    let sig = sign_message(&sk, &data.to_string_for_signing()).unwrap();
    let top = chain.top_block();
    let mut block = Block::next(&top, data);
    block.public_key = pk;
    block.signature = sig;
    block.hash = block.hash_block();
    while block.hash.starts_with("000") {
        block.nonce += 1;
        block.hash = block.hash_block();
    }
    let err = chain.add_block(block).unwrap_err();
    assert_eq!(err, "Block hash did not meet difficulty.");
}

#[test]
fn test_add_block_tampered_hash() {
    let mut chain = Blockchain::new();
    let (sk, pk) = generate_keypair();
    let data = user_data("alice", "A");
    let sig = sign_message(&sk, &data.to_string_for_signing()).unwrap();
    let top = chain.top_block();
    let mut block = Block::next(&top, data);
    block.public_key = pk;
    block.signature = sig;
    block.hash = "0".repeat(64);
    let err = chain.add_block(block).unwrap_err();
    assert_eq!(err, "Block hash did not match its contents.");
    assert_eq!(chain.len(), 0);
}

#[test]
fn test_chain_iter_lists_all_blocks() {
    let mut chain = Blockchain::new();
    let (sk, pk) = generate_keypair();
    submit_and_mine(&mut chain, user_data("alice", "A"), &sk, &pk).unwrap();
    let blocks = chain.chain_iter();
    assert_eq!(blocks.len(), 2);
    assert_eq!(blocks[0].index, 0);
    assert_eq!(blocks[1].index, 1);
    assert_eq!(blocks[1].prev_hash, blocks[0].hash);
}

#[test]
fn test_feed_limit_and_offset() {
    let mut chain = Blockchain::new();
    let (sk, pk) = generate_keypair();
    submit_and_mine(&mut chain, user_data("alice", "A"), &sk, &pk).unwrap();
    for body in ["one", "two", "three"] {
        submit_and_mine(&mut chain, post_data(body, None), &sk, &pk).unwrap();
    }
    let all = chain.index.get_feed(vec![], 32, 0);
    assert_eq!(all.len(), 3);
    assert_eq!(all[0].body, "one");
    let page = chain.index.get_feed(vec![], 2, 1);
    assert_eq!(page.len(), 2);
    assert_eq!(page[0].body, "two");
    assert_eq!(page[1].body, "three");
    let beyond = chain.index.get_feed(vec![], 5, 10);
    assert_eq!(beyond.len(), 0);
    let none = chain.index.get_feed(vec!["nobody".to_string()], 32, 0);
    assert_eq!(none.len(), 0);
}

#[test]
fn test_search_users_case_insensitive() {
    let mut chain = Blockchain::new();
    let (sk1, pk1) = generate_keypair();
    let (sk2, pk2) = generate_keypair();
    submit_and_mine(&mut chain, user_data("Alice", "A"), &sk1, &pk1).unwrap();
    submit_and_mine(&mut chain, user_data("malice", "M"), &sk2, &pk2).unwrap();
    let hits = chain.index.search_users("ALICE".to_string());
    assert_eq!(hits.len(), 2);
    let hits = chain.index.search_users("mal".to_string());
    assert_eq!(hits.len(), 1);
    assert_eq!(hits[0].username, "malice");
    let hits = chain.index.search_users("zzz".to_string());
    assert_eq!(hits.len(), 0);
}

#[test]
fn test_replies_and_hydration() {
    let mut chain = Blockchain::new();
    let (sk, pk) = generate_keypair();
    submit_and_mine(&mut chain, user_data("alice", "A"), &sk, &pk).unwrap();
    let parent = submit_and_mine(&mut chain, post_data("parent", None), &sk, &pk).unwrap();
    submit_and_mine(&mut chain, post_data("child", Some(&parent.hash)), &sk, &pk).unwrap();

    let replies = chain.index.get_replies(&parent.hash);
    assert_eq!(replies.len(), 1);
    assert_eq!(replies[0].body, "child");

    let post = chain.index.get_post(&parent.hash).unwrap();
    let detail = chain.index.hydrate_post(post);
    assert_eq!(detail.post.body, "parent");
    assert_eq!(detail.replies.len(), 1);
    assert!(detail.reply_to.is_none());

    let child = chain.index.get_replies(&parent.hash)[0].clone();
    let child_detail = chain.index.hydrate_post(child);
    assert_eq!(child_detail.reply_to.unwrap().body, "parent");
}

#[test]
fn test_index_ignores_duplicate_blocks() {
    let mut chain = Blockchain::new();
    let (sk, pk) = generate_keypair();
    submit_and_mine(&mut chain, user_data("alice", "A"), &sk, &pk).unwrap();
    let post = submit_and_mine(&mut chain, post_data("hi", None), &sk, &pk).unwrap();
    // projecting the same blocks again changes nothing
    chain.index.add_block(post.clone());
    chain.index.add_block(chain.at(1).unwrap());
    let feed = chain.index.get_feed(vec![], 32, 0);
    assert_eq!(feed.len(), 1);
    let hits = chain.index.search_users("alice".to_string());
    assert_eq!(hits.len(), 1);
}

#[test]
fn test_replay_from_stored_blocks() {
    let mut chain = Blockchain::new();
    let (sk, pk) = generate_keypair();
    submit_and_mine(&mut chain, user_data("alice", "A"), &sk, &pk).unwrap();
    submit_and_mine(&mut chain, post_data("hi", None), &sk, &pk).unwrap();

    let rebuilt = Blockchain::from_blocks(chain.chain_iter()).unwrap();
    assert_eq!(rebuilt.len(), chain.len());
    for i in 0..=chain.len() {
        assert_eq!(rebuilt.at(i).unwrap().hash, chain.at(i).unwrap().hash);
    }
    assert!(rebuilt.index.has_username("alice"));

    let mut tampered = chain.chain_iter();
    tampered[1].nonce += 1;
    assert!(Blockchain::from_blocks(tampered).is_err());
    assert!(Blockchain::from_blocks(Vec::new()).is_err());
}

#[test]
fn test_add_block_index_mismatch() {
    let (mut a, mut b) = twin_chains();
    let (sk, pk) = generate_keypair();
    submit_and_mine(&mut a, user_data("alice", "A"), &sk, &pk).unwrap();
    let mut block = a.at(1).unwrap();
    // linkage and difficulty still hold, only the index is off
    block.index = 2;
    let err = b.add_block(block).unwrap_err();
    assert_eq!(err, "Block index did not match the chain height.");
    assert_eq!(b.len(), 0);
}
