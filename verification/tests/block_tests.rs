//! Block hashing, mining, canonical JSON and signing strings.

use cryptogram::block::Block;
use cryptogram::block::BlockData;
use cryptogram::block::PendingBlock;

fn reference_block() -> Block {
    Block {
        index: 1,
        timestamp: 1700000000,
        nonce: 7,
        data: BlockData::Post { body: "hi".to_string(), reply: None },
        prev_hash: "0".to_string(),
        hash: String::new(),
        public_key: String::new(),
        signature: String::new(),
    }
}

#[test]
fn test_hash_block_matches_reference() {
    let b = reference_block();
    assert_eq!(
        b.hash_block(),
        "582627cc5703d2e4c36518e9bb42015fd76997e84da8e889b35b876d0c1b6fae"
    );
}

#[test]
fn test_mine_block_meets_difficulty() {
    let mut b = reference_block();
    let found = b.mine_block();
    assert!(found);
    assert!(b.hash.starts_with("000"));
    assert_eq!(b.hash, b.hash_block());
}

#[test]
fn test_mutated_block_invalidates_hash() {
    let mut b = reference_block();
    let found = b.mine_block();
    assert!(found);
    b.index = 2;
    assert_ne!(b.hash, b.hash_block());
}

#[test]
fn test_to_json_genesis() {
    assert_eq!(BlockData::Genesis.to_json(), "{\"type\":\"Genesis\"}");
}

#[test]
fn test_to_json_user() {
    let d = BlockData::User {
        display_name: "Alice A".to_string(),
        username: "alice".to_string(),
        biography: "".to_string(),
    };
    assert_eq!(
        d.to_json(),
        "{\"type\":\"User\",\"display_name\":\"Alice A\",\"username\":\"alice\",\"biography\":\"\"}"
    );
}

#[test]
fn test_to_json_post_escapes() {
    let d = BlockData::Post { body: "a\"b\nc\u{1}".to_string(), reply: None };
    assert_eq!(d.to_json(), "{\"type\":\"Post\",\"body\":\"a\\\"b\\nc\\u0001\",\"reply\":null}");
}

#[test]
fn test_to_json_post_with_reply() {
    let d = BlockData::Post { body: "x".to_string(), reply: Some("abc".to_string()) };
    assert_eq!(d.to_json(), "{\"type\":\"Post\",\"body\":\"x\",\"reply\":\"abc\"}");
}

#[test]
fn test_signing_string_genesis_is_empty() {
    assert_eq!(BlockData::Genesis.to_string_for_signing(), "");
}

#[test]
fn test_signing_string_user_sorted_keys() {
    let d = BlockData::User {
        display_name: "Alice A".to_string(),
        username: "alice".to_string(),
        biography: "hey".to_string(),
    };
    let s = d.to_string_for_signing();
    assert_eq!(s, "biography=\"hey\"|display_name=\"Alice A\"|username=\"alice\"");
    assert!(!s.contains("type"));
}

#[test]
fn test_signing_string_user_update() {
    let d = BlockData::UserUpdate {
        display_name: "New Name".to_string(),
        biography: "bio".to_string(),
    };
    assert_eq!(d.to_string_for_signing(), "biography=\"bio\"|display_name=\"New Name\"");
}

#[test]
fn test_signing_string_post() {
    let d = BlockData::Post { body: "hi".to_string(), reply: None };
    let s = d.to_string_for_signing();
    assert_eq!(s, "body=\"hi\"|reply=null");
    assert!(!s.contains("type"));
    let d2 = BlockData::Post { body: "hi".to_string(), reply: Some("h1".to_string()) };
    assert_eq!(d2.to_string_for_signing(), "body=\"hi\"|reply=\"h1\"");
}

#[test]
fn test_signing_string_is_deterministic() {
    let mk = || BlockData::Post { body: "same".to_string(), reply: Some("r".to_string()) };
    assert_eq!(mk().to_string_for_signing(), mk().to_string_for_signing());
}

fn pending_with(data: BlockData) -> PendingBlock {
    PendingBlock::new(data, String::new(), String::new())
}

#[test]
fn test_validate_size_accepts_limits() {
    let p = pending_with(BlockData::Post { body: "a".repeat(300), reply: None });
    assert!(p.validate_size().is_ok());
    let u = pending_with(BlockData::User {
        display_name: "d".repeat(255),
        username: "u".repeat(255),
        biography: "b".repeat(300),
    });
    assert!(u.validate_size().is_ok());
}

#[test]
fn test_validate_size_rejects_long_post() {
    let p = pending_with(BlockData::Post { body: "a".repeat(301), reply: None });
    assert_eq!(p.validate_size().unwrap_err(), "Post size exceeds 300 characters.");
}

#[test]
fn test_validate_size_rejects_long_user_fields() {
    let u = pending_with(BlockData::User {
        display_name: "d".to_string(),
        username: "u".repeat(256),
        biography: "".to_string(),
    });
    assert_eq!(u.validate_size().unwrap_err(), "Username exceeds 255 characters.");
    let u = pending_with(BlockData::User {
        display_name: "d".repeat(256),
        username: "u".to_string(),
        biography: "".to_string(),
    });
    assert_eq!(u.validate_size().unwrap_err(), "Display name exceeds 255 characters.");
    let u = pending_with(BlockData::User {
        display_name: "d".to_string(),
        username: "u".to_string(),
        biography: "b".repeat(301),
    });
    assert_eq!(u.validate_size().unwrap_err(), "Biography exceeds 300 characters.");
}

#[test]
fn test_block_next_links_to_previous() {
    let mut prev = reference_block();
    prev.hash = prev.hash_block();
    let next = Block::next(&prev, BlockData::Post { body: "more".to_string(), reply: None });
    assert_eq!(next.index, 2);
    assert_eq!(next.prev_hash, prev.hash);
    assert_eq!(next.nonce, 0);
    assert_eq!(next.public_key, "");
    assert_eq!(next.signature, "");
    assert_eq!(next.hash, next.hash_block());
}

#[test]
fn test_difficulty_is_three() {
    assert_eq!(reference_block().difficulty(), 3);
}
