use ledger::block::Block;
use ledger::clock::{elapsed_millis, now_millis};
use ledger::decimal::push_decimal;
use ledger::digest::{compute_digest, digest_input, hex_digest};
use ledger::ledger::Ledger;
use sha2::Digest;

fn decimal_of(n: u128) -> String {
    let mut out = String::new();
    push_decimal(&mut out, n);
    out
}

fn sha256_hex(text: &str) -> String {
    hex::encode(sha2::Sha256::digest(text.as_bytes()))
}

fn is_lower_hex(text: &str) -> bool {
    text.chars().all(|c| c.is_ascii_digit() || ('a'..='f').contains(&c))
}

#[test]
fn decimal_of_small_numbers() {
    assert_eq!(decimal_of(0), "0");
    assert_eq!(decimal_of(7), "7");
    assert_eq!(decimal_of(9), "9");
    assert_eq!(decimal_of(10), "10");
    assert_eq!(decimal_of(101), "101");
    assert_eq!(decimal_of(1700000000000), "1700000000000");
}

#[test]
fn decimal_of_largest_numbers() {
    assert_eq!(decimal_of(u64::MAX as u128), "18446744073709551615");
    assert_eq!(decimal_of(u128::MAX), "340282366920938463463374607431768211455");
}

#[test]
fn decimal_agrees_with_std_formatting() {
    let mut n: u128 = 1;
    while n < u128::MAX / 7 {
        assert_eq!(decimal_of(n), format!("{}", n));
        assert_eq!(decimal_of(n - 1), format!("{}", n - 1));
        n *= 7;
    }
}

#[test]
fn push_decimal_appends_to_what_is_there() {
    let mut out = String::from("n=");
    push_decimal(&mut out, 42);
    push_decimal(&mut out, 0);
    assert_eq!(out, "n=420");
}

#[test]
fn digest_input_joins_the_parts_without_delimiter() {
    assert_eq!(digest_input(1, "0", 1700000000000, "a"), "101700000000000a");
    assert_eq!(digest_input(0, "", 0, ""), "00");
    assert_eq!(digest_input(12, "ab", 34, "cd"), "12ab34cd");
}

#[test]
fn digest_input_keeps_non_ascii_text() {
    assert_eq!(digest_input(3, "é", 4, "日本"), "3é4日本");
}

#[test]
fn digest_input_is_ambiguous_across_adjacent_fields() {
    assert_eq!(digest_input(1, "23", 5, "x"), digest_input(12, "3", 5, "x"));
    assert_eq!(compute_digest(1, "23", 5, "x"), compute_digest(12, "3", 5, "x"));
    assert_eq!(digest_input(1, "0", 5, "6"), digest_input(1, "0", 56, ""));
}

#[test]
fn hex_digest_of_known_texts() {
    assert_eq!(
        hex_digest("hello world"),
        "b94d27b9934d3e08a52e52d7da7dabfac484efe37a5380ee9088f7ace2efcde9"
    );
    assert_eq!(
        hex_digest(""),
        "e3b0c44298fc1c149afbf4c8996fb92427ae41e4649b934ca495991b7852b855"
    );
}

#[test]
fn hex_digest_is_sixty_four_lowercase_hex_digits() {
    for text in ["", "a", "Genesis block", "日本語", "0123456789abcdefghijklmnopqrstuvwxyz"] {
        let digest = hex_digest(text);
        assert_eq!(digest.len(), 64);
        assert!(is_lower_hex(&digest));
        assert_ne!(digest, text);
    }
}

#[test]
fn hex_digest_hashes_utf8_bytes() {
    assert_eq!(hex_digest("日本語"), sha256_hex("日本語"));
}

#[test]
fn compute_digest_of_known_block() {
    assert_eq!(
        compute_digest(1, "0", 1700000000000, "a"),
        "5410871574c0a1e75e081ae169bf9e6386d035fc14aa1c73c27d212c0fda0285"
    );
    assert_eq!(
        compute_digest(1, "0", 1700000000000, ""),
        "9ba57039e77a6fdad48bf4f792c94822f320d4be8478303df1e8ecce1d99cf79"
    );
}

#[test]
fn digest_is_deterministic() {
    let first = compute_digest(5, "abc", 123456789, "payload");
    let second = compute_digest(5, "abc", 123456789, "payload");
    assert_eq!(first, second);
}

#[test]
fn digest_changes_with_each_field() {
    let base = compute_digest(5, "abc", 123456789, "payload");
    assert_ne!(base, compute_digest(6, "abc", 123456789, "payload"));
    assert_ne!(base, compute_digest(5, "abd", 123456789, "payload"));
    assert_ne!(base, compute_digest(5, "abc", 123456780, "payload"));
    assert_ne!(base, compute_digest(5, "abc", 123456789, "Payload"));
}

#[test]
fn block_new_stores_its_arguments() {
    let block = Block::new(3, String::from("prev"), 99, String::from("data"), String::from("h"));
    assert_eq!(block.index(), 3);
    assert_eq!(block.previous_hash(), "prev");
    assert_eq!(block.timestamp(), 99);
    assert_eq!(block.data(), "data");
    assert_eq!(block.stored_hash(), "h");
}

#[test]
fn block_hash_ignores_the_stored_hash() {
    let blank = Block::new(1, String::from("0"), 1700000000000, String::from("a"), String::new());
    let other = Block::new(1, String::from("0"), 1700000000000, String::from("a"), String::from("zz"));
    assert_eq!(blank.hash(), "5410871574c0a1e75e081ae169bf9e6386d035fc14aa1c73c27d212c0fda0285");
    assert_eq!(blank.hash(), other.hash());
    assert_eq!(blank.stored_hash(), "");
}

#[test]
fn block_sealed_stores_its_digest() {
    let block = Block::sealed(1, String::from("0"), 1700000000000, String::from("a"));
    assert_eq!(block.index(), 1);
    assert_eq!(block.previous_hash(), "0");
    assert_eq!(block.timestamp(), 1700000000000);
    assert_eq!(block.data(), "a");
    assert_eq!(
        block.stored_hash(),
        "5410871574c0a1e75e081ae169bf9e6386d035fc14aa1c73c27d212c0fda0285"
    );
    assert_eq!(block.hash(), block.stored_hash());
}

#[test]
fn block_clone_and_equality() {
    let block = Block::new(3, String::from("prev"), 99, String::from("data"), String::from("h"));
    let copy = block.clone();
    assert_eq!(copy, block);
    assert_ne!(block, Block::new(4, String::from("prev"), 99, String::from("data"), String::from("h")));
    assert_ne!(block, Block::new(3, String::from("pre"), 99, String::from("data"), String::from("h")));
    assert_ne!(block, Block::new(3, String::from("prev"), 98, String::from("data"), String::from("h")));
    assert_ne!(block, Block::new(3, String::from("prev"), 99, String::from("dat"), String::from("h")));
    assert_ne!(block, Block::new(3, String::from("prev"), 99, String::from("data"), String::from("g")));
}

#[test]
fn fresh_ledger_holds_only_the_genesis_block() {
    let ledger = Ledger::new(1234);
    assert_eq!(ledger.len(), 1);
    let blocks = ledger.snapshot();
    assert_eq!(blocks.len(), 1);
    assert_eq!(blocks[0].index(), 0);
    assert_eq!(blocks[0].previous_hash(), "0");
    assert_eq!(blocks[0].stored_hash(), "0");
    assert_eq!(blocks[0].timestamp(), 1234);
    assert_eq!(blocks[0].data(), "Genesis block");
    assert_eq!(ledger.last(), &blocks[0]);
}

#[test]
fn first_append_links_to_genesis() {
    let mut ledger = Ledger::new(1699999999999);
    let genesis = ledger.last().clone();
    let block = ledger.append_at(String::from("a"), 1700000000000);
    assert_eq!(block.index(), 1);
    assert_eq!(block.previous_hash(), "0");
    assert_eq!(block.timestamp(), 1700000000000);
    assert_eq!(block.data(), "a");
    assert_eq!(
        block.stored_hash(),
        "5410871574c0a1e75e081ae169bf9e6386d035fc14aa1c73c27d212c0fda0285"
    );
    assert_eq!(block.stored_hash(), sha256_hex("101700000000000a"));
    assert_eq!(ledger.snapshot(), vec![genesis, block]);
}

#[test]
fn empty_payload_is_accepted() {
    let mut ledger = Ledger::new(0);
    let block = ledger.append_at(String::new(), 1700000000000);
    assert_eq!(block.index(), 1);
    assert_eq!(block.data(), "");
    assert_eq!(
        block.stored_hash(),
        "9ba57039e77a6fdad48bf4f792c94822f320d4be8478303df1e8ecce1d99cf79"
    );
    assert_eq!(block.hash(), block.stored_hash());
    assert_eq!(ledger.len(), 2);
}

#[test]
fn sequential_appends_are_linked() {
    let mut ledger = Ledger::new(10);
    let n: usize = 20;
    for i in 0..n {
        let block = ledger.append_at(format!("payload {}", i), 1000 + i as u128);
        assert_eq!(block.index(), (i + 1) as u64);
    }
    let blocks = ledger.snapshot();
    assert_eq!(blocks.len(), n + 1);
    for i in 1..=n {
        assert_eq!(blocks[i].index(), i as u64);
        assert_eq!(blocks[i].previous_hash(), blocks[i - 1].stored_hash());
        assert_eq!(blocks[i].stored_hash(), blocks[i].hash());
        assert_eq!(blocks[i].data(), format!("payload {}", i - 1));
        assert_eq!(blocks[i].timestamp(), 999 + i as u128);
        assert_eq!(blocks[i].stored_hash().len(), 64);
        assert!(is_lower_hex(blocks[i].stored_hash()));
    }
}

#[test]
fn second_block_hashes_the_first_blocks_hash() {
    let mut ledger = Ledger::new(10);
    let first = ledger.append_at(String::from("a"), 1700000000000);
    let second = ledger.append_at(String::from("b"), 1700000000001);
    let text = format!("2{}1700000000001b", first.stored_hash());
    assert_eq!(second.previous_hash(), first.stored_hash());
    assert_eq!(second.stored_hash(), sha256_hex(&text));
}

#[test]
fn length_grows_by_one_with_each_append() {
    let mut ledger = Ledger::new(10);
    let mut expected: usize = 1;
    for i in 0..10u128 {
        assert_eq!(ledger.len(), expected);
        ledger.append_at(String::from("x"), i);
        expected += 1;
        assert_eq!(ledger.len(), expected);
        assert_eq!(ledger.snapshot().len(), expected);
    }
}

#[test]
fn appends_leave_earlier_blocks_as_they_were() {
    let mut ledger = Ledger::new(10);
    ledger.append_at(String::from("a"), 11);
    ledger.append_at(String::from("b"), 12);
    let before = ledger.snapshot();
    ledger.append_at(String::from("c"), 13);
    let after = ledger.snapshot();
    assert_eq!(before.len(), 3);
    assert_eq!(after.len(), 4);
    assert_eq!(&after[..3], &before[..]);
}

#[test]
fn snapshot_is_a_copy() {
    let mut ledger = Ledger::new(10);
    let snapshot = ledger.snapshot();
    ledger.append_at(String::from("a"), 11);
    assert_eq!(snapshot.len(), 1);
    assert_eq!(ledger.snapshot().len(), 2);
}

#[test]
fn last_is_the_newest_block() {
    let mut ledger = Ledger::new(10);
    let block = ledger.append_at(String::from("a"), 11);
    assert_eq!(ledger.last(), &block);
    let block = ledger.append_at(String::from("b"), 12);
    assert_eq!(ledger.last(), &block);
}

#[test]
fn equal_payloads_and_times_still_give_distinct_blocks() {
    let mut ledger = Ledger::new(10);
    let first = ledger.append_at(String::from("same"), 11);
    let second = ledger.append_at(String::from("same"), 11);
    assert_ne!(first.index(), second.index());
    assert_ne!(first.stored_hash(), second.stored_hash());
}

#[test]
fn append_reading_with_a_reading_appends() {
    let mut ledger = Ledger::new(10);
    let block = ledger.append_reading(String::from("a"), Some(1700000000000));
    let block = block.expect("a reading was given");
    assert_eq!(block.index(), 1);
    assert_eq!(block.timestamp(), 1700000000000);
    assert_eq!(
        block.stored_hash(),
        "5410871574c0a1e75e081ae169bf9e6386d035fc14aa1c73c27d212c0fda0285"
    );
    assert_eq!(ledger.len(), 2);
}

#[test]
fn append_reading_without_a_reading_changes_nothing() {
    let mut ledger = Ledger::new(10);
    ledger.append_at(String::from("a"), 11);
    let before = ledger.snapshot();
    assert!(ledger.append_reading(String::from("b"), None).is_none());
    assert_eq!(ledger.snapshot(), before);
}

#[test]
fn elapsed_millis_counts_whole_milliseconds() {
    assert_eq!(elapsed_millis(Ok(std::time::Duration::from_millis(1500))), Some(1500));
    assert_eq!(elapsed_millis(Ok(std::time::Duration::from_micros(2999))), Some(2));
    assert_eq!(elapsed_millis(Ok(std::time::Duration::from_secs(0))), Some(0));
    assert_eq!(
        elapsed_millis(Ok(std::time::Duration::new(1700000000, 123456789))),
        Some(1700000000123)
    );
}

#[test]
fn elapsed_millis_of_an_instant_before_the_epoch_is_none() {
    let later = std::time::UNIX_EPOCH + std::time::Duration::from_secs(10);
    let before = std::time::UNIX_EPOCH.duration_since(later);
    assert!(before.is_err());
    assert_eq!(elapsed_millis(before), None);
}

#[test]
fn clock_reads_a_time_after_the_epoch() {
    let first = now_millis().expect("the clock stands after the epoch");
    assert!(first > 1_000_000_000_000);
}

#[test]
fn append_stamps_the_block_with_the_clock() {
    let mut ledger = Ledger::new(10);
    let before = now_millis().expect("the clock stands after the epoch");
    let block = ledger.append(String::from("a")).expect("the clock stands after the epoch");
    let after = now_millis().expect("the clock stands after the epoch");
    assert_eq!(block.index(), 1);
    assert_eq!(block.previous_hash(), "0");
    assert_eq!(block.data(), "a");
    assert!(before <= block.timestamp() && block.timestamp() <= after + 60_000);
    assert_eq!(block.stored_hash(), sha256_hex(&format!("10{}a", block.timestamp())));
    assert_eq!(block.stored_hash().len(), 64);
    assert!(is_lower_hex(block.stored_hash()));
    assert_eq!(ledger.snapshot().len(), 2);
    assert_eq!(ledger.last(), &block);
}

#[test]
fn append_accepts_an_empty_payload() {
    let mut ledger = Ledger::new(10);
    let block = ledger.append(String::new()).expect("the clock stands after the epoch");
    assert_eq!(block.index(), 1);
    assert_eq!(block.data(), "");
    assert_eq!(block.hash(), block.stored_hash());
    assert_eq!(ledger.len(), 2);
}

#[test]
fn fifty_appends_under_a_lock_keep_the_chain() {
    let shared = std::sync::Arc::new(std::sync::Mutex::new(Ledger::new(10)));
    let handles: Vec<std::sync::Arc<std::sync::Mutex<Ledger>>> =
        (0..50).map(|_| std::sync::Arc::clone(&shared)).collect();
    let mut returned = Vec::new();
    for (i, handle) in handles.iter().enumerate().rev() {
        let mut ledger = handle.lock().unwrap();
        let block = ledger.append(format!("payload {}", i));
        returned.push(block.expect("the clock stands after the epoch"));
    }
    let blocks = shared.lock().unwrap().snapshot();
    assert_eq!(blocks.len(), 51);
    for i in 1..blocks.len() {
        assert_eq!(blocks[i].index(), i as u64);
        assert_eq!(blocks[i].previous_hash(), blocks[i - 1].stored_hash());
        assert_eq!(blocks[i].stored_hash(), blocks[i].hash());
    }
    for i in 0..50u32 {
        let payload = format!("payload {}", i);
        assert_eq!(blocks.iter().filter(|b| b.data() == payload).count(), 1);
    }
    for i in 0..blocks.len() {
        for j in 0..i {
            assert_ne!(blocks[i].index(), blocks[j].index());
        }
    }
    for block in &returned {
        assert_eq!(&blocks[block.index() as usize], block);
    }
}
