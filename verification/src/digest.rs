//! The digest that binds a block's contents to its predecessor.
//!
//! The digest of a block is the lowercase hex text of the SHA-256 hash of
//! the UTF-8 bytes of `index ++ previous_hash ++ timestamp ++ data`, the two
//! numbers in decimal and nothing between the four parts.

use vstd::prelude::*;
use vstd::string::*;
use vstd::utf8::encode_utf8;
use crate::decimal::{decimal, push_decimal};

verus! {

/// The SHA-256 hash of a byte sequence.
pub uninterp spec fn sha256(bytes: Seq<u8>) -> Seq<u8>;

/// Number of bytes in a SHA-256 hash.
pub const HASH_BYTES: usize = 32;

/// Number of characters in the hex text of a SHA-256 hash.
pub const DIGEST_CHARS: usize = 64;

/// The lowercase hex digit of a value below sixteen.
pub open spec fn hex_digit(v: nat) -> char
    recommends
        v < 16,
{
    if v < 10 {
        crate::decimal::digit_char(v)
    } else if v == 10 {
        'a'
    } else if v == 11 {
        'b'
    } else if v == 12 {
        'c'
    } else if v == 13 {
        'd'
    } else if v == 14 {
        'e'
    } else {
        'f'
    }
}

/// Lowercase hex text of `bytes`: two digits for each byte, the high half first.
pub open spec fn hex_lower(bytes: Seq<u8>) -> Seq<char> {
    Seq::new(
        2 * bytes.len(),
        |i: int|
            if i % 2 == 0 {
                hex_digit((bytes[i / 2] / 16) as nat)
            } else {
                hex_digit((bytes[i / 2] % 16) as nat)
            },
    )
}

/// Whether `c` is a lowercase hex digit.
pub open spec fn is_hex_digit(c: char) -> bool {
    ('0' <= c <= '9') || ('a' <= c <= 'f')
}

/// Whether `s` has the shape of a digest: 64 lowercase hex digits.
pub open spec fn is_digest_text(s: Seq<char>) -> bool {
    &&& s.len() == DIGEST_CHARS
    &&& forall|i: int| 0 <= i < s.len() ==> is_hex_digit(#[trigger] s[i])
}

/// The text that is hashed for a block: the four parts, one after the other.
pub open spec fn digest_text(
    index: nat,
    previous_hash: Seq<char>,
    timestamp: nat,
    data: Seq<char>,
) -> Seq<char> {
    decimal(index) + previous_hash + decimal(timestamp) + data
}

/// The digest of a block with these four parts.
pub open spec fn block_digest(
    index: nat,
    previous_hash: Seq<char>,
    timestamp: nat,
    data: Seq<char>,
) -> Seq<char> {
    hex_lower(sha256(encode_utf8(digest_text(index, previous_hash, timestamp, data))))
}

/// Calls `sha2::Sha256::digest`. Trusted: the result is the SHA-256 hash of
/// `data`, a function of the bytes alone, and is 32 bytes long.
#[verifier::external_body]
fn sha256_bytes(data: &[u8]) -> (hash: Vec<u8>)
    ensures
        hash@ == sha256(data@),
        hash@.len() == HASH_BYTES,
{
    <sha2::Sha256 as sha2::Digest>::digest(data).to_vec()
}

/// Calls `hex::encode`. Trusted: the result holds two lowercase hex digits
/// for each byte of `data`, in order, the high half of a byte first.
#[verifier::external_body]
fn hex_text(data: &[u8]) -> (text: String)
    ensures
        text@ == hex_lower(data@),
{
    hex::encode(data)
}

/// Hex text has two characters for each byte, all of them lowercase hex digits.
pub proof fn lemma_hex_lower_shape(bytes: Seq<u8>)
    ensures
        hex_lower(bytes).len() == 2 * bytes.len(),
        forall|i: int| 0 <= i < hex_lower(bytes).len() ==> is_hex_digit(#[trigger] hex_lower(bytes)[i]),
{
}

/// Builds the text that is hashed for a block.
pub fn digest_input(index: u64, previous_hash: &str, timestamp: u128, data: &str) -> (text: String)
    ensures
        text@ == digest_text(index as nat, previous_hash@, timestamp as nat, data@),
{
    let mut text = String::new();
    push_decimal(&mut text, index as u128);
    text.append(previous_hash);
    push_decimal(&mut text, timestamp);
    text.append(data);
    assert(text@ =~= digest_text(index as nat, previous_hash@, timestamp as nat, data@));
    text
}

/// Lowercase hex text of the SHA-256 hash of the UTF-8 bytes of `text`.
pub fn hex_digest(text: &str) -> (digest: String)
    ensures
        digest@ == hex_lower(sha256(encode_utf8(text@))),
        is_digest_text(digest@),
{
    let hash = sha256_bytes(text.as_bytes());
    proof {
        lemma_hex_lower_shape(hash@);
    }
    hex_text(hash.as_slice())
}

/// Computes the digest of a block with these four parts.
pub fn compute_digest(index: u64, previous_hash: &str, timestamp: u128, data: &str) -> (digest: String)
    ensures
        digest@ == block_digest(index as nat, previous_hash@, timestamp as nat, data@),
        is_digest_text(digest@),
{
    let text = digest_input(index, previous_hash, timestamp, data);
    hex_digest(text.as_str())
}

} // verus!
