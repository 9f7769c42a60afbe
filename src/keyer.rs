//! Cache keys: the lowercase hex SHA-256 digest of a canonical string.
use vstd::prelude::*;
use vstd::utf8::encode_utf8;

verus! {

/// What SHA-256 yields for a byte sequence.
pub uninterp spec fn sha256_of(data: Seq<u8>) -> Seq<u8>;

/// The lowercase hex digit for a value below sixteen.
pub open spec fn hex_digit(v: u8) -> char {
    if v < 10 {
        (('0' as u8) + v) as char
    } else {
        (('a' as u8) + (v - 10)) as char
    }
}

/// Two lowercase hex digits per byte, high nibble first.
pub open spec fn hex_lower(data: Seq<u8>) -> Seq<char>
    decreases data.len(),
{
    if data.len() == 0 {
        Seq::empty()
    } else {
        seq![hex_digit(data[0] / 16), hex_digit(data[0] % 16)] + hex_lower(data.drop_first())
    }
}

/// The key of a canonical operation string: hex of the digest of its UTF-8 bytes.
pub open spec fn key_of(input: Seq<char>) -> Seq<char> {
    hex_lower(sha256_of(encode_utf8(input)))
}

pub proof fn lemma_hex_lower_len(data: Seq<u8>)
    ensures
        hex_lower(data).len() == 2 * data.len(),
    decreases data.len(),
{
    if data.len() > 0 {
        lemma_hex_lower_len(data.drop_first());
    }
}

/// Relies on sha2::Sha256::digest: the 32-byte digest of the input.
#[verifier::external_body]
fn sha256_digest(data: &[u8]) -> (r: Vec<u8>)
    ensures
        r@ == sha256_of(data@),
        r@.len() == 32,
{
    <sha2::Sha256 as sha2::Digest>::digest(data).to_vec()
}

/// Relies on hex::encode: each byte becomes two lowercase hex digits.
#[verifier::external_body]
fn hex_encode(data: &[u8]) -> (r: String)
    ensures
        r@ == hex_lower(data@),
{
    hex::encode(data)
}

/// The cache key of a canonical input string: 64 lowercase hex characters.
pub fn compute_hash(input: &str) -> (r: String)
    ensures
        r@ == key_of(input@),
        r@.len() == 64,
{
    let bytes = input.as_bytes();
    let digest = sha256_digest(bytes);
    let r = hex_encode(digest.as_slice());
    proof {
        lemma_hex_lower_len(digest@);
    }
    r
}

/// Keys are a function of the canonical string alone: the same text,
/// hashed twice, gives the same key.
pub proof fn lemma_key_deterministic(a: Seq<char>, b: Seq<char>)
    requires
        a == b,
    ensures
        key_of(a) == key_of(b),
{
}

} // verus!
