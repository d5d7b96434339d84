//! Share tokens: 16 random bytes written as 32 lowercase hex digits.

use vstd::prelude::*;
use rand::RngCore;

verus! {

/// The lowercase hex digit for a value below sixteen.
pub open spec fn hex_digit(v: nat) -> char {
    if v < 10 {
        ((48 + v) as u32) as char
    } else {
        ((87 + v) as u32) as char
    }
}

/// Whether a character is a lowercase hex digit.
pub open spec fn is_lower_hex_digit(c: char) -> bool {
    ('0' <= c && c <= '9') || ('a' <= c && c <= 'f')
}

/// Bytes written as lowercase hex, two digits per byte, high nibble first.
pub open spec fn hex_lower(bytes: Seq<u8>) -> Seq<char>
    decreases bytes.len(),
{
    if bytes.len() == 0 {
        Seq::empty()
    } else {
        hex_lower(bytes.drop_last()) + seq![
            hex_digit((bytes.last() / 16) as nat),
            hex_digit((bytes.last() % 16) as nat),
        ]
    }
}

/// The hex text of `n` bytes has `2 n` lowercase hex digits.
pub proof fn lemma_hex_lower(bytes: Seq<u8>)
    ensures
        hex_lower(bytes).len() == 2 * bytes.len(),
        forall|i: int| 0 <= i < hex_lower(bytes).len() ==> is_lower_hex_digit(#[trigger] hex_lower(bytes)[i]),
    decreases bytes.len(),
{
    if bytes.len() > 0 {
        lemma_hex_lower(bytes.drop_last());
        let prev = hex_lower(bytes.drop_last());
        let hi = hex_digit((bytes.last() / 16) as nat);
        let lo = hex_digit((bytes.last() % 16) as nat);
        assert(is_lower_hex_digit(hi));
        assert(is_lower_hex_digit(lo));
        assert forall|i: int| 0 <= i < hex_lower(bytes).len() implies is_lower_hex_digit(#[trigger] hex_lower(bytes)[i]) by {
            if i < prev.len() {
                assert(hex_lower(bytes)[i] == prev[i]);
            }
        }
    }
}

/// Sixteen bytes from the thread-local random generator
/// (`rand::thread_rng().fill_bytes`).
///
/// Trusted, with nothing said of the bytes: they are random.
#[verifier::external_body]
fn random_bytes() -> [u8; 16] {
    let mut bytes = [0u8; 16];
    rand::thread_rng().fill_bytes(&mut bytes);
    bytes
}

/// Lowercase hex encoding of bytes (`hex::encode`).
///
/// Trusted: the crate documents `encode` as writing each byte as two
/// lowercase hex characters, high nibble first, which is `hex_lower`.
#[verifier::external_body]
fn hex_encode(data: &[u8]) -> (r: String)
    ensures
        r@ == hex_lower(data@),
{
    hex::encode(data)
}

/// Generates a URL-safe random token with ~128 bits of entropy (32 hex chars).
pub fn generate_token() -> (r: String)
    ensures
        exists|bytes: Seq<u8>| bytes.len() == 16 && r@ == hex_lower(bytes),
        r@.len() == 32,
        forall|i: int| 0 <= i < r@.len() ==> is_lower_hex_digit(#[trigger] r@[i]),
{
    let bytes = random_bytes();
    let r = hex_encode(&bytes);
    proof {
        lemma_hex_lower(bytes@);
    }
    r
}

} // verus!
