//! Digests and their hexadecimal text.
use vstd::prelude::*;

use crate::numbers::digit_char;

verus! {

/// The SHA-256 digest of bytes.
pub uninterp spec fn sha256_of(bytes: Seq<u8>) -> Seq<u8>;

/// Two lower-case hexadecimal digits for each byte.
pub open spec fn hex_of(bytes: Seq<u8>) -> Seq<char> {
    Seq::new(
        2 * bytes.len(),
        |i: int|
            if i % 2 == 0 {
                digit_char(bytes[i / 2] as int / 16)
            } else {
                digit_char(bytes[i / 2] as int % 16)
            },
    )
}

/// Hashes bytes with `sha2::Sha256::digest`. The result is named `sha256_of`; it depends on the
/// bytes alone and is 32 bytes long.
#[verifier::external_body]
pub(crate) fn sha256(bytes: &[u8]) -> (r: Vec<u8>)
    ensures
        r@ == sha256_of(bytes@),
        r@.len() == 32,
{
    <sha2::Sha256 as sha2::Digest>::digest(bytes).to_vec()
}

/// Encodes bytes with `hex::encode`: two lower-case hexadecimal digits for each byte.
#[verifier::external_body]
pub(crate) fn hex_text(bytes: &[u8]) -> (r: String)
    ensures
        r@ == hex_of(bytes@),
{
    hex::encode(bytes)
}

/// The SHA-256 digest of bytes as text.
pub open spec fn digest_text(bytes: Seq<u8>) -> Seq<char> {
    hex_of(sha256_of(bytes))
}

pub fn sha256_bytes(bytes: &[u8]) -> (r: String)
    ensures
        r@ == digest_text(bytes@),
{
    hex_text(sha256(bytes).as_slice())
}

} // verus!
