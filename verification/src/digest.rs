//! Digests, and bytes as text.
use vstd::prelude::*;

use crate::text::digit;

verus! {

/// The bytes as hexadecimal digits in lower case, two for each byte.
pub open spec fn hex_digits(bytes: Seq<u8>) -> Seq<char>
    decreases bytes.len(),
{
    if bytes.len() == 0 {
        Seq::empty()
    } else {
        hex_digits(bytes.drop_last()) + digit((bytes.last() / 16) as nat, false) + digit(
            (bytes.last() % 16) as nat,
            false,
        )
    }
}

/// Calls `hex::encode`: each byte as two hexadecimal digits in lower case, the
/// higher first.
#[verifier::external_body]
pub(crate) fn hex_encode(bytes: &[u8]) -> (text: String)
    ensures
        text@ == hex_digits(bytes@),
{
    hex::encode(bytes)
}

/// What `sha2::Sha256` makes of some bytes.
pub uninterp spec fn sha256(bytes: Seq<u8>) -> Seq<u8>;

/// Calls `sha2::Sha256::digest`: the digest of the bytes, which depends on nothing
/// else and has thirty-two bytes.
#[verifier::external_body]
pub(crate) fn sha256_digest(bytes: &[u8]) -> (digest: Vec<u8>)
    ensures
        digest@ == sha256(bytes@),
        digest@.len() == 32,
{
    <sha2::Sha256 as sha2::Digest>::digest(bytes).to_vec()
}

} // verus!
