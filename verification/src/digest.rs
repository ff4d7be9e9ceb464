//! SHA-256 digests and the package checksums built on them.
use crate::text::{hex_encode, hex_of, push_str, str_eq};
use vstd::prelude::*;

verus! {

/// The SHA-256 digest of `data`.
pub uninterp spec fn sha256(data: Seq<u8>) -> Seq<u8>;

/// Computes the SHA-256 digest of `data`.
/// Trusted: calls `sha2::Sha256::digest`; the digest is named `sha256` of the
/// input and, as the crate's output size says, is 32 bytes long.
#[verifier::external_body]
pub(crate) fn sha256_digest(data: &[u8]) -> (r: Vec<u8>)
    ensures
        r@ == sha256(data@),
        r@.len() == 32,
{
    <sha2::Sha256 as sha2::Digest>::digest(data).to_vec()
}

/// The checksum recorded for a package: "sha256:" and the lowercase hex digest.
pub open spec fn checksum_spec(content: Seq<u8>) -> Seq<char> {
    "sha256:"@ + hex_of(sha256(content))
}

/// A package checksum is "sha256:" followed by the hexadecimal digits of the
/// SHA-256 digest of the bytes, two per digest byte.
pub proof fn checksum_form(content: Seq<u8>)
    ensures
        checksum_spec(content).len() == 7 + 2 * sha256(content).len(),
        checksum_spec(content).take(7) == "sha256:"@,
        checksum_spec(content).skip(7) == hex_of(sha256(content)),
{
    reveal_strlit("sha256:");
    crate::text::lemma_hex_len(sha256(content));
    assert(checksum_spec(content).take(7) =~= "sha256:"@);
    assert(checksum_spec(content).skip(7) =~= hex_of(sha256(content)));
}

/// The checksum of a package's bytes: "sha256:" followed by the lowercase hex
/// SHA-256 digest.
pub fn checksum_of(content: &[u8]) -> (r: String)
    ensures
        r@ == checksum_spec(content@),
        r@.len() == 71,
{
    let d = sha256_digest(content);
    let hex = hex_encode(d.as_slice());
    let mut s = String::new();
    push_str(&mut s, "sha256:");
    push_str(&mut s, hex.as_str());
    proof {
        reveal_strlit("sha256:");
    }
    s
}

/// Whether a package's bytes have the expected checksum.
pub fn checksum_matches(content: &[u8], expected: &str) -> (r: bool)
    ensures
        r == (checksum_spec(content@) == expected@),
{
    let actual = checksum_of(content);
    str_eq(actual.as_str(), expected)
}

} // verus!
