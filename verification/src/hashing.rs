//! Content hashes of workflow files.
use vstd::prelude::*;

verus! {

/// The SHA-256 digest of `data` in lowercase hexadecimal, as `{:x}` formats sha2's
/// output.
pub uninterp spec fn sha256_hex(data: Seq<u8>) -> Seq<char>;

/// Calls `sha2::Sha256::digest` and formats the 32-byte digest with `{:x}`: 64 lowercase
/// hexadecimal digits.
#[verifier::external_body]
pub(crate) fn sha256_hex_digest(data: &[u8]) -> (r: String)
    ensures
        r@ == sha256_hex(data@),
        r@.len() == 64,
        forall|i: int| 0 <= i < 64 ==> ('0' <= #[trigger] r@[i] <= '9' || 'a' <= r@[i] <= 'f'),
{
    format!("{:x}", <sha2::Sha256 as sha2::Digest>::digest(data))
}

/// The content hash that runs retain: `sha256:` and the digest in lowercase hexadecimal.
pub open spec fn content_hash_text(data: Seq<u8>) -> Seq<char> {
    "sha256:"@ + sha256_hex(data)
}

/// The content hash of a workflow file's bytes.
pub fn content_hash(data: &[u8]) -> (r: String)
    ensures
        r@ == content_hash_text(data@),
{
    let digest = sha256_hex_digest(data);
    crate::text::join2("sha256:", digest.as_str())
}

} // verus!
