//! Internal keys: the SHA-256 digest of an external key, in hexadecimal.

use sha2::{Digest, Sha256};
use vstd::prelude::*;

verus! {

/// The SHA-256 digest of the UTF-8 encoding of `text`, written as
/// lowercase hexadecimal digits. The digest is computed by the `sha2`
/// crate and is not defined here; all that is known of it is that equal
/// texts have equal digests and what [`hex_digest`] adds.
pub uninterp spec fn sha256_hex(text: Seq<char>) -> Seq<char>;

/// Equal keys have equal internal keys.
pub proof fn law_equal_keys_share_digest(a: Seq<char>, b: Seq<char>)
    requires
        a == b,
    ensures
        sha256_hex(a) == sha256_hex(b),
{
}

/// The digits that a lowercase hexadecimal number is written with.
pub open spec fn is_lower_hex(c: char) -> bool {
    ('0' <= c && c <= '9') || ('a' <= c && c <= 'f')
}

/// Trusted: `Sha256::new`, `update` and `finalize` of the `sha2` crate,
/// and the `LowerHex` formatting of the 32-byte array they return.
/// Claims that the result is the digest named by [`sha256_hex`], that it
/// is 64 characters long (two per byte), and that each is one of
/// `0123456789abcdef`.
#[verifier::external_body]
pub(crate) fn hex_digest(text: &str) -> (digest: String)
    ensures
        digest@ == sha256_hex(text@),
        digest@.len() == 64,
        forall|i: int| 0 <= i < 64 ==> is_lower_hex(#[trigger] digest@[i]),
{
    let mut hasher = Sha256::new();
    hasher.update(text.as_bytes());
    format!("{:x}", hasher.finalize())
}

} // verus!
