//! The name of a project's state directory: the SHA-1 of its working
//! directory.
use sha1::{Digest, Sha1};
use vstd::prelude::*;

use crate::session::is_lower_hex;

verus! {

/// The SHA-1 digest of `bytes`, written in lowercase hexadecimal.
pub uninterp spec fn sha1_hex(bytes: Seq<u8>) -> Seq<char>;

/// Calls `Sha1::new`, `update` and `finalize` (`sha1` crate) on `bytes` and
/// writes the 20-byte digest with `{:x}`, which `generic-array` writes as
/// two lowercase hexadecimal digits per byte. The digest itself is named,
/// not stated: SHA-1 is the crate's to compute.
#[verifier::external_body]
fn sha1_hex_digest(bytes: &[u8]) -> (r: String)
    ensures
        r@ == sha1_hex(bytes@),
        r@.len() == 40,
        forall|i: int| 0 <= i < 40 ==> is_lower_hex(#[trigger] r@[i]),
{
    let mut hasher = Sha1::new();
    hasher.update(bytes);
    format!("{:x}", hasher.finalize())
}

/// The hash that names a project's state directory, from its working
/// directory's path as bytes: 40 lowercase hexadecimal digits.
pub fn project_hash(cwd: &[u8]) -> (r: String)
    ensures
        r@ == sha1_hex(cwd@),
        r@.len() == 40,
        forall|i: int| 0 <= i < 40 ==> is_lower_hex(#[trigger] r@[i]),
{
    sha1_hex_digest(cwd)
}

} // verus!
