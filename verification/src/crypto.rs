//! The keyed hash that authenticates relay tokens.
use hmac::{Hmac, Mac};
use sha2::Sha256;
use vstd::prelude::*;

verus! {

/// HMAC-SHA256 of `message` under `key`, as the `hmac` and `sha2` crates compute it.
pub uninterp spec fn hmac_sha256(key: Seq<u8>, message: Seq<u8>) -> Seq<u8>;

/// `Hmac::<Sha256>::new_from_slice(key)`, `update(message)`, `finalize()`:
/// the 32-byte HMAC-SHA256 tag of `message` under `key`. The tag is named, not
/// stated; its length is SHA-256's output size. Any key length is accepted.
#[verifier::external_body]
pub(crate) fn hmac_sha256_digest(key: &[u8], message: &[u8]) -> (tag: Vec<u8>)
    ensures
        tag@ == hmac_sha256(key@, message@),
        tag@.len() == 32,
{
    let mut mac = Hmac::<Sha256>::new_from_slice(key).expect("HMAC-SHA256 accepts any key length");
    mac.update(message);
    mac.finalize().into_bytes().to_vec()
}

} // verus!
