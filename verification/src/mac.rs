//! The keyed hash the derivation is built on.

use hmac::{Hmac, Mac};
use sha2::Sha256;
use vstd::prelude::*;

verus! {

/// Number of bytes in one HMAC-SHA256 authentication code.
pub const HASH_OUTPUT_SIZE: usize = 32;

/// The HMAC-SHA256 authentication code of `message` under `key`.
///
/// The value is computed by the `hmac` and `sha2` crates; nothing about it is
/// known to the verifier beyond its being a function of the two byte strings.
pub uninterp spec fn hmac_sha256(key: Seq<u8>, message: Seq<u8>) -> [u8; 32];

/// Runs one complete HMAC-SHA256 computation with the `hmac` crate:
/// `Hmac::<Sha256>::new_varkey(key)`, one `input(message)`, then
/// `result().code()`.
///
/// Trusted, not proved: the returned code is [`hmac_sha256`] of the key and
/// the message. `new_varkey` accepts keys of every length for HMAC, so the
/// call does not fail.
#[verifier::external_body]
pub(crate) fn hmac_sha256_code(key: &[u8], message: &[u8]) -> (code: [u8; 32])
    ensures
        code == hmac_sha256(key@, message@),
{
    let mut mac = Hmac::<Sha256>::new_varkey(key).expect("HMAC-SHA256 should accept any size key");
    mac.input(message);
    mac.result().code().into()
}

/// Calls `Vec::into_boxed_slice`.
///
/// Trusted, not proved: the boxed slice holds the vector's elements in the
/// same order.
#[verifier::external_body]
pub(crate) fn into_boxed_bytes(bytes: Vec<u8>) -> (boxed: Box<[u8]>)
    ensures
        boxed@ == bytes@,
{
    bytes.into_boxed_slice()
}

} // verus!
