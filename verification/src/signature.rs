//! Authentication of inbound webhook bodies.
//!
//! An inbound request carries a signature header that must equal the
//! lowercase hex encoding of HMAC-SHA256 over the raw body, keyed by the
//! shared secret. Any mismatch is reported as `false`; the caller rejects
//! the request uniformly.

use vstd::prelude::*;
use vstd::string::*;

use crate::text::bytes_eq;

verus! {

/// The HMAC-SHA256 digest of `msg` keyed by `key`. The digest is a pure
/// function of the two arguments; it is computed by the `hmac` and `sha2`
/// crates and left uninterpreted here.
pub uninterp spec fn hmac_sha256_of(key: Seq<u8>, msg: Seq<u8>) -> Seq<u8>;

/// The lowercase hex digit, as an ASCII byte, for a nibble value.
pub open spec fn hex_digit(n: u8) -> u8 {
    if n < 10 {
        (n + 0x30) as u8
    } else {
        (n + 0x57) as u8
    }
}

/// Lowercase hex encoding of a byte string: two digits per byte, high
/// nibble first, bytes in order.
pub open spec fn hex_bytes(bs: Seq<u8>) -> Seq<u8> {
    Seq::new(
        bs.len() * 2,
        |i: int|
            if i % 2 == 0 {
                hex_digit(bs[i / 2] >> 4)
            } else {
                hex_digit((bs[i / 2] & 0x0f) as u8)
            },
    )
}

/// Holds exactly when `signature` is the lowercase hex encoding of the
/// HMAC-SHA256 digest of `body` keyed by `secret`.
pub open spec fn signature_matches(signature: Seq<u8>, body: Seq<u8>, secret: Seq<u8>) -> bool {
    signature == hex_bytes(hmac_sha256_of(secret, body))
}

/// Relies on `hmac::SimpleHmac<sha2::Sha256>` (`new_from_slice`, `update`,
/// `finalize`): the digest is 32 bytes and depends only on the key and the
/// message. For `SimpleHmac`, `new_from_slice` accepts a key of any length
/// and never returns an error, so the `expect` cannot fire.
#[verifier::external_body]
fn hmac_sha256(secret: &[u8], body: &[u8]) -> (r: Vec<u8>)
    ensures
        r@ == hmac_sha256_of(secret@, body@),
        r@.len() == 32,
{
    let mut mac = <hmac::SimpleHmac<sha2::Sha256> as hmac::Mac>::new_from_slice(secret)
        .expect("any key length is accepted");
    hmac::Mac::update(&mut mac, body);
    hmac::Mac::finalize(mac).into_bytes().to_vec()
}

/// Relies on `hex::encode`: two lowercase hex digits per byte, high nibble
/// first, bytes in input order.
#[verifier::external_body]
fn hex_lower(bytes: &[u8]) -> (r: Vec<u8>)
    ensures
        r@ == hex_bytes(bytes@),
{
    hex::encode(bytes).into_bytes()
}

/// Decides whether `signature` authenticates `body` under `secret`:
/// it must be the lowercase hex encoding of HMAC-SHA256(secret, body).
/// Returns `false` on any mismatch; it never fails.
pub fn is_valid_signature(signature: &str, body: &[u8], secret: &[u8]) -> (r: bool)
    ensures
        r == signature_matches(signature.spec_bytes(), body@, secret@),
{
    let digest = hmac_sha256(secret, body);
    let expected = hex_lower(digest.as_slice());
    bytes_eq(signature.as_bytes(), expected.as_slice())
}

} // verus!
