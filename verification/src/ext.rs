//! Calls into the signature primitive, the clock and the date parser.
//!
//! Everything here is a thin wrapper whose contract Verus believes; all
//! decisions taken on the wrappers' results live in verified code.

use vstd::prelude::*;

verus! {

/// Whether Ed25519 verification accepts `signature` as a signature of
/// `message` under `public_key`. Verification is a deterministic function
/// of the three byte strings; the algorithm itself is not restated here.
pub uninterp spec fn ed25519_verifies(
    public_key: Seq<u8>,
    message: Seq<u8>,
    signature: Seq<u8>,
) -> bool;

/// Relies on ring's `signature::UnparsedPublicKey::verify` with the
/// `ED25519` algorithm: it accepts or rejects from the three inputs alone,
/// and a malformed key or signature is an ordinary rejection, not a panic.
#[verifier::external_body]
pub(crate) fn ed25519_verify(public_key: &[u8], message: &[u8], signature: &[u8]) -> (r: bool)
    ensures
        r == ed25519_verifies(public_key@, message@, signature@),
{
    ring::signature::UnparsedPublicKey::new(&ring::signature::ED25519, public_key)
        .verify(message, signature)
        .is_ok()
}

/// The instant, in milliseconds since the Unix epoch, that an RFC 3339
/// date-time string denotes; `None` where the bytes are not such a string.
pub uninterp spec fn rfc3339_millis_of(s: Seq<u8>) -> Option<i64>;

/// Relies on chrono's `DateTime::parse_from_rfc3339` (with `str::from_utf8`
/// to view the bytes as text): the result depends on the bytes alone.
#[verifier::external_body]
pub(crate) fn rfc3339_to_millis(s: &[u8]) -> (r: Option<i64>)
    ensures
        r == rfc3339_millis_of(s@),
{
    match core::str::from_utf8(s) {
        Ok(text) => match chrono::DateTime::parse_from_rfc3339(text) {
            Ok(dt) => Some(dt.timestamp_millis()),
            Err(_) => None,
        },
        Err(_) => None,
    }
}

/// Relies on chrono's `Utc::now`. A clock can return anything, so nothing is
/// assumed of the result; callers state what holds whatever came back.
#[verifier::external_body]
pub(crate) fn now_millis() -> i64 {
    chrono::Utc::now().timestamp_millis()
}

} // verus!
