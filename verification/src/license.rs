//! The staged builder and the verified license value.
//!
//! A builder gathers payload text, public key and signature; `build` checks
//! that all three are present, runs signature verification, decodes the
//! payload, and yields a [`License`]. A failed signature check is not a
//! `build` error: it surfaces only as `signature_valid == false`, so a
//! caller cannot learn why a forgery was rejected.

use vstd::prelude::*;

use crate::codec;
use crate::ext;
use crate::payload;

verus! {

/// The ways constructing a license can fail.
///
/// Signature verification failures are deliberately not here: they are
/// collapsed into `License::valid() == false`.
#[derive(Debug, PartialEq, Eq, Structural)]
pub enum LicenseError {
    /// A public key that the signature algorithm rejects. `build` reports
    /// rejected keys as an invalid signature instead, so it never returns
    /// this variant.
    InvalidPublicKey,
    /// No payload text was supplied (or the blob held none).
    MissingLicenseText,
    /// No public key was supplied.
    MissingPublicKey,
    /// No signature was supplied (or the blob held none).
    MissingSignature,
    /// The payload text is present but is not a well-formed payload
    /// document, or its expiration is not an RFC 3339 date-time.
    PayloadCorrupt,
}

/// Staging area for the three inputs of a license check. Each input is
/// absent until set; `build` consumes the builder.
pub struct LicenseBuilder {
    text: Option<Vec<u8>>,
    public_key: Option<Vec<u8>>,
    signature: Option<Vec<u8>>,
}

/// The outcome `build` owes for a builder holding these three optional
/// inputs: each missing input is its own error, a payload that does not
/// decode is `PayloadCorrupt`, and otherwise the license carries the decoded
/// fields with the signature verdict.
pub open spec fn spec_build_outcome(
    b: LicenseBuilder,
    r: Result<License, LicenseError>,
) -> bool {
    match b.spec_public_key() {
        None => r == Err::<License, LicenseError>(LicenseError::MissingPublicKey),
        Some(pk) => match b.spec_signature() {
            None => r == Err::<License, LicenseError>(LicenseError::MissingSignature),
            Some(sig) => match b.spec_text() {
                None => r == Err::<License, LicenseError>(LicenseError::MissingLicenseText),
                Some(text) => match payload::spec_payload_of(text) {
                    None => r == Err::<License, LicenseError>(LicenseError::PayloadCorrupt),
                    Some(p) => match p.1 {
                        None => r matches Ok(l) && l.spec_features() == p.0 && l.spec_expires()
                            is None && l.spec_signature_valid() == ext::ed25519_verifies(
                            pk,
                            text,
                            sig,
                        ),
                        Some(d) => match ext::rfc3339_millis_of(d) {
                            None => r == Err::<License, LicenseError>(LicenseError::PayloadCorrupt),
                            Some(ms) => r matches Ok(l) && l.spec_features() == p.0
                                && l.spec_expires() == Some(ms) && l.spec_signature_valid()
                                == ext::ed25519_verifies(pk, text, sig),
                        },
                    },
                },
            },
        },
    }
}

impl LicenseBuilder {
    /// The payload text held so far, if any.
    pub closed spec fn spec_text(&self) -> Option<Seq<u8>> {
        payload::opt_bytes_view(self.text)
    }

    /// The public key held so far, if any.
    pub closed spec fn spec_public_key(&self) -> Option<Seq<u8>> {
        payload::opt_bytes_view(self.public_key)
    }

    /// The signature held so far, if any.
    pub closed spec fn spec_signature(&self) -> Option<Seq<u8>> {
        payload::opt_bytes_view(self.signature)
    }

    /// Stores a signature, replacing any earlier one.
    pub fn with_signature(self, signature: &[u8]) -> (r: Self)
        ensures
            r.spec_signature() == Some(signature@),
            r.spec_text() == self.spec_text(),
            r.spec_public_key() == self.spec_public_key(),
    {
        LicenseBuilder { signature: Some(vstd::slice::slice_to_vec(signature)), ..self }
    }

    /// Stores a public key, replacing any earlier one.
    pub fn with_public_key(self, public_key: &[u8]) -> (r: Self)
        ensures
            r.spec_public_key() == Some(public_key@),
            r.spec_text() == self.spec_text(),
            r.spec_signature() == self.spec_signature(),
    {
        LicenseBuilder { public_key: Some(vstd::slice::slice_to_vec(public_key)), ..self }
    }

    /// Checks the gathered inputs and produces the license.
    ///
    /// Law: each of the three inputs, when absent, is reported as its own
    /// error, whatever the other two hold — the public key first, then the
    /// signature, then the text. With all three present, the payload decides
    /// between `PayloadCorrupt` and a license whose `signature_valid` is
    /// exactly the Ed25519 verdict over (key, text, signature).
    pub fn build(self) -> (r: Result<License, LicenseError>)
        ensures
            spec_build_outcome(self, r),
    {
        let public_key = match self.public_key {
            Some(p) => p,
            None => {
                return Err(LicenseError::MissingPublicKey);
            },
        };
        let signature = match self.signature {
            Some(sv) => sv,
            None => {
                return Err(LicenseError::MissingSignature);
            },
        };
        let text = match self.text {
            Some(t) => t,
            None => {
                return Err(LicenseError::MissingLicenseText);
            },
        };
        let signature_valid = ext::ed25519_verify(
            public_key.as_slice(),
            text.as_slice(),
            signature.as_slice(),
        );
        let decoded = match payload::parse_payload(text.as_slice()) {
            Some(p) => p,
            None => {
                return Err(LicenseError::PayloadCorrupt);
            },
        };
        let expires = match decoded.expires {
            Some(d) => match ext::rfc3339_to_millis(d.as_slice()) {
                Some(ms) => Some(ms),
                None => {
                    return Err(LicenseError::PayloadCorrupt);
                },
            },
            None => None,
        };
        Ok(License { features: decoded.features, expires, signature_valid })
    }
}

impl Default for LicenseBuilder {
    /// A builder with all three inputs absent.
    fn default() -> (r: Self)
        ensures
            r.spec_text() is None,
            r.spec_public_key() is None,
            r.spec_signature() is None,
    {
        LicenseBuilder { text: None, public_key: None, signature: None }
    }
}

/// The outcome of one license check: the decoded feature names, the
/// expiration instant in milliseconds since the Unix epoch (absent for a
/// non-expiring license), and the signature verdict. Immutable once built.
#[derive(Debug)]
pub struct License {
    features: Vec<Vec<u8>>,
    expires: Option<i64>,
    signature_valid: bool,
}

impl License {
    /// The feature names this license grants.
    pub closed spec fn spec_features(&self) -> Seq<Seq<u8>> {
        payload::views_of(self.features@)
    }

    /// The expiration instant, absent for a non-expiring license.
    pub closed spec fn spec_expires(&self) -> Option<i64> {
        self.expires
    }

    /// Whether the signature verified.
    pub closed spec fn spec_signature_valid(&self) -> bool {
        self.signature_valid
    }

    /// Whether the license counts as valid at the instant `now`: the
    /// signature verified, and the license has not expired.
    pub open spec fn spec_valid_at(&self, now_millis: i64) -> bool {
        self.spec_signature_valid() && match self.spec_expires() {
            None => true,
            Some(e) => now_millis < e,
        }
    }

    /// Begins a license check from a distributable blob, splitting it into
    /// payload text and signature as the codec prescribes. The public key
    /// is left to be supplied.
    pub fn new(input: &[u8]) -> (r: LicenseBuilder)
        ensures
            r.spec_public_key() is None,
            r.spec_text() == codec::spec_split(input@).0,
            r.spec_signature() == codec::spec_split(input@).1,
    {
        let (text, signature) = codec::split_blob(input);
        LicenseBuilder { text, public_key: None, signature }
    }

    /// Whether the license is valid at the instant `now_millis`
    /// (milliseconds since the Unix epoch): the signature verified, and
    /// either no expiration was set or `now_millis` lies strictly before it.
    pub fn valid_at(&self, now_millis: i64) -> (r: bool)
        ensures
            r == self.spec_valid_at(now_millis),
    {
        if !self.signature_valid {
            return false;
        }
        match &self.expires {
            None => true,
            Some(e) => now_millis < *e,
        }
    }

    /// Whether the license is valid now, by the system clock. The clock's
    /// reading cannot be pinned down, so only the clock-free part is owed:
    /// an invalid signature never passes, and a verified, non-expiring
    /// license always does.
    pub fn valid(&self) -> (r: bool)
        ensures
            !self.spec_signature_valid() ==> !r,
            self.spec_signature_valid() && self.spec_expires() is None ==> r,
    {
        let now = ext::now_millis();
        self.valid_at(now)
    }

    /// Whether the license grants the feature named by these bytes, by
    /// exact, case-sensitive match against the decoded feature names.
    pub fn has_feature(&self, feature: &[u8]) -> (r: bool)
        ensures
            r == self.spec_features().contains(feature@),
    {
        let mut k: usize = 0;
        while k < self.features.len()
            invariant
                k <= self.features.len(),
                forall|m: int| 0 <= m < k ==> self.spec_features()[m] != feature@,
            decreases self.features.len() - k,
        {
            if payload::bytes_eq(self.features[k].as_slice(), feature) {
                proof {
                    assert(self.spec_features()[k as int] == feature@);
                }
                return true;
            }
            k += 1;
        }
        proof {
            if self.spec_features().contains(feature@) {
                let m = choose|m: int|
                    0 <= m < self.spec_features().len() && self.spec_features()[m] == feature@;
                assert(self.spec_features()[m] != feature@);
            }
        }
        false
    }
}

/// Law: a license whose signature did not verify is valid at no instant,
/// whatever its expiration says.
pub proof fn lemma_invalid_signature_never_valid(l: License, now_millis: i64)
    requires
        !l.spec_signature_valid(),
    ensures
        !l.spec_valid_at(now_millis),
{
}

/// Law: for a license whose signature verified, validity at an instant is
/// decided by expiration alone — owed while the instant lies strictly
/// before the expiration or none was set, refused from the expiration on.
pub proof fn lemma_expiry_decides_validity(l: License, now_millis: i64)
    requires
        l.spec_signature_valid(),
    ensures
        l.spec_expires() is None ==> l.spec_valid_at(now_millis),
        l.spec_expires() matches Some(e) ==> (l.spec_valid_at(now_millis) <==> now_millis < e),
{
}

} // verus!
