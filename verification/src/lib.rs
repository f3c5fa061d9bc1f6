//! Verification core of a software-licensing scheme.
//!
//! A license file is a single blob: the UTF-8 payload text, one `0x00`
//! delimiter byte, and the raw Ed25519 signature over the payload. The
//! payload is a JSON document carrying a list of feature names and an
//! optional RFC 3339 expiration date.
//!
//! [`codec`] splits and assembles blobs, [`payload`] decodes the payload
//! document, and [`license`] holds the staged [`LicenseBuilder`] and the
//! resulting queryable [`License`].

pub mod codec;
pub mod ext;
pub mod license;
pub mod payload;

pub use license::License;
pub use license::LicenseBuilder;
pub use license::LicenseError;
