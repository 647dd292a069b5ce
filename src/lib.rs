//! Time-based one-time passwords (RFC 6238) over HMAC-SHA1 (RFC 4226).
//!
//! The pipeline runs forward: epoch seconds, the 30-second step count, its
//! 8-byte big-endian encoding, the HMAC-SHA1 digest under the shared secret,
//! dynamic truncation to 31 bits, and six zero-padded decimal digits.

pub mod code;
pub mod counter;
pub mod format;
pub mod provision;
pub mod truncate;

pub use code::{code_from_digest, topt};
pub use format::format_code;
pub use provision::{google_auth_compat, provisioning_uri, qr_code_text, ProvisioningError};
pub use truncate::{dynamic_truncate, OtpError};
