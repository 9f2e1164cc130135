//! Canonicalization and key/signature format conversion for a
//! challenge-response signing protocol.
//!
//! The crate has two independent parts: a challenge canonicalizer, which
//! validates a challenge record and renders it to one deterministic
//! delimited string (the exact ECDSA signing payload), and a pair of format
//! converters, which turn an uncompressed SEC1 public key into a
//! base64url-encoded SPKI DER document and a DER-encoded ECDSA signature
//! into the fixed 64-byte P1363 form.

use vstd::prelude::*;

pub mod challenge;
pub mod decimal;
pub mod errors;
pub mod key;
pub mod signature;
pub mod text;

pub use challenge::{assert_no_forbidden_chars, canonical_string, Challenge};
pub use errors::ErrorKind;
pub use key::sec1_to_spki_der_b64url_internal;
pub use signature::der_to_p1363_internal;

verus! {

} // verus!
