//! Declarations of the outside crates' types that the library carries.

use vstd::prelude::*;

verus! {

/// Errors from the `ohttp` crate (key configurations, HPKE, AEAD).
#[verifier::external_type_specification]
#[verifier::external_body]
pub struct ExOhttpError(ohttp::Error);

/// Errors from the `bhttp` crate (binary HTTP encoding and decoding).
#[verifier::external_type_specification]
#[verifier::external_body]
pub struct ExBhttpError(bhttp::Error);

/// Errors from the `url` crate (URL parsing and resolution).
#[verifier::external_type_specification]
#[verifier::external_body]
pub struct ExUrlParseError(url::ParseError);

/// Errors from the `getrandom` crate (the system random source).
#[verifier::external_type_specification]
#[verifier::external_body]
pub struct ExGetRandomError(getrandom::Error);

/// Errors from the `bitreq` HTTP client.
#[verifier::external_type_specification]
#[verifier::external_body]
pub struct ExBitreqError(bitreq::Error);

} // verus!
