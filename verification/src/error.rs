//! The library's error type.
use vstd::prelude::*;

verus! {

/// The decoding error that the `base64` crate reports.
#[verifier::external_type_specification]
#[verifier::external_body]
pub struct ExDecodeError(base64::DecodeError);

/// The error that `serde_json` reports.
#[verifier::external_type_specification]
#[verifier::external_body]
pub struct ExJsonError(serde_json::Error);

/// Everything that can go wrong while validating, sealing or sending a message.
#[derive(Debug)]
pub enum CatzError {
    /// A required setting is absent (or empty); the text names it.
    MissingEnv(String),
    /// A key decoded to this many bytes instead of 32.
    InvalidKeyLength(usize),
    /// A key is not valid base64.
    Base64(base64::DecodeError),
    /// JSON could not be written or read.
    Json(serde_json::Error),
    /// The cipher refused the message.
    EncryptionFailed,
    /// The request could not be made or its reply could not be read.
    Http(String),
    /// The API answered with a status outside 200..=299.
    ApiError { status: u16, body: String },
    /// The input breaks a rule of the API; the text says which.
    Validation(String),
    /// A channel, message type and template that do not go together.
    UnsupportedCombination(String, String, String),
}

/// `e` is a validation error whose text is `msg`.
pub open spec fn is_validation(e: CatzError, msg: Seq<char>) -> bool {
    e matches CatzError::Validation(m) && m@ == msg
}

/// `e` reports the missing setting `msg`.
pub open spec fn is_missing_env(e: CatzError, msg: Seq<char>) -> bool {
    e matches CatzError::MissingEnv(m) && m@ == msg
}

} // verus!
