//! The errors of the service and the HTTP statuses they are answered with.
use vstd::prelude::*;
use vstd::string::*;

use crate::codec::{uuid_hyphenated, uuid_to_string};
use crate::crypto::CryptoError;

verus! {

/// An error of the service.
#[derive(Debug)]
pub enum AppError {
    /// The database failed (its message).
    Sqlx(String),
    /// No forge is registered under the id.
    UnknownForge(u128),
    /// A URL could not be parsed.
    UrlParse,
    /// A token could not be signed or read.
    Jwt,
    /// Something else failed (its message).
    InternalError(String),
    /// A JSON value could not be read or written (its message).
    Json(String),
    /// The forge answered a token request without a refresh token or an
    /// expiry.
    InvalidTokenResponse,
    /// The user has not linked the forge.
    ForgeNotLinked,
    /// The forge does not know the repository.
    UpstreamRepoNotFound,
}

/// The text of an error.
pub open spec fn app_error_message(e: AppError) -> Seq<char> {
    match e {
        AppError::Sqlx(_) => "db err"@,
        AppError::UnknownForge(id) => "unknown forge: "@ + uuid_hyphenated(id),
        AppError::UrlParse => "url parse err"@,
        AppError::Jwt => "jwt error"@,
        AppError::InternalError(msg) => "internal error: "@ + msg@,
        AppError::Json(msg) => "serde json error: "@ + msg@,
        AppError::InvalidTokenResponse => "invalid token response"@,
        AppError::ForgeNotLinked => "forge not linked"@,
        AppError::UpstreamRepoNotFound => "upstream repository not found"@,
    }
}

/// The HTTP status of an error.
pub open spec fn app_error_status(e: AppError) -> u16 {
    match e {
        AppError::UnknownForge(_) | AppError::UpstreamRepoNotFound => 404,
        AppError::ForgeNotLinked => 400,
        _ => 500,
    }
}

impl AppError {
    /// The HTTP status the error is answered with: not found for an unknown
    /// forge or repository, bad request for an unlinked forge, and internal
    /// server error for everything else.
    pub fn status(&self) -> (code: u16)
        ensures
            code == app_error_status(*self),
    {
        match self {
            AppError::UnknownForge(_) | AppError::UpstreamRepoNotFound => 404,
            AppError::ForgeNotLinked => 400,
            _ => 500,
        }
    }

    /// The text of the error.
    pub fn message(&self) -> (m: String)
        ensures
            m@ == app_error_message(*self),
    {
        match self {
            AppError::Sqlx(_) => String::from_str("db err"),
            AppError::UnknownForge(id) => {
                let mut m = String::from_str("unknown forge: ");
                let s = uuid_to_string(*id);
                m.append(s.as_str());
                m
            },
            AppError::UrlParse => String::from_str("url parse err"),
            AppError::Jwt => String::from_str("jwt error"),
            AppError::InternalError(msg) => {
                let mut m = String::from_str("internal error: ");
                m.append(msg.as_str());
                m
            },
            AppError::Json(msg) => {
                let mut m = String::from_str("serde json error: ");
                m.append(msg.as_str());
                m
            },
            AppError::InvalidTokenResponse => String::from_str("invalid token response"),
            AppError::ForgeNotLinked => String::from_str("forge not linked"),
            AppError::UpstreamRepoNotFound => String::from_str("upstream repository not found"),
        }
    }

    /// The error a failed secret operation is reported as.
    pub fn from_crypto(e: CryptoError) -> (r: AppError)
        ensures
            r matches AppError::InternalError(msg) && msg@ == crypto_error_text(e),
    {
        let text = match e {
            CryptoError::InvalidKeyLength => "invalid key length",
            CryptoError::NonceUnavailable => "random nonce unavailable",
            CryptoError::PayloadTooLarge => "aead::Error",
            CryptoError::PayloadTooShort => "too short iphertext payload",
            CryptoError::DecryptionFailed => "aead::Error",
            CryptoError::InvalidUtf8 => "invalid utf-8 sequence",
        };
        AppError::InternalError(String::from_str(text))
    }
}

/// The text a failed secret operation is reported with.
pub open spec fn crypto_error_text(e: CryptoError) -> Seq<char> {
    match e {
        CryptoError::InvalidKeyLength => "invalid key length"@,
        CryptoError::NonceUnavailable => "random nonce unavailable"@,
        CryptoError::PayloadTooLarge => "aead::Error"@,
        CryptoError::PayloadTooShort => "too short iphertext payload"@,
        CryptoError::DecryptionFailed => "aead::Error"@,
        CryptoError::InvalidUtf8 => "invalid utf-8 sequence"@,
    }
}

} // verus!
