//! Central application error type.
//!
//! The frontend receives errors as a flat `{ kind, message }` object; the
//! variants double as an API contract with the UI.

use vstd::prelude::*;

use crate::text::{copy_str, push_str};

verus! {

#[derive(Debug)]
pub enum Error {
    Storage(String),
    Network(String),
    CardNotFound(String),
    UnsupportedGame(String),
    InvalidInput(String),
    ImageDecode(String),
    Internal(String),
    /// A size limit was exceeded (image bytes, decoded pixels).
    InputTooLarge { message: String, limit: String, actual: String },
}

pub type Result<T> = std::result::Result<T, Error>;

/// The machine-readable kind sent to the UI.
pub open spec fn error_kind(e: Error) -> Seq<char> {
    match e {
        Error::Storage(_) => "storage"@,
        Error::Network(_) => "network"@,
        Error::CardNotFound(_) => "card_not_found"@,
        Error::UnsupportedGame(_) => "unsupported_game"@,
        Error::InvalidInput(_) => "invalid_input"@,
        Error::ImageDecode(_) => "image_decode"@,
        Error::Internal(_) => "internal"@,
        Error::InputTooLarge { .. } => "input_too_large"@,
    }
}

/// The human-readable text of an error.
pub open spec fn error_text(e: Error) -> Seq<char> {
    match e {
        Error::Storage(m) => "storage error: "@ + m@,
        Error::Network(m) => "network error: "@ + m@,
        Error::CardNotFound(m) => "card not found: "@ + m@,
        Error::UnsupportedGame(m) => "unsupported game: "@ + m@,
        Error::InvalidInput(m) => "invalid input: "@ + m@,
        Error::ImageDecode(m) => "image decode failed: "@ + m@,
        Error::Internal(m) => "internal error: "@ + m@,
        Error::InputTooLarge { message, .. } => "input too large: "@ + message@,
    }
}

impl Error {
    pub fn kind(&self) -> (r: &'static str)
        ensures
            r@ == error_kind(*self),
    {
        match self {
            Error::Storage(_) => "storage",
            Error::Network(_) => "network",
            Error::CardNotFound(_) => "card_not_found",
            Error::UnsupportedGame(_) => "unsupported_game",
            Error::InvalidInput(_) => "invalid_input",
            Error::ImageDecode(_) => "image_decode",
            Error::Internal(_) => "internal",
            Error::InputTooLarge { .. } => "input_too_large",
        }
    }

    /// The error's display text (`kind` prefix and detail message).
    pub fn to_string(&self) -> (r: String)
        ensures
            r@ == error_text(*self),
    {
        let (prefix, detail): (&str, &String) = match self {
            Error::Storage(m) => ("storage error: ", m),
            Error::Network(m) => ("network error: ", m),
            Error::CardNotFound(m) => ("card not found: ", m),
            Error::UnsupportedGame(m) => ("unsupported game: ", m),
            Error::InvalidInput(m) => ("invalid input: ", m),
            Error::ImageDecode(m) => ("image decode failed: ", m),
            Error::Internal(m) => ("internal error: ", m),
            Error::InputTooLarge { message, .. } => ("input too large: ", message),
        };
        let mut s = copy_str(prefix);
        push_str(&mut s, detail.as_str());
        s
    }
}

} // verus!
