//! The crate-wide error enumeration and the error payload the shell shows.

use vstd::prelude::*;

use crate::strutil::append_str;

verus! {

/// Errors the tool distinguishes.  Where an underlying failure comes from
/// the outside (the file system, a JSON parser, a database), its message
/// is carried as text.
#[derive(Debug)]
pub enum HayoTransError {
    /// The game engine could not be recognised.
    UnknownEngine(String),
    /// The engine is recognised but not supported.
    UnsupportedEngine(String),
    /// A file does not exist.
    FileNotFound(String),
    /// A directory does not exist.
    DirectoryNotFound(String),
    /// A file could not be read.
    FileReadError(String),
    /// A file could not be written.
    FileWriteError(String),
    /// Data could not be parsed.
    ParseError(String),
    /// JSON text could not be parsed.
    JsonError(String),
    /// An input/output failure.
    IoError(String),
    /// A translation failure.
    TranslationError(String),
    /// A failure reported by a remote service.
    ApiError(String),
    /// A storage failure.
    DatabaseError(String),
    /// A text encoding failure.
    EncodingError(String),
    /// Decompression failed.
    DecompressionError(String),
    /// Compression failed.
    CompressionError(String),
    /// Validation failed.
    ValidationError(String),
    /// Configuration is unusable.
    ConfigError(String),
    /// Anything else.
    Other(String),
}

impl HayoTransError {
    /// A one-line description: the kind of failure and its detail.
    pub fn message(&self) -> (r: String) {
        let (prefix, detail): (&str, &String) = match self {
            HayoTransError::UnknownEngine(s) => ("Unknown game engine: ", s),
            HayoTransError::UnsupportedEngine(s) => ("Unsupported game engine: ", s),
            HayoTransError::FileNotFound(s) => ("File not found: ", s),
            HayoTransError::DirectoryNotFound(s) => ("Directory not found: ", s),
            HayoTransError::FileReadError(s) => ("Failed to read file: ", s),
            HayoTransError::FileWriteError(s) => ("Failed to write file: ", s),
            HayoTransError::ParseError(s) => ("Parse error: ", s),
            HayoTransError::JsonError(s) => ("JSON parse error: ", s),
            HayoTransError::IoError(s) => ("IO error: ", s),
            HayoTransError::TranslationError(s) => ("Translation error: ", s),
            HayoTransError::ApiError(s) => ("API error: ", s),
            HayoTransError::DatabaseError(s) => ("Database error: ", s),
            HayoTransError::EncodingError(s) => ("Encoding error: ", s),
            HayoTransError::DecompressionError(s) => ("Decompression error: ", s),
            HayoTransError::CompressionError(s) => ("Compression error: ", s),
            HayoTransError::ValidationError(s) => ("Validation error: ", s),
            HayoTransError::ConfigError(s) => ("Configuration error: ", s),
            HayoTransError::Other(s) => ("Error: ", s),
        };
        let mut out = String::from_str(prefix);
        append_str(&mut out, detail.as_str());
        out
    }
}

/// The error payload handed to the shell.
#[derive(Debug)]
pub struct ErrorResponse {
    /// The error text.
    pub error: String,
    /// Further detail, when any.
    pub details: Option<String>,
}

impl ErrorResponse {
    /// A response with no detail.
    pub fn new(error: &str) -> (r: Self)
        ensures
            r.error@ == error@,
            r.details is None,
    {
        ErrorResponse { error: String::from_str(error), details: None }
    }

    /// A response with detail.
    pub fn with_details(error: &str, details: &str) -> (r: Self)
        ensures
            r.error@ == error@,
            r.details matches Some(d) && d@ == details@,
    {
        ErrorResponse {
            error: String::from_str(error),
            details: Some(String::from_str(details)),
        }
    }

    /// The whole text of the response.
    pub fn message(&self) -> (r: String)
        ensures
            self.details is None ==> r@ == self.error@,
    {
        match &self.details {
            Some(d) => {
                let mut out = self.error.clone();
                append_str(&mut out, ": ");
                append_str(&mut out, d.as_str());
                out
            },
            None => self.error.clone(),
        }
    }
}

impl From<HayoTransError> for ErrorResponse {
    /// Wrap an error's message.
    fn from(err: HayoTransError) -> (r: ErrorResponse) {
        ErrorResponse { error: err.message(), details: None }
    }
}

impl vstd::std_specs::convert::FromSpecImpl<HayoTransError> for ErrorResponse {
    open spec fn obeys_from_spec() -> bool {
        false
    }

    open spec fn from_spec(v: HayoTransError) -> ErrorResponse {
        arbitrary()
    }
}

} // verus!
