//! Failures of the machinery around the vault: a cause, and the place in the
//! source where it was noticed.

use crate::server::Unavailable;
use base64::DecodeError;
use openssl::error::ErrorStack;
use std::string::FromUtf8Error;
use vstd::prelude::*;

verus! {

/// `base64::DecodeError`: why text is not base64. Nothing is known of what it
/// holds.
#[verifier::external_type_specification]
#[verifier::external_body]
pub struct ExDecodeError(DecodeError);

/// `std::string::FromUtf8Error`: why bytes are not text. Nothing is known of
/// what it holds.
#[verifier::external_type_specification]
#[verifier::external_body]
pub struct ExFromUtf8Error(FromUtf8Error);

/// What went wrong.
#[derive(Debug)]
pub enum Source {
    /// The service is not running, or no master password was ever set.
    Unavailable(Unavailable),
    /// The cipher or the source of randomness failed.
    Cipher(ErrorStack),
    /// Stored text is not base64.
    Encoding(DecodeError),
    /// A decrypted field is not text.
    Text(FromUtf8Error),
    /// A failure met outside the library, by its message: a socket, the
    /// database, the TLS identity.
    Other(String),
}

/// A failure and where it was noticed.
#[derive(Debug)]
pub struct Error {
    file: &'static str,
    line: u32,
    source: Source,
}

impl Error {
    /// The file in which the failure was noticed.
    pub closed spec fn spec_file(&self) -> &'static str {
        self.file
    }

    /// The line at which the failure was noticed.
    pub closed spec fn spec_line(&self) -> u32 {
        self.line
    }

    /// What went wrong.
    pub closed spec fn spec_source(&self) -> Source {
        self.source
    }

    /// Records `error` as noticed at `line` of `file`.
    pub fn new(file: &'static str, line: u32, error: Source) -> (e: Self)
        ensures
            e.spec_file() == file,
            e.spec_line() == line,
            e.spec_source() == error,
    {
        Error { file, line, source: error }
    }

    /// The file in which the failure was noticed.
    #[verifier::when_used_as_spec(spec_file)]
    pub fn file(&self) -> (file: &'static str)
        ensures
            file == self.spec_file(),
    {
        self.file
    }

    /// The line at which the failure was noticed.
    #[verifier::when_used_as_spec(spec_line)]
    pub fn line(&self) -> (line: u32)
        ensures
            line == self.spec_line(),
    {
        self.line
    }

    /// What went wrong.
    pub fn source(&self) -> (source: &Source)
        ensures
            *source == self.spec_source(),
    {
        &self.source
    }

    /// Gives up the place and keeps the cause.
    pub fn into_source(self) -> (source: Source)
        ensures
            source == self.spec_source(),
    {
        self.source
    }
}

} // verus!
