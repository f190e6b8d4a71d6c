//! Caching of the fields of an issue: what can go wrong while a field is read.

use vstd::prelude::*;
use crate::codes::einval;
use crate::errors::{ExitError, IoError};

verus! {

/// A field that is read once and kept: `None` until it has been read.
pub type Cache<T> = Option<T>;

/// A field could not be read into the cache.
#[derive(Debug)]
pub enum CacheError {
    /// A date could not be read: the text that is no date.
    ParseError(String),
    /// The file could not be read.
    Io(IoError),
}

impl CacheError {
    /// The message for the user.
    pub open spec fn message_text(self) -> Seq<char> {
        match self {
            CacheError::ParseError(text) => text@,
            CacheError::Io(e) => e.message@,
        }
    }

    /// The code to exit with.
    pub open spec fn exit_code(self) -> int {
        match self {
            CacheError::ParseError(_) => 22,
            CacheError::Io(e) => e.code as int,
        }
    }

    /// The message for the user.
    pub fn message(&self) -> (r: String)
        ensures
            r@ == self.message_text(),
    {
        match self {
            CacheError::ParseError(text) => text.clone(),
            CacheError::Io(e) => e.message.clone(),
        }
    }

    /// The code and the message to exit with.
    pub fn exit_error(&self) -> (r: ExitError)
        ensures
            r.code == self.exit_code(),
            r.message@ == self.message_text(),
    {
        match self {
            CacheError::ParseError(text) => ExitError { code: einval(), message: text.clone() },
            CacheError::Io(e) => ExitError { code: e.code, message: e.message.clone() },
        }
    }
}

} // verus!
