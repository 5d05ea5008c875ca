//! Failure taxonomy for loading the database and answering lookups.

use vstd::prelude::*;

verus! {

/// Every way a load or a lookup can fail.
///
/// `CorruptHeader` is fatal for the whole database; the per-lookup kinds leave
/// the database usable for further calls. `NotFound` is the expected outcome
/// for an address with no covering entry, not a sign of corruption.
#[derive(Clone, Copy, Debug, PartialEq, Eq, Structural)]
pub enum Error {
    /// The header is unreadable, or the declared sizes disagree with the buffer.
    CorruptHeader,
    /// A computed offset reaches past the end of the buffer.
    OutOfBounds,
    /// A record's bytes are not valid UTF-8.
    InvalidEncoding,
    /// The queried address string is not an IPv4 or IPv6 literal.
    BadAddress,
    /// The address family of the query is not enabled in the header.
    VersionMismatch,
    /// The queried language code does not appear in the header.
    UnknownLanguage,
    /// The header declares no record fields.
    EmptySchema,
    /// The address has no covering entry in the trie.
    NotFound,
}

impl Error {
    /// A short stable name for the failure, for callers that print it.
    pub fn as_text(&self) -> (r: &'static str)
        ensures
            r@ == self.spec_text(),
    {
        match self {
            Error::CorruptHeader => "corrupt header",
            Error::OutOfBounds => "out of bounds",
            Error::InvalidEncoding => "invalid encoding",
            Error::BadAddress => "bad address",
            Error::VersionMismatch => "version mismatch",
            Error::UnknownLanguage => "unknown language",
            Error::EmptySchema => "empty schema",
            Error::NotFound => "not found",
        }
    }

    /// The text that `as_text` returns for each failure kind.
    pub open spec fn spec_text(self) -> Seq<char> {
        match self {
            Error::CorruptHeader => "corrupt header"@,
            Error::OutOfBounds => "out of bounds"@,
            Error::InvalidEncoding => "invalid encoding"@,
            Error::BadAddress => "bad address"@,
            Error::VersionMismatch => "version mismatch"@,
            Error::UnknownLanguage => "unknown language"@,
            Error::EmptySchema => "empty schema"@,
            Error::NotFound => "not found"@,
        }
    }
}

} // verus!
