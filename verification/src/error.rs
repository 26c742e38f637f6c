//! The ways in which a refresh or a toggle ends without success.
use vstd::prelude::*;

verus! {

/// Why an operation ended without success.
#[derive(Clone, Copy, Debug, PartialEq, Eq, Structural)]
pub enum SyncError {
    /// No channel has the identifier that was given.
    ChannelNotFound,
    /// No entry has the identifier that was given.
    EntryNotFound,
    /// The document could not be retrieved: the source was unreachable or
    /// answered with a status other than success.
    FetchFailure,
    /// The document retrieved is not a feed the parser understands.
    ParseFailure,
    /// The store did not carry out a statement.
    PersistFailure,
}

impl SyncError {
    /// Whether the caller named something that does not exist.
    pub open spec fn not_found(self) -> bool {
        self == SyncError::ChannelNotFound || self == SyncError::EntryNotFound
    }

    /// Decides `not_found`.
    pub fn is_not_found(&self) -> (r: bool)
        ensures
            r == self.not_found(),
    {
        match self {
            SyncError::ChannelNotFound | SyncError::EntryNotFound => true,
            _ => false,
        }
    }

    /// Whether invoking the operation again may succeed without anything
    /// being repaired first: only a failed fetch is transient.
    pub fn is_retryable(&self) -> (r: bool)
        ensures
            r == (*self == SyncError::FetchFailure),
    {
        match self {
            SyncError::FetchFailure => true,
            _ => false,
        }
    }

    /// The text of `message`.
    pub open spec fn text(self) -> Seq<char> {
        match self {
            SyncError::ChannelNotFound => "Channel does not exist"@,
            SyncError::EntryNotFound => "Entry does not exist"@,
            SyncError::FetchFailure => "Failed to get feed"@,
            SyncError::ParseFailure => "Failed to parse feed"@,
            SyncError::PersistFailure => "Database error"@,
        }
    }

    /// A line for the caller to show.
    pub fn message(&self) -> (r: String)
        ensures
            r@ == self.text(),
    {
        match self {
            SyncError::ChannelNotFound => "Channel does not exist".to_owned(),
            SyncError::EntryNotFound => "Entry does not exist".to_owned(),
            SyncError::FetchFailure => "Failed to get feed".to_owned(),
            SyncError::ParseFailure => "Failed to parse feed".to_owned(),
            SyncError::PersistFailure => "Database error".to_owned(),
        }
    }
}

} // verus!
