//! The stores and the engine that protects what they hold at rest.

pub mod constants;
pub mod record;
pub mod secret_db;
pub mod security;
pub mod sign_db;
pub mod storage;

use vstd::prelude::*;

verus! {

/// The kinds of failure that an operation reports.
#[derive(Clone, Copy, Debug, PartialEq, Eq, Structural)]
pub enum ErrorKind {
    /// The backing storage could not be opened, read or written.
    StoreUnavailable,
    /// Nothing is stored under the given key or identifier.
    NotFound,
    /// Authenticated decryption rejected its input: the passphrase was
    /// wrong, or what was stored has been altered.
    AuthenticationFailed,
    /// A given or stored encoding could not be decoded.
    MalformedInput,
}

impl ErrorKind {
    /// The text that describes a failure of this kind.
    pub open spec fn text(self) -> Seq<char> {
        match self {
            ErrorKind::StoreUnavailable => "Failed to open database"@,
            ErrorKind::NotFound => "Failed to find data"@,
            ErrorKind::AuthenticationFailed => "Failed to authenticate data"@,
            ErrorKind::MalformedInput => "Failed to decode data"@,
        }
    }

    /// The status that answers a request that failed in this way.
    pub open spec fn status_code(self) -> u16 {
        match self {
            ErrorKind::StoreUnavailable => 503,
            ErrorKind::NotFound => 404,
            ErrorKind::AuthenticationFailed => 403,
            ErrorKind::MalformedInput => 400,
        }
    }

    /// Every kind of failure has a status of its own, so that a caller
    /// can tell the kinds apart.
    pub proof fn lemma_statuses_differ(self, other: ErrorKind)
        requires
            self != other,
        ensures
            self.status_code() != other.status_code(),
    {
    }

    /// The status that answers a request that failed in this way.
    pub fn status(self) -> (r: u16)
        ensures
            r == self.status_code(),
    {
        match self {
            ErrorKind::StoreUnavailable => 503,
            ErrorKind::NotFound => 404,
            ErrorKind::AuthenticationFailed => 403,
            ErrorKind::MalformedInput => 400,
        }
    }

    /// The text that describes a failure of this kind.
    pub fn describe(self) -> (r: &'static str)
        ensures
            r@ == self.text(),
    {
        match self {
            ErrorKind::StoreUnavailable => "Failed to open database",
            ErrorKind::NotFound => "Failed to find data",
            ErrorKind::AuthenticationFailed => "Failed to authenticate data",
            ErrorKind::MalformedInput => "Failed to decode data",
        }
    }
}

/// A failed operation: its kind, and a message for the caller.
#[derive(Debug, Clone)]
pub struct DbError {
    pub kind: ErrorKind,
    pub message: String,
}

impl DbError {
    /// The error of the given kind, with the message of that kind.
    pub fn new(kind: ErrorKind) -> (r: DbError)
        ensures
            r.kind == kind,
            r.message@ == kind.text(),
    {
        DbError { kind, message: kind.describe().to_owned() }
    }

    /// Whether this is the error that `DbError::new(kind)` makes.
    pub open spec fn is_kind(self, kind: ErrorKind) -> bool {
        self.kind == kind && self.message@ == kind.text()
    }

    /// Whether this is the error of an outcome that is a failure.
    pub open spec fn reports<T>(self, outcome: Result<T, ErrorKind>) -> bool {
        outcome matches Err(kind) && self.is_kind(kind)
    }
}

/// Whether an outcome is the failure of the given kind.
pub open spec fn fails_with<T>(r: Result<T, DbError>, kind: ErrorKind) -> bool {
    r matches Err(e) && e.is_kind(kind)
}

} // verus!
