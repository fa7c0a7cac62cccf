//! The failures the registry reports to its callers.

use vstd::prelude::*;
use vstd::string::*;

verus! {

/// What went wrong, by class.
#[derive(Clone, Copy, Debug, PartialEq, Eq, Structural)]
pub enum ErrorKind {
    /// The request itself is malformed: pagination, headers, metadata.
    InvalidRequest,
    /// The upload's name, version, size or content type is not acceptable.
    ValidationFailed,
    /// No such package or version.
    NotFound,
    /// The package name belongs to another account.
    OwnershipConflict,
    /// The version was published before.
    VersionAlreadyPublished,
    /// A declared dependency names no known package.
    UnknownDependency,
    /// The blob store did not accept the tarball.
    UploadFailed,
    /// The package index did not accept the registration.
    IndexingFailed,
    /// More bytes arrived than the configured maximum.
    PayloadTooLarge,
    /// A uniqueness constraint of the catalog would be broken.
    Conflict,
    /// The catalog cannot take the row (its identifiers are used up).
    Internal,
}

/// A failure: its class and a message for the person who caused it.
#[derive(Debug)]
pub struct Error {
    pub kind: ErrorKind,
    pub detail: String,
}

impl ErrorKind {
    /// The failure lies with a store or a service, not with the request.
    pub open spec fn internal(self) -> bool {
        self == ErrorKind::UploadFailed || self == ErrorKind::IndexingFailed || self
            == ErrorKind::Internal
    }

    /// The HTTP status that stands for the class.
    pub open spec fn status_code(self) -> u16 {
        match self {
            ErrorKind::InvalidRequest | ErrorKind::ValidationFailed => 400,
            ErrorKind::NotFound => 404,
            ErrorKind::OwnershipConflict => 403,
            ErrorKind::VersionAlreadyPublished | ErrorKind::Conflict => 409,
            ErrorKind::UnknownDependency => 422,
            ErrorKind::PayloadTooLarge => 413,
            ErrorKind::UploadFailed | ErrorKind::IndexingFailed | ErrorKind::Internal => 500,
        }
    }

    /// The HTTP status to answer a failure of this class with: one of the
    /// 400s where the request is at fault, 500 otherwise.
    pub fn status(self) -> (code: u16)
        ensures
            code == self.status_code(),
            self.internal() <==> code == 500,
            !self.internal() ==> 400 <= code < 500,
    {
        match self {
            ErrorKind::InvalidRequest | ErrorKind::ValidationFailed => 400,
            ErrorKind::NotFound => 404,
            ErrorKind::OwnershipConflict => 403,
            ErrorKind::VersionAlreadyPublished | ErrorKind::Conflict => 409,
            ErrorKind::UnknownDependency => 422,
            ErrorKind::PayloadTooLarge => 413,
            ErrorKind::UploadFailed | ErrorKind::IndexingFailed | ErrorKind::Internal => 500,
        }
    }
}

impl Error {
    /// What a client is told: the message where the request is at fault,
    /// and nothing of the stores otherwise.
    pub open spec fn shown(self) -> Seq<char> {
        if self.kind.internal() {
            "internal error"@
        } else {
            self.detail@
        }
    }

    /// The failure has the given class and message.
    pub open spec fn says(self, kind: ErrorKind, detail: Seq<char>) -> bool {
        self.kind == kind && self.detail@ == detail
    }

    pub fn new(kind: ErrorKind, detail: &str) -> (e: Error)
        ensures
            e.says(kind, detail@),
    {
        Error { kind, detail: String::from_str(detail) }
    }

    /// A failure whose message quotes `subject` between `before` and `after`.
    pub fn about(kind: ErrorKind, before: &str, subject: &str, after: &str) -> (e: Error)
        ensures
            e.says(kind, before@ + subject@ + after@),
    {
        let mut detail = String::from_str(before);
        detail.append(subject);
        detail.append(after);
        Error { kind, detail }
    }

    pub fn kind(&self) -> (k: ErrorKind)
        ensures
            k == self.kind,
    {
        self.kind
    }

    /// The message for the client; see [`Error::shown`].
    pub fn public_message(&self) -> (m: String)
        ensures
            m@ == self.shown(),
    {
        match self.kind {
            ErrorKind::UploadFailed | ErrorKind::IndexingFailed | ErrorKind::Internal => {
                String::from_str("internal error")
            },
            _ => self.detail.clone(),
        }
    }

    /// The message in full, for the service's own records.
    pub fn message(&self) -> (m: String)
        ensures
            m@ == self.detail@,
    {
        self.detail.clone()
    }
}

} // verus!
