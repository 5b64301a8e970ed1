//! What can go wrong while packages are resolved, fetched and unpacked.

use vstd::prelude::*;
use vstd::string::*;

verus! {

/// The kinds of failure.
#[derive(Clone, Copy, Debug, PartialEq, Eq, Structural)]
pub enum ErrorKind {
    /// A request to the registry failed in transit.
    Network,
    /// A registry answer, a version or a constraint could not be read.
    Parse,
    /// No published version satisfies a constraint.
    Resolution,
    /// A file or directory could not be created, read, written or removed.
    Filesystem,
    /// An archive is missing, corrupt or cannot be unpacked.
    Archive,
}

/// A failure: its kind, and the package, text or path that it concerns.
#[derive(Clone, Debug, PartialEq, Eq)]
pub struct Error {
    pub kind: ErrorKind,
    pub detail: String,
}

impl View for Error {
    type V = (ErrorKind, Seq<char>);

    open spec fn view(&self) -> (ErrorKind, Seq<char>) {
        (self.kind, self.detail@)
    }
}

/// The words that name a kind of failure.
pub open spec fn label(kind: ErrorKind) -> Seq<char> {
    match kind {
        ErrorKind::Network => "network error"@,
        ErrorKind::Parse => "parse error"@,
        ErrorKind::Resolution => "resolution error"@,
        ErrorKind::Filesystem => "filesystem error"@,
        ErrorKind::Archive => "archive error"@,
    }
}

impl Error {
    pub fn new(kind: ErrorKind, detail: &str) -> (e: Error)
        ensures
            e@ == (kind, detail@),
    {
        Error { kind, detail: detail.to_owned() }
    }

    pub fn network(detail: &str) -> (e: Error)
        ensures
            e@ == (ErrorKind::Network, detail@),
    {
        Error::new(ErrorKind::Network, detail)
    }

    pub fn parse(detail: &str) -> (e: Error)
        ensures
            e@ == (ErrorKind::Parse, detail@),
    {
        Error::new(ErrorKind::Parse, detail)
    }

    /// The failure to resolve the package named `package`.
    pub fn resolution(package: &str) -> (e: Error)
        ensures
            e@ == (ErrorKind::Resolution, package@),
    {
        Error::new(ErrorKind::Resolution, package)
    }

    pub fn filesystem(detail: &str) -> (e: Error)
        ensures
            e@ == (ErrorKind::Filesystem, detail@),
    {
        Error::new(ErrorKind::Filesystem, detail)
    }

    pub fn archive(detail: &str) -> (e: Error)
        ensures
            e@ == (ErrorKind::Archive, detail@),
    {
        Error::new(ErrorKind::Archive, detail)
    }

    /// The failure in words: the kind, a colon, and what it concerns.
    pub fn message(&self) -> (words: String)
        ensures
            words@ == label(self.kind) + ": "@ + self.detail@,
    {
        let mut words = match self.kind {
            ErrorKind::Network => String::from_str("network error"),
            ErrorKind::Parse => String::from_str("parse error"),
            ErrorKind::Resolution => String::from_str("resolution error"),
            ErrorKind::Filesystem => String::from_str("filesystem error"),
            ErrorKind::Archive => String::from_str("archive error"),
        };
        words.append(": ");
        words.append(self.detail.as_str());
        words
    }
}

} // verus!
