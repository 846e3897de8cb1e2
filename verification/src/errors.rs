//! The error taxonomy of the registry core.

use crate::scope::Scope;
use crate::version::Version;
use vstd::prelude::*;

verus! {

/// Failures of index reads and writes.
#[derive(Debug, Clone, Copy, PartialEq, Eq, Structural)]
pub enum IndexError {
    /// No record collection exists for the package name.
    PackageNotFound,
    /// The package exists, but has no record for the requested version.
    VersionNotFound,
    /// A record with the same `(name, version)` pair already exists.
    DuplicateVersion,
    /// No record satisfies the query.
    NotFound,
}

/// Failures of the commit-and-publish cycle of a version-controlled
/// index backend.
#[derive(Debug, Clone, Copy, PartialEq, Eq, Structural)]
pub enum VcsError {
    /// The local commit could not be created.
    CommitFailed,
    /// The remote rejected the push; the local commits are kept for a
    /// later retry and must not be assumed visible to other readers of
    /// the remote.
    PushRejected,
}

/// Errors surfaced to API callers.
#[derive(Debug)]
pub enum ApiError2 {
    /// The token does not grant the required scope.
    MissingTokenScope(Scope),
    /// The caller is not an owner of the package.
    CrateNotOwned,
    /// A compatible-or-newer version already exists, so the provided
    /// version is not accepted.
    VersionTooLow { available: Version, provided: Version },
    /// This exact version is already published.
    VersionAlreadyExists(Version),
    /// The length-prefix framing of the publish payload is malformed.
    MalformedPayload,
    /// The metadata of the publish payload could not be decoded.
    InvalidMetadata,
    /// A version or requirement text does not follow the grammar.
    VersionSyntax,
    /// A removal would leave the crate without any owner.
    CannotRemoveOnlyOwner,
    /// An index operation failed.
    Index(IndexError),
}

/// A user-visible failure as reported over the API: a structured
/// object carrying a human-readable detail string.
#[derive(Debug)]
pub struct ApiError {
    pub detail: String,
}

impl ApiError2 {
    /// The user-visible form of this error.
    pub fn to_api(&self) -> (r: ApiError)
        ensures
            r.detail@ == match self {
                ApiError2::MissingTokenScope(_) => "the api token does not contain the required scope"@,
                ApiError2::CrateNotOwned => "you are not an owner of this crate"@,
                ApiError2::VersionTooLow { .. } => "a compatible or newer version of this crate already exists"@,
                ApiError2::VersionAlreadyExists(_) => "this version already exists"@,
                ApiError2::MalformedPayload => "the publish payload is malformed"@,
                ApiError2::InvalidMetadata => "the crate metadata could not be decoded"@,
                ApiError2::VersionSyntax => "the version or requirement text is not valid"@,
                ApiError2::CannotRemoveOnlyOwner => "cannot remove the only owner"@,
                ApiError2::Index(_) => "an internal index error occurred"@,
            },
    {
        let msg: &str = match self {
            ApiError2::MissingTokenScope(_) => "the api token does not contain the required scope",
            ApiError2::CrateNotOwned => "you are not an owner of this crate",
            ApiError2::VersionTooLow { .. } => "a compatible or newer version of this crate already exists",
            ApiError2::VersionAlreadyExists(_) => "this version already exists",
            ApiError2::MalformedPayload => "the publish payload is malformed",
            ApiError2::InvalidMetadata => "the crate metadata could not be decoded",
            ApiError2::VersionSyntax => "the version or requirement text is not valid",
            ApiError2::CannotRemoveOnlyOwner => "cannot remove the only owner",
            ApiError2::Index(_) => "an internal index error occurred",
        };
        ApiError { detail: msg.to_owned() }
    }
}

} // verus!
