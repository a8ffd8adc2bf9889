//! The error taxonomy the core surfaces, and its mapping onto the
//! filesystem-facing error kinds.

use vstd::prelude::*;

verus! {

/// Errors surfaced by the gateway core. Transport and I/O failures carry
/// only a message: the underlying sources live outside the library.
#[derive(Debug)]
pub enum GofileError {
    /// Transport failure after retries were exhausted, or an undecodable body.
    Http { message: String },
    /// Failure of the local byte stream or socket.
    Io { message: String },
    /// The remote answered with a non-success status string.
    Api { status: String },
    /// The website-token scrape did not find the token.
    ParseTokenFailed,
    /// The remote reported the content as password-protected.
    PasswordRequired,
    /// The supplied password was rejected.
    PasswordWrong,
    /// The content does not exist.
    NotFound,
    /// The operation is refused (read-only mount, non-empty removal, ...).
    Forbidden,
    /// An internal invariant was violated (a folder was expected, ...).
    Unexpected { message: String },
}

/// Ghost model of a core error.
pub enum ErrModel {
    Http(Seq<char>),
    Io(Seq<char>),
    Api(Seq<char>),
    ParseTokenFailed,
    PasswordRequired,
    PasswordWrong,
    NotFound,
    Forbidden,
    Unexpected(Seq<char>),
}

impl View for GofileError {
    type V = ErrModel;

    open spec fn view(&self) -> ErrModel {
        match *self {
            GofileError::Http { message } => ErrModel::Http(message@),
            GofileError::Io { message } => ErrModel::Io(message@),
            GofileError::Api { status } => ErrModel::Api(status@),
            GofileError::ParseTokenFailed => ErrModel::ParseTokenFailed,
            GofileError::PasswordRequired => ErrModel::PasswordRequired,
            GofileError::PasswordWrong => ErrModel::PasswordWrong,
            GofileError::NotFound => ErrModel::NotFound,
            GofileError::Forbidden => ErrModel::Forbidden,
            GofileError::Unexpected { message } => ErrModel::Unexpected(message@),
        }
    }
}

/// Error kinds of the WebDAV filesystem surface.
pub enum FsErrorKind {
    NotFound,
    Forbidden,
    GeneralFailure,
    Exists,
    NotImplemented,
    Io,
}

/// How a core error is reported through the WebDAV surface.
pub open spec fn fs_error_kind_spec(e: GofileError) -> FsErrorKind {
    match e {
        GofileError::Io { .. } => FsErrorKind::Io,
        GofileError::NotFound => FsErrorKind::NotFound,
        GofileError::Forbidden => FsErrorKind::Forbidden,
        GofileError::PasswordRequired => FsErrorKind::Forbidden,
        GofileError::PasswordWrong => FsErrorKind::Forbidden,
        _ => FsErrorKind::GeneralFailure,
    }
}

/// Maps a core error onto the WebDAV error kind, as §7 of the design: I/O
/// propagates, `NotFound` stays `NotFound`, all password trouble is
/// `Forbidden`, everything else is a general failure.
pub fn fs_error_kind(e: &GofileError) -> (r: FsErrorKind)
    ensures
        r == fs_error_kind_spec(*e),
{
    match e {
        GofileError::Io { .. } => FsErrorKind::Io,
        GofileError::NotFound => FsErrorKind::NotFound,
        GofileError::Forbidden => FsErrorKind::Forbidden,
        GofileError::PasswordRequired => FsErrorKind::Forbidden,
        GofileError::PasswordWrong => FsErrorKind::Forbidden,
        _ => FsErrorKind::GeneralFailure,
    }
}

} // verus!
