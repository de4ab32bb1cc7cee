//! Authorization and workflow core of a campus digital-signage backend:
//! permission tags, account verification and sessions, the post review
//! workflow, the resource claiming lifecycle and day-of-year range queries.

use vstd::prelude::*;

pub mod account;
pub mod auth;
pub mod config;
pub mod date;
pub mod digest;
pub mod notification;
pub mod post;
pub mod query;
pub mod resource;
pub mod tags;
pub mod text;
pub mod verify;
pub mod workflow;

verus! {

/// Identifier of an account, a post, a resource or a notification.
#[derive(Clone, Copy, PartialEq, Eq, Structural, Hash, Debug)]
pub struct Id(pub u64);

impl Id {
    /// The raw value of this id.
    pub fn get(self) -> (r: u64)
        ensures
            r == self.0,
    {
        self.0
    }
}

/// Which verification session an error refers to.
#[derive(Clone, Copy, PartialEq, Eq, Structural, Hash, Debug)]
pub enum VerifyVariant {
    /// Reset password, if the user forgot it.
    ResetPassword,
}

/// Errors of the service.
///
/// Durations are carried as whole seconds.
#[derive(Clone, Copy, PartialEq, Eq, Structural, Debug)]
#[non_exhaustive]
pub enum Error {
    InvalidToken,
    VerifySessionNotFound(VerifyVariant),
    PermissionDenied,
    UnverifiedAccountNotFound,
    UsernameOrPasswordIncorrect,
    AccountNotFound,
    TargetAccountNotFound,
    CaptchaIncorrect,
    /// Seconds left before another request is accepted.
    ReqTooFrequent(i64),
    EmailAddress,
    Lettre,
    Smtp,
    ResourceUploadSessionNotFound(u64),
    NotLoggedIn,
    HeaderNonAscii,
    InvalidAuthHeader,
    PostResourceEmpty,
    PostNotFound(u64),
    /// The given span of the range in seconds, `i64::MAX` where the
    /// range ends before it starts.
    PostTimeRangeOutOfBound(i64),
    PostTimeEnded,
    InvalidPostStatus,
    ResourceUsed(u64),
    ResourceSaveFailed,
    ResourceNotFound(u64),
    PayloadTooLarge { max: usize },
    NotificationNotFound(u64),
    Database,
    Unknown,
}

/// The HTTP status code that answers an error.
pub open spec fn status_of(e: Error) -> u16 {
    match e {
        Error::VerifySessionNotFound(_)
        | Error::ResourceUploadSessionNotFound(_)
        | Error::AccountNotFound
        | Error::TargetAccountNotFound
        | Error::UnverifiedAccountNotFound
        | Error::ResourceNotFound(_)
        | Error::PostNotFound(_)
        | Error::NotificationNotFound(_) => 404,
        Error::ReqTooFrequent(_) => 429,
        Error::EmailAddress
        | Error::HeaderNonAscii
        | Error::InvalidAuthHeader
        | Error::PostResourceEmpty
        | Error::PostTimeRangeOutOfBound(_)
        | Error::PostTimeEnded
        | Error::InvalidPostStatus => 400,
        Error::PayloadTooLarge { .. } => 413,
        Error::NotLoggedIn | Error::InvalidToken | Error::UsernameOrPasswordIncorrect => 401,
        Error::ResourceUsed(_) => 409,
        Error::Lettre
        | Error::Smtp
        | Error::Database
        | Error::Unknown
        | Error::ResourceSaveFailed => 500,
        Error::PermissionDenied | Error::CaptchaIncorrect => 403,
    }
}

impl Error {
    /// The HTTP status code of this error.
    pub fn to_status_code(&self) -> (r: u16)
        ensures
            r == status_of(*self),
    {
        match self {
            Error::VerifySessionNotFound(_)
            | Error::ResourceUploadSessionNotFound(_)
            | Error::AccountNotFound
            | Error::TargetAccountNotFound
            | Error::UnverifiedAccountNotFound
            | Error::ResourceNotFound(_)
            | Error::PostNotFound(_)
            | Error::NotificationNotFound(_) => 404,
            Error::ReqTooFrequent(_) => 429,
            Error::EmailAddress
            | Error::HeaderNonAscii
            | Error::InvalidAuthHeader
            | Error::PostResourceEmpty
            | Error::PostTimeRangeOutOfBound(_)
            | Error::PostTimeEnded
            | Error::InvalidPostStatus => 400,
            Error::PayloadTooLarge { .. } => 413,
            Error::NotLoggedIn | Error::InvalidToken | Error::UsernameOrPasswordIncorrect => 401,
            Error::ResourceUsed(_) => 409,
            Error::Lettre
            | Error::Smtp
            | Error::Database
            | Error::Unknown
            | Error::ResourceSaveFailed => 500,
            Error::PermissionDenied | Error::CaptchaIncorrect => 403,
        }
    }
}

} // verus!
