//! The single error type returned by every fallible operation.

use vstd::prelude::*;
use crate::models::Quota;
use crate::text::{decimal, decimal_string};

verus! {

/// The error returned by every client operation.
///
/// - [`Error::Auth`]: status 401.
/// - [`Error::Subscription`]: status 402.
/// - [`Error::Validation`]: status 422, also produced client-side (status 0)
///   for a blank API key or a batch of more than 10 names.
/// - [`Error::RateLimit`]: status 429; the quota is always present.
/// - [`Error::Api`]: any other non-2xx status.
/// - [`Error::Transport`]: network failure, timeout, or a body that is not the
///   expected JSON; status and quota may be absent.
#[derive(Debug, Clone, PartialEq)]
#[non_exhaustive]
pub enum Error {
    /// Invalid or missing API key (401).
    Auth {
        /// HTTP status code.
        status: u16,
        /// The `error` string from the response body.
        message: String,
        /// Quota parsed from the response headers, when present.
        quota: Option<Quota>,
    },
    /// Subscription problem, such as an expired freebie (402).
    Subscription {
        /// HTTP status code.
        status: u16,
        /// The `error` string from the response body.
        message: String,
        /// Quota parsed from the response headers, when present.
        quota: Option<Quota>,
    },
    /// Invalid request parameters (422), or a request rejected client-side
    /// before any HTTP call.
    Validation {
        /// HTTP status code. Zero for a client-side rejection.
        status: u16,
        /// The `error` string from the response body, or a client-side message.
        message: String,
        /// Quota parsed from the response headers, when present.
        quota: Option<Quota>,
    },
    /// Rate limit reached (429). The quota is always populated.
    RateLimit {
        /// HTTP status code.
        status: u16,
        /// The `error` string from the response body.
        message: String,
        /// Quota parsed from the response headers.
        quota: Quota,
    },
    /// Any other non-2xx status.
    Api {
        /// HTTP status code.
        status: u16,
        /// The `error` string from the response body.
        message: String,
        /// Quota parsed from the response headers, when present.
        quota: Option<Quota>,
    },
    /// Network failure, timeout, or an unexpected body.
    Transport {
        /// The underlying failure description.
        message: String,
        /// HTTP status code, when one was received.
        status: Option<u16>,
        /// Quota parsed from the response headers, when present.
        quota: Option<Quota>,
    },
}

/// The mathematical value of an [`Error`]: the same variants, with each
/// message taken as its sequence of characters.
pub enum ErrorView {
    Auth { status: u16, message: Seq<char>, quota: Option<Quota> },
    Subscription { status: u16, message: Seq<char>, quota: Option<Quota> },
    Validation { status: u16, message: Seq<char>, quota: Option<Quota> },
    RateLimit { status: u16, message: Seq<char>, quota: Quota },
    Api { status: u16, message: Seq<char>, quota: Option<Quota> },
    Transport { message: Seq<char>, status: Option<u16>, quota: Option<Quota> },
}

impl View for Error {
    type V = ErrorView;

    open spec fn view(&self) -> ErrorView {
        match self {
            Error::Auth { status, message, quota } =>
                ErrorView::Auth { status: *status, message: message@, quota: *quota },
            Error::Subscription { status, message, quota } =>
                ErrorView::Subscription { status: *status, message: message@, quota: *quota },
            Error::Validation { status, message, quota } =>
                ErrorView::Validation { status: *status, message: message@, quota: *quota },
            Error::RateLimit { status, message, quota } =>
                ErrorView::RateLimit { status: *status, message: message@, quota: *quota },
            Error::Api { status, message, quota } =>
                ErrorView::Api { status: *status, message: message@, quota: *quota },
            Error::Transport { message, status, quota } =>
                ErrorView::Transport { message: message@, status: *status, quota: *quota },
        }
    }
}

impl ErrorView {
    /// The HTTP status an error reports: none for a zero status (the
    /// client-side rejections) and none for a transport failure without one.
    pub open spec fn status(self) -> Option<u16> {
        match self {
            ErrorView::Auth { status, .. }
            | ErrorView::Subscription { status, .. }
            | ErrorView::Validation { status, .. }
            | ErrorView::Api { status, .. } => if status == 0 { None } else { Some(status) },
            ErrorView::RateLimit { status, .. } => Some(status),
            ErrorView::Transport { status, .. } => status,
        }
    }

    /// The message an error carries.
    pub open spec fn message(self) -> Seq<char> {
        match self {
            ErrorView::Auth { message, .. }
            | ErrorView::Subscription { message, .. }
            | ErrorView::Validation { message, .. }
            | ErrorView::RateLimit { message, .. }
            | ErrorView::Api { message, .. }
            | ErrorView::Transport { message, .. } => message,
        }
    }

    /// The quota an error carries.
    pub open spec fn quota(self) -> Option<Quota> {
        match self {
            ErrorView::Auth { quota, .. }
            | ErrorView::Subscription { quota, .. }
            | ErrorView::Validation { quota, .. }
            | ErrorView::Api { quota, .. }
            | ErrorView::Transport { quota, .. } => quota,
            ErrorView::RateLimit { quota, .. } => Some(quota),
        }
    }
}

/// The typed error for an HTTP status, a server message and an optional quota:
/// 401, 402, 422 and 429 have variants of their own, any other status is
/// [`ErrorView::Api`]. A 429 without quota is a transport anomaly.
pub open spec fn error_for_status(status: u16, message: Seq<char>, quota: Option<Quota>) -> ErrorView {
    if status == 401 {
        ErrorView::Auth { status, message, quota }
    } else if status == 402 {
        ErrorView::Subscription { status, message, quota }
    } else if status == 422 {
        ErrorView::Validation { status, message, quota }
    } else if status == 429 {
        match quota {
            Some(q) => ErrorView::RateLimit { status, message, quota: q },
            None => ErrorView::Transport { message, status: Some(status), quota: None },
        }
    } else {
        ErrorView::Api { status, message, quota }
    }
}

/// How an error reads: its message, followed by ` (status N)` when it has
/// a status.
pub open spec fn display_text(e: ErrorView) -> Seq<char> {
    match e.status() {
        Some(status) => e.message() + " (status "@ + decimal(status as nat) + ")"@,
        None => e.message(),
    }
}

impl Error {
    /// The text of this error for display: the message, then ` (status N)`
    /// when a status is associated with it.
    pub fn display_text(&self) -> (r: String)
        ensures
            r@ == display_text(self@),
    {
        let mut text = String::from_str(self.message());
        match self.status() {
            Some(status) => {
                text.append(" (status ");
                let code = decimal_string(status as u64);
                text.append(code.as_str());
                text.append(")");
            },
            None => {},
        }
        text
    }

    /// The HTTP status code, when one is associated with this error.
    ///
    /// `None` for transport failures without a response and for the
    /// client-side rejections, which carry status 0.
    pub fn status(&self) -> (r: Option<u16>)
        ensures
            r == self@.status(),
    {
        match self {
            Error::Auth { status, .. }
            | Error::Subscription { status, .. }
            | Error::Validation { status, .. }
            | Error::Api { status, .. } => {
                if *status == 0 {
                    None
                } else {
                    Some(*status)
                }
            },
            Error::RateLimit { status, .. } => Some(*status),
            Error::Transport { status, .. } => *status,
        }
    }

    /// The server message, or the client-side message.
    pub fn message(&self) -> (r: &str)
        ensures
            r@ == self@.message(),
    {
        match self {
            Error::Auth { message, .. }
            | Error::Subscription { message, .. }
            | Error::Validation { message, .. }
            | Error::RateLimit { message, .. }
            | Error::Api { message, .. }
            | Error::Transport { message, .. } => message.as_str(),
        }
    }

    /// The quota carried by this error, when the rate-limit headers were
    /// present. Always present on [`Error::RateLimit`].
    pub fn quota(&self) -> (r: Option<&Quota>)
        ensures
            match r {
                Some(q) => self@.quota() == Some(*q),
                None => self@.quota() is None,
            },
    {
        match self {
            Error::Auth { quota, .. }
            | Error::Subscription { quota, .. }
            | Error::Validation { quota, .. }
            | Error::Api { quota, .. }
            | Error::Transport { quota, .. } => quota.as_ref(),
            Error::RateLimit { quota, .. } => Some(quota),
        }
    }

    /// Map an HTTP status, a server message and an optional quota to the typed
    /// error for that status.
    pub fn from_status(status: u16, message: String, quota: Option<Quota>) -> (r: Error)
        ensures
            r@ == error_for_status(status, message@, quota),
    {
        match status {
            401 => Error::Auth { status, message, quota },
            402 => Error::Subscription { status, message, quota },
            422 => Error::Validation { status, message, quota },
            429 => match quota {
                Some(quota) => Error::RateLimit { status, message, quota },
                None => Error::Transport { message, status: Some(status), quota: None },
            },
            _ => Error::Api { status, message, quota },
        }
    }
}

/// Law: the error built for a status reports that status (none for status
/// 0), carries the message unchanged, and carries the quota it was given.
pub proof fn lemma_status_error_keeps_its_parts(status: u16, message: Seq<char>, quota: Option<Quota>)
    ensures
        error_for_status(status, message, quota).status() == (if status == 0 {
            None
        } else {
            Some(status)
        }),
        error_for_status(status, message, quota).message() == message,
        error_for_status(status, message, quota).quota() == quota,
{
}

} // verus!
