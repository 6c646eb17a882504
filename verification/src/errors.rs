//! The error type that the HTTP layer answers with, and how each error is
//! reported: its status code, its machine-readable code and its message.

use vstd::prelude::*;
use crate::text::append_str;

verus! {

/// Application-wide error type.
#[derive(Debug)]
pub enum AppError {
    /// Resource not found (room, game, player).
    NotFound(String),
    /// Malformed or invalid request data.
    BadRequest(String),
    /// Attempted to create something that already exists.
    AlreadyExists(String),
    /// Missing or invalid auth token / join code.
    Unauthorized(String),
    /// Unexpected internal failure.
    Internal(String),
    /// Failed to fetch data from Wikimedia APIs.
    WikimediaFetch(String),
}

impl AppError {
    /// The detail message the error carries.
    pub open spec fn detail(&self) -> Seq<char> {
        match self {
            AppError::NotFound(m) => m@,
            AppError::BadRequest(m) => m@,
            AppError::AlreadyExists(m) => m@,
            AppError::Unauthorized(m) => m@,
            AppError::Internal(m) => m@,
            AppError::WikimediaFetch(m) => m@,
        }
    }

    /// The HTTP status of each kind of error.
    pub open spec fn status_spec(&self) -> u16 {
        match self {
            AppError::NotFound(_) => 404,
            AppError::BadRequest(_) => 400,
            AppError::AlreadyExists(_) => 409,
            AppError::Unauthorized(_) => 401,
            AppError::Internal(_) => 500,
            AppError::WikimediaFetch(_) => 502,
        }
    }

    /// The machine-readable code of each kind of error.
    pub open spec fn code_spec(&self) -> Seq<char> {
        match self {
            AppError::NotFound(_) => "not_found"@,
            AppError::BadRequest(_) => "bad_request"@,
            AppError::AlreadyExists(_) => "already_exists"@,
            AppError::Unauthorized(_) => "unauthorized"@,
            AppError::Internal(_) => "internal_error"@,
            AppError::WikimediaFetch(_) => "wikimedia_fetch_error"@,
        }
    }

    /// The human-readable prefix of each kind of error.
    pub open spec fn prefix_spec(&self) -> Seq<char> {
        match self {
            AppError::NotFound(_) => "Not found: "@,
            AppError::BadRequest(_) => "Bad request: "@,
            AppError::AlreadyExists(_) => "Already exists: "@,
            AppError::Unauthorized(_) => "Unauthorized: "@,
            AppError::Internal(_) => "Internal error: "@,
            AppError::WikimediaFetch(_) => "Wikimedia fetch error: "@,
        }
    }

    /// The HTTP status code the error is answered with.
    pub fn status_code(&self) -> (s: u16)
        ensures
            s == self.status_spec(),
    {
        match self {
            AppError::NotFound(_) => 404,
            AppError::BadRequest(_) => 400,
            AppError::AlreadyExists(_) => 409,
            AppError::Unauthorized(_) => 401,
            AppError::Internal(_) => 500,
            AppError::WikimediaFetch(_) => 502,
        }
    }

    /// The machine-readable code of the error body.
    pub fn code(&self) -> (c: &'static str)
        ensures
            c@ == self.code_spec(),
    {
        match self {
            AppError::NotFound(_) => "not_found",
            AppError::BadRequest(_) => "bad_request",
            AppError::AlreadyExists(_) => "already_exists",
            AppError::Unauthorized(_) => "unauthorized",
            AppError::Internal(_) => "internal_error",
            AppError::WikimediaFetch(_) => "wikimedia_fetch_error",
        }
    }

    /// The message of the error body: the detail the error carries.
    pub fn message(&self) -> (m: String)
        ensures
            m@ == self.detail(),
    {
        match self {
            AppError::NotFound(m) => m.clone(),
            AppError::BadRequest(m) => m.clone(),
            AppError::AlreadyExists(m) => m.clone(),
            AppError::Unauthorized(m) => m.clone(),
            AppError::Internal(m) => m.clone(),
            AppError::WikimediaFetch(m) => m.clone(),
        }
    }

    /// The error as text: its kind's prefix, then its detail
    /// (for instance `Not found: room`).
    pub fn to_display_string(&self) -> (s: String)
        ensures
            s@ == self.prefix_spec() + self.detail(),
    {
        let (prefix, detail) = match self {
            AppError::NotFound(m) => ("Not found: ", m),
            AppError::BadRequest(m) => ("Bad request: ", m),
            AppError::AlreadyExists(m) => ("Already exists: ", m),
            AppError::Unauthorized(m) => ("Unauthorized: ", m),
            AppError::Internal(m) => ("Internal error: ", m),
            AppError::WikimediaFetch(m) => ("Wikimedia fetch error: ", m),
        };
        let mut s = String::new();
        append_str(&mut s, prefix);
        append_str(&mut s, detail.as_str());
        proof {
            assert(s@ =~= self.prefix_spec() + self.detail());
        }
        s
    }
}

} // verus!
