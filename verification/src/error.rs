//! The errors the backend answers requests with, and how each is answered.
use vstd::prelude::*;

verus! {

/// An error of the backend.  Errors that come from a library or the system carry
/// that error's message; the ones the backend raises itself carry their own text.
#[derive(Debug, Clone)]
pub enum Error {
    /// A database query failed; `not_found` when the query found no row.
    SqlError { not_found: bool, message: String },
    PoolError(String),
    BuildError(String),
    RedisError(String),
    ConnectionError(String),
    JoinError(String),
    IoError(String),
    TomlError(String),
    JsonError(String),
    SystemTimeError(String),
    ToStrError(String),
    RandomError(String),
    /// The file storage failed; `not_found` when the file does not exist.
    BunnyError { not_found: bool, message: String },
    UrlParseError(String),
    JsonRejection(String),
    QueryRejection(String),
    MultipartError(String),
    InvalidHeaderValue(String),
    EmailError(String),
    SmtpError(String),
    SmtpAddressError(String),
    PasswordHashError(String),
    BadRequest(String),
    Unauthorized(String),
    Forbidden(String),
    TooManyRequests(String),
    InternalServerError(String),
    AxumError(String),
    MpscSendErrorStr(String),
    MpscSendError(String),
}

/// The HTTP status code an error is answered with.
pub open spec fn status_of(e: Error) -> u16 {
    match e {
        Error::SqlError { not_found, .. } => if not_found { 404 } else { 500 },
        Error::BunnyError { not_found, .. } => if not_found { 404 } else { 500 },
        Error::BadRequest(_) => 400,
        Error::Unauthorized(_) => 401,
        Error::Forbidden(_) => 403,
        Error::TooManyRequests(_) => 429,
        _ => 500,
    }
}

/// The text of an error.
pub open spec fn message_of(e: Error) -> Seq<char> {
    match e {
        Error::SqlError { message, .. } => message@,
        Error::PoolError(m) => m@,
        Error::BuildError(m) => m@,
        Error::RedisError(m) => m@,
        Error::ConnectionError(m) => m@,
        Error::JoinError(m) => m@,
        Error::IoError(m) => m@,
        Error::TomlError(m) => m@,
        Error::JsonError(m) => m@,
        Error::SystemTimeError(m) => m@,
        Error::ToStrError(m) => m@,
        Error::RandomError(m) => m@,
        Error::BunnyError { message, .. } => message@,
        Error::UrlParseError(m) => m@,
        Error::JsonRejection(m) => m@,
        Error::QueryRejection(m) => m@,
        Error::MultipartError(m) => m@,
        Error::InvalidHeaderValue(m) => m@,
        Error::EmailError(m) => m@,
        Error::SmtpError(m) => m@,
        Error::SmtpAddressError(m) => m@,
        Error::PasswordHashError(m) => m@,
        Error::BadRequest(m) => m@,
        Error::Unauthorized(m) => m@,
        Error::Forbidden(m) => m@,
        Error::TooManyRequests(m) => m@,
        Error::InternalServerError(m) => m@,
        Error::AxumError(m) => m@,
        Error::MpscSendErrorStr(m) => m@,
        Error::MpscSendError(m) => m@,
    }
}

impl Error {
    /// The text of the error.
    pub fn message(&self) -> (m: String)
        ensures
            m@ == message_of(*self),
    {
        match self {
            Error::SqlError { message, .. } => message.clone(),
            Error::PoolError(m) => m.clone(),
            Error::BuildError(m) => m.clone(),
            Error::RedisError(m) => m.clone(),
            Error::ConnectionError(m) => m.clone(),
            Error::JoinError(m) => m.clone(),
            Error::IoError(m) => m.clone(),
            Error::TomlError(m) => m.clone(),
            Error::JsonError(m) => m.clone(),
            Error::SystemTimeError(m) => m.clone(),
            Error::ToStrError(m) => m.clone(),
            Error::RandomError(m) => m.clone(),
            Error::BunnyError { message, .. } => message.clone(),
            Error::UrlParseError(m) => m.clone(),
            Error::JsonRejection(m) => m.clone(),
            Error::QueryRejection(m) => m.clone(),
            Error::MultipartError(m) => m.clone(),
            Error::InvalidHeaderValue(m) => m.clone(),
            Error::EmailError(m) => m.clone(),
            Error::SmtpError(m) => m.clone(),
            Error::SmtpAddressError(m) => m.clone(),
            Error::PasswordHashError(m) => m.clone(),
            Error::BadRequest(m) => m.clone(),
            Error::Unauthorized(m) => m.clone(),
            Error::Forbidden(m) => m.clone(),
            Error::TooManyRequests(m) => m.clone(),
            Error::InternalServerError(m) => m.clone(),
            Error::AxumError(m) => m.clone(),
            Error::MpscSendErrorStr(m) => m.clone(),
            Error::MpscSendError(m) => m.clone(),
        }
    }

    /// The HTTP status code the error is answered with: 404 for a missing row or
    /// file, 400, 401, 403 and 429 for the request errors, 500 for all others.
    pub fn status_code(&self) -> (code: u16)
        ensures
            code == status_of(*self),
    {
        match self {
            Error::SqlError { not_found, .. } => if *not_found { 404 } else { 500 },
            Error::BunnyError { not_found, .. } => if *not_found { 404 } else { 500 },
            Error::BadRequest(_) => 400,
            Error::Unauthorized(_) => 401,
            Error::Forbidden(_) => 403,
            Error::TooManyRequests(_) => 429,
            _ => 500,
        }
    }

    /// The answer to a request that failed with this error: the status code and a
    /// body that carries the error's text.
    pub fn into_response(self) -> (r: (u16, WebError))
        ensures
            r.0 == status_of(self),
            r.1.message@ == message_of(self),
    {
        let code = self.status_code();
        (code, WebError::new(self.message()))
    }
}

/// The body of an error answer.
#[derive(Debug, Clone)]
pub struct WebError {
    pub message: String,
}

impl WebError {
    pub fn new(message: String) -> (w: Self)
        ensures
            w.message == message,
    {
        Self { message }
    }
}

} // verus!
