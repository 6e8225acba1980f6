//! The error taxonomy of the pipeline.
//!
//! Card-level extraction failures are recovered by omission and never reach a
//! caller; the variants here describe run-level failures: malformed input,
//! structural scraping failures (no cards at all), and collaborator errors
//! reported by the browser or the store.

use vstd::prelude::*;

verus! {

/// A run-level failure, carrying a human-readable description.
#[derive(Debug)]
pub enum Error {
    Database(String),
    Api(String),
    NotFound(String),
    BadRequest(String),
    Unauthorized(String),
    Forbidden(String),
    Conflict(String),
    InternalServerError(String),
    Scraper(String),
    WebDriver(String),
}

/// The HTTP status code each variant maps to.
pub open spec fn status_code_spec(e: Error) -> u16 {
    match e {
        Error::Database(_) => 500,
        Error::Api(_) => 500,
        Error::NotFound(_) => 404,
        Error::BadRequest(_) => 400,
        Error::Unauthorized(_) => 401,
        Error::Forbidden(_) => 403,
        Error::Conflict(_) => 409,
        Error::InternalServerError(_) => 500,
        Error::Scraper(_) => 500,
        Error::WebDriver(_) => 500,
    }
}

/// The description carried by an error.
pub open spec fn message_spec(e: Error) -> Seq<char> {
    match e {
        Error::Database(m) => m@,
        Error::Api(m) => m@,
        Error::NotFound(m) => m@,
        Error::BadRequest(m) => m@,
        Error::Unauthorized(m) => m@,
        Error::Forbidden(m) => m@,
        Error::Conflict(m) => m@,
        Error::InternalServerError(m) => m@,
        Error::Scraper(m) => m@,
        Error::WebDriver(m) => m@,
    }
}

impl Error {
    /// The HTTP status code this error is reported under.
    pub fn status_code(&self) -> (r: u16)
        ensures
            r == status_code_spec(*self),
    {
        match self {
            Error::Database(_) => 500,
            Error::Api(_) => 500,
            Error::NotFound(_) => 404,
            Error::BadRequest(_) => 400,
            Error::Unauthorized(_) => 401,
            Error::Forbidden(_) => 403,
            Error::Conflict(_) => 409,
            Error::InternalServerError(_) => 500,
            Error::Scraper(_) => 500,
            Error::WebDriver(_) => 500,
        }
    }

    /// The status code and message a client sees for this error.
    pub fn response_parts(&self) -> (r: (u16, String))
        ensures
            r.0 == status_code_spec(*self),
            r.1@ == message_spec(*self),
    {
        let code = self.status_code();
        let message = match self {
            Error::Database(m) => m.clone(),
            Error::Api(m) => m.clone(),
            Error::NotFound(m) => m.clone(),
            Error::BadRequest(m) => m.clone(),
            Error::Unauthorized(m) => m.clone(),
            Error::Forbidden(m) => m.clone(),
            Error::Conflict(m) => m.clone(),
            Error::InternalServerError(m) => m.clone(),
            Error::Scraper(m) => m.clone(),
            Error::WebDriver(m) => m.clone(),
        };
        (code, message)
    }
}

} // verus!
