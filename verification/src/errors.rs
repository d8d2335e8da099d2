//! Error taxonomy: the closed set of failure kinds and their mapping to
//! wire-level status codes and client-visible messages.
//!
//! Internal causes (driver messages, framework messages) are carried as
//! opaque strings for logging by the caller and are never part of the
//! client-visible message of a server-side failure.

use vstd::prelude::*;

verus! {

/// A failure of the course service, as seen by a request handler.
///
/// - `DBError` carries the persistence layer's own message; the client
///   only ever sees the fixed text "Database error".
/// - `ActixError` carries a framework message; the client only ever
///   sees the fixed text "Internal server error".
/// - `NotFount` carries a caller-supplied description of the missing
///   resource, which is safe to echo to the client.
#[derive(Debug)]
pub enum EzyTutorError {
    DBError(String),
    ActixError(String),
    NotFount(String),
}

impl EzyTutorError {
    /// The HTTP status code this failure kind maps to.
    pub open spec fn spec_status_code(&self) -> u16 {
        match self {
            EzyTutorError::DBError(_) => 500,
            EzyTutorError::ActixError(_) => 500,
            EzyTutorError::NotFount(_) => 404,
        }
    }

    /// The client-visible message: a fixed generic string for
    /// server-side failures, the carried description for `NotFount`.
    pub open spec fn spec_error_response(&self) -> Seq<char> {
        match self {
            EzyTutorError::DBError(_) => "Database error"@,
            EzyTutorError::ActixError(_) => "Internal server error"@,
            EzyTutorError::NotFount(msg) => msg@,
        }
    }

    /// The internal cause, kept only for logging.
    pub open spec fn spec_internal_message(&self) -> Seq<char> {
        match self {
            EzyTutorError::DBError(msg) => msg@,
            EzyTutorError::ActixError(msg) => msg@,
            EzyTutorError::NotFount(msg) => msg@,
        }
    }

    pub fn status_code(&self) -> (code: u16)
        ensures
            code == self.spec_status_code(),
    {
        match self {
            EzyTutorError::DBError(_) => 500,
            EzyTutorError::ActixError(_) => 500,
            EzyTutorError::NotFount(_) => 404,
        }
    }

    /// The client-visible message for this failure.
    pub fn error_response(&self) -> (message: String)
        ensures
            message@ == self.spec_error_response(),
    {
        match self {
            EzyTutorError::DBError(_) => "Database error".to_owned(),
            EzyTutorError::ActixError(_) => "Internal server error".to_owned(),
            EzyTutorError::NotFount(msg) => msg.clone(),
        }
    }

    /// The serializable body of the error reply.
    pub fn error_body(&self) -> (body: MyErrorResponse)
        ensures
            body@ == self.spec_error_response(),
    {
        MyErrorResponse { error_message: self.error_response() }
    }
}

/// The body serialized for a failed request: a single message field.
#[derive(Debug)]
pub struct MyErrorResponse {
    error_message: String,
}

impl View for MyErrorResponse {
    type V = Seq<char>;

    closed spec fn view(&self) -> Seq<char> {
        self.error_message@
    }
}

impl MyErrorResponse {
    pub fn message(&self) -> (message: &String)
        ensures
            message@ == self@,
    {
        &self.error_message
    }
}

/// The body serialized for a failed validation: a top-level message
/// and the flattened, ordered per-field detail strings.
#[derive(Debug)]
pub struct CustomErrorResponse {
    pub custom_message: String,
    pub errors: Vec<String>,
}

impl CustomErrorResponse {
    /// The detail strings as mathematical values.
    pub open spec fn spec_details(&self) -> Seq<Seq<char>> {
        self.errors.deep_view()
    }

    /// A failed validation always maps to a client error status.
    pub fn status_code(&self) -> (code: u16)
        ensures
            code == 400,
    {
        400
    }
}

/// A failure of the squaring demo: the input did not parse, or the
/// write of the result failed.
#[derive(Debug)]
pub enum MyError {
    ParseError,
    IOError,
}

impl MyError {
    /// The message shown for this failure.
    pub open spec fn spec_message(&self) -> Seq<char> {
        match self {
            MyError::ParseError => "Parse Error"@,
            MyError::IOError => "IO Error"@,
        }
    }

    pub fn message(&self) -> (message: String)
        ensures
            message@ == self.spec_message(),
    {
        match self {
            MyError::ParseError => "Parse Error".to_owned(),
            MyError::IOError => "IO Error".to_owned(),
        }
    }
}

} // verus!
