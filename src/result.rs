//! The errors that catalog operations report.
use vstd::prelude::*;

verus! {

/// The kind of a failure.
#[derive(Clone, Copy, Debug, PartialEq, Eq, Structural)]
pub enum ErrorType {
    BadRequest,
    NotFound,
    ServiceUnavailable,
    AlreadyExists,
    Unprocessable,
    InternalError,
}

/// Where a failure arose.
#[derive(Clone, Copy, Debug, PartialEq, Eq, Structural)]
pub enum Location {
    DB,
    Namespace,
    Request,
    Table,
}

/// A failure: its kind, where it arose and a message for people.
#[derive(Debug)]
pub struct Error {
    pub error_type: ErrorType,
    pub location: Location,
    pub message: String,
}

/// The empty answer of an operation that succeeded.
#[derive(Debug)]
pub struct Empty {}

/// The result of a catalog operation.
pub type CatalogResult<T> = std::result::Result<T, Error>;

/// The HTTP status that stands for each kind of failure.
pub open spec fn status_of(t: ErrorType) -> u16 {
    match t {
        ErrorType::BadRequest => 400,
        ErrorType::NotFound => 404,
        ErrorType::ServiceUnavailable => 503,
        ErrorType::AlreadyExists => 409,
        ErrorType::Unprocessable => 422,
        ErrorType::InternalError => 500,
    }
}

/// The name under which a location is shown.
pub open spec fn location_name(l: Location) -> Seq<char> {
    match l {
        Location::Namespace => "namespace"@,
        Location::Table => "table"@,
        Location::DB => "DB"@,
        Location::Request => "request"@,
    }
}

/// The words that introduce the message of each kind of failure.
pub open spec fn kind_label(t: ErrorType) -> Seq<char> {
    match t {
        ErrorType::BadRequest => "Bad Request: "@,
        ErrorType::NotFound => "Not Found: "@,
        ErrorType::ServiceUnavailable => "Unavailable: "@,
        ErrorType::AlreadyExists => "Already Exists: "@,
        ErrorType::Unprocessable => "Unprocessable: "@,
        ErrorType::InternalError => "Internal Error: "@,
    }
}

impl ErrorType {
    /// The HTTP status code of this kind of failure.
    pub fn to_status(&self) -> (r: u16)
        ensures
            r == status_of(*self),
    {
        match self {
            ErrorType::BadRequest => 400,
            ErrorType::NotFound => 404,
            ErrorType::ServiceUnavailable => 503,
            ErrorType::AlreadyExists => 409,
            ErrorType::Unprocessable => 422,
            ErrorType::InternalError => 500,
        }
    }

    fn label(&self) -> (r: &'static str)
        ensures
            r@ == kind_label(*self),
    {
        match self {
            ErrorType::BadRequest => "Bad Request: ",
            ErrorType::NotFound => "Not Found: ",
            ErrorType::ServiceUnavailable => "Unavailable: ",
            ErrorType::AlreadyExists => "Already Exists: ",
            ErrorType::Unprocessable => "Unprocessable: ",
            ErrorType::InternalError => "Internal Error: ",
        }
    }
}

impl Location {
    /// The name under which this location is shown.
    pub fn as_str(&self) -> (r: &'static str)
        ensures
            r@ == location_name(*self),
    {
        match self {
            Location::Namespace => "namespace",
            Location::Table => "table",
            Location::DB => "DB",
            Location::Request => "request",
        }
    }
}

impl Error {
    /// A failure of the given kind, place and message.
    pub fn of(error_type: ErrorType, location: Location, message: String) -> (r: Error)
        ensures
            r.error_type == error_type,
            r.location == location,
            r.message == message,
    {
        Error { error_type, location, message }
    }

    /// The failure written out for people: `[location] Kind: message`.
    pub fn describe(&self) -> (r: String)
        ensures
            r@ == "["@ + location_name(self.location) + "] "@ + kind_label(self.error_type)
                + self.message@,
    {
        let s = String::from_str("[");
        let s = s.concat(self.location.as_str());
        let s = s.concat("] ");
        let s = s.concat(self.error_type.label());
        s.concat(self.message.as_str())
    }
}

} // verus!
