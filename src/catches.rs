//! The failures answered for requests that no operation took.
use vstd::prelude::*;
use crate::result::{CatalogResult, Empty, Error, ErrorType, Location};

verus! {

/// The answer to a request for a resource that does not exist.
pub fn general_not_found() -> (r: CatalogResult<Empty>)
    ensures
        r is Err,
        r.unwrap_err().error_type == ErrorType::NotFound,
        r.unwrap_err().location == Location::Request,
        r.unwrap_err().message@ == "Resource not found, please check the URL"@,
{
    Err(Error::of(ErrorType::NotFound, Location::Request, String::from_str("Resource not found, please check the URL")))
}

/// The answer to a malformed request.
pub fn general_bad_request() -> (r: CatalogResult<Empty>)
    ensures
        r is Err,
        r.unwrap_err().error_type == ErrorType::BadRequest,
        r.unwrap_err().location == Location::Request,
        r.unwrap_err().message@ == "Bad Request"@,
{
    Err(Error::of(ErrorType::BadRequest, Location::Request, String::from_str("Bad Request")))
}

/// The answer to a well-formed request whose content cannot be processed.
pub fn general_unprocessable_request() -> (r: CatalogResult<Empty>)
    ensures
        r is Err,
        r.unwrap_err().error_type == ErrorType::Unprocessable,
        r.unwrap_err().location == Location::Request,
        r.unwrap_err().message@ == "Unprocessable request"@,
{
    Err(Error::of(ErrorType::Unprocessable, Location::Request, String::from_str("Unprocessable request")))
}

/// The answer when the service itself failed.
pub fn general_internal_error() -> (r: CatalogResult<Empty>)
    ensures
        r is Err,
        r.unwrap_err().error_type == ErrorType::InternalError,
        r.unwrap_err().location == Location::Request,
        r.unwrap_err().message@ == "Internal server error"@,
{
    Err(Error::of(ErrorType::InternalError, Location::Request, String::from_str("Internal server error")))
}

} // verus!
