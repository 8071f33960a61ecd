//! Errors by code: each code carries its message.
use vstd::prelude::*;

verus! {

/// The kind of a coded failure.
#[derive(Clone, Copy, Debug, PartialEq, Eq, Structural)]
pub enum ErrorType {
    /// Any failure of the service itself.
    Internal,
    /// Arguments that are not valid.
    InvalidArgument,
    /// A resource that is not there.
    NotFound,
    /// A resource that is already there.
    AlreadyExists,
}

/// A failure code with its message.
pub enum Code {
    Internal(String),
    InvalidArgument(String),
    NotFound(String),
    AlreadyExists(String),
}

/// The kind of a code.
pub open spec fn code_type(c: Code) -> ErrorType {
    match c {
        Code::Internal(_) => ErrorType::Internal,
        Code::InvalidArgument(_) => ErrorType::InvalidArgument,
        Code::NotFound(_) => ErrorType::NotFound,
        Code::AlreadyExists(_) => ErrorType::AlreadyExists,
    }
}

/// The message of a code.
pub open spec fn code_message(c: Code) -> Seq<char> {
    match c {
        Code::Internal(m) => m@,
        Code::InvalidArgument(m) => m@,
        Code::NotFound(m) => m@,
        Code::AlreadyExists(m) => m@,
    }
}

/// A failure that carries a code.
pub struct Error {
    code: Code,
}

impl Error {
    /// The code this failure carries.
    pub closed spec fn spec_code(&self) -> Code {
        self.code
    }

    /// A failure with the given code.
    pub fn new(code: Code) -> (r: Error)
        ensures
            r.spec_code() == code,
    {
        Error { code }
    }

    /// The kind of this failure.
    pub fn get_type(&self) -> (r: ErrorType)
        ensures
            r == code_type(self.spec_code()),
    {
        match self.code {
            Code::Internal(_) => ErrorType::Internal,
            Code::InvalidArgument(_) => ErrorType::InvalidArgument,
            Code::NotFound(_) => ErrorType::NotFound,
            Code::AlreadyExists(_) => ErrorType::AlreadyExists,
        }
    }

    /// The message of this failure.
    pub fn message(&self) -> (r: String)
        ensures
            r@ == code_message(self.spec_code()),
    {
        match &self.code {
            Code::Internal(m) => m.clone(),
            Code::InvalidArgument(m) => m.clone(),
            Code::NotFound(m) => m.clone(),
            Code::AlreadyExists(m) => m.clone(),
        }
    }
}

} // verus!
