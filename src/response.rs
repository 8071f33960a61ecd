//! What callers receive.
use vstd::prelude::*;
use crate::types::{TableIdentifier, TableMetadata};

verus! {

/// The tables of a namespace.
#[derive(Debug)]
pub struct ListTablesResponse {
    pub identifiers: Vec<TableIdentifier>,
}

/// A table as loaded: its metadata.
#[derive(Debug)]
pub struct LoadTableResult {
    pub metadata: TableMetadata,
}

/// The answer to a commit: where the metadata lives and what it is.
#[derive(Debug)]
pub struct CommitTableResponse {
    pub metadata_location: String,
    pub metadata: TableMetadata,
}

/// The body of an error answer.
#[derive(Debug)]
pub struct IcebergErrorResponse {
    pub error: ErrorModel,
}

/// An error as reported to callers: message, kind and status code.
#[derive(Debug)]
pub struct ErrorModel {
    pub message: String,
    pub type_: String,
    pub code: i32,
}

} // verus!
