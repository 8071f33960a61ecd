//! A metadata catalog of hierarchically named namespaces holding tables,
//! kept in a flat string-keyed record store.

pub mod catalog;
pub mod catches;
pub mod db;
pub mod error;
pub mod json;
pub mod keymap;
pub mod laws;
pub mod namespace;
pub mod request;
pub mod response;
pub mod result;
pub mod routes;
pub mod table;
pub mod text;
pub mod time;
pub mod types;
