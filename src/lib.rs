//! An in-memory store of user records: validated construction, identifiers
//! assigned by the store in increasing order, lookup, age updates and
//! snapshots of the contents.

pub mod error;
pub mod validate;
pub mod profile;
pub mod database;
pub mod repository;
pub mod render;
