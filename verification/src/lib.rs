//! A verified core for a small read-only question service.
//!
//! The library holds the in-memory store of question records, the
//! translation of raw query parameters into a pagination window, the
//! JSON serialization of the records, and the mapping from rejected
//! requests to HTTP status codes and bodies.  Every executable function
//! carries a contract that pins its result down over the mathematical
//! views of the data.

pub mod error;
pub mod handler;
pub mod json;
pub mod pagination;
pub mod question;
pub mod store;
