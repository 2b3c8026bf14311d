//! A small, fully verified HTTP request router over a fixed in-memory
//! dataset of artifact records.
//!
//! The library holds the pure logic of the server: the dataset, the JSON
//! serialization of its records, the splitting of a request path into
//! segments, and the dispatch of a (method, path) pair to a response.
//! The network loop that feeds requests in and writes responses out lives
//! outside the library.

pub mod artifact;
pub mod json;
pub mod router;
pub mod text;
