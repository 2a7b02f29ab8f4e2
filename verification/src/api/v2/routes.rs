//! The values that the routes read from a request.

pub mod blobs;
