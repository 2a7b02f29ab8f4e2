//! A verified storage engine for a container-image registry: digests,
//! upload sessions, content-addressed blobs and tag/digest addressed
//! manifests over an abstract durable medium.

pub mod api;
pub mod parse;
pub mod reader;
pub mod storage;
pub mod utils;
