//! The documents that the engine stores.

pub mod manifest;
