//! What the engine offers to an HTTP front end.

pub mod v2;
