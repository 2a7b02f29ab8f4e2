//! Version 2 of the registry protocol: its error catalogue and the
//! queries of its upload routes.

pub mod errors;
pub mod routes;
