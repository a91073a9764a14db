//! Verified request-dispatch core of a small web service.
//!
//! The library holds the logic that decides what a request becomes: typed
//! decoding of query strings and JSON bodies with a classified failure
//! taxonomy, the static-asset fallback chain, the bounded connection-lease
//! model behind the pooled database read, and the route table that binds a
//! method and path to one of those. The surrounding process (listening,
//! reading bodies, touching the disk and the database) lives outside and
//! hands this core plain values.

pub mod failure;
pub mod numeric;
pub mod query;
pub mod json;
pub mod assets;
pub mod pool;
pub mod respond;
pub mod routes;
