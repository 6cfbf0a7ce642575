//! What a request for a path is made into.

pub mod path;
pub mod ratelimit;
