//! The decision logic of a caching HTTP forward proxy: which URL a request
//! names, which stored responses may be served, and what crosses each boundary.

pub mod db;
pub mod denormalize;
pub mod headers;
pub mod message;
pub mod proxy;
pub mod resolver;
pub mod text;
