//! Bindings for Move packages: the normalized model of an on-chain package, the
//! reader that builds it from the replies of a GraphQL service, and the Rust
//! spelling of the types it mentions.

pub mod address;
pub mod contents;
pub mod encoding;
pub mod error;
pub mod json;
pub mod laws;
pub mod model;
pub mod name_map;
pub mod normalized;
pub mod package_provider;
pub mod replies;
pub mod request;
pub mod service;
pub mod text;
pub mod types;
