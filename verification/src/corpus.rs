//! The reference corpus: small crates with known properties, so a sweep has
//! something to find and the gates have something to reject.

pub mod embedded;
pub mod generics;
pub mod wasm;
pub mod workspace;
pub mod tiny;
pub mod deep;
