//! Records of a write-only social graph (nodes and edges) kept as compressed
//! accounts: their byte layout, their field commitments, their address seeds
//! and the account that is handed to the compression system program.
pub mod codec;
pub mod compressed;
pub mod edge;
pub mod errors;
pub mod hashing;
pub mod node;
pub mod processor;
pub mod record;
pub mod seed;
pub mod trees;
