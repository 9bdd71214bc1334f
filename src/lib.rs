//! Witness-generation building blocks for arithmetic circuits: batched
//! elliptic-curve requests bound to placeholders by equality constraints,
//! and generators that fill output handles from outside data.
pub mod builder;
pub mod bytes;
pub mod hashes;
pub mod request;
pub mod storage;
pub mod stream;
pub mod target;
pub mod vars;
pub mod witness;
