//! SHA-256 as an incremental digestion engine, verified with Verus.
//!
//! The crate is split along the lines of the algorithm:
//!
//! * [`primitives`]: the word-level mixing functions;
//! * [`constants`]: the initial hash words and the round constants;
//! * [`compression`]: the message schedule and the compression function;
//! * [`message`]: the padding rule and the digest of a whole message;
//! * [`sha`]: the engine, which is fed bytes and finalized once.
pub mod constants;
pub mod primitives;
pub mod compression;
pub mod message;
pub mod sha;
