//! Chunk hash path protocol for a step-indexed recursive proof over an
//! incremental tree hash.
//!
//! The library prepares everything a recursive proving engine needs to show
//! knowledge of one chunk of a Merkle-ized incremental hash: it derives the
//! authentication path and raw chunk bytes for a target leaf, sequences the
//! per-step "absorb a message block" / "combine with a sibling" operations,
//! encodes the fixed-layout public state vector threaded between steps, and
//! converts the final chaining state into the canonical digest.

use vstd::prelude::*;

pub mod blake3_circuit;
pub mod blake3_hash;
pub mod utils;

verus! {

/// Number of 32-bit words in one message block.
pub const N_MESSAGE_WORDS_BLOCK: usize = 16;
/// Maximum number of message blocks in one chunk.
pub const MAX_BLOCKS_PER_CHUNK: usize = 16;
/// Number of bytes absorbed by one compression step.
pub const MAX_BYTES_PER_BLOCK: usize = 64;
/// Number of bytes in one leaf chunk of the tree.
pub const MAX_BYTES_PER_CHUNK: usize = 1024;

/// The error taxonomy of the protocol layer.
///
/// `ConfigurationError` is fatal and rejected before any step work begins;
/// `IOError` is recoverable (extraction or encoding failure); an
/// `InvariantViolation` signals caller/sequencer desynchronization and is not
/// recoverable.
#[derive(Clone, Copy, Debug, PartialEq, Eq, Structural)]
pub enum Blake3FoldError {
    ConfigurationError,
    IOError,
    InvariantViolation,
}

} // verus!
