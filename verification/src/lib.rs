//! Slot-based consensus authorship and block-production core.
//!
//! For each discrete time slot the library decides which validator, if any,
//! may author the next block, and drives the pipeline that turns a claimed
//! slot (or an externally issued sealing command) into an imported block.
//! Epoch bookkeeping is fork-aware: concurrent chain branches can be in
//! different epochs at once, so epoch data is derived from block ancestry,
//! never from a global clock.
//!
//! Chain metadata, pool contents and verifiable-random-function results are
//! collaborator capabilities; they enter the library as plain values, so
//! every decision made here is a pure function of its inputs and is verified
//! as such. The surrounding node supplies the real backends and runs the
//! asynchronous plumbing.

use vstd::prelude::*;

pub mod chain;
pub mod channel;
pub mod claim;
pub mod epoch;
pub mod registry;
pub mod scheduler;
pub mod seal;

verus! {

/// A block hash in the model chain.
pub type BlockHash = u64;

/// A slot number: a monotonically increasing integer identifying a
/// fixed-duration time window.
pub type SlotNumber = u64;

/// Failure of a fork-aware epoch lookup.
#[derive(Clone, Copy, Debug, PartialEq, Eq, Structural)]
pub enum LookupError {
    /// Ancestry could not be resolved: the fork head is unknown.
    ChainLookup,
    /// The epoch tree has no matching record and no genesis fallback applies.
    NoEpochData,
}

/// Why the import pipeline refused to commit a block.
#[derive(Clone, Copy, Debug, PartialEq, Eq, Structural)]
pub enum ImportRejection {
    /// A block with the same hash is already committed.
    AlreadyInChain,
    /// The block's parent is not part of the chain.
    UnknownParent,
    /// The block is inconsistent with its parent.
    KnownBad,
}

/// Terminal failure of an authorship query or a sealing request. Every
/// request receives exactly one outcome: success, or one of these.
#[derive(Clone, Copy, Debug, PartialEq, Eq, Structural)]
pub enum Error {
    /// No ready transactions and empty blocks are disallowed.
    EmptyTransactionPool,
    /// An explicit parent hash names a block the chain does not hold.
    BlockNotFound(BlockHash),
    /// An epoch or ancestry lookup failed.
    Consensus(LookupError),
    /// The import pipeline refused the produced block.
    Import(ImportRejection),
}

} // verus!
