//! Parameters of the node's engine.

use vstd::prelude::*;

verus! {

/// The number of canonical blocks in memory above which they are persisted.
pub const DEFAULT_PERSISTENCE_THRESHOLD: u64 = 2;

/// How many blocks below the canonical head stay in memory.
pub const DEFAULT_MEMORY_BLOCK_BUFFER_TARGET: u64 = 2;

/// Parameters for configuring the engine.
#[derive(Debug, Clone, Copy, PartialEq, Eq, Structural)]
pub struct EngineArgs {
    /// Enable the experimental engine.
    pub experimental: bool,
    /// The persistence threshold of the experimental engine.
    pub persistence_threshold: u64,
    /// The target number of blocks to keep in memory.
    pub memory_block_buffer_target: u64,
}

impl Default for EngineArgs {
    fn default() -> (args: EngineArgs)
        ensures
            !args.experimental,
            args.persistence_threshold == DEFAULT_PERSISTENCE_THRESHOLD,
            args.memory_block_buffer_target == DEFAULT_MEMORY_BLOCK_BUFFER_TARGET,
    {
        EngineArgs {
            experimental: false,
            persistence_threshold: DEFAULT_PERSISTENCE_THRESHOLD,
            memory_block_buffer_target: DEFAULT_MEMORY_BLOCK_BUFFER_TARGET,
        }
    }
}

} // verus!
