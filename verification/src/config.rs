//! Consensus configuration derived from the node's configuration.
use vstd::prelude::*;

verus! {

/// The consensus part of a node's configuration, as read from its config file.
#[derive(Clone, Copy, Debug, PartialEq, Eq, Structural)]
pub struct ConsensusConfig {
    pub max_pruned_blocks_in_mem: Option<u64>,
    pub pacemaker_initial_timeout_ms: Option<u64>,
    pub contiguous_rounds: u32,
    pub max_block_size: u64,
}

/// Consensus configuration derived from `ConsensusConfig`.
#[derive(Clone, Copy, Debug, PartialEq, Eq, Structural)]
pub struct ChainedBftSMRConfig {
    /// Keep up to this number of committed blocks before cleaning them up from the block store.
    pub max_pruned_blocks_in_mem: usize,
    /// Initial timeout for the pacemaker, in milliseconds.
    pub pacemaker_initial_timeout_ms: u64,
    /// Contiguous rounds for a proposer.
    pub contiguous_rounds: u32,
    /// Max block size (number of transactions) that consensus pulls from mempool.
    pub max_block_size: u64,
}

impl ChainedBftSMRConfig {
    /// The configuration with the defaults filled in: an initial timeout of
    /// one second and ten thousand pruned blocks kept in memory.
    pub fn from_node_config(cfg: &ConsensusConfig) -> (c: ChainedBftSMRConfig)
        ensures
            c.pacemaker_initial_timeout_ms == match cfg.pacemaker_initial_timeout_ms {
                Some(ms) => ms,
                None => 1000u64,
            },
            c.max_pruned_blocks_in_mem == (match cfg.max_pruned_blocks_in_mem {
                Some(n) => n,
                None => 10000u64,
            }) as usize,
            c.contiguous_rounds == cfg.contiguous_rounds,
            c.max_block_size == cfg.max_block_size,
    {
        let pacemaker_initial_timeout_ms = match cfg.pacemaker_initial_timeout_ms {
            Some(ms) => ms,
            None => 1000,
        };
        let max_pruned: u64 = match cfg.max_pruned_blocks_in_mem {
            Some(n) => n,
            None => 10000,
        };
        ChainedBftSMRConfig {
            max_pruned_blocks_in_mem: max_pruned as usize,
            pacemaker_initial_timeout_ms,
            contiguous_rounds: cfg.contiguous_rounds,
            max_block_size: cfg.max_block_size,
        }
    }
}

} // verus!
