//! The data a replica recovers from its storage on restart.
use vstd::prelude::*;
use crate::common::HashValue;
use crate::block::Block;
use crate::quorum_cert::QuorumCert;
use crate::safety_rules::ConsensusState;
use crate::timeout::HighestTimeoutCertificates;

verus! {

/// The recovery data read from the consensus storage: the safety state, the
/// root with its certificate and ledger info, the blocks and certificates
/// above it (parents before children), the blocks to prune, the liveness data,
/// and whether the root is ahead of the executed state.
pub struct RecoveryData {
    pub state: ConsensusState,
    pub root: (Block, QuorumCert, QuorumCert),
    pub blocks: Vec<Block>,
    pub quorum_certs: Vec<QuorumCert>,
    pub blocks_to_prune: Option<Vec<HashValue>>,
    pub highest_timeout_certificates: HighestTimeoutCertificates,
    pub need_sync: bool,
}

impl RecoveryData {
    /// The root, the blocks and the certificates, handed over to build the block store.
    pub fn take(self) -> (r: ((Block, QuorumCert, QuorumCert), Vec<Block>, Vec<QuorumCert>))
        ensures
            r.0 == self.root,
            r.1@ == self.blocks@,
            r.2@ == self.quorum_certs@,
    {
        (self.root, self.blocks, self.quorum_certs)
    }
}

} // verus!
