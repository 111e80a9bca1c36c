//! The block store: validates blocks and certificates before they enter the
//! block tree, and decides when a replica must fetch or synchronize.
use vstd::prelude::*;
use crate::common::{ExecutedState, HashValue, LedgerInfo, ZERO_HASH};
use crate::block::Block;
use crate::block_tree::{
    block_inserted, blocks_kept, descent_to_root, quorum_cert_inserted, reversed, BlockTree, BlockTreeError,
};
use crate::quorum_cert::QuorumCert;
use crate::vote_msg::{VoteMsg, VoteReceptionResult};

verus! {

/// What the state computer reports after executing a block.
#[derive(Clone, Copy, Debug, PartialEq, Eq, Structural)]
pub struct StateComputeResult {
    /// The id of the state reached.
    pub new_state_id: HashValue,
    /// How many transactions of the block were executed successfully.
    pub num_successful_txns: u64,
}

/// Why a block or a certificate cannot be inserted.
#[derive(Clone, Copy, Debug, PartialEq, Eq, Structural)]
pub enum InsertError {
    /// A block that is needed is missing: the id of that block.
    MissingParentBlock(HashValue),
    /// The block is not above the root.
    OldBlock,
    /// The block's id is not the digest of the block.
    InvalidBlockHash,
    /// The block's certificate is not for its parent.
    ParentNotCertified,
    /// The block's height is not its parent's plus one.
    InvalidBlockHeight,
    /// The block's round is not above its parent's.
    InvalidBlockRound,
    /// The block's timestamp is not above its parent's.
    NonIncreasingTimestamp,
    /// The parent's execution state is unknown.
    ParentVersionNotFound,
    /// The state computer could not execute the block.
    StateComputerError,
    /// The block or certificate could not be persisted.
    StorageFailure,
}

/// Whether a certificate can be inserted without retrieving blocks.
#[derive(Clone, Copy, Debug, PartialEq, Eq, Structural)]
pub enum NeedFetchResult {
    /// The certified block is older than the root.
    QCRoundBeforeRoot,
    /// The block already has a certificate.
    QCAlreadyExist,
    /// The block is here; the certificate can be inserted.
    QCBlockExist,
    /// The block must be fetched first.
    NeedFetch,
}

/// The checks a new block must pass, in order, and the parent id and parent
/// version it yields.
pub open spec fn parent_info(tree: BlockTree, enforce_increasing_timestamps: bool, block: Block, block_hash: HashValue) -> Result<
    (HashValue, u64),
    InsertError,
> {
    let parent = tree.blocks()[block.parent_id];
    if block.round <= tree.root_block().round {
        Err(InsertError::OldBlock)
    } else if block.id != block_hash {
        Err(InsertError::InvalidBlockHash)
    } else if block.quorum_cert.certified_block_id != block.parent_id {
        Err(InsertError::ParentNotCertified)
    } else if !tree.blocks().contains_key(block.parent_id) {
        Err(InsertError::MissingParentBlock(block.parent_id))
    } else if parent.height + 1 != block.height {
        Err(InsertError::InvalidBlockHeight)
    } else if parent.round >= block.round {
        Err(InsertError::InvalidBlockRound)
    } else if enforce_increasing_timestamps && parent.timestamp_usecs >= block.timestamp_usecs {
        Err(InsertError::NonIncreasingTimestamp)
    } else if tree.states().contains_key(parent.id) {
        Ok((parent.id, tree.states()[parent.id].version))
    } else {
        Err(InsertError::ParentVersionNotFound)
    }
}

/// How a certificate relates to the tree.
pub open spec fn fetch_need(tree: BlockTree, qc: QuorumCert) -> NeedFetchResult {
    if qc.certified_block_round < tree.root_block().round {
        NeedFetchResult::QCRoundBeforeRoot
    } else if tree.quorum_certs().contains_key(qc.certified_block_id) {
        NeedFetchResult::QCAlreadyExist
    } else if tree.blocks().contains_key(qc.certified_block_id) {
        NeedFetchResult::QCBlockExist
    } else {
        NeedFetchResult::NeedFetch
    }
}

/// The ledger info of a placeholder for signing when nothing is committed.
pub open spec fn zero_placeholder() -> LedgerInfo {
    LedgerInfo {
        version: 0,
        transaction_accumulator_hash: ZERO_HASH,
        consensus_data_hash: ZERO_HASH,
        consensus_block_id: ZERO_HASH,
        epoch_num: 0,
        timestamp_usecs: 0,
    }
}

/// The ledger info that a vote signs for a potential commit of the block `id`.
pub open spec fn placeholder_for(tree: BlockTree, id: Option<HashValue>) -> LedgerInfo {
    match id {
        None => zero_placeholder(),
        Some(id) => if tree.blocks().contains_key(id) && tree.states().contains_key(id) {
            LedgerInfo {
                version: tree.states()[id].version,
                transaction_accumulator_hash: tree.states()[id].state_id,
                consensus_data_hash: ZERO_HASH,
                consensus_block_id: id,
                epoch_num: 0,
                timestamp_usecs: tree.blocks()[id].timestamp_usecs,
            }
        } else {
            zero_placeholder()
        },
    }
}

/// The block tree of a replica and the rule it applies to block timestamps.
pub struct BlockStore {
    inner: BlockTree,
    enforce_increasing_timestamps: bool,
}

impl BlockStore {
    pub closed spec fn tree(&self) -> BlockTree {
        self.inner
    }

    pub closed spec fn enforces_increasing_timestamps(&self) -> bool {
        self.enforce_increasing_timestamps
    }

    pub open spec fn wf(&self) -> bool {
        self.tree().wf()
    }

    /// A store whose tree holds only `root`, certified by `root_quorum_cert`,
    /// with `root_ledger_info` as the highest ledger info.
    pub fn new(
        root: Block,
        root_quorum_cert: QuorumCert,
        root_ledger_info: QuorumCert,
        enforce_increasing_timestamps: bool,
    ) -> (s: Self)
        requires
            root_quorum_cert.certified_block_id == root.id,
            root_ledger_info.signed_ledger_info.ledger_info.consensus_block_id == root.id,
        ensures
            s.wf(),
            s.enforces_increasing_timestamps() == enforce_increasing_timestamps,
            s.tree().blocks() == Map::<HashValue, Block>::empty().insert(root.id, root),
            s.tree().states() == Map::<HashValue, ExecutedState>::empty().insert(
                root.id,
                root_quorum_cert.certified_state,
            ),
            s.tree().quorum_certs() == Map::<HashValue, QuorumCert>::empty().insert(
                root.id,
                root_quorum_cert,
            ),
            s.tree().root_block() == root,
            s.tree().highest_certified() == root,
            s.tree().highest_qc() == root_quorum_cert,
            s.tree().highest_li() == root_ledger_info,
            s.tree().received_votes() == Map::<HashValue, Seq<VoteMsg>>::empty(),
    {
        BlockStore {
            inner: BlockTree::new(root, root_quorum_cert, root_ledger_info),
            enforce_increasing_timestamps,
        }
    }

    pub fn block_exists(&self, block_id: HashValue) -> (r: bool)
        ensures
            r == self.tree().blocks().contains_key(block_id),
    {
        self.inner.block_exists(block_id)
    }

    pub fn get_block(&self, block_id: HashValue) -> (r: Option<Block>)
        ensures
            r == self.tree().blocks().get(block_id),
    {
        self.inner.get_block(block_id)
    }

    pub fn get_state_for_block(&self, block_id: HashValue) -> (r: Option<ExecutedState>)
        ensures
            r == self.tree().states().get(block_id),
    {
        self.inner.get_state_for_block(block_id)
    }

    pub fn get_quorum_cert_for_block(&self, block_id: HashValue) -> (r: Option<QuorumCert>)
        ensures
            r == self.tree().quorum_certs().get(block_id),
    {
        self.inner.get_quorum_cert_for_block(block_id)
    }

    pub fn root(&self) -> (r: Block)
        ensures
            r == self.tree().root_block(),
    {
        self.inner.root()
    }

    pub fn highest_certified_block(&self) -> (r: Block)
        ensures
            r == self.tree().highest_certified(),
    {
        self.inner.highest_certified_block()
    }

    pub fn highest_quorum_cert(&self) -> (r: QuorumCert)
        ensures
            r == self.tree().highest_qc(),
    {
        self.inner.highest_quorum_cert()
    }

    pub fn highest_ledger_info(&self) -> (r: QuorumCert)
        ensures
            r == self.tree().highest_li(),
    {
        self.inner.highest_ledger_info()
    }

    /// The blocks from the root (left out) to `block`, or `None` if `block` does
    /// not descend from the root.
    pub fn path_from_root(&self, block: Block) -> (r: Option<Vec<Block>>)
        requires
            self.wf(),
        ensures
            match r {
                Some(v) => descent_to_root(self.tree(), block) is Some && reversed(
                    v@,
                    descent_to_root(self.tree(), block)->0,
                ),
                None => descent_to_root(self.tree(), block) is None,
            },
    {
        self.inner.path_from_root(block)
    }

    /// Whether the replica is far behind the ledger info carried by `qc` and must
    /// synchronize: it is not when it has the committed block, or when its root
    /// is at least the round of the committed block (the certified round minus
    /// two, by the three-chain rule).
    pub fn need_sync_for_quorum_cert(&self, committed_block_id: HashValue, qc: &QuorumCert) -> (r: bool)
        ensures
            r == !(self.tree().blocks().contains_key(committed_block_id) || self.tree().root_block().round
                + 2 >= qc.certified_block_round),
    {
        let root_round = self.root().round();
        !(self.block_exists(committed_block_id) || qc.certified_block_round() <= 2
            || root_round >= qc.certified_block_round() - 2)
    }

    /// Whether a certificate can be inserted without retrieving blocks.
    pub fn need_fetch_for_quorum_cert(&self, qc: &QuorumCert) -> (r: NeedFetchResult)
        ensures
            r == fetch_need(self.tree(), *qc),
    {
        if qc.certified_block_round() < self.root().round() {
            return NeedFetchResult::QCRoundBeforeRoot;
        }
        if self.get_quorum_cert_for_block(qc.certified_block_id()).is_some() {
            return NeedFetchResult::QCAlreadyExist;
        }
        if self.block_exists(qc.certified_block_id()) {
            return NeedFetchResult::QCBlockExist;
        }
        NeedFetchResult::NeedFetch
    }

    /// Checks a new block against its parent; `block_hash` is the digest of the
    /// block computed by the caller's hashing.  Returns the parent's id and the
    /// version of its execution state.
    pub fn verify_and_get_parent_info(&self, block: &Block, block_hash: HashValue) -> (r: Result<
        (HashValue, u64),
        InsertError,
    >)
        requires
            self.wf(),
        ensures
            r == parent_info(self.tree(), self.enforces_increasing_timestamps(), *block, block_hash),
    {
        if block.round() <= self.root().round() {
            return Err(InsertError::OldBlock);
        }
        if block.id() != block_hash {
            return Err(InsertError::InvalidBlockHash);
        }
        if block.quorum_cert().certified_block_id() != block.parent_id() {
            return Err(InsertError::ParentNotCertified);
        }
        let parent = match self.get_block(block.parent_id()) {
            None => {
                return Err(InsertError::MissingParentBlock(block.parent_id()));
            },
            Some(parent) => parent,
        };
        if !(parent.height() < block.height() && block.height() - parent.height() == 1) {
            return Err(InsertError::InvalidBlockHeight);
        }
        if parent.round() >= block.round() {
            return Err(InsertError::InvalidBlockRound);
        }
        if self.enforce_increasing_timestamps && parent.timestamp_usecs() >= block.timestamp_usecs() {
            return Err(InsertError::NonIncreasingTimestamp);
        }
        let parent_id = parent.id();
        match self.get_state_for_block(parent_id) {
            Some(state) => Ok((parent.id(), state.version)),
            None => Err(InsertError::ParentVersionNotFound),
        }
    }

    /// Inserts a block once it passed the checks of `verify_and_get_parent_info`,
    /// with the state that `compute_res` (the state computer's result for the
    /// block) leads to: its version is the parent's plus the transactions
    /// executed.  A block already in the tree is returned as it is.
    pub fn execute_and_insert_block(
        &mut self,
        block: Block,
        block_hash: HashValue,
        compute_res: StateComputeResult,
    ) -> (r: Result<Block, InsertError>)
        requires
            old(self).wf(),
            !old(self).tree().blocks().contains_key(block.id) && old(self).tree().states().contains_key(
                block.parent_id,
            ) ==> old(self).tree().states()[block.parent_id].version + compute_res.num_successful_txns
                <= u64::MAX,
        ensures
            final(self).wf(),
            final(self).enforces_increasing_timestamps() == old(self).enforces_increasing_timestamps(),
            blocks_kept(old(self).tree(), final(self).tree()),
            r matches Ok(b) ==> final(self).tree().blocks().contains_key(b.id) && final(self).tree().blocks()[b.id]
                == b,
            old(self).tree().blocks().contains_key(block.id) ==> r == Ok::<Block, InsertError>(
                old(self).tree().blocks()[block.id],
            ) && final(self).tree() == old(self).tree(),
            !old(self).tree().blocks().contains_key(block.id) ==> match parent_info(
                old(self).tree(),
                old(self).enforces_increasing_timestamps(),
                block,
                block_hash,
            ) {
                Err(e) => r == Err::<Block, InsertError>(e) && final(self).tree() == old(self).tree(),
                Ok((parent_id, parent_version)) => r == Ok::<Block, InsertError>(block)
                    && block_inserted(
                    old(self).tree(),
                    final(self).tree(),
                    block,
                    ExecutedState {
                        state_id: compute_res.new_state_id,
                        version: (parent_version + compute_res.num_successful_txns) as u64,
                    },
                ),
            },
    {
        if let Some(existing_block) = self.get_block(block.id()) {
            return Ok(existing_block);
        }
        let (_parent_id, parent_exec_version) = match self.verify_and_get_parent_info(&block, block_hash) {
            Ok(t) => t,
            Err(e) => {
                return Err(e);
            },
        };
        let version = parent_exec_version + compute_res.num_successful_txns;
        let state = ExecutedState { state_id: compute_res.new_state_id, version };
        match self.inner.insert_block(block, state) {
            Ok(b) => Ok(b),
            Err(BlockTreeError::BlockNotFound { id }) => Err(InsertError::MissingParentBlock(id)),
        }
    }

    /// Inserts a certificate whose block is here.  The certificate must agree
    /// with the state this replica executed the block to.
    pub fn insert_single_quorum_cert(&mut self, qc: QuorumCert) -> (r: Result<(), InsertError>)
        requires
            old(self).wf(),
            old(self).tree().states().contains_key(qc.certified_block_id) ==> old(self).tree().states()[qc.certified_block_id]
                == qc.certified_state,
        ensures
            final(self).wf(),
            final(self).enforces_increasing_timestamps() == old(self).enforces_increasing_timestamps(),
            blocks_kept(old(self).tree(), final(self).tree()),
            !old(self).tree().states().contains_key(qc.certified_block_id) ==> r == Err::<
                (),
                InsertError,
            >(InsertError::MissingParentBlock(qc.certified_block_id)) && final(self).tree() == old(
                self,
            ).tree(),
            old(self).tree().states().contains_key(qc.certified_block_id) ==> r == Ok::<
                (),
                InsertError,
            >(()) && quorum_cert_inserted(old(self).tree(), final(self).tree(), qc),
    {
        let _executed_state = match self.get_state_for_block(qc.certified_block_id()) {
            Some(s) => s,
            None => {
                return Err(InsertError::MissingParentBlock(qc.certified_block_id()));
            },
        };
        match self.inner.insert_quorum_cert(qc) {
            Ok(()) => Ok(()),
            Err(BlockTreeError::BlockNotFound { id }) => Err(InsertError::MissingParentBlock(id)),
        }
    }

    /// Adds a vote for a block (see `BlockTree::insert_vote`).
    pub fn insert_vote(&mut self, vote_msg: VoteMsg, min_votes_for_qc: usize) -> (r: VoteReceptionResult)
        requires
            old(self).wf(),
        ensures
            final(self).wf(),
            final(self).enforces_increasing_timestamps() == old(self).enforces_increasing_timestamps(),
            final(self).tree().blocks() == old(self).tree().blocks(),
            final(self).tree().states() == old(self).tree().states(),
            final(self).tree().quorum_certs() == old(self).tree().quorum_certs(),
            final(self).tree().root_block() == old(self).tree().root_block(),
            final(self).tree().highest_certified() == old(self).tree().highest_certified(),
            final(self).tree().highest_qc() == old(self).tree().highest_qc(),
            final(self).tree().highest_li() == old(self).tree().highest_li(),
            r == crate::vote_msg::vote_reception(
                old(self).tree().quorum_certs(),
                crate::vote_msg::votes_for_block(old(self).tree().received_votes(), vote_msg.proposed_block_id),
                vote_msg,
                min_votes_for_qc,
            ),
            final(self).tree().received_votes() == crate::vote_msg::votes_after(
                old(self).tree().quorum_certs(),
                old(self).tree().received_votes(),
                vote_msg,
            ),
    {
        self.inner.insert_vote(vote_msg, min_votes_for_qc)
    }

    /// The ledger info that a vote signs for a potential commit of block `id`:
    /// the block's state and timestamp when it is known here, the all-zero
    /// placeholder otherwise.
    pub fn ledger_info_placeholder(&self, id: Option<HashValue>) -> (r: LedgerInfo)
        ensures
            r == placeholder_for(self.tree(), id),
    {
        let block_id = match id {
            None => return Self::zero_ledger_info_placeholder(),
            Some(id) => id,
        };
        let block = match self.get_block(block_id) {
            Some(b) => b,
            None => {
                return Self::zero_ledger_info_placeholder();
            },
        };
        let (state_id, version) = match self.get_state_for_block(block_id) {
            Some(state) => (state.state_id, state.version),
            None => {
                return Self::zero_ledger_info_placeholder();
            },
        };
        LedgerInfo::new(version, state_id, ZERO_HASH, block_id, 0, block.timestamp_usecs())
    }

    /// The all-zero ledger info, used when no block would be committed.
    pub fn zero_ledger_info_placeholder() -> (r: LedgerInfo)
        ensures
            r == zero_placeholder(),
    {
        LedgerInfo::new(0, ZERO_HASH, ZERO_HASH, ZERO_HASH, 0, 0)
    }
}

/// A block that passes validation extends its parent by exactly one: its
/// parent is in the tree, one lower than the block and at an earlier round;
/// the block is above the root's round, carries its own hash as id and a
/// certificate of its parent, is later than its parent when timestamps are
/// enforced, and the version handed back is its parent's.
pub proof fn lemma_valid_block_extends_parent(tree: BlockTree, enforce: bool, block: Block, block_hash: HashValue)
    requires
        tree.wf(),
    ensures
        parent_info(tree, enforce, block, block_hash) matches Ok((parent_id, version)) ==> {
            let parent = tree.blocks()[parent_id];
            &&& parent_id == block.parent_id
            &&& tree.blocks().contains_key(parent_id)
            &&& parent.height + 1 == block.height
            &&& parent.round < block.round
            &&& block.round > tree.root_block().round
            &&& block.id == block_hash
            &&& block.quorum_cert.certified_block_id == parent_id
            &&& enforce ==> parent.timestamp_usecs < block.timestamp_usecs
            &&& tree.states().contains_key(parent_id)
            &&& version == tree.states()[parent_id].version
        },
{
}

/// How a certificate is classified against the tree: older than the root
/// exactly when its round is below the root's; otherwise already known when
/// its block has a certificate here, insertable when its block is here
/// without one, and to be fetched when its block is missing.
pub proof fn lemma_fetch_classification(tree: BlockTree, qc: QuorumCert)
    ensures
        (fetch_need(tree, qc) == NeedFetchResult::QCRoundBeforeRoot) <==> qc.certified_block_round
            < tree.root_block().round,
        qc.certified_block_round >= tree.root_block().round ==> {
            &&& (fetch_need(tree, qc) == NeedFetchResult::QCAlreadyExist) <==> tree.quorum_certs().contains_key(
                qc.certified_block_id,
            )
            &&& (fetch_need(tree, qc) == NeedFetchResult::QCBlockExist) <==> (!tree.quorum_certs().contains_key(
                qc.certified_block_id,
            ) && tree.blocks().contains_key(qc.certified_block_id))
            &&& (fetch_need(tree, qc) == NeedFetchResult::NeedFetch) <==> (!tree.quorum_certs().contains_key(
                qc.certified_block_id,
            ) && !tree.blocks().contains_key(qc.certified_block_id))
        },
{
}

} // verus!
