//! The tree of blocks known to a replica, with their execution states and
//! quorum certificates.
use vstd::prelude::*;
use vstd::hash_map::HashMapWithView;
use crate::common::{ExecutedState, HashValue, LedgerInfoWithSignatures};
use crate::block::Block;
use crate::quorum_cert::QuorumCert;
use crate::vote_msg::{
    count_same_data, same_vote_data, vote_reception, votes_after, votes_for_block, VoteMsg, VoteReceptionResult,
};

verus! {

broadcast use vstd::std_specs::hash::group_hash_axioms;

/// Blocks known to this replica, linked to their parents, with the execution
/// state of each block and the quorum certificates gathered for them.
pub struct BlockTree {
    /// All the blocks known to this replica (with parent links).
    id_to_block: HashMapWithView<u64, Block>,
    /// The execution state of each block.
    id_to_state: HashMapWithView<u64, ExecutedState>,
    /// The completed quorum certificate of each certified block.
    id_to_quorum_cert: HashMapWithView<u64, QuorumCert>,
    /// Root of the tree.
    root: Block,
    /// A certified block with highest round.
    highest_certified_block: Block,
    /// The quorum certificate of `highest_certified_block`.
    highest_quorum_cert: QuorumCert,
    /// The quorum certificate that carries the highest ledger info.
    highest_ledger_info: QuorumCert,
    /// The votes received for blocks not yet certified here, by block.
    id_to_votes: HashMapWithView<u64, Vec<VoteMsg>>,
}

impl BlockTree {
    /// The blocks of the tree, by id.
    pub closed spec fn blocks(&self) -> Map<HashValue, Block> {
        self.id_to_block@
    }

    /// The execution state of each block, by id.
    pub closed spec fn states(&self) -> Map<HashValue, ExecutedState> {
        self.id_to_state@
    }

    /// The quorum certificate gathered for each certified block, by block id.
    pub closed spec fn quorum_certs(&self) -> Map<HashValue, QuorumCert> {
        self.id_to_quorum_cert@
    }

    pub closed spec fn root_block(&self) -> Block {
        self.root
    }

    pub closed spec fn highest_certified(&self) -> Block {
        self.highest_certified_block
    }

    pub closed spec fn highest_qc(&self) -> QuorumCert {
        self.highest_quorum_cert
    }

    pub closed spec fn highest_li(&self) -> QuorumCert {
        self.highest_ledger_info
    }

    /// The votes received so far for each block, in the order they came.
    pub closed spec fn received_votes(&self) -> Map<HashValue, Seq<VoteMsg>> {
        self.id_to_votes@.map_values(|v: Vec<VoteMsg>| v@)
    }

    /// The tree is consistent: blocks are stored under their ids, every block
    /// but the root has its parent in the tree at a lower round, the root has
    /// the lowest round, every block has an execution state, and certificates
    /// certify blocks of the tree.
    pub open spec fn wf(&self) -> bool {
        &&& forall|id: HashValue| #[trigger]
            self.blocks().contains_key(id) ==> self.blocks()[id].id == id
        &&& self.blocks().contains_key(self.root_block().id)
        &&& self.blocks()[self.root_block().id] == self.root_block()
        &&& forall|id: HashValue| #[trigger]
            self.blocks().contains_key(id) && id != self.root_block().id ==> {
                &&& self.blocks().contains_key(self.blocks()[id].parent_id)
                &&& self.blocks()[self.blocks()[id].parent_id].round < self.blocks()[id].round
                &&& self.root_block().round < self.blocks()[id].round
            }
        &&& forall|id: HashValue| #[trigger]
            self.blocks().contains_key(id) <==> self.states().contains_key(id)
        &&& forall|id: HashValue| #[trigger]
            self.quorum_certs().contains_key(id) ==> self.blocks().contains_key(id)
                && self.quorum_certs()[id].certified_block_id == id
        &&& self.blocks().contains_key(self.highest_certified().id)
        &&& self.blocks()[self.highest_certified().id] == self.highest_certified()
        &&& self.highest_qc().certified_block_id == self.highest_certified().id
        &&& self.blocks().contains_key(self.highest_li_block_id())
    }

    /// The id of the block committed by the highest ledger info.
    pub open spec fn highest_li_block_id(&self) -> HashValue {
        self.highest_li().signed_ledger_info.ledger_info.consensus_block_id
    }

    /// A tree that holds only `root`, certified by `root_quorum_cert` (whose
    /// state becomes the root's state), with `root_ledger_info` as the highest
    /// ledger info.
    pub fn new(root: Block, root_quorum_cert: QuorumCert, root_ledger_info: QuorumCert) -> (t: Self)
        requires
            root_quorum_cert.certified_block_id == root.id,
            root_ledger_info.signed_ledger_info.ledger_info.consensus_block_id == root.id,
        ensures
            t.wf(),
            t.blocks() == Map::<HashValue, Block>::empty().insert(root.id, root),
            t.states() == Map::<HashValue, ExecutedState>::empty().insert(
                root.id,
                root_quorum_cert.certified_state,
            ),
            t.quorum_certs() == Map::<HashValue, QuorumCert>::empty().insert(
                root.id,
                root_quorum_cert,
            ),
            t.root_block() == root,
            t.highest_certified() == root,
            t.highest_qc() == root_quorum_cert,
            t.highest_li() == root_ledger_info,
            t.received_votes() == Map::<HashValue, Seq<VoteMsg>>::empty(),
    {
        let mut id_to_block = HashMapWithView::new();
        id_to_block.insert(root.id, root);
        let mut id_to_state = HashMapWithView::new();
        id_to_state.insert(root.id, root_quorum_cert.certified_state);
        let mut id_to_quorum_cert = HashMapWithView::new();
        id_to_quorum_cert.insert(root.id, root_quorum_cert);
        BlockTree {
            id_to_block,
            id_to_state,
            id_to_quorum_cert,
            root,
            highest_certified_block: root,
            highest_quorum_cert: root_quorum_cert,
            highest_ledger_info: root_ledger_info,
            id_to_votes: HashMapWithView::new(),
        }
    }

    pub fn block_exists(&self, block_id: HashValue) -> (r: bool)
        ensures
            r == self.blocks().contains_key(block_id),
    {
        self.id_to_block.contains_key(&block_id)
    }

    pub fn get_block(&self, block_id: HashValue) -> (r: Option<Block>)
        ensures
            r == self.blocks().get(block_id),
    {
        match self.id_to_block.get(&block_id) {
            Some(b) => Some(*b),
            None => None,
        }
    }

    pub fn get_state_for_block(&self, block_id: HashValue) -> (r: Option<ExecutedState>)
        ensures
            r == self.states().get(block_id),
    {
        match self.id_to_state.get(&block_id) {
            Some(s) => Some(*s),
            None => None,
        }
    }

    pub fn get_quorum_cert_for_block(&self, block_id: HashValue) -> (r: Option<QuorumCert>)
        ensures
            r == self.quorum_certs().get(block_id),
    {
        match self.id_to_quorum_cert.get(&block_id) {
            Some(qc) => Some(*qc),
            None => None,
        }
    }

    pub fn root(&self) -> (r: Block)
        ensures
            r == self.root_block(),
    {
        self.root
    }

    pub fn highest_certified_block(&self) -> (r: Block)
        ensures
            r == self.highest_certified(),
    {
        self.highest_certified_block
    }

    pub fn highest_quorum_cert(&self) -> (r: QuorumCert)
        ensures
            r == self.highest_qc(),
    {
        self.highest_quorum_cert
    }

    pub fn highest_ledger_info(&self) -> (r: QuorumCert)
        ensures
            r == self.highest_li(),
    {
        self.highest_ledger_info
    }

    /// The blocks from the root (left out) to `block`, each the parent of the
    /// next, or `None` if `block` does not descend from the root in the tree.
    pub fn path_from_root(&self, block: Block) -> (r: Option<Vec<Block>>)
        requires
            self.wf(),
        ensures
            match r {
                Some(v) => descent_to_root(*self, block) is Some && reversed(
                    v@,
                    descent_to_root(*self, block)->0,
                ),
                None => descent_to_root(*self, block) is None,
            },
    {
        let mut res: Vec<Block> = Vec::new();
        let mut cur = block;
        while cur.round > self.root.round
            invariant
                self.wf(),
                match descent_to_root(*self, cur) {
                    Some(d) => descent_to_root(*self, block) == Some(res@ + d),
                    None => descent_to_root(*self, block) is None,
                },
            decreases walk_rank(*self, cur),
        {
            match self.id_to_block.get(&cur.parent_id) {
                None => {
                    return None;
                },
                Some(parent) => {
                    let parent = *parent;
                    proof {
                        if self.blocks().contains_key(cur.id) && self.blocks()[cur.id] == cur {
                            assert(cur.id != self.root_block().id);
                        }
                        assert(walk_rank(*self, parent) < walk_rank(*self, cur));
                        assert(res@.push(cur) + descent_to_root(*self, parent)->0 =~= res@ + (seq![cur]
                            + descent_to_root(*self, parent)->0));
                    }
                    res.push(cur);
                    cur = parent;
                },
            }
        }
        if cur.id != self.root.id {
            return None;
        }
        proof {
            assert(res@ + Seq::<Block>::empty() =~= res@);
        }
        let mut out: Vec<Block> = Vec::new();
        let mut i: usize = res.len();
        while i > 0
            invariant
                i <= res.len(),
                out@.len() == res.len() - i,
                forall|j: int| 0 <= j < out@.len() ==> #[trigger] out@[j] == res@[res.len() - 1 - j],
            decreases i,
        {
            i = i - 1;
            out.push(res[i]);
        }
        Some(out)
    }

    /// Adds a vote.  A block that already has a certificate answers with that
    /// certificate; a voter that already voted for the same data is refused;
    /// otherwise the vote is kept and, once `min_votes_for_qc` votes for the
    /// same data are gathered, a new certificate is formed from them (it is not
    /// inserted: its block may not be here yet).
    pub fn insert_vote(&mut self, vote: VoteMsg, min_votes_for_qc: usize) -> (r: VoteReceptionResult)
        requires
            old(self).wf(),
        ensures
            final(self).wf(),
            final(self).blocks() == old(self).blocks(),
            final(self).states() == old(self).states(),
            final(self).quorum_certs() == old(self).quorum_certs(),
            final(self).root_block() == old(self).root_block(),
            final(self).highest_certified() == old(self).highest_certified(),
            final(self).highest_qc() == old(self).highest_qc(),
            final(self).highest_li() == old(self).highest_li(),
            r == vote_reception(
                old(self).quorum_certs(),
                votes_for_block(old(self).received_votes(), vote.proposed_block_id),
                vote,
                min_votes_for_qc,
            ),
            final(self).received_votes() == votes_after(old(self).quorum_certs(), old(self).received_votes(), vote),
    {
        let block_id = vote.proposed_block_id();
        if let Some(old_qc) = self.id_to_quorum_cert.get(&block_id) {
            return VoteReceptionResult::OldQuorumCertificate(*old_qc);
        }
        let empty: Vec<VoteMsg> = Vec::new();
        let block_votes: &Vec<VoteMsg> = match self.id_to_votes.get(&block_id) {
            Some(v) => v,
            None => &empty,
        };
        proof {
            assert(block_votes@ == votes_for_block(self.received_votes(), block_id));
        }
        let mut count: usize = 0;
        let mut i: usize = 0;
        while i < block_votes.len()
            invariant
                *self == *old(self),
                self.wf(),
                !self.quorum_certs().contains_key(vote.proposed_block_id),
                block_votes@ == votes_for_block(self.received_votes(), block_id),
                block_id == vote.proposed_block_id,
                i <= block_votes.len(),
                count <= i,
                count == count_same_data(block_votes@.take(i as int), vote),
                forall|j: int|
                    0 <= j < i ==> !(same_vote_data(#[trigger] block_votes@[j], vote)
                        && block_votes@[j].author == vote.author),
            decreases block_votes.len() - i,
        {
            let v = block_votes[i];
            proof {
                assert(block_votes@.take(i as int + 1).drop_last() =~= block_votes@.take(i as int));
            }
            if v.proposed_block_id == vote.proposed_block_id && v.executed_state == vote.executed_state
                && v.round == vote.round && v.ledger_info == vote.ledger_info {
                if v.author == vote.author {
                    return VoteReceptionResult::DuplicateVote;
                }
                count = count + 1;
            }
            i = i + 1;
        }
        let ghost seen = block_votes@;
        proof {
            assert(seen.take(i as int) =~= seen);
            assert(seen.push(vote).drop_last() =~= seen);
        }
        let mut updated: Vec<VoteMsg> = match self.id_to_votes.remove(&block_id) {
            Some(v) => v,
            None => Vec::new(),
        };
        proof {
            assert(updated@ == seen);
        }
        updated.push(vote);
        assert(updated.len() == seen.len() + 1);
        self.id_to_votes.insert(block_id, updated);
        proof {
            assert(self.received_votes() =~= old(self).received_votes().insert(block_id, seen.push(vote)));
        }
        count = count + 1;
        if count >= min_votes_for_qc {
            VoteReceptionResult::NewQuorumCertificate(
                QuorumCert::new(
                    block_id,
                    vote.executed_state(),
                    vote.round(),
                    LedgerInfoWithSignatures::new(vote.ledger_info(), count as u64),
                ),
            )
        } else {
            VoteReceptionResult::VoteAdded(count as u64)
        }
    }

    /// Inserts `block` with its execution state.  A block already in the tree is
    /// returned as it is; a block whose parent is missing is refused.
    pub fn insert_block(&mut self, block: Block, state: ExecutedState) -> (r: Result<Block, BlockTreeError>)
        requires
            old(self).wf(),
            !old(self).blocks().contains_key(block.id) && old(self).blocks().contains_key(
                block.parent_id,
            ) ==> old(self).blocks()[block.parent_id].round < block.round && old(
                self,
            ).root_block().round < block.round,
        ensures
            final(self).wf(),
            old(self).blocks().contains_key(block.id) ==> r == Ok::<Block, BlockTreeError>(
                old(self).blocks()[block.id],
            ) && *final(self) == *old(self),
            !old(self).blocks().contains_key(block.id) && !old(self).blocks().contains_key(
                block.parent_id,
            ) ==> r == Err::<Block, BlockTreeError>(
                BlockTreeError::BlockNotFound { id: block.parent_id },
            ) && *final(self) == *old(self),
            !old(self).blocks().contains_key(block.id) && old(self).blocks().contains_key(
                block.parent_id,
            ) ==> r == Ok::<Block, BlockTreeError>(block) && block_inserted(
                *old(self),
                *final(self),
                block,
                state,
            ),
    {
        if let Some(existing) = self.id_to_block.get(&block.id) {
            return Ok(*existing);
        }
        if !self.id_to_block.contains_key(&block.parent_id) {
            return Err(BlockTreeError::BlockNotFound { id: block.parent_id });
        }
        let ghost old_tree = *self;
        self.id_to_block.insert(block.id, block);
        self.id_to_state.insert(block.id, state);
        proof {
            assert forall|id: HashValue| #[trigger]
                self.blocks().contains_key(id) && id != self.root_block().id implies {
                &&& self.blocks().contains_key(self.blocks()[id].parent_id)
                &&& self.blocks()[self.blocks()[id].parent_id].round < self.blocks()[id].round
                &&& self.root_block().round < self.blocks()[id].round
            } by {
                if id != block.id {
                    assert(old_tree.blocks().contains_key(id));
                }
            }
            assert forall|id: HashValue| #[trigger]
                self.blocks().contains_key(id) <==> self.states().contains_key(id) by {
                assert(old_tree.blocks().contains_key(id) <==> old_tree.states().contains_key(id));
            }
            assert forall|id: HashValue| #[trigger]
                self.quorum_certs().contains_key(id) implies self.blocks().contains_key(id)
                && self.quorum_certs()[id].certified_block_id == id by {
                assert(old_tree.quorum_certs().contains_key(id));
            }
        }
        Ok(block)
    }

    /// Inserts a quorum certificate for a block of the tree.  It becomes the
    /// highest certificate when its block is higher than the highest certified
    /// block, and the highest ledger info when the block it commits is higher
    /// than the one the current highest ledger info commits.  A certificate
    /// already known for the block is kept.
    pub fn insert_quorum_cert(&mut self, qc: QuorumCert) -> (r: Result<(), BlockTreeError>)
        requires
            old(self).wf(),
        ensures
            final(self).wf(),
            !old(self).blocks().contains_key(qc.certified_block_id) ==> r == Err::<(), BlockTreeError>(
                BlockTreeError::BlockNotFound { id: qc.certified_block_id },
            ) && *final(self) == *old(self),
            old(self).blocks().contains_key(qc.certified_block_id) ==> r == Ok::<(), BlockTreeError>(
                (),
            ) && quorum_cert_inserted(*old(self), *final(self), qc),
    {
        let ghost old_tree = *self;
        let block_id = qc.certified_block_id();
        match self.id_to_block.get(&block_id) {
            Some(block) => {
                if block.round > self.highest_certified_block.round {
                    self.highest_certified_block = *block;
                    self.highest_quorum_cert = qc;
                }
            },
            None => {
                return Err(BlockTreeError::BlockNotFound { id: block_id });
            },
        }
        if !self.id_to_quorum_cert.contains_key(&block_id) {
            self.id_to_quorum_cert.insert(block_id, qc);
        }

        let committed_block_id = qc.ledger_info().ledger_info().consensus_block_id();
        if let Some(block) = self.id_to_block.get(&committed_block_id) {
            let current_id = self.highest_ledger_info.ledger_info().ledger_info().consensus_block_id();
            match self.id_to_block.get(&current_id) {
                Some(current) => {
                    if block.round > current.round {
                        self.highest_ledger_info = qc;
                    }
                },
                None => {
                    proof {
                        assert(false);
                    }
                },
            }
        }
        proof {
            assert(self.blocks() == old_tree.blocks());
            assert(self.blocks().contains_key(self.highest_certified().id));
            assert(self.blocks()[self.highest_certified().id] == self.highest_certified());
            assert(self.blocks().contains_key(self.highest_li_block_id()));
            assert forall|id: HashValue| #[trigger]
                self.quorum_certs().contains_key(id) implies self.blocks().contains_key(id)
                && self.quorum_certs()[id].certified_block_id == id by {
                if id != block_id {
                    assert(old_tree.quorum_certs().contains_key(id));
                }
            }
        }
        Ok(())
    }
}

/// Every block of `old` is still in `new`, unchanged: blocks are never
/// removed or replaced.
pub open spec fn blocks_kept(old: BlockTree, new: BlockTree) -> bool {
    forall|id: HashValue| #[trigger]
        old.blocks().contains_key(id) ==> new.blocks().contains_key(id) && new.blocks()[id] == old.blocks()[id]
}

/// Along any sequence of trees, each keeping the blocks of the one before (as
/// every operation of the block store does), a block of the first tree is in
/// the last one, unchanged; so inserting a block with its id again, however
/// much later, returns the block inserted first.
pub proof fn lemma_block_stays(trees: Seq<BlockTree>, id: HashValue)
    requires
        trees.len() > 0,
        forall|k: int| 0 <= k < trees.len() - 1 ==> blocks_kept(#[trigger] trees[k], trees[k + 1]),
        trees[0].blocks().contains_key(id),
    ensures
        trees.last().blocks().contains_key(id),
        trees.last().blocks()[id] == trees[0].blocks()[id],
    decreases trees.len(),
{
    if trees.len() > 1 {
        let pre = trees.drop_last();
        assert forall|k: int| 0 <= k < pre.len() - 1 implies blocks_kept(#[trigger] pre[k], pre[k + 1]) by {
            assert(pre[k] == trees[k] && pre[k + 1] == trees[k + 1]);
        }
        lemma_block_stays(pre, id);
        assert(blocks_kept(trees[trees.len() - 2], trees[trees.len() - 1]));
        assert(pre.last() == trees[trees.len() - 2]);
    }
}

/// `new` is `old` with `block` added with its execution state `state`.
pub open spec fn block_inserted(old: BlockTree, new: BlockTree, block: Block, state: ExecutedState) -> bool {
    &&& new.blocks() == old.blocks().insert(block.id, block)
    &&& new.states() == old.states().insert(block.id, state)
    &&& new.quorum_certs() == old.quorum_certs()
    &&& new.root_block() == old.root_block()
    &&& new.highest_certified() == old.highest_certified()
    &&& new.highest_qc() == old.highest_qc()
    &&& new.highest_li() == old.highest_li()
    &&& new.received_votes() == old.received_votes()
}

/// `new` is `old` after the certificate `qc` of one of its blocks was inserted:
/// the certificate is recorded unless the block already had one, it becomes
/// the highest certificate if its block is higher than the highest certified
/// block, and it becomes the highest ledger info if the block it commits is
/// in the tree higher than the block committed by the current highest ledger
/// info.
pub open spec fn quorum_cert_inserted(old: BlockTree, new: BlockTree, qc: QuorumCert) -> bool {
    let b = old.blocks()[qc.certified_block_id];
    let c = qc.signed_ledger_info.ledger_info.consensus_block_id;
    &&& new.blocks() == old.blocks()
    &&& new.states() == old.states()
    &&& new.root_block() == old.root_block()
    &&& new.received_votes() == old.received_votes()
    &&& new.quorum_certs() == (if old.quorum_certs().contains_key(qc.certified_block_id) {
        old.quorum_certs()
    } else {
        old.quorum_certs().insert(qc.certified_block_id, qc)
    })
    &&& if b.round > old.highest_certified().round {
        new.highest_certified() == b && new.highest_qc() == qc
    } else {
        new.highest_certified() == old.highest_certified() && new.highest_qc() == old.highest_qc()
    }
    &&& new.highest_li() == (if old.blocks().contains_key(c) && old.blocks()[c].round
        > old.blocks()[old.highest_li_block_id()].round {
        qc
    } else {
        old.highest_li()
    })
}

/// The rank of a block in a walk towards the root: its round when it is a
/// block of the tree, and a rank above every round otherwise.
pub open spec fn walk_rank(tree: BlockTree, b: Block) -> int {
    if tree.blocks().contains_key(b.id) && tree.blocks()[b.id] == b {
        b.round as int
    } else {
        u64::MAX as int + 1
    }
}

/// The blocks met when walking from `b` to the root by parent links, from `b`
/// down and the root left out; `None` when the walk leaves the tree or passes
/// the root's round without meeting the root.
pub open spec fn descent_to_root(tree: BlockTree, b: Block) -> Option<Seq<Block>>
    decreases walk_rank(tree, b),
{
    if b.round <= tree.root_block().round {
        if b.id == tree.root_block().id {
            Some(Seq::empty())
        } else {
            None
        }
    } else if tree.blocks().contains_key(b.parent_id) && walk_rank(tree, tree.blocks()[b.parent_id])
        < walk_rank(tree, b) {
        match descent_to_root(tree, tree.blocks()[b.parent_id]) {
            Some(d) => Some(seq![b] + d),
            None => None,
        }
    } else {
        None
    }
}

/// `a` holds the elements of `b` in the opposite order.
pub open spec fn reversed(a: Seq<Block>, b: Seq<Block>) -> bool {
    &&& a.len() == b.len()
    &&& forall|j: int| 0 <= j < a.len() ==> #[trigger] a[j] == b[b.len() - 1 - j]
}

/// Why a block tree operation fails.
#[derive(Clone, Copy, Debug, PartialEq, Eq, Structural)]
pub enum BlockTreeError {
    /// A block that the operation needs is not in the tree.
    BlockNotFound { id: HashValue },
}

} // verus!
