//! The voting and commit rules that keep a replica safe: it never votes twice
//! in a round, it only votes for blocks that extend its preferred block, and
//! it commits by the three-chain rule.
use vstd::prelude::*;
use crate::common::{HashValue, LedgerInfoWithSignatures, Round};
use crate::block::Block;
use crate::block_tree::BlockTree;
use crate::block_store::BlockStore;
use crate::quorum_cert::QuorumCert;

verus! {

/// The state that a replica must keep across restarts to stay safe.
#[derive(Clone, Copy, Debug, PartialEq, Eq, Structural)]
pub struct ConsensusState {
    /// The highest round in which this replica voted.
    pub last_vote_round: Round,
    /// The round of the last block this replica committed.
    pub last_committed_round: Round,
    /// The round of the preferred block: the head of the highest two-chain known.
    /// A new proposal is voted for only if its parent's round is at least this.
    pub preferred_block_round: Round,
}

impl ConsensusState {
    pub fn new(last_vote_round: Round, last_committed_round: Round, preferred_block_round: Round) -> (s: Self)
        ensures
            s == (ConsensusState { last_vote_round, last_committed_round, preferred_block_round }),
    {
        ConsensusState { last_vote_round, last_committed_round, preferred_block_round }
    }

    pub fn last_vote_round(&self) -> (r: Round)
        ensures
            r == self.last_vote_round,
    {
        self.last_vote_round
    }

    pub fn last_committed_round(&self) -> (r: Round)
        ensures
            r == self.last_committed_round,
    {
        self.last_committed_round
    }

    pub fn preferred_block_round(&self) -> (r: Round)
        ensures
            r == self.preferred_block_round,
    {
        self.preferred_block_round
    }

    /// Raises the last vote round to `round` if that is higher, and returns the
    /// new state; otherwise leaves the state as it is and returns `None`.
    pub fn set_last_vote_round(&mut self, round: Round) -> (r: Option<ConsensusState>)
        ensures
            round <= old(self).last_vote_round ==> r is None && *final(self) == *old(self),
            round > old(self).last_vote_round ==> *final(self) == (ConsensusState {
                last_vote_round: round,
                ..*old(self)
            }) && r == Some(*final(self)),
    {
        if round <= self.last_vote_round {
            None
        } else {
            self.last_vote_round = round;
            Some(*self)
        }
    }

    pub fn set_preferred_block_round(&mut self, round: Round)
        ensures
            *final(self) == (ConsensusState { preferred_block_round: round, ..*old(self) }),
    {
        self.preferred_block_round = round;
    }
}

/// What a replica sends along with its vote for a proposal.
#[derive(Clone, Copy, Debug, PartialEq, Eq, Structural)]
pub struct VoteInfo {
    /// The block voted for.
    pub proposal_id: HashValue,
    /// The round of the block voted for.
    pub proposal_round: Round,
    /// The consensus state to persist before the vote is sent.
    pub consensus_state: ConsensusState,
    /// The block that a certificate for the proposal would commit, if any.
    pub potential_commit_id: Option<HashValue>,
}

impl VoteInfo {
    pub fn proposal_id(&self) -> (r: HashValue)
        ensures
            r == self.proposal_id,
    {
        self.proposal_id
    }

    pub fn proposal_round(&self) -> (r: Round)
        ensures
            r == self.proposal_round,
    {
        self.proposal_round
    }

    pub fn consensus_state(&self) -> (r: ConsensusState)
        ensures
            r == self.consensus_state,
    {
        self.consensus_state
    }

    pub fn potential_commit_id(&self) -> (r: Option<HashValue>)
        ensures
            r == self.potential_commit_id,
    {
        self.potential_commit_id
    }
}

/// Why a replica refuses to vote for a proposal.
#[derive(Clone, Copy, Debug, PartialEq, Eq, Structural)]
pub enum ProposalReject {
    /// The proposal's round is not higher than the last round this replica voted in.
    OldProposal { proposal_round: Round, last_vote_round: Round },
    /// The proposal's parent is older than the preferred block.
    ProposalRoundLowerThenPreferredBlock { preferred_block_round: Round },
}

/// The round of the head of the two-chain that `qc` ends: the parent of the
/// certified block, when both are in the tree.
pub open spec fn two_chain_head_round(tree: BlockTree, qc: QuorumCert) -> Option<Round> {
    if tree.blocks().contains_key(qc.certified_block_id) && tree.blocks().contains_key(
        tree.blocks()[qc.certified_block_id].parent_id,
    ) {
        Some(tree.blocks()[tree.blocks()[qc.certified_block_id].parent_id].round)
    } else {
        None
    }
}

/// The preferred block round after learning of `qc`: raised to the round of
/// the two-chain head when that is at least the current preferred round.
pub open spec fn preferred_round_after(state: ConsensusState, tree: BlockTree, qc: QuorumCert) -> Round {
    match two_chain_head_round(tree, qc) {
        Some(r) => if r >= state.preferred_block_round {
            r
        } else {
            state.preferred_block_round
        },
        None => state.preferred_block_round,
    }
}

/// The block that a ledger info commits: the block it names, when that block
/// is in the tree at a round above the root's.
pub open spec fn committed_by(tree: BlockTree, li: LedgerInfoWithSignatures) -> Option<Block> {
    let id = li.ledger_info.consensus_block_id;
    if tree.blocks().contains_key(id) && tree.blocks()[id].round > tree.root_block().round {
        Some(tree.blocks()[id])
    } else {
        None
    }
}

/// The three-chain commit rule: the block `b0` committed when `b` is certified,
/// if `b0 <- b1 <- b` are linked by parenthood with consecutive rounds.
pub open spec fn three_chain_commit(tree: BlockTree, b: Block) -> Option<Block> {
    if tree.blocks().contains_key(b.parent_id) && tree.blocks().contains_key(
        tree.blocks()[b.parent_id].parent_id,
    ) {
        let b1 = tree.blocks()[b.parent_id];
        let b0 = tree.blocks()[b1.parent_id];
        if b0.round + 1 == b1.round && b1.round + 1 == b.round {
            Some(b0)
        } else {
            None
        }
    } else {
        None
    }
}

/// The state after processing a ledger info: the last committed round is
/// raised to the round of the block it commits, if that is higher, so that it
/// stays the highest committed round known.
pub open spec fn state_after_ledger_info(
    state: ConsensusState,
    tree: BlockTree,
    li: LedgerInfoWithSignatures,
) -> ConsensusState {
    match committed_by(tree, li) {
        Some(b) => if b.round > state.last_committed_round {
            ConsensusState { last_committed_round: b.round, ..state }
        } else {
            state
        },
        None => state,
    }
}

/// The state after learning of a quorum certificate.
pub open spec fn state_after_update(state: ConsensusState, tree: BlockTree, qc: QuorumCert) -> ConsensusState {
    state_after_ledger_info(
        ConsensusState { preferred_block_round: preferred_round_after(state, tree, qc), ..state },
        tree,
        qc.signed_ledger_info,
    )
}

/// The outcome of the voting rule on a proposed block: the new state and the
/// vote or the reason for refusing.
pub open spec fn voting_outcome(state: ConsensusState, tree: BlockTree, b: Block) -> (
    ConsensusState,
    Result<VoteInfo, ProposalReject>,
) {
    if b.round <= state.last_vote_round {
        (
            state,
            Err(
                ProposalReject::OldProposal {
                    proposal_round: b.round,
                    last_vote_round: state.last_vote_round,
                },
            ),
        )
    } else if tree.blocks()[b.parent_id].round >= state.preferred_block_round {
        let s = ConsensusState { last_vote_round: b.round, ..state };
        (
            s,
            Ok(
                VoteInfo {
                    proposal_id: b.id,
                    proposal_round: b.round,
                    consensus_state: s,
                    potential_commit_id: match three_chain_commit(tree, b) {
                        Some(c) => Some(c.id),
                        None => None,
                    },
                },
            ),
        )
    } else {
        (
            state,
            Err(
                ProposalReject::ProposalRoundLowerThenPreferredBlock {
                    preferred_block_round: state.preferred_block_round,
                },
            ),
        )
    }
}

/// The state after a timeout raises the last vote round to `round`.
pub open spec fn state_after_raising_vote_round(state: ConsensusState, round: Round) -> ConsensusState {
    if round > state.last_vote_round {
        ConsensusState { last_vote_round: round, ..state }
    } else {
        state
    }
}

/// The safety rules of a replica: its consensus state, read against the block tree.
pub struct SafetyRules {
    pub state: ConsensusState,
}

impl SafetyRules {
    pub fn new(state: ConsensusState) -> (r: Self)
        ensures
            r.state == state,
    {
        SafetyRules { state }
    }

    /// Learns about a new quorum certificate: raises the preferred block round to
    /// the head of the highest two-chain, then checks whether the certificate's
    /// ledger info commits a block, and returns that block.
    pub fn update(&mut self, qc: &QuorumCert, block_tree: &BlockStore) -> (r: Option<Block>)
        requires
            block_tree.wf(),
        ensures
            final(self).state == state_after_update(old(self).state, block_tree.tree(), *qc),
            r == committed_by(block_tree.tree(), qc.signed_ledger_info),
    {
        if let Some(one_chain_head) = block_tree.get_block(qc.certified_block_id()) {
            if let Some(two_chain_head) = block_tree.get_block(one_chain_head.parent_id()) {
                if two_chain_head.round() >= self.state.preferred_block_round() {
                    self.state.set_preferred_block_round(two_chain_head.round());
                }
            }
        }
        self.process_ledger_info(qc.ledger_info(), block_tree)
    }

    /// Checks whether a ledger info commits a block of the tree above the root;
    /// if so raises the last committed round to its round (when higher) and
    /// returns it.
    pub fn process_ledger_info(
        &mut self,
        ledger_info: &LedgerInfoWithSignatures,
        block_tree: &BlockStore,
    ) -> (r: Option<Block>)
        requires
            block_tree.wf(),
        ensures
            final(self).state == state_after_ledger_info(old(self).state, block_tree.tree(), *ledger_info),
            r == committed_by(block_tree.tree(), *ledger_info),
    {
        let committed_block_id = ledger_info.ledger_info().consensus_block_id();
        if let Some(committed_block) = block_tree.get_block(committed_block_id) {
            if committed_block.round() > block_tree.root().round() {
                if committed_block.round() > self.state.last_committed_round {
                    self.state.last_committed_round = committed_block.round();
                }
                return Some(committed_block);
            }
        }
        None
    }

    /// The three-chain commit rule: returns the grandparent of `one_chain_head`
    /// when the three blocks have consecutive rounds.
    pub fn commit_rule_for_certified_block(&self, one_chain_head: Block, block_tree: &BlockStore) -> (r: Option<Block>)
        requires
            block_tree.wf(),
        ensures
            r == three_chain_commit(block_tree.tree(), one_chain_head),
    {
        if let Some(two_chain_head) = block_tree.get_block(one_chain_head.parent_id()) {
            if let Some(three_chain_head) = block_tree.get_block(two_chain_head.parent_id()) {
                if three_chain_head.round() < two_chain_head.round()
                    && two_chain_head.round() - three_chain_head.round() == 1
                    && two_chain_head.round() < one_chain_head.round()
                    && one_chain_head.round() - two_chain_head.round() == 1 {
                    return Some(three_chain_head);
                }
            }
        }
        None
    }

    /// The highest known committed round.
    pub fn last_committed_round(&self) -> (r: Round)
        ensures
            r == self.state.last_committed_round,
    {
        self.state.last_committed_round
    }

    /// Raises the last vote round to `round` if that is higher and returns the new
    /// state; otherwise changes nothing and returns `None`.
    pub fn increase_last_vote_round(&mut self, round: Round) -> (r: Option<ConsensusState>)
        ensures
            final(self).state == state_after_raising_vote_round(old(self).state, round),
            r == (if round > old(self).state.last_vote_round {
                Some(final(self).state)
            } else {
                None
            }),
    {
        self.state.set_last_vote_round(round)
    }

    /// A copy of the current consensus state.
    pub fn consensus_state(&self) -> (r: ConsensusState)
        ensures
            r == self.state,
    {
        self.state
    }

    /// The voting rule: votes for `proposed_block` only if its round is above the
    /// last vote round and its parent's round is at least the preferred block
    /// round; a vote raises the last vote round to the proposal's round.
    pub fn voting_rule(&mut self, proposed_block: Block, block_tree: &BlockStore) -> (r: Result<VoteInfo, ProposalReject>)
        requires
            block_tree.wf(),
            proposed_block.round > old(self).state.last_vote_round ==> block_tree.tree().blocks().contains_key(
                proposed_block.parent_id,
            ),
        ensures
            (final(self).state, r) == voting_outcome(old(self).state, block_tree.tree(), proposed_block),
    {
        if proposed_block.round() <= self.state.last_vote_round() {
            return Err(
                ProposalReject::OldProposal {
                    proposal_round: proposed_block.round(),
                    last_vote_round: self.state.last_vote_round(),
                },
            );
        }
        let parent_block = match block_tree.get_block(proposed_block.parent_id()) {
            Some(b) => b,
            None => {
                proof {
                    assert(false);
                }
                return Err(
                    ProposalReject::ProposalRoundLowerThenPreferredBlock {
                        preferred_block_round: self.state.preferred_block_round(),
                    },
                );
            },
        };
        let parent_block_round = parent_block.round();
        let respects_preferred_block = parent_block_round >= self.state.preferred_block_round();
        if respects_preferred_block {
            self.state.set_last_vote_round(proposed_block.round());
            let potential_commit = self.commit_rule_for_certified_block(proposed_block, block_tree);
            let potential_commit_id = match potential_commit {
                None => None,
                Some(commit_block) => Some(commit_block.id()),
            };
            Ok(
                VoteInfo {
                    proposal_id: proposed_block.id(),
                    proposal_round: proposed_block.round(),
                    consensus_state: self.state,
                    potential_commit_id,
                },
            )
        } else {
            Err(
                ProposalReject::ProposalRoundLowerThenPreferredBlock {
                    preferred_block_round: self.state.preferred_block_round(),
                },
            )
        }
    }
}

/// Once a replica has voted for a block at round `r`, the voting rule refuses
/// every proposal at round `r` or below, whatever the block tree is then: a
/// replica never votes twice in one round.
pub proof fn lemma_no_second_vote_in_a_round(
    state: ConsensusState,
    tree: BlockTree,
    voted: Block,
    later_tree: BlockTree,
    other: Block,
)
    requires
        voting_outcome(state, tree, voted).1 is Ok,
        other.round <= voted.round,
    ensures
        voting_outcome(voting_outcome(state, tree, voted).0, later_tree, other).1 is Err,
{
}

/// A vote leaves the last vote round at the round of the block voted for,
/// which is above the previous last vote round; a refusal changes nothing.
pub proof fn lemma_vote_raises_last_vote_round(state: ConsensusState, tree: BlockTree, b: Block)
    ensures
        voting_outcome(state, tree, b).1 is Ok ==> voting_outcome(state, tree, b).0.last_vote_round
            == b.round && b.round > state.last_vote_round,
        voting_outcome(state, tree, b).1 is Err ==> voting_outcome(state, tree, b).0 == state,
{
}

/// The last vote round never decreases: not by a vote, nor by learning of a
/// certificate, nor by a timeout.
pub proof fn lemma_last_vote_round_never_decreases(
    state: ConsensusState,
    tree: BlockTree,
    b: Block,
    qc: QuorumCert,
    round: Round,
)
    ensures
        voting_outcome(state, tree, b).0.last_vote_round >= state.last_vote_round,
        state_after_update(state, tree, qc).last_vote_round == state.last_vote_round,
        state_after_raising_vote_round(state, round).last_vote_round >= state.last_vote_round,
{
}

/// After a timeout at round `r` raises the last vote round, the replica
/// refuses every proposal at round `r` or below.
pub proof fn lemma_no_vote_after_timeout(state: ConsensusState, round: Round, tree: BlockTree, b: Block)
    requires
        b.round <= round,
    ensures
        voting_outcome(state_after_raising_vote_round(state, round), tree, b).1 is Err,
{
}

/// The preferred block round never decreases when the replica learns of a
/// certificate, and a vote leaves it as it was.
pub proof fn lemma_preferred_round_never_decreases(
    state: ConsensusState,
    tree: BlockTree,
    qc: QuorumCert,
    b: Block,
)
    ensures
        state_after_update(state, tree, qc).preferred_block_round >= state.preferred_block_round,
        voting_outcome(state, tree, b).0.preferred_block_round == state.preferred_block_round,
{
}

/// Every vote is for a block whose parent is at least as high as the
/// preferred block.
pub proof fn lemma_vote_respects_preferred_block(state: ConsensusState, tree: BlockTree, b: Block)
    requires
        voting_outcome(state, tree, b).1 is Ok,
    ensures
        tree.blocks()[b.parent_id].round >= state.preferred_block_round,
{
}

/// A block committed by a ledger info is in the tree above the root, and the
/// last committed round is raised to its round when that is higher.
pub proof fn lemma_commit_is_above_root(state: ConsensusState, tree: BlockTree, li: LedgerInfoWithSignatures)
    requires
        tree.wf(),
        committed_by(tree, li) is Some,
    ensures
        tree.blocks().contains_key(committed_by(tree, li)->0.id),
        committed_by(tree, li)->0.round > tree.root_block().round,
        state_after_ledger_info(state, tree, li).last_committed_round == if committed_by(tree, li)->0.round
            > state.last_committed_round {
            committed_by(tree, li)->0.round
        } else {
            state.last_committed_round
        },
{
}

/// The block committed by the three-chain rule is the grandparent of the
/// certified block, two rounds below it.
pub proof fn lemma_three_chain_commit_shape(tree: BlockTree, b: Block)
    requires
        three_chain_commit(tree, b) is Some,
    ensures
        tree.blocks().contains_key(b.parent_id),
        tree.blocks()[tree.blocks()[b.parent_id].parent_id] == three_chain_commit(tree, b)->0,
        three_chain_commit(tree, b)->0.round + 2 == b.round,
{
}

/// One call on a replica's safety rules, with the block tree it reads.
pub enum SafetyCall {
    /// `SafetyRules::update` with a quorum certificate.
    Update { tree: BlockTree, qc: QuorumCert },
    /// `SafetyRules::process_ledger_info` with a ledger info.
    ProcessLedgerInfo { tree: BlockTree, li: LedgerInfoWithSignatures },
    /// `SafetyRules::increase_last_vote_round`, as on a local timeout of `round`.
    IncreaseLastVoteRound { round: Round },
    /// `SafetyRules::voting_rule` on a proposed block.
    VotingRule { tree: BlockTree, block: Block },
}

/// The consensus state after one call.
pub open spec fn state_after_call(state: ConsensusState, call: SafetyCall) -> ConsensusState {
    match call {
        SafetyCall::Update { tree, qc } => state_after_update(state, tree, qc),
        SafetyCall::ProcessLedgerInfo { tree, li } => state_after_ledger_info(state, tree, li),
        SafetyCall::IncreaseLastVoteRound { round } => state_after_raising_vote_round(state, round),
        SafetyCall::VotingRule { tree, block } => voting_outcome(state, tree, block).0,
    }
}

/// The vote that one call casts, if it is a vote that the voting rule allows.
pub open spec fn vote_of_call(state: ConsensusState, call: SafetyCall) -> Option<VoteInfo> {
    match call {
        SafetyCall::VotingRule { tree, block } => match voting_outcome(state, tree, block).1 {
            Ok(v) => Some(v),
            Err(_) => None,
        },
        _ => None,
    }
}

/// The consensus state after a sequence of calls.
pub open spec fn state_after_calls(state: ConsensusState, calls: Seq<SafetyCall>) -> ConsensusState
    decreases calls.len(),
{
    if calls.len() == 0 {
        state
    } else {
        state_after_call(state_after_calls(state, calls.drop_last()), calls.last())
    }
}

proof fn lemma_calls_step(state: ConsensusState, calls: Seq<SafetyCall>, i: int)
    requires
        0 <= i < calls.len(),
    ensures
        state_after_calls(state, calls.take(i + 1)) == state_after_call(state_after_calls(state, calls.take(i)), calls[i]),
{
    assert(calls.take(i + 1).drop_last() =~= calls.take(i));
    assert(calls.take(i + 1).last() == calls[i]);
}

/// Over any sequence of safety-rule calls, the last vote round, the preferred
/// block round and the last committed round never decrease.
pub proof fn lemma_rounds_never_decrease(state: ConsensusState, calls: Seq<SafetyCall>, i: int, j: int)
    requires
        0 <= i <= j <= calls.len(),
    ensures
        state_after_calls(state, calls.take(j)).last_vote_round >= state_after_calls(state, calls.take(i)).last_vote_round,
        state_after_calls(state, calls.take(j)).preferred_block_round >= state_after_calls(state, calls.take(i)).preferred_block_round,
        state_after_calls(state, calls.take(j)).last_committed_round >= state_after_calls(state, calls.take(i)).last_committed_round,
    decreases j - i,
{
    if i < j {
        lemma_rounds_never_decrease(state, calls, i, j - 1);
        lemma_calls_step(state, calls, j - 1);
    }
}

/// Over any sequence of safety-rule calls, the votes cast are in strictly
/// increasing rounds: a replica never votes twice in one round.
pub proof fn lemma_votes_in_increasing_rounds(state: ConsensusState, calls: Seq<SafetyCall>, i: int, j: int)
    requires
        0 <= i < j < calls.len(),
        vote_of_call(state_after_calls(state, calls.take(i)), calls[i]) is Some,
        vote_of_call(state_after_calls(state, calls.take(j)), calls[j]) is Some,
    ensures
        vote_of_call(state_after_calls(state, calls.take(j)), calls[j])->0.proposal_round > vote_of_call(
            state_after_calls(state, calls.take(i)),
            calls[i],
        )->0.proposal_round,
{
    lemma_calls_step(state, calls, i);
    lemma_rounds_never_decrease(state, calls, i + 1, j);
}

/// After a local timeout of round `r` (a call raising the last vote round to
/// `r`), whatever safety-rule calls follow, the voting rule refuses every
/// proposal at round `r` or below as old and leaves the state as it is.
pub proof fn lemma_no_vote_after_timeout_ever(state: ConsensusState, calls: Seq<SafetyCall>, i: int, j: int)
    requires
        0 <= i < j < calls.len(),
        calls[i] matches SafetyCall::IncreaseLastVoteRound { round } && calls[j] matches SafetyCall::VotingRule {
            block,
            ..
        } && block.round <= round,
    ensures
        vote_of_call(state_after_calls(state, calls.take(j)), calls[j]) is None,
        state_after_calls(state, calls.take(j + 1)) == state_after_calls(state, calls.take(j)),
        ({
            let s = state_after_calls(state, calls.take(j));
            match calls[j] {
                SafetyCall::VotingRule { tree, block } => voting_outcome(s, tree, block).1 == Err::<
                    VoteInfo,
                    ProposalReject,
                >(ProposalReject::OldProposal { proposal_round: block.round, last_vote_round: s.last_vote_round }),
                _ => true,
            }
        }),
{
    lemma_calls_step(state, calls, i);
    lemma_calls_step(state, calls, j);
    lemma_rounds_never_decrease(state, calls, i + 1, j);
}

/// The block that one call commits, if any: the block its ledger info
/// commits, for a call that learns of a certificate or a ledger info.
pub open spec fn commit_of_call(state: ConsensusState, call: SafetyCall) -> Option<Block> {
    match call {
        SafetyCall::Update { tree, qc } => committed_by(tree, qc.signed_ledger_info),
        SafetyCall::ProcessLedgerInfo { tree, li } => committed_by(tree, li),
        _ => None,
    }
}

/// The block committed by call `i` of a sequence, if any.
pub open spec fn commit_at(state: ConsensusState, calls: Seq<SafetyCall>, i: int) -> Option<Block> {
    commit_of_call(state_after_calls(state, calls.take(i)), calls[i])
}

/// Over any sequence of safety-rule calls, the last committed round is the
/// highest round known committed: at least the round of every block the calls
/// committed, and either the round it started from or the round of one of them.
pub proof fn lemma_last_committed_round_is_highest(state: ConsensusState, calls: Seq<SafetyCall>, n: int)
    requires
        0 <= n <= calls.len(),
    ensures
        state_after_calls(state, calls.take(n)).last_committed_round >= state.last_committed_round,
        forall|i: int|
            0 <= i < n && #[trigger] commit_at(state, calls, i) is Some ==> state_after_calls(
                state,
                calls.take(n),
            ).last_committed_round >= commit_at(state, calls, i)->0.round,
        state_after_calls(state, calls.take(n)).last_committed_round == state.last_committed_round || exists|
            i: int,
        |
            0 <= i < n && #[trigger] commit_at(state, calls, i) is Some && commit_at(state, calls, i)->0.round
                == state_after_calls(state, calls.take(n)).last_committed_round,
    decreases n,
{
    if n == 0 {
        assert(calls.take(0) =~= Seq::<SafetyCall>::empty());
    } else {
        let p = n - 1;
        lemma_last_committed_round_is_highest(state, calls, p);
        lemma_calls_step(state, calls, p);
        let sp = state_after_calls(state, calls.take(p));
        let sn = state_after_calls(state, calls.take(n));
        assert(sn.last_committed_round >= sp.last_committed_round);
        if sn.last_committed_round != sp.last_committed_round {
            assert(commit_at(state, calls, p) is Some && commit_at(state, calls, p)->0.round == sn.last_committed_round);
        } else if sn.last_committed_round != state.last_committed_round {
            let i = choose|i: int|
                0 <= i < p && #[trigger] commit_at(state, calls, i) is Some && commit_at(state, calls, i)->0.round
                    == sp.last_committed_round;
            assert(commit_at(state, calls, i)->0.round == sn.last_committed_round);
        }
    }
}

/// The state right after a vote is the state the vote carries (to be
/// persisted before the vote is sent), and it is what `consensus_state`
/// returns until the next call.
pub proof fn lemma_state_after_vote(state: ConsensusState, calls: Seq<SafetyCall>, i: int)
    requires
        0 <= i < calls.len(),
        vote_of_call(state_after_calls(state, calls.take(i)), calls[i]) is Some,
    ensures
        state_after_calls(state, calls.take(i + 1)) == vote_of_call(
            state_after_calls(state, calls.take(i)),
            calls[i],
        )->0.consensus_state,
{
    lemma_calls_step(state, calls, i);
}

/// What the voting rule decides, for any proposal whose parent is in the tree
/// (the rule reads the parent only past the first check): a proposal at or
/// below the last vote round is refused as old; one above it whose parent is
/// below the preferred block round is refused for that; every other one is
/// voted for, however many rounds lie between the parent and the proposal.
/// A vote names the block and its round, raises the last vote round to that
/// round and changes nothing else; a refusal changes nothing.  The vote's
/// potential commit is the proposal's grandparent exactly when grandparent,
/// parent and proposal are in consecutive rounds.
pub proof fn lemma_voting_rule_decides(state: ConsensusState, tree: BlockTree, b: Block)
    requires
        b.round > state.last_vote_round ==> tree.blocks().contains_key(b.parent_id),
    ensures
        b.round <= state.last_vote_round ==> voting_outcome(state, tree, b).0 == state && voting_outcome(state, tree, b).1
            == Err::<VoteInfo, ProposalReject>(
            ProposalReject::OldProposal { proposal_round: b.round, last_vote_round: state.last_vote_round },
        ),
        b.round > state.last_vote_round && tree.blocks()[b.parent_id].round < state.preferred_block_round ==> voting_outcome(
            state,
            tree,
            b,
        ).0 == state && voting_outcome(state, tree, b).1 == Err::<VoteInfo, ProposalReject>(
            ProposalReject::ProposalRoundLowerThenPreferredBlock { preferred_block_round: state.preferred_block_round },
        ),
        b.round > state.last_vote_round && tree.blocks()[b.parent_id].round >= state.preferred_block_round ==> {
            let (s, r) = voting_outcome(state, tree, b);
            &&& r is Ok
            &&& r->Ok_0.proposal_id == b.id
            &&& r->Ok_0.proposal_round == b.round
            &&& s.last_vote_round == b.round
            &&& s.last_committed_round == state.last_committed_round
            &&& s.preferred_block_round == state.preferred_block_round
            &&& r->Ok_0.consensus_state == s
            &&& {
                let p = tree.blocks()[b.parent_id];
                let g = tree.blocks()[p.parent_id];
                r->Ok_0.potential_commit_id == if tree.blocks().contains_key(p.parent_id) && g.round + 1 == p.round
                    && p.round + 1 == b.round {
                    Some(g.id)
                } else {
                    None::<HashValue>
                }
            }
        },
{
}

/// Learning of a certificate: when the certified block and its parent are in
/// the tree, the preferred block round becomes the higher of the old one and
/// the round of that parent block (the head of the two-chain the certificate
/// ends); otherwise it stays.  The last vote round never changes, and the last
/// committed round rises to the round of the block the certificate's ledger
/// info commits, if any and if higher.
pub proof fn lemma_update_preferred_round(state: ConsensusState, tree: BlockTree, qc: QuorumCert)
    ensures
        ({
            let s = state_after_update(state, tree, qc);
            let blocks = tree.blocks();
            let certified = qc.certified_block_id;
            &&& s.last_vote_round == state.last_vote_round
            &&& blocks.contains_key(certified) && blocks.contains_key(blocks[certified].parent_id)
                ==> s.preferred_block_round == if blocks[blocks[certified].parent_id].round >= state.preferred_block_round {
                blocks[blocks[certified].parent_id].round
            } else {
                state.preferred_block_round
            }
            &&& !(blocks.contains_key(certified) && blocks.contains_key(blocks[certified].parent_id))
                ==> s.preferred_block_round == state.preferred_block_round
            &&& s.last_committed_round == match committed_by(tree, qc.signed_ledger_info) {
                Some(c) => if c.round > state.last_committed_round {
                    c.round
                } else {
                    state.last_committed_round
                },
                None => state.last_committed_round,
            }
        }),
{
}

/// A ledger info commits exactly the block it names, when that block is in
/// the tree at a round above the root's, and nothing otherwise.
pub proof fn lemma_ledger_info_commits_its_block(tree: BlockTree, li: LedgerInfoWithSignatures)
    ensures
        committed_by(tree, li) is Some <==> (tree.blocks().contains_key(li.ledger_info.consensus_block_id)
            && tree.blocks()[li.ledger_info.consensus_block_id].round > tree.root_block().round),
        committed_by(tree, li) is Some ==> committed_by(tree, li)->0 == tree.blocks()[li.ledger_info.consensus_block_id],
{
}

/// The three-chain rule commits the grandparent of a certified block exactly
/// when parent and grandparent are in the tree and the three blocks are in
/// consecutive rounds.
pub proof fn lemma_three_chain_commit_when(tree: BlockTree, b: Block)
    ensures
        ({
            let blocks = tree.blocks();
            let p = blocks[b.parent_id];
            let g = blocks[p.parent_id];
            &&& (three_chain_commit(tree, b) is Some) <==> (blocks.contains_key(b.parent_id) && blocks.contains_key(
                p.parent_id,
            ) && g.round + 1 == p.round && p.round + 1 == b.round)
            &&& three_chain_commit(tree, b) is Some ==> three_chain_commit(tree, b)->0 == g
        }),
{
}

} // verus!
