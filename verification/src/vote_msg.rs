//! Votes for proposals and what a replica makes of them.
use vstd::prelude::*;
use crate::common::{Author, ExecutedState, HashValue, LedgerInfo, LedgerInfoWithSignatures, Round};
use crate::quorum_cert::QuorumCert;

verus! {

/// A vote of one validator for a proposed block and the state it executed to.
#[derive(Clone, Copy, Debug, PartialEq, Eq, Structural)]
pub struct VoteMsg {
    /// The id of the block voted for.
    pub proposed_block_id: HashValue,
    /// The execution state that the voter reached with the block.
    pub executed_state: ExecutedState,
    /// The round of the block voted for.
    pub round: Round,
    /// The voter.
    pub author: Author,
    /// The ledger info that the voter signs: a potential commit, carrying the
    /// digest of the vote data.
    pub ledger_info: LedgerInfo,
}

impl VoteMsg {
    /// A vote whose ledger info is `ledger_info_placeholder` with its consensus
    /// data digest set to `vote_digest`, the digest of (block id, executed state,
    /// round) computed by the caller's hashing.
    pub fn new(
        proposed_block_id: HashValue,
        executed_state: ExecutedState,
        round: Round,
        author: Author,
        ledger_info_placeholder: LedgerInfo,
        vote_digest: HashValue,
    ) -> (v: VoteMsg)
        ensures
            v == (VoteMsg {
                proposed_block_id,
                executed_state,
                round,
                author,
                ledger_info: LedgerInfo { consensus_data_hash: vote_digest, ..ledger_info_placeholder },
            }),
    {
        let mut ledger_info = ledger_info_placeholder;
        ledger_info.consensus_data_hash = vote_digest;
        VoteMsg { proposed_block_id, executed_state, round, author, ledger_info }
    }

    pub fn proposed_block_id(&self) -> (r: HashValue)
        ensures
            r == self.proposed_block_id,
    {
        self.proposed_block_id
    }

    pub fn executed_state(&self) -> (r: ExecutedState)
        ensures
            r == self.executed_state,
    {
        self.executed_state
    }

    pub fn round(&self) -> (r: Round)
        ensures
            r == self.round,
    {
        self.round
    }

    pub fn author(&self) -> (r: Author)
        ensures
            r == self.author,
    {
        self.author
    }

    pub fn ledger_info(&self) -> (r: LedgerInfo)
        ensures
            r == self.ledger_info,
    {
        self.ledger_info
    }
}

/// Two votes are for the same data: the same block, executed to the same state
/// at the same round, with the same ledger info.  Votes for the same data are
/// aggregated into one certificate; votes for a block that executed to
/// different states are counted apart.
pub open spec fn same_vote_data(a: VoteMsg, b: VoteMsg) -> bool {
    &&& a.proposed_block_id == b.proposed_block_id
    &&& a.executed_state == b.executed_state
    &&& a.round == b.round
    &&& a.ledger_info == b.ledger_info
}

/// How many of the votes `s` are for the same data as `v`.
pub open spec fn count_same_data(s: Seq<VoteMsg>, v: VoteMsg) -> nat
    decreases s.len(),
{
    if s.len() == 0 {
        0
    } else {
        count_same_data(s.drop_last(), v) + if same_vote_data(s.last(), v) {
            1nat
        } else {
            0nat
        }
    }
}

/// Whether the author of `v` has already voted for the same data.
pub open spec fn already_voted(s: Seq<VoteMsg>, v: VoteMsg) -> bool {
    exists|i: int| 0 <= i < s.len() && same_vote_data(#[trigger] s[i], v) && s[i].author == v.author
}

/// What a store with certificates `qcs` and votes `votes` answers to `v`.
pub open spec fn vote_reception(
    qcs: Map<HashValue, QuorumCert>,
    votes: Seq<VoteMsg>,
    v: VoteMsg,
    min_votes_for_qc: usize,
) -> VoteReceptionResult {
    if qcs.contains_key(v.proposed_block_id) {
        VoteReceptionResult::OldQuorumCertificate(qcs[v.proposed_block_id])
    } else if already_voted(votes, v) {
        VoteReceptionResult::DuplicateVote
    } else {
        let n = count_same_data(votes.push(v), v);
        if n >= min_votes_for_qc {
            VoteReceptionResult::NewQuorumCertificate(
                QuorumCert {
                    certified_block_id: v.proposed_block_id,
                    certified_state: v.executed_state,
                    certified_block_round: v.round,
                    signed_ledger_info: LedgerInfoWithSignatures {
                        ledger_info: v.ledger_info,
                        num_signatures: n as u64,
                    },
                },
            )
        } else {
            VoteReceptionResult::VoteAdded(n as u64)
        }
    }
}

/// The votes received for block `id`, in the order they came.
pub open spec fn votes_for_block(votes: Map<HashValue, Seq<VoteMsg>>, id: HashValue) -> Seq<VoteMsg> {
    if votes.contains_key(id) {
        votes[id]
    } else {
        Seq::empty()
    }
}

/// The votes kept, by block, after `v` is received: `v` is added to the
/// votes of its block unless that block is certified or its author already
/// voted for the same data.
pub open spec fn votes_after(qcs: Map<HashValue, QuorumCert>, votes: Map<HashValue, Seq<VoteMsg>>, v: VoteMsg) -> Map<
    HashValue,
    Seq<VoteMsg>,
> {
    let id = v.proposed_block_id;
    if qcs.contains_key(id) || already_voted(votes_for_block(votes, id), v) {
        votes
    } else {
        votes.insert(id, votes_for_block(votes, id).push(v))
    }
}

/// What becomes of a vote given to the block tree.
#[derive(Clone, Copy, Debug, PartialEq, Eq, Structural)]
pub enum VoteReceptionResult {
    /// The voter had already voted for the same data.
    DuplicateVote,
    /// The vote was added; the number of votes for its data so far.
    VoteAdded(u64),
    /// The vote completed a quorum: the new certificate.
    NewQuorumCertificate(QuorumCert),
    /// The block already has a certificate: that certificate.
    OldQuorumCertificate(QuorumCert),
}

/// What becomes of a vote, stated by its cause: a vote for a certified
/// block is answered with that block's certificate; otherwise a vote whose
/// author already voted for the same data is refused; otherwise it is
/// counted with the earlier votes for the same data, and once `min` of them
/// are gathered they form a certificate of the vote's block, state and round,
/// signed by as many votes.
pub proof fn lemma_vote_reception_cases(
    qcs: Map<HashValue, QuorumCert>,
    votes: Seq<VoteMsg>,
    v: VoteMsg,
    min: usize,
)
    requires
        votes.len() < u64::MAX,
    ensures
        qcs.contains_key(v.proposed_block_id) ==> vote_reception(qcs, votes, v, min)
            == VoteReceptionResult::OldQuorumCertificate(qcs[v.proposed_block_id]),
        !qcs.contains_key(v.proposed_block_id) ==> ((vote_reception(qcs, votes, v, min) == VoteReceptionResult::DuplicateVote)
            <==> exists|i: int| 0 <= i < votes.len() && same_vote_data(#[trigger] votes[i], v) && votes[i].author == v.author),
        vote_reception(qcs, votes, v, min) matches VoteReceptionResult::NewQuorumCertificate(qc) ==> {
            &&& qc.certified_block_id == v.proposed_block_id
            &&& qc.certified_state == v.executed_state
            &&& qc.certified_block_round == v.round
            &&& qc.signed_ledger_info.ledger_info == v.ledger_info
            &&& qc.signed_ledger_info.num_signatures == count_same_data(votes, v) + 1
            &&& count_same_data(votes, v) + 1 >= min
        },
        vote_reception(qcs, votes, v, min) matches VoteReceptionResult::VoteAdded(n) ==> n == count_same_data(votes, v)
            + 1 && n < min,
{
    assert(votes.push(v).drop_last() =~= votes);
    assert(same_vote_data(v, v));
    lemma_count_same_data_bounded(votes, v);
}

proof fn lemma_count_same_data_bounded(s: Seq<VoteMsg>, v: VoteMsg)
    ensures
        count_same_data(s, v) <= s.len(),
    decreases s.len(),
{
    if s.len() > 0 {
        lemma_count_same_data_bounded(s.drop_last(), v);
    }
}

} // verus!
