//! The decisions a replica takes on each event: a new round, a proposal, a
//! winning proposal, a vote, a timeout.  Each function takes the event and
//! returns the actions to perform (messages to send, blocks to fetch, state to
//! persist); the caller performs them and hands back what they yield.
use vstd::prelude::*;
use crate::common::{Author, ExecutedState, HashValue, LedgerInfo, Round};
use crate::block::Block;
use crate::block_store::{
    fetch_need, parent_info, placeholder_for, BlockStore, InsertError, NeedFetchResult,
    StateComputeResult,
};
use crate::block_tree::{block_inserted, descent_to_root, quorum_cert_inserted, reversed};
use crate::pacemaker::{certificates_processed, LocalPacemaker, NewRoundEvent, NewRoundReason};
use crate::proposal_generator::{generator_step, proposal_block, ProposalGenerator};
use crate::proposer_election::{ProposalInfo, ProposerElection, RotatingProposer};
use crate::quorum_cert::QuorumCert;
use crate::safety_rules::{
    committed_by, state_after_update, voting_outcome, ConsensusState, SafetyRules,
};
use crate::timeout::{timeout_recorded, PacemakerTimeout, PacemakerTimeoutCertificate};
use crate::vote_msg::{vote_reception, votes_after, votes_for_block, VoteMsg, VoteReceptionResult};

verus! {

/// A validator's timeout for a round, with its highest certificates so that
/// others can catch up.
pub struct TimeoutMsg {
    pub highest_quorum_certificate: QuorumCert,
    pub highest_ledger_info: QuorumCert,
    pub pacemaker_timeout: PacemakerTimeout,
    pub author: Author,
}

impl TimeoutMsg {
    pub fn new(
        highest_quorum_certificate: QuorumCert,
        highest_ledger_info: QuorumCert,
        pacemaker_timeout: PacemakerTimeout,
        author: Author,
    ) -> (m: Self)
        ensures
            m == (TimeoutMsg { highest_quorum_certificate, highest_ledger_info, pacemaker_timeout, author }),
    {
        TimeoutMsg { highest_quorum_certificate, highest_ledger_info, pacemaker_timeout, author }
    }
}

/// What to synchronize to, and from whom.
pub struct SyncInfo {
    pub highest_ledger_info: QuorumCert,
    pub highest_quorum_cert: QuorumCert,
    pub peer: Author,
}

/// What to do with an incoming proposal.
pub enum ProcessProposalResult {
    /// Nothing: the proposal is old, from an invalid proposer, carries no
    /// committed block, or certifies a block older than the root.
    Done,
    /// Fetch the block certified by the proposal's certificate, then finish processing.
    NeedFetch(ProposalInfo),
    /// Synchronize to the proposal's ledger info, then finish processing.
    NeedSync(ProposalInfo),
    /// Insert the proposal's certificate (its block is here), then finish processing.
    InsertQuorumCert(ProposalInfo),
    /// The certificate is already here: finish processing.
    Ready(ProposalInfo),
}

/// What finishing the processing of a proposal yields.
pub struct FinishedProposal {
    /// The new round started by the proposal's certificates, if any.
    pub new_round_event: Option<NewRoundEvent>,
    /// The proposal, passed on as the winning proposal of its round, if it is
    /// for the current round and from its valid proposer.
    pub winning_proposal: Option<ProposalInfo>,
}

/// A vote this replica decided to cast; the caller's cryptography computes its
/// digest and signature (see `VoteMsg::new`) and sends it to the recipients.
pub struct VoteDecision {
    pub proposal_id: HashValue,
    pub executed_state: ExecutedState,
    pub round: Round,
    pub ledger_info_placeholder: LedgerInfo,
    /// The consensus state to persist before the vote is sent.
    pub consensus_state: ConsensusState,
    /// The valid proposers of the next round.
    pub recipients: Vec<Author>,
}

/// What learning of a winning proposal's certificate yields.
pub struct WinningProposalCommit {
    /// The block newly committed by the proposal's certificate, if any.
    pub committed_block: Option<Block>,
    /// The blocks from the root to the committed block, whose transactions the
    /// mempool is to be told about.
    pub blocks_to_notify: Vec<Block>,
}

/// What inserting a winning proposal's block yields.
pub struct WinningProposalVote {
    /// Why the block could not be inserted, if it could not.
    pub insert_error: Option<InsertError>,
    /// The vote to cast, if any.
    pub vote: Option<VoteDecision>,
}

/// What processing a winning proposal yields.
pub struct WinningProposalOutcome {
    /// The block newly committed by the proposal's certificate, if any.
    pub committed_block: Option<Block>,
    /// The blocks from the root to the committed block, whose transactions the
    /// mempool is to be told about.
    pub blocks_to_notify: Vec<Block>,
    /// Why the block could not be inserted, if it could not.
    pub insert_error: Option<InsertError>,
    /// The vote to cast, if any.
    pub vote: Option<VoteDecision>,
}

/// What becomes of an incoming vote.
pub enum VoteOutcome {
    /// This validator is not a valid proposer for the round after the vote's:
    /// the vote is ignored.
    InvalidRecipient,
    /// The vote was received: added, refused as a duplicate, or its block
    /// already certified.
    Received(VoteReceptionResult),
    /// The vote completed a certificate whose block must first be fetched from the voter.
    FetchQuorumCert { qc: QuorumCert, peer: Author },
    /// The vote completed a certificate whose block is here: insert it.
    InsertQuorumCert(QuorumCert),
}

/// What processing a timeout message yields.
pub struct TimeoutMsgOutcome {
    /// Synchronize to the higher certificate the message carries, if it does.
    pub sync: Option<SyncInfo>,
    /// The new round started by the timeout, if any.
    pub new_round_event: Option<NewRoundEvent>,
    /// Whether the timeout completed a new highest local timeout certificate
    /// (the highest certificates are then to be persisted).
    pub local_certificate_formed: bool,
}

/// What a local timeout yields.
pub struct OutgoingTimeout {
    /// The consensus state to persist (when the last vote round was raised).
    pub consensus_state_to_save: Option<ConsensusState>,
    /// The timeout message to broadcast.
    pub timeout_msg: TimeoutMsg,
}

/// The state of one replica: its block store, safety rules, pacemaker,
/// proposer election and proposal generator.
pub struct NodeState {
    pub author: Author,
    pub block_store: BlockStore,
    pub safety_rules: SafetyRules,
    pub pacemaker: LocalPacemaker,
    pub proposer_election: RotatingProposer,
    pub proposal_generator: ProposalGenerator,
}

/// How an incoming proposal is classified.
pub open spec fn proposal_decision(
    store: BlockStore,
    current_round: Round,
    election: RotatingProposer,
    proposal: ProposalInfo,
) -> ProcessProposalResult {
    let qc = proposal.proposal.quorum_cert;
    if proposal.proposal.round < current_round {
        ProcessProposalResult::Done
    } else if !election.is_proposer_for(proposal.proposer_info, proposal.proposal.round) {
        ProcessProposalResult::Done
    } else if proposal.highest_ledger_info.spec_committed_block_id() is None {
        ProcessProposalResult::Done
    } else if !(store.tree().blocks().contains_key(
        proposal.highest_ledger_info.spec_committed_block_id()->0,
    ) || store.tree().root_block().round + 2 >= proposal.highest_ledger_info.certified_block_round) {
        ProcessProposalResult::NeedSync(proposal)
    } else {
        match fetch_need(store.tree(), qc) {
            NeedFetchResult::NeedFetch => ProcessProposalResult::NeedFetch(proposal),
            NeedFetchResult::QCRoundBeforeRoot => ProcessProposalResult::Done,
            NeedFetchResult::QCBlockExist => ProcessProposalResult::InsertQuorumCert(proposal),
            NeedFetchResult::QCAlreadyExist => ProcessProposalResult::Ready(proposal),
        }
    }
}

impl NodeState {
    pub open spec fn wf(&self) -> bool {
        &&& self.block_store.wf()
        &&& self.pacemaker.wf()
    }

    pub fn new(
        author: Author,
        block_store: BlockStore,
        safety_rules: SafetyRules,
        pacemaker: LocalPacemaker,
        proposer_election: RotatingProposer,
        proposal_generator: ProposalGenerator,
    ) -> (p: Self)
        requires
            block_store.wf(),
            pacemaker.wf(),
        ensures
            p.wf(),
            p == (NodeState {
                author,
                block_store,
                safety_rules,
                pacemaker,
                proposer_election,
                proposal_generator,
            }),
    {
        NodeState {
            author,
            block_store,
            safety_rules,
            pacemaker,
            proposer_election,
            proposal_generator,
        }
    }

    /// On a new round: if this replica is the round's proposer, generates a
    /// proposal (at most one per round) carrying the timeout certificate that
    /// started the round, if any, and the highest ledger info.
    pub fn process_new_round_event(
        &mut self,
        new_round_event: NewRoundEvent,
        block_id: HashValue,
        timestamp_usecs: u64,
    ) -> (r: Option<ProposalInfo>)
        requires
            old(self).wf(),
            old(self).block_store.tree().highest_certified().height < u64::MAX,
        ensures
            final(self).wf(),
            final(self).author == old(self).author,
            final(self).block_store == old(self).block_store,
            final(self).safety_rules == old(self).safety_rules,
            final(self).pacemaker == old(self).pacemaker,
            final(self).proposer_election == old(self).proposer_election,
            generator_step(
                old(self).proposal_generator.last_round(),
                final(self).proposal_generator.last_round(),
                match r {
                    Some(p) => Some(p.proposal.round),
                    None => None,
                },
            ),
            !old(self).proposer_election.is_proposer_for(old(self).author, new_round_event.round)
                || new_round_event.round <= old(self).proposal_generator.last_round() ==> r is None
                && final(self).proposal_generator == old(self).proposal_generator,
            old(self).proposer_election.is_proposer_for(old(self).author, new_round_event.round)
                && new_round_event.round > old(self).proposal_generator.last_round() ==> {
                &&& final(self).proposal_generator.last_round() == new_round_event.round
                &&& r == Some(
                    ProposalInfo {
                        proposal: proposal_block(
                            old(self).block_store,
                            new_round_event.round,
                            block_id,
                            timestamp_usecs,
                            old(self).author,
                        ),
                        proposer_info: old(self).author,
                        timeout_certificate: match new_round_event.reason {
                            NewRoundReason::Timeout { cert } => Some(cert),
                            NewRoundReason::QCReady => None,
                        },
                        highest_ledger_info: old(self).block_store.tree().highest_li(),
                    },
                )
            },
    {
        let proposer_info = match self.proposer_election.is_valid_proposer(self.author, new_round_event.round) {
            Some(pi) => pi,
            None => {
                return None;
            },
        };
        let proposal = match self.proposal_generator.generate_proposal(
            new_round_event.round,
            &self.block_store,
            block_id,
            timestamp_usecs,
            self.author,
        ) {
            Err(_) => {
                return None;
            },
            Ok(proposal) => proposal,
        };
        let timeout_certificate = match new_round_event.reason {
            NewRoundReason::Timeout { cert } => Some(cert),
            _ => None,
        };
        let highest_ledger_info = self.block_store.highest_ledger_info();
        Some(ProposalInfo { proposal, proposer_info, timeout_certificate, highest_ledger_info })
    }

    /// Classifies an incoming proposal: ignored when older than the current
    /// round, from an invalid proposer, or without a committed block; to be
    /// synchronized when the replica is far behind its ledger info; otherwise
    /// by whether its certificate's block must be fetched, is older than the
    /// root, is here, or is already certified here.
    pub fn process_proposal(&self, proposal: ProposalInfo) -> (r: ProcessProposalResult)
        requires
            self.wf(),
        ensures
            r == proposal_decision(self.block_store, self.pacemaker.round(), self.proposer_election, proposal),
    {
        let current_round = self.pacemaker.current_round();
        if proposal.proposal.round() < current_round {
            return ProcessProposalResult::Done;
        }
        if self.proposer_election.is_valid_proposer(proposal.proposer_info, proposal.proposal.round()).is_none() {
            return ProcessProposalResult::Done;
        }
        match proposal.highest_ledger_info.committed_block_id() {
            Some(committed_block_id) => {
                if self.block_store.need_sync_for_quorum_cert(committed_block_id, &proposal.highest_ledger_info) {
                    return ProcessProposalResult::NeedSync(proposal);
                }
            },
            None => {
                return ProcessProposalResult::Done;
            },
        }
        match self.block_store.need_fetch_for_quorum_cert(proposal.proposal.quorum_cert()) {
            NeedFetchResult::NeedFetch => ProcessProposalResult::NeedFetch(proposal),
            NeedFetchResult::QCRoundBeforeRoot => ProcessProposalResult::Done,
            NeedFetchResult::QCBlockExist => ProcessProposalResult::InsertQuorumCert(proposal),
            NeedFetchResult::QCAlreadyExist => ProcessProposalResult::Ready(proposal),
        }
    }

    /// Finishes processing a proposal whose dependencies are here: the
    /// pacemaker learns of its certificates, and the proposal is passed on as
    /// the winning proposal if it is for the (new) current round and from the
    /// round's valid proposer.
    pub fn finish_proposal_processing(&mut self, proposal: ProposalInfo) -> (r: FinishedProposal)
        requires
            old(self).wf(),
            proposal.proposal.quorum_cert.certified_block_round < u64::MAX,
            proposal.timeout_certificate matches Some(tc) ==> tc.round < u64::MAX,
        ensures
            final(self).wf(),
            final(self).author == old(self).author,
            final(self).block_store == old(self).block_store,
            final(self).safety_rules == old(self).safety_rules,
            final(self).proposer_election == old(self).proposer_election,
            final(self).proposal_generator == old(self).proposal_generator,
            certificates_processed(
                old(self).pacemaker,
                final(self).pacemaker,
                proposal.proposal.quorum_cert.certified_block_round,
                proposal.timeout_certificate,
            ),
            final(self).pacemaker.round() >= old(self).pacemaker.round(),
            r.new_round_event is Some <==> final(self).pacemaker.round() != old(self).pacemaker.round(),
            r.winning_proposal == if final(self).pacemaker.round() == proposal.proposal.round
                && old(self).proposer_election.is_proposer_for(
                proposal.proposer_info,
                proposal.proposal.round,
            ) {
                Some(proposal)
            } else {
                None
            },
    {
        let qc_round = proposal.proposal.quorum_cert().certified_block_round();
        let new_round_event = match &proposal.timeout_certificate {
            Some(tc) => self.pacemaker.process_certificates(qc_round, Some(tc)),
            None => self.pacemaker.process_certificates(qc_round, None),
        };
        if self.pacemaker.current_round() != proposal.proposal.round() {
            return FinishedProposal { new_round_event, winning_proposal: None };
        }
        let winning_proposal = self.proposer_election.process_proposal(proposal);
        FinishedProposal { new_round_event, winning_proposal }
    }

    /// The first part of processing the proposal chosen for its round: learns
    /// of its certificate, which may commit a block; the pacemaker then learns
    /// of the committed round, and the blocks from the root to the committed
    /// block are returned for the mempool to be told about.
    pub fn commit_winning_proposal(&mut self, proposal: &ProposalInfo) -> (r: WinningProposalCommit)
        requires
            old(self).wf(),
        ensures
            final(self).wf(),
            final(self).author == old(self).author,
            final(self).block_store == old(self).block_store,
            final(self).proposer_election == old(self).proposer_election,
            final(self).proposal_generator == old(self).proposal_generator,
            final(self).pacemaker.round() == old(self).pacemaker.round(),
            final(self).pacemaker.qc_round() == old(self).pacemaker.qc_round(),
            final(self).pacemaker.timeouts() == old(self).pacemaker.timeouts(),
            final(self).pacemaker.committed_round() == match r.committed_block {
                Some(b) => if b.round > old(self).pacemaker.committed_round() {
                    b.round
                } else {
                    old(self).pacemaker.committed_round()
                },
                None => old(self).pacemaker.committed_round(),
            },
            final(self).safety_rules.state == state_after_update(
                old(self).safety_rules.state,
                old(self).block_store.tree(),
                proposal.proposal.quorum_cert,
            ),
            r.committed_block == committed_by(
                old(self).block_store.tree(),
                proposal.proposal.quorum_cert.signed_ledger_info,
            ),
            r.committed_block is None ==> r.blocks_to_notify@.len() == 0,
            r.committed_block is Some ==> match descent_to_root(
                old(self).block_store.tree(),
                r.committed_block->0,
            ) {
                Some(d) => reversed(r.blocks_to_notify@, d),
                None => r.blocks_to_notify@.len() == 0,
            },
    {
        let qc = *proposal.proposal.quorum_cert();
        let committed_block = self.safety_rules.update(&qc, &self.block_store);
        let mut blocks_to_notify: Vec<Block> = Vec::new();
        match committed_block {
            Some(new_commit) => {
                self.pacemaker.update_highest_committed_round(new_commit.round());
                match self.block_store.path_from_root(new_commit) {
                    Some(path) => {
                        blocks_to_notify = path;
                    },
                    None => {},
                }
            },
            None => {},
        }
        WinningProposalCommit { committed_block, blocks_to_notify }
    }

    /// The second part of processing the proposal chosen for its round:
    /// inserts the block with the state that `compute_res` (the state
    /// computer's result for it) leads to, and, if the block is for the
    /// current round and the voting rule allows it, decides to vote for it
    /// and whom to send the vote to.  A block that is already stored is not
    /// inserted again.
    pub fn insert_and_vote(
        &mut self,
        proposal: ProposalInfo,
        block_hash: HashValue,
        compute_res: StateComputeResult,
    ) -> (r: WinningProposalVote)
        requires
            old(self).wf(),
            old(self).pacemaker.round() < u64::MAX,
            !old(self).block_store.tree().blocks().contains_key(proposal.proposal.id) && old(
                self,
            ).block_store.tree().states().contains_key(proposal.proposal.parent_id) ==> old(
                self,
            ).block_store.tree().states()[proposal.proposal.parent_id].version
                + compute_res.num_successful_txns <= u64::MAX,
            old(self).block_store.tree().blocks().contains_key(proposal.proposal.id) && old(
                self,
            ).block_store.tree().blocks()[proposal.proposal.id].round == old(self).pacemaker.round() && old(
                self,
            ).block_store.tree().blocks()[proposal.proposal.id].round > old(self).safety_rules.state.last_vote_round
                ==> old(self).block_store.tree().blocks().contains_key(
                old(self).block_store.tree().blocks()[proposal.proposal.id].parent_id,
            ),
        ensures
            final(self).wf(),
            final(self).author == old(self).author,
            final(self).proposer_election == old(self).proposer_election,
            final(self).proposal_generator == old(self).proposal_generator,
            final(self).pacemaker == old(self).pacemaker,
            final(self).block_store.enforces_increasing_timestamps() == old(self).block_store.enforces_increasing_timestamps(),
            old(self).block_store.tree().blocks().contains_key(proposal.proposal.id) ==> r.insert_error
                is None && final(self).block_store.tree() == old(self).block_store.tree(),
            !old(self).block_store.tree().blocks().contains_key(proposal.proposal.id) ==> match parent_info(
                old(self).block_store.tree(),
                old(self).block_store.enforces_increasing_timestamps(),
                proposal.proposal,
                block_hash,
            ) {
                Err(e) => r.insert_error == Some(e) && final(self).block_store.tree() == old(
                    self,
                ).block_store.tree(),
                Ok((parent_id, parent_version)) => r.insert_error is None && block_inserted(
                    old(self).block_store.tree(),
                    final(self).block_store.tree(),
                    proposal.proposal,
                    ExecutedState {
                        state_id: compute_res.new_state_id,
                        version: (parent_version + compute_res.num_successful_txns) as u64,
                    },
                ),
            },
            r.insert_error is Some ==> r.vote is None,
            r.insert_error is None ==> (r.vote is Some <==> (final(self).block_store.tree().blocks()[proposal.proposal.id].round
                == old(self).pacemaker.round() && voting_outcome(
                old(self).safety_rules.state,
                final(self).block_store.tree(),
                final(self).block_store.tree().blocks()[proposal.proposal.id],
            ).1 is Ok)),
            r.vote is None ==> final(self).safety_rules.state == old(self).safety_rules.state,
            r.vote is Some ==> {
                let v = r.vote->0;
                let b = final(self).block_store.tree().blocks()[proposal.proposal.id];
                let outcome = voting_outcome(old(self).safety_rules.state, final(self).block_store.tree(), b);
                &&& r.insert_error is None
                &&& final(self).block_store.tree().blocks().contains_key(proposal.proposal.id)
                &&& v.proposal_id == proposal.proposal.id
                &&& v.round == b.round
                &&& v.round == old(self).pacemaker.round()
                &&& v.round > old(self).safety_rules.state.last_vote_round
                &&& outcome.1 is Ok
                &&& final(self).safety_rules.state == outcome.0
                &&& v.consensus_state == final(self).safety_rules.state
                &&& final(self).safety_rules.state.last_vote_round == v.round
                &&& v.executed_state == final(self).block_store.tree().states()[proposal.proposal.id]
                &&& v.ledger_info_placeholder == placeholder_for(
                    final(self).block_store.tree(),
                    outcome.1->Ok_0.potential_commit_id,
                )
                &&& forall|a: Author| #[trigger]
                    v.recipients@.contains(a) <==> old(self).proposer_election.is_proposer_for(
                        a,
                        (v.round + 1) as Round,
                    )
            },
    {
        let block = match self.block_store.execute_and_insert_block(proposal.proposal, block_hash, compute_res) {
            Err(e) => {
                return WinningProposalVote { insert_error: Some(e), vote: None };
            },
            Ok(block) => block,
        };
        if self.pacemaker.current_round() != block.round() {
            return WinningProposalVote { insert_error: None, vote: None };
        }
        let vote_info = match self.safety_rules.voting_rule(block, &self.block_store) {
            Err(_) => {
                return WinningProposalVote { insert_error: None, vote: None };
            },
            Ok(vote_info) => vote_info,
        };
        let proposal_id = vote_info.proposal_id();
        let executed_state = match self.block_store.get_state_for_block(proposal_id) {
            Some(s) => s,
            None => {
                proof {
                    assert(false);
                }
                return WinningProposalVote { insert_error: None, vote: None };
            },
        };
        let ledger_info_placeholder = self.block_store.ledger_info_placeholder(vote_info.potential_commit_id());
        let recipients = self.proposer_election.get_valid_proposers(block.round() + 1);
        WinningProposalVote {
            insert_error: None,
            vote: Some(
                VoteDecision {
                    proposal_id,
                    executed_state,
                    round: block.round(),
                    ledger_info_placeholder,
                    consensus_state: vote_info.consensus_state(),
                    recipients,
                },
            ),
        }
    }

    /// Processes the proposal chosen for its round: learns of its certificate
    /// (which may commit a block), inserts the block with the state that
    /// `compute_res` (the state computer's result for it) leads to, and, if
    /// the block is for the current round and the voting rule allows it,
    /// decides to vote for it and whom to send the vote to: the two steps
    /// `commit_winning_proposal` and `insert_and_vote` in turn.
    pub fn process_winning_proposal(
        &mut self,
        proposal: ProposalInfo,
        block_hash: HashValue,
        compute_res: StateComputeResult,
    ) -> (r: WinningProposalOutcome)
        requires
            old(self).wf(),
            old(self).pacemaker.round() < u64::MAX,
            !old(self).block_store.tree().blocks().contains_key(proposal.proposal.id) && old(
                self,
            ).block_store.tree().states().contains_key(proposal.proposal.parent_id) ==> old(
                self,
            ).block_store.tree().states()[proposal.proposal.parent_id].version
                + compute_res.num_successful_txns <= u64::MAX,
            old(self).block_store.tree().blocks().contains_key(proposal.proposal.id) && old(
                self,
            ).block_store.tree().blocks()[proposal.proposal.id].round == old(self).pacemaker.round() && old(
                self,
            ).block_store.tree().blocks()[proposal.proposal.id].round > old(self).safety_rules.state.last_vote_round
                ==> old(self).block_store.tree().blocks().contains_key(
                old(self).block_store.tree().blocks()[proposal.proposal.id].parent_id,
            ),
        ensures
            final(self).wf(),
            final(self).author == old(self).author,
            final(self).proposer_election == old(self).proposer_election,
            final(self).proposal_generator == old(self).proposal_generator,
            final(self).pacemaker.round() == old(self).pacemaker.round(),
            final(self).pacemaker.qc_round() == old(self).pacemaker.qc_round(),
            final(self).pacemaker.timeouts() == old(self).pacemaker.timeouts(),
            final(self).pacemaker.committed_round() == match r.committed_block {
                Some(b) => if b.round > old(self).pacemaker.committed_round() {
                    b.round
                } else {
                    old(self).pacemaker.committed_round()
                },
                None => old(self).pacemaker.committed_round(),
            },
            r.committed_block == committed_by(
                old(self).block_store.tree(),
                proposal.proposal.quorum_cert.signed_ledger_info,
            ),
            r.committed_block is None ==> r.blocks_to_notify@.len() == 0,
            r.committed_block is Some ==> match descent_to_root(
                old(self).block_store.tree(),
                r.committed_block->0,
            ) {
                Some(d) => reversed(r.blocks_to_notify@, d),
                None => r.blocks_to_notify@.len() == 0,
            },
            final(self).block_store.enforces_increasing_timestamps() == old(self).block_store.enforces_increasing_timestamps(),
            old(self).block_store.tree().blocks().contains_key(proposal.proposal.id) ==> r.insert_error
                is None && final(self).block_store.tree() == old(self).block_store.tree(),
            !old(self).block_store.tree().blocks().contains_key(proposal.proposal.id) ==> match parent_info(
                old(self).block_store.tree(),
                old(self).block_store.enforces_increasing_timestamps(),
                proposal.proposal,
                block_hash,
            ) {
                Err(e) => r.insert_error == Some(e) && final(self).block_store.tree() == old(
                    self,
                ).block_store.tree(),
                Ok((parent_id, parent_version)) => r.insert_error is None && block_inserted(
                    old(self).block_store.tree(),
                    final(self).block_store.tree(),
                    proposal.proposal,
                    ExecutedState {
                        state_id: compute_res.new_state_id,
                        version: (parent_version + compute_res.num_successful_txns) as u64,
                    },
                ),
            },
            r.insert_error is Some ==> r.vote is None,
            r.insert_error is None ==> (r.vote is Some <==> (final(self).block_store.tree().blocks()[proposal.proposal.id].round
                == old(self).pacemaker.round() && voting_outcome(
                state_after_update(
                    old(self).safety_rules.state,
                    old(self).block_store.tree(),
                    proposal.proposal.quorum_cert,
                ),
                final(self).block_store.tree(),
                final(self).block_store.tree().blocks()[proposal.proposal.id],
            ).1 is Ok)),
            r.vote is None ==> final(self).safety_rules.state == state_after_update(
                old(self).safety_rules.state,
                old(self).block_store.tree(),
                proposal.proposal.quorum_cert,
            ),
            final(self).safety_rules.state.last_vote_round >= old(self).safety_rules.state.last_vote_round,
            r.vote is Some ==> {
                let v = r.vote->0;
                let after_update = state_after_update(
                    old(self).safety_rules.state,
                    old(self).block_store.tree(),
                    proposal.proposal.quorum_cert,
                );
                &&& r.insert_error is None
                &&& final(self).block_store.tree().blocks().contains_key(proposal.proposal.id)
                &&& v.proposal_id == proposal.proposal.id
                &&& v.round == final(self).block_store.tree().blocks()[proposal.proposal.id].round
                &&& v.round == old(self).pacemaker.round()
                &&& v.round > old(self).safety_rules.state.last_vote_round
                &&& voting_outcome(
                    after_update,
                    final(self).block_store.tree(),
                    final(self).block_store.tree().blocks()[proposal.proposal.id],
                ).1 is Ok
                &&& final(self).safety_rules.state == voting_outcome(
                    after_update,
                    final(self).block_store.tree(),
                    final(self).block_store.tree().blocks()[proposal.proposal.id],
                ).0
                &&& v.consensus_state == final(self).safety_rules.state
                &&& final(self).safety_rules.state.last_vote_round == v.round
                &&& v.executed_state == final(self).block_store.tree().states()[proposal.proposal.id]
                &&& v.ledger_info_placeholder == placeholder_for(
                    final(self).block_store.tree(),
                    voting_outcome(
                        after_update,
                        final(self).block_store.tree(),
                        final(self).block_store.tree().blocks()[proposal.proposal.id],
                    ).1->Ok_0.potential_commit_id,
                )
                &&& forall|a: Author| #[trigger]
                    v.recipients@.contains(a) <==> old(self).proposer_election.is_proposer_for(
                        a,
                        (v.round + 1) as Round,
                    )
            },
    {
        let commit = self.commit_winning_proposal(&proposal);
        let inserted = self.insert_and_vote(proposal, block_hash, compute_res);
        WinningProposalOutcome {
            committed_block: commit.committed_block,
            blocks_to_notify: commit.blocks_to_notify,
            insert_error: inserted.insert_error,
            vote: inserted.vote,
        }
    }

    /// Processes a vote sent to this replica: ignored unless this replica is a
    /// valid proposer for the next round; otherwise stored, and when it
    /// completes a certificate, that certificate is to be inserted with
    /// `insert_vote_quorum_cert` (or its block fetched from the voter first,
    /// then `vote_quorum_cert_fetched`), which lets the pacemaker learn of it.
    pub fn process_votes(&mut self, vote: VoteMsg, quorum_size: usize) -> (r: VoteOutcome)
        requires
            old(self).wf(),
            vote.round < u64::MAX,
        ensures
            final(self).wf(),
            final(self).author == old(self).author,
            final(self).safety_rules == old(self).safety_rules,
            final(self).pacemaker == old(self).pacemaker,
            final(self).proposer_election == old(self).proposer_election,
            final(self).proposal_generator == old(self).proposal_generator,
            final(self).block_store.enforces_increasing_timestamps() == old(self).block_store.enforces_increasing_timestamps(),
            final(self).block_store.tree().blocks() == old(self).block_store.tree().blocks(),
            final(self).block_store.tree().states() == old(self).block_store.tree().states(),
            final(self).block_store.tree().quorum_certs() == old(self).block_store.tree().quorum_certs(),
            final(self).block_store.tree().root_block() == old(self).block_store.tree().root_block(),
            final(self).block_store.tree().highest_certified() == old(self).block_store.tree().highest_certified(),
            final(self).block_store.tree().highest_qc() == old(self).block_store.tree().highest_qc(),
            final(self).block_store.tree().highest_li() == old(self).block_store.tree().highest_li(),
            final(self).block_store.tree().received_votes() == if old(self).proposer_election.is_proposer_for(
                old(self).author,
                (vote.round + 1) as Round,
            ) {
                votes_after(
                    old(self).block_store.tree().quorum_certs(),
                    old(self).block_store.tree().received_votes(),
                    vote,
                )
            } else {
                old(self).block_store.tree().received_votes()
            },
            !old(self).proposer_election.is_proposer_for(old(self).author, (vote.round + 1) as Round)
                ==> r == VoteOutcome::InvalidRecipient && final(self).block_store == old(
                self,
            ).block_store,
            old(self).proposer_election.is_proposer_for(old(self).author, (vote.round + 1) as Round)
                ==> match vote_reception(
                old(self).block_store.tree().quorum_certs(),
                votes_for_block(old(self).block_store.tree().received_votes(), vote.proposed_block_id),
                vote,
                quorum_size,
            ) {
                VoteReceptionResult::NewQuorumCertificate(qc) => if fetch_need(
                    old(self).block_store.tree(),
                    qc,
                ) == NeedFetchResult::NeedFetch {
                    r == (VoteOutcome::FetchQuorumCert { qc, peer: vote.author })
                } else {
                    r == VoteOutcome::InsertQuorumCert(qc)
                },
                other => r == VoteOutcome::Received(other),
            },
    {
        let next_round = vote.round() + 1;
        if self.proposer_election.is_valid_proposer(self.author, next_round).is_none() {
            return VoteOutcome::InvalidRecipient;
        }
        match self.block_store.insert_vote(vote, quorum_size) {
            VoteReceptionResult::NewQuorumCertificate(qc) => {
                if self.block_store.need_fetch_for_quorum_cert(&qc) == NeedFetchResult::NeedFetch {
                    VoteOutcome::FetchQuorumCert { qc, peer: vote.author() }
                } else {
                    VoteOutcome::InsertQuorumCert(qc)
                }
            },
            other => VoteOutcome::Received(other),
        }
    }

    /// Finishes processing a vote of round `vote_round` that completed the
    /// certificate `qc`, whose block is here: inserts the certificate and,
    /// once it is in, lets the pacemaker learn of the certified round.  The
    /// certificate must agree with the state this replica executed its block to.
    pub fn insert_vote_quorum_cert(&mut self, qc: QuorumCert, vote_round: Round) -> (r: Result<
        Option<NewRoundEvent>,
        InsertError,
    >)
        requires
            old(self).wf(),
            vote_round < u64::MAX,
            old(self).block_store.tree().states().contains_key(qc.certified_block_id) ==> old(
                self,
            ).block_store.tree().states()[qc.certified_block_id] == qc.certified_state,
        ensures
            final(self).wf(),
            final(self).author == old(self).author,
            final(self).safety_rules == old(self).safety_rules,
            final(self).proposer_election == old(self).proposer_election,
            final(self).proposal_generator == old(self).proposal_generator,
            final(self).block_store.enforces_increasing_timestamps() == old(self).block_store.enforces_increasing_timestamps(),
            !old(self).block_store.tree().states().contains_key(qc.certified_block_id) ==> r == Err::<
                Option<NewRoundEvent>,
                InsertError,
            >(InsertError::MissingParentBlock(qc.certified_block_id)) && final(self).block_store.tree() == old(
                self,
            ).block_store.tree() && final(self).pacemaker == old(self).pacemaker,
            old(self).block_store.tree().states().contains_key(qc.certified_block_id) ==> {
                &&& quorum_cert_inserted(old(self).block_store.tree(), final(self).block_store.tree(), qc)
                &&& certificates_processed(old(self).pacemaker, final(self).pacemaker, vote_round, None)
                &&& final(self).pacemaker.round() >= old(self).pacemaker.round()
                &&& r matches Ok(e) && (e is Some <==> final(self).pacemaker.round() != old(self).pacemaker.round())
                    && (e matches Some(ev) ==> ev.round == final(self).pacemaker.round())
            },
    {
        match self.block_store.insert_single_quorum_cert(qc) {
            Err(e) => Err(e),
            Ok(()) => Ok(self.pacemaker.process_certificates(vote_round, None)),
        }
    }

    /// After the block of a certificate completed by a vote of round
    /// `vote_round` was fetched from the voter (with the certificate), lets the
    /// pacemaker learn of the certified round.
    pub fn vote_quorum_cert_fetched(&mut self, vote_round: Round) -> (r: Option<NewRoundEvent>)
        requires
            old(self).wf(),
            vote_round < u64::MAX,
        ensures
            final(self).wf(),
            final(self).author == old(self).author,
            final(self).block_store == old(self).block_store,
            final(self).safety_rules == old(self).safety_rules,
            final(self).proposer_election == old(self).proposer_election,
            final(self).proposal_generator == old(self).proposal_generator,
            certificates_processed(old(self).pacemaker, final(self).pacemaker, vote_round, None),
            final(self).pacemaker.round() >= old(self).pacemaker.round(),
            r is Some <==> final(self).pacemaker.round() != old(self).pacemaker.round(),
            r matches Some(ev) ==> ev.round == final(self).pacemaker.round(),
    {
        self.pacemaker.process_certificates(vote_round, None)
    }

    /// Processes a timeout message: synchronizes to its certificate when that
    /// is higher than this replica's highest, and lets the pacemaker learn of
    /// the timeout.
    pub fn process_timeout_msg(&mut self, timeout_msg: &TimeoutMsg) -> (r: TimeoutMsgOutcome)
        requires
            old(self).wf(),
            timeout_msg.pacemaker_timeout.round < u64::MAX,
        ensures
            final(self).wf(),
            final(self).author == old(self).author,
            final(self).block_store == old(self).block_store,
            final(self).safety_rules == old(self).safety_rules,
            final(self).proposer_election == old(self).proposer_election,
            final(self).proposal_generator == old(self).proposal_generator,
            final(self).pacemaker.qc_round() == old(self).pacemaker.qc_round(),
            final(self).pacemaker.committed_round() == old(self).pacemaker.committed_round(),
            timeout_recorded(
                old(self).pacemaker.timeouts(),
                final(self).pacemaker.timeouts(),
                timeout_msg.pacemaker_timeout,
                r.local_certificate_formed,
            ),
            final(self).pacemaker.round() >= old(self).pacemaker.round(),
            final(self).pacemaker.round() == final(self).pacemaker.best_round() + 1,
            r.new_round_event is Some <==> final(self).pacemaker.round() != old(self).pacemaker.round(),
            r.new_round_event matches Some(e) ==> e.round == final(self).pacemaker.round(),
            r.sync == if old(self).block_store.tree().highest_qc().certified_block_round
                < timeout_msg.highest_quorum_certificate.certified_block_round {
                Some(
                    SyncInfo {
                        highest_ledger_info: timeout_msg.highest_ledger_info,
                        highest_quorum_cert: timeout_msg.highest_quorum_certificate,
                        peer: timeout_msg.author,
                    },
                )
            } else {
                None
            },
    {
        let current_highest_quorum_cert_round = self.block_store.highest_quorum_cert().certified_block_round();
        let new_round_highest_quorum_cert_round = timeout_msg.highest_quorum_certificate.certified_block_round();
        let sync = if current_highest_quorum_cert_round < new_round_highest_quorum_cert_round {
            Some(
                SyncInfo {
                    highest_ledger_info: timeout_msg.highest_ledger_info,
                    highest_quorum_cert: timeout_msg.highest_quorum_certificate,
                    peer: timeout_msg.author,
                },
            )
        } else {
            None
        };
        let (new_round_event, local_certificate_formed) = self.pacemaker.process_remote_timeout(
            timeout_msg.pacemaker_timeout,
        );
        TimeoutMsgOutcome { sync, new_round_event, local_certificate_formed }
    }

    /// On a local timeout of `round`: stops voting in that round (raising the
    /// last vote round; the new state is to be persisted) and builds the
    /// timeout message carrying the highest certificates.
    pub fn process_outgoing_pacemaker_timeout(&mut self, round: Round) -> (r: OutgoingTimeout)
        requires
            old(self).wf(),
        ensures
            final(self).wf(),
            final(self).author == old(self).author,
            final(self).block_store == old(self).block_store,
            final(self).pacemaker == old(self).pacemaker,
            final(self).proposer_election == old(self).proposer_election,
            final(self).proposal_generator == old(self).proposal_generator,
            final(self).safety_rules.state.last_vote_round >= round,
            round > old(self).safety_rules.state.last_vote_round ==> final(self).safety_rules.state
                == (ConsensusState { last_vote_round: round, ..old(self).safety_rules.state })
                && r.consensus_state_to_save == Some(final(self).safety_rules.state),
            round <= old(self).safety_rules.state.last_vote_round ==> final(self).safety_rules.state
                == old(self).safety_rules.state && r.consensus_state_to_save is None,
            r.timeout_msg == (TimeoutMsg {
                highest_quorum_certificate: old(self).block_store.tree().highest_qc(),
                highest_ledger_info: old(self).block_store.tree().highest_li(),
                pacemaker_timeout: PacemakerTimeout { round, author: old(self).author },
                author: old(self).author,
            }),
    {
        let consensus_state_to_save = self.safety_rules.increase_last_vote_round(round);
        let timeout_msg = TimeoutMsg::new(
            self.block_store.highest_quorum_cert(),
            self.block_store.highest_ledger_info(),
            PacemakerTimeout::new(round, self.author),
            self.author,
        );
        OutgoingTimeout { consensus_state_to_save, timeout_msg }
    }
}

/// A proposal for the current round or a later one, from that round's valid
/// proposer, whose highest ledger info commits a block this replica has, and
/// whose certificate is for a block certified here at or above the root's
/// round, is ready to be passed on; it is never dropped for its round being
/// ahead.  A proposal is dropped only when it is older than the current round,
/// its proposer is not valid for its round, its ledger info commits nothing,
/// or its certificate is older than the root.
pub proof fn lemma_proposal_classification(
    store: BlockStore,
    current_round: Round,
    election: RotatingProposer,
    proposal: ProposalInfo,
)
    ensures
        proposal.proposal.round >= current_round && election.is_proposer_for(
            proposal.proposer_info,
            proposal.proposal.round,
        ) && proposal.highest_ledger_info.spec_committed_block_id() is Some && store.tree().blocks().contains_key(
            proposal.highest_ledger_info.spec_committed_block_id()->0,
        ) && proposal.proposal.quorum_cert.certified_block_round >= store.tree().root_block().round
            && store.tree().quorum_certs().contains_key(proposal.proposal.quorum_cert.certified_block_id)
            ==> proposal_decision(store, current_round, election, proposal) == ProcessProposalResult::Ready(proposal),
        proposal_decision(store, current_round, election, proposal) is Done ==> proposal.proposal.round < current_round
            || !election.is_proposer_for(proposal.proposer_info, proposal.proposal.round)
            || proposal.highest_ledger_info.spec_committed_block_id() is None
            || proposal.proposal.quorum_cert.certified_block_round < store.tree().root_block().round,
{
}

} // verus!
