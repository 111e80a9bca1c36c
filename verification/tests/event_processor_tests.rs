use consensus_model::block::Block;
use consensus_model::block_store::{BlockStore, StateComputeResult};
use consensus_model::common::{ExecutedState, LedgerInfo, LedgerInfoWithSignatures};
use consensus_model::event_processor::{NodeState, ProcessProposalResult, VoteOutcome};
use consensus_model::pacemaker::{pacemaker_daemon, LocalPacemaker, NewRoundEvent, NewRoundReason};
use consensus_model::proposal_generator::ProposalGenerator;
use consensus_model::proposer_election::{ProposalInfo, RotatingProposer};
use consensus_model::quorum_cert::QuorumCert;
use consensus_model::safety_rules::{ConsensusState, SafetyRules};
use consensus_model::timeout::{HighestTimeoutCertificates, PacemakerTimeout};
use consensus_model::vote_msg::{VoteMsg, VoteReceptionResult};

const GENESIS: u64 = 1;
const ME: u64 = 20;

fn ledger_info(committed: u64) -> LedgerInfo {
    LedgerInfo::new(0, 0, 0, committed, 0, 0)
}

fn qc_for(block_id: u64, round: u64, state: ExecutedState, committed: u64) -> QuorumCert {
    QuorumCert::new(block_id, state, round, LedgerInfoWithSignatures::new(ledger_info(committed), 3))
}

fn genesis_qc() -> QuorumCert {
    qc_for(GENESIS, 0, ExecutedState::state_for_genesis(), GENESIS)
}

/// A replica `ME` among proposers [10, 20, 30] (one round each): the proposer of round 1.
fn processor() -> NodeState {
    processor_with(vec![10, 20, 30])
}

/// A replica `ME` among `proposers` (one round each).
fn processor_with(proposers: Vec<u64>) -> NodeState {
    let gqc = genesis_qc();
    let g = Block { id: GENESIS, parent_id: 0, round: 0, height: 0, timestamp_usecs: 0, quorum_cert: gqc, author: 0 };
    let mut pacemaker = LocalPacemaker::new(0, 0, 2, HighestTimeoutCertificates::new(None, None));
    assert!(pacemaker.update_current_round().is_some());
    NodeState::new(
        ME,
        BlockStore::new(g, gqc, gqc, true),
        SafetyRules::new(ConsensusState::new(0, 0, 0)),
        pacemaker,
        RotatingProposer::new(proposers, 1),
        ProposalGenerator::new(0),
    )
}

fn proposal_at(round: u64, proposer: u64, id: u64) -> ProposalInfo {
    let gqc = genesis_qc();
    ProposalInfo {
        proposal: Block { id, parent_id: GENESIS, round, height: 1, timestamp_usecs: 10, quorum_cert: gqc, author: proposer },
        proposer_info: proposer,
        timeout_certificate: None,
        highest_ledger_info: gqc,
    }
}

#[test]
fn proposer_generates_one_proposal_per_round() {
    let mut p = processor();
    let event = NewRoundEvent { round: 1, reason: NewRoundReason::QCReady, round_index_after_committed_qc: 0 };
    let proposal = p.process_new_round_event(event, 77, 10).unwrap();
    assert_eq!(proposal.proposal.round, 1);
    assert_eq!(proposal.proposal.parent_id, GENESIS);
    assert_eq!(proposal.proposal.height, 1);
    assert_eq!(proposal.proposal.id, 77);
    assert_eq!(proposal.proposer_info, ME);
    assert_eq!(proposal.highest_ledger_info, genesis_qc());
    let again = NewRoundEvent { round: 1, reason: NewRoundReason::QCReady, round_index_after_committed_qc: 0 };
    assert!(p.process_new_round_event(again, 78, 11).is_none());
}

#[test]
fn non_proposer_does_not_propose() {
    let mut p = processor();
    let event = NewRoundEvent { round: 2, reason: NewRoundReason::QCReady, round_index_after_committed_qc: 0 };
    assert!(p.process_new_round_event(event, 77, 10).is_none());
}

#[test]
fn proposal_classification() {
    let p = processor();
    // current round is 1, whose proposer is 20
    assert!(matches!(p.process_proposal(proposal_at(1, 10, 5)), ProcessProposalResult::Done));
    assert!(matches!(p.process_proposal(proposal_at(1, 20, 5)), ProcessProposalResult::Ready(_)));
    let mut missing = proposal_at(1, 20, 5);
    missing.proposal.quorum_cert = qc_for(9, 3, ExecutedState::state_for_genesis(), 0);
    assert!(matches!(p.process_proposal(missing), ProcessProposalResult::NeedFetch(_)));
    let mut far = proposal_at(1, 20, 5);
    far.highest_ledger_info = qc_for(9, 10, ExecutedState::state_for_genesis(), 8);
    assert!(matches!(p.process_proposal(far), ProcessProposalResult::NeedSync(_)));
    let mut nothing_committed = proposal_at(1, 20, 5);
    nothing_committed.highest_ledger_info = qc_for(9, 10, ExecutedState::state_for_genesis(), 0);
    assert!(matches!(p.process_proposal(nothing_committed), ProcessProposalResult::Done));
}

#[test]
fn winning_proposal_is_voted_for_once() {
    let mut p = processor();
    let prop = proposal_at(1, 20, 5);
    let finished = p.finish_proposal_processing(prop);
    let winning = finished.winning_proposal.unwrap();
    let outcome = p.process_winning_proposal(winning, 5, StateComputeResult { new_state_id: 300, num_successful_txns: 2 });
    assert_eq!(outcome.committed_block, None);
    let vote = outcome.vote.unwrap();
    assert_eq!(vote.proposal_id, 5);
    assert_eq!(vote.round, 1);
    assert_eq!(vote.executed_state, ExecutedState { state_id: 300, version: 2 });
    assert_eq!(vote.recipients, vec![30]);
    assert_eq!(vote.consensus_state.last_vote_round(), 1);
    // the same proposal again: the block is here, but the replica already voted in round 1
    let again = p.process_winning_proposal(proposal_at(1, 20, 5), 5, StateComputeResult { new_state_id: 300, num_successful_txns: 2 });
    assert!(again.vote.is_none());
}

#[test]
fn bad_block_hash_prevents_the_vote() {
    let mut p = processor();
    let outcome = p.process_winning_proposal(proposal_at(1, 20, 5), 6, StateComputeResult { new_state_id: 300, num_successful_txns: 2 });
    assert!(outcome.vote.is_none());
    assert!(outcome.insert_error.is_some());
    assert!(!p.block_store.block_exists(5));
}

#[test]
fn votes_complete_a_certificate_at_the_next_proposer() {
    // 30 proposes round 1 and ME (20) round 2, so ME receives the votes of round 1
    let mut p = processor_with(vec![10, 30, 20]);
    let prop = proposal_at(1, 30, 5);
    let winning = p.finish_proposal_processing(prop).winning_proposal.unwrap();
    let outcome = p.process_winning_proposal(winning, 5, StateComputeResult { new_state_id: 300, num_successful_txns: 2 });
    assert_eq!(outcome.vote.unwrap().recipients, vec![ME]);
    let state = ExecutedState { state_id: 300, version: 2 };
    let v = |author| VoteMsg::new(5, state, 1, author, ledger_info(0), 42);
    assert!(matches!(p.process_votes(v(1), 2), VoteOutcome::Received(VoteReceptionResult::VoteAdded(1))));
    match p.process_votes(v(2), 2) {
        VoteOutcome::InsertQuorumCert(qc) => {
            assert_eq!(qc.certified_block_id, 5);
            let event = p.insert_vote_quorum_cert(qc, 1).unwrap().unwrap();
            assert_eq!(event.round, 2);
            assert_eq!(p.pacemaker.current_round(), 2);
            assert_eq!(p.block_store.get_quorum_cert_for_block(5), Some(qc));
        }
        _ => panic!("expected a certificate"),
    }
    // a vote of round 2 is for the proposer of round 3 (30), not ME
    let w = VoteMsg::new(5, state, 2, 1, ledger_info(0), 42);
    assert!(matches!(p.process_votes(w, 2), VoteOutcome::InvalidRecipient));
}

#[test]
fn certificate_of_an_unknown_block_is_fetched_from_the_voter() {
    let mut p = processor_with(vec![10, 30, 20]);
    let state = ExecutedState { state_id: 300, version: 2 };
    let v = VoteMsg::new(99, state, 1, 4, ledger_info(0), 42);
    match p.process_votes(v, 1) {
        VoteOutcome::FetchQuorumCert { qc, peer } => {
            assert_eq!(qc.certified_block_id, 99);
            assert_eq!(peer, 4);
        }
        _ => panic!("expected a fetch"),
    }
}

#[test]
fn timeout_message_with_higher_certificate_triggers_sync() {
    let mut p = processor();
    let high = qc_for(50, 7, ExecutedState::state_for_genesis(), 0);
    let msg = consensus_model::event_processor::TimeoutMsg::new(high, high, PacemakerTimeout::new(3, 30), 30);
    let outcome = p.process_timeout_msg(&msg);
    let sync = outcome.sync.unwrap();
    assert_eq!(sync.peer, 30);
    assert_eq!(sync.highest_quorum_cert, high);
    let low = consensus_model::event_processor::TimeoutMsg::new(genesis_qc(), genesis_qc(), PacemakerTimeout::new(3, 10), 10);
    assert!(p.process_timeout_msg(&low).sync.is_none());
    // two timeouts at round 3 with a quorum of 2 form a certificate: next round is 4
    assert_eq!(p.pacemaker.current_round(), 4);
}

#[test]
fn local_timeout_stops_voting_in_the_round() {
    let mut p = processor();
    let out = p.process_outgoing_pacemaker_timeout(1);
    assert_eq!(out.consensus_state_to_save, Some(ConsensusState::new(1, 0, 0)));
    assert_eq!(out.timeout_msg.pacemaker_timeout, PacemakerTimeout::new(1, ME));
    assert_eq!(out.timeout_msg.highest_quorum_certificate, genesis_qc());
    let again = p.process_outgoing_pacemaker_timeout(1);
    assert_eq!(again.consensus_state_to_save, None);
    let outcome = p.process_winning_proposal(proposal_at(1, 20, 5), 5, StateComputeResult { new_state_id: 300, num_successful_txns: 2 });
    assert!(outcome.vote.is_none());
}

#[test]
fn certificate_of_a_missing_block_is_not_inserted() {
    let mut p = processor();
    let qc = qc_for(99, 1, ExecutedState::state_for_genesis(), 0);
    match p.insert_vote_quorum_cert(qc, 1) {
        Err(e) => assert_eq!(e, consensus_model::block_store::InsertError::MissingParentBlock(99)),
        Ok(_) => panic!("expected a missing block"),
    }
    assert_eq!(p.pacemaker.current_round(), 1);
    // after the block was fetched, the pacemaker learns of the certified round
    assert_eq!(p.vote_quorum_cert_fetched(1).unwrap().round, 2);
}

#[test]
fn duplicate_vote_is_not_stored_again() {
    // ME (20) is the proposer of round 2, so it receives the votes of round 1
    let mut p = processor_with(vec![10, 30, 20]);
    let state = ExecutedState { state_id: 300, version: 2 };
    let v = VoteMsg::new(5, state, 1, 1, ledger_info(0), 42);
    assert!(matches!(p.process_votes(v, 3), VoteOutcome::Received(VoteReceptionResult::VoteAdded(1))));
    assert!(matches!(p.process_votes(v, 3), VoteOutcome::Received(VoteReceptionResult::DuplicateVote)));
    let w = VoteMsg::new(5, state, 1, 2, ledger_info(0), 42);
    assert!(matches!(p.process_votes(w, 3), VoteOutcome::Received(VoteReceptionResult::VoteAdded(2))));
}

#[test]
fn timeout_message_records_the_remote_timeout() {
    let mut p = processor();
    let msg = consensus_model::event_processor::TimeoutMsg::new(genesis_qc(), genesis_qc(), PacemakerTimeout::new(3, 30), 30);
    let outcome = p.process_timeout_msg(&msg);
    assert!(outcome.new_round_event.is_none());
    assert_eq!(p.pacemaker.current_round(), 1);
    // a second author's timeout completes a quorum of 2: the round moves past 3
    let msg2 = consensus_model::event_processor::TimeoutMsg::new(genesis_qc(), genesis_qc(), PacemakerTimeout::new(3, 10), 10);
    let outcome2 = p.process_timeout_msg(&msg2);
    assert!(!outcome.local_certificate_formed);
    assert!(outcome2.local_certificate_formed);
    assert_eq!(outcome2.new_round_event.unwrap().round, 4);
}

#[test]
fn daemon_moves_one_round_at_a_time() {
    let p = processor();
    let mut d = pacemaker_daemon::new(3, 0);
    assert!(d.daemon(false, &p.block_store, ME).is_none());
    assert_eq!(d.current_round(), 4);
    let msg = d.daemon(true, &p.block_store, ME).unwrap();
    assert_eq!(msg.pacemaker_timeout, PacemakerTimeout::new(5, ME));
    assert_eq!(msg.highest_quorum_certificate, genesis_qc());
    assert_eq!(msg.highest_ledger_info, genesis_qc());
    assert_eq!(msg.author, ME);
    d.update_highest_committed_round(2);
    d.update_highest_committed_round(1);
    assert_eq!(d.current_round(), 5);
}

#[test]
fn winning_proposal_in_two_steps() {
    let mut p = processor();
    let prop = proposal_at(1, 20, 5);
    // the certificate of genesis commits nothing
    let commit = p.commit_winning_proposal(&prop);
    assert_eq!(commit.committed_block, None);
    assert!(commit.blocks_to_notify.is_empty());
    assert!(!p.block_store.block_exists(5));
    // then the block is inserted and voted for
    let inserted = p.insert_and_vote(prop, 5, StateComputeResult { new_state_id: 300, num_successful_txns: 2 });
    assert!(inserted.insert_error.is_none());
    assert_eq!(inserted.vote.unwrap().proposal_id, 5);
    assert!(p.block_store.block_exists(5));
}
