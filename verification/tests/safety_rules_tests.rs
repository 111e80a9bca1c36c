use consensus_model::block::Block;
use consensus_model::block_store::{BlockStore, StateComputeResult};
use consensus_model::common::{ExecutedState, LedgerInfo, LedgerInfoWithSignatures};
use consensus_model::quorum_cert::QuorumCert;
use consensus_model::safety_rules::{ConsensusState, ProposalReject, SafetyRules};

const GENESIS: u64 = 1;

fn ledger_info(committed: u64) -> LedgerInfo {
    LedgerInfo::new(0, 0, 0, committed, 0, 0)
}

fn qc_for(block_id: u64, round: u64, state: ExecutedState, committed: u64) -> QuorumCert {
    QuorumCert::new(block_id, state, round, LedgerInfoWithSignatures::new(ledger_info(committed), 3))
}

fn genesis() -> (Block, QuorumCert) {
    let qc = qc_for(GENESIS, 0, ExecutedState::state_for_genesis(), GENESIS);
    let b = Block {
        id: GENESIS,
        parent_id: 0,
        round: 0,
        height: 0,
        timestamp_usecs: 0,
        quorum_cert: qc,
        author: 0,
    };
    (b, qc)
}

fn state_id_of(id: u64) -> u64 {
    id + 100
}

fn child(parent: &Block, parent_state: ExecutedState, id: u64, round: u64) -> Block {
    Block {
        id,
        parent_id: parent.id,
        round,
        height: parent.height + 1,
        timestamp_usecs: round * 10,
        quorum_cert: qc_for(parent.id, parent.round, parent_state, 0),
        author: 7,
    }
}

/// genesis(0) <- b1(1) <- b2(2) <- b3(3)
fn chain() -> (BlockStore, Vec<Block>) {
    let (g, gqc) = genesis();
    let mut store = BlockStore::new(g, gqc, gqc, true);
    let mut blocks = vec![g];
    let mut parent_state = ExecutedState::state_for_genesis();
    for i in 1..4u64 {
        let parent = *blocks.last().unwrap();
        let b = child(&parent, parent_state, 10 + i, i);
        let res = store.execute_and_insert_block(
            b,
            b.id,
            StateComputeResult { new_state_id: state_id_of(b.id), num_successful_txns: 1 },
        );
        assert_eq!(res, Ok(b));
        parent_state = store.get_state_for_block(b.id).unwrap();
        blocks.push(b);
    }
    (store, blocks)
}

#[test]
fn votes_for_a_fresh_proposal_and_raises_last_vote_round() {
    let (store, blocks) = chain();
    let mut rules = SafetyRules::new(ConsensusState::new(0, 0, 0));
    let vote = rules.voting_rule(blocks[1], &store).unwrap();
    assert_eq!(vote.proposal_id(), 11);
    assert_eq!(vote.proposal_round(), 1);
    assert_eq!(vote.consensus_state().last_vote_round(), 1);
    assert_eq!(vote.potential_commit_id(), None);
    assert_eq!(rules.consensus_state().last_vote_round(), 1);
}

#[test]
fn never_votes_twice_in_a_round() {
    let (store, blocks) = chain();
    let mut rules = SafetyRules::new(ConsensusState::new(0, 0, 0));
    assert!(rules.voting_rule(blocks[2], &store).is_ok());
    assert_eq!(
        rules.voting_rule(blocks[2], &store),
        Err(ProposalReject::OldProposal { proposal_round: 2, last_vote_round: 2 })
    );
    assert_eq!(
        rules.voting_rule(blocks[1], &store),
        Err(ProposalReject::OldProposal { proposal_round: 1, last_vote_round: 2 })
    );
}

#[test]
fn refuses_proposal_below_preferred_block() {
    let (store, blocks) = chain();
    let mut rules = SafetyRules::new(ConsensusState::new(0, 0, 1));
    // the parent of b1 is genesis, at round 0 < preferred round 1
    assert_eq!(
        rules.voting_rule(blocks[1], &store),
        Err(ProposalReject::ProposalRoundLowerThenPreferredBlock { preferred_block_round: 1 })
    );
    assert_eq!(rules.consensus_state(), ConsensusState::new(0, 0, 1));
}

#[test]
fn vote_carries_the_potential_three_chain_commit() {
    let (store, blocks) = chain();
    let mut rules = SafetyRules::new(ConsensusState::new(2, 0, 0));
    let vote = rules.voting_rule(blocks[3], &store).unwrap();
    assert_eq!(vote.potential_commit_id(), Some(11));
}

#[test]
fn three_chain_commit_rule() {
    let (store, blocks) = chain();
    let rules = SafetyRules::new(ConsensusState::new(0, 0, 0));
    assert_eq!(rules.commit_rule_for_certified_block(blocks[3], &store), Some(blocks[1]));
    // b2's grandparent is genesis, whose parent is unknown: genesis <- b1 <- b2 commits genesis
    assert_eq!(rules.commit_rule_for_certified_block(blocks[2], &store), Some(blocks[0]));
    assert_eq!(rules.commit_rule_for_certified_block(blocks[1], &store), None);
}

#[test]
fn three_chain_needs_consecutive_rounds() {
    let (g, gqc) = genesis();
    let mut store = BlockStore::new(g, gqc, gqc, false);
    let gs = ExecutedState::state_for_genesis();
    let b1 = child(&g, gs, 21, 1);
    store
        .execute_and_insert_block(b1, 21, StateComputeResult { new_state_id: 5, num_successful_txns: 0 })
        .unwrap();
    let s1 = store.get_state_for_block(21).unwrap();
    let b2 = child(&b1, s1, 22, 3);
    store
        .execute_and_insert_block(b2, 22, StateComputeResult { new_state_id: 6, num_successful_txns: 0 })
        .unwrap();
    let s2 = store.get_state_for_block(22).unwrap();
    let b3 = child(&b2, s2, 23, 4);
    let rules = SafetyRules::new(ConsensusState::new(0, 0, 0));
    assert_eq!(rules.commit_rule_for_certified_block(b3, &store), None);
}

#[test]
fn update_raises_preferred_round_and_commits() {
    let (store, blocks) = chain();
    let mut rules = SafetyRules::new(ConsensusState::new(3, 0, 0));
    let s3 = store.get_state_for_block(13).unwrap();
    let qc = qc_for(13, 3, s3, 11);
    let committed = rules.update(&qc, &store);
    assert_eq!(committed, Some(blocks[1]));
    assert_eq!(rules.consensus_state(), ConsensusState::new(3, 1, 2));
    assert_eq!(rules.last_committed_round(), 1);
}

#[test]
fn update_never_lowers_preferred_round() {
    let (store, _blocks) = chain();
    let mut rules = SafetyRules::new(ConsensusState::new(3, 0, 2));
    let s2 = store.get_state_for_block(12).unwrap();
    // certifies b2, whose parent b1 is at round 1 < preferred round 2
    let qc = qc_for(12, 2, s2, 0);
    assert_eq!(rules.update(&qc, &store), None);
    assert_eq!(rules.consensus_state().preferred_block_round(), 2);
}

#[test]
fn ledger_info_of_root_commits_nothing() {
    let (store, _blocks) = chain();
    let mut rules = SafetyRules::new(ConsensusState::new(0, 0, 0));
    let li = LedgerInfoWithSignatures::new(ledger_info(GENESIS), 3);
    assert_eq!(rules.process_ledger_info(&li, &store), None);
    let unknown = LedgerInfoWithSignatures::new(ledger_info(999), 3);
    assert_eq!(rules.process_ledger_info(&unknown, &store), None);
    assert_eq!(rules.last_committed_round(), 0);
}

#[test]
fn increase_last_vote_round_only_raises() {
    let mut rules = SafetyRules::new(ConsensusState::new(4, 1, 2));
    assert_eq!(rules.increase_last_vote_round(3), None);
    assert_eq!(rules.increase_last_vote_round(4), None);
    assert_eq!(rules.increase_last_vote_round(6), Some(ConsensusState::new(6, 1, 2)));
    assert_eq!(rules.consensus_state(), ConsensusState::new(6, 1, 2));
}

#[test]
fn no_vote_after_timeout_of_the_round() {
    let (store, blocks) = chain();
    let mut rules = SafetyRules::new(ConsensusState::new(0, 0, 0));
    rules.increase_last_vote_round(2);
    assert!(rules.voting_rule(blocks[2], &store).is_err());
    assert!(rules.voting_rule(blocks[3], &store).is_ok());
}

#[test]
fn consensus_state_setters() {
    let mut s = ConsensusState::new(1, 0, 0);
    assert_eq!(s.set_last_vote_round(1), None);
    assert_eq!(s.set_last_vote_round(2), Some(ConsensusState::new(2, 0, 0)));
    s.set_preferred_block_round(5);
    assert_eq!(s.preferred_block_round(), 5);
    assert_eq!(s.last_committed_round(), 0);
}

#[test]
fn last_committed_round_stays_the_highest_known() {
    let (store, blocks) = chain();
    let mut rules = SafetyRules::new(ConsensusState::new(0, 0, 0));
    let li3 = LedgerInfoWithSignatures::new(ledger_info(13), 3);
    assert_eq!(rules.process_ledger_info(&li3, &store), Some(blocks[3]));
    assert_eq!(rules.last_committed_round(), 3);
    // a later ledger info committing the lower block b1 leaves the highest round
    let li1 = LedgerInfoWithSignatures::new(ledger_info(11), 3);
    assert_eq!(rules.process_ledger_info(&li1, &store), Some(blocks[1]));
    assert_eq!(rules.last_committed_round(), 3);
}
