use consensus_model::block::Block;
use consensus_model::block_store::{BlockStore, InsertError, NeedFetchResult, StateComputeResult};
use consensus_model::common::{ExecutedState, LedgerInfo, LedgerInfoWithSignatures};
use consensus_model::quorum_cert::QuorumCert;
use consensus_model::vote_msg::{VoteMsg, VoteReceptionResult};

const GENESIS: u64 = 1;

fn ledger_info(committed: u64) -> LedgerInfo {
    LedgerInfo::new(0, 0, 0, committed, 0, 0)
}

fn qc_for(block_id: u64, round: u64, state: ExecutedState, committed: u64) -> QuorumCert {
    QuorumCert::new(block_id, state, round, LedgerInfoWithSignatures::new(ledger_info(committed), 3))
}

fn genesis_store(enforce: bool) -> (BlockStore, Block) {
    let qc = qc_for(GENESIS, 0, ExecutedState::state_for_genesis(), GENESIS);
    let g = Block { id: GENESIS, parent_id: 0, round: 0, height: 0, timestamp_usecs: 0, quorum_cert: qc, author: 0 };
    (BlockStore::new(g, qc, qc, enforce), g)
}

fn child_of(store: &BlockStore, parent: &Block, id: u64, round: u64, ts: u64) -> Block {
    let ps = store.get_state_for_block(parent.id).unwrap();
    Block {
        id,
        parent_id: parent.id,
        round,
        height: parent.height + 1,
        timestamp_usecs: ts,
        quorum_cert: qc_for(parent.id, parent.round, ps, 0),
        author: 3,
    }
}

fn compute(state_id: u64, txns: u64) -> StateComputeResult {
    StateComputeResult { new_state_id: state_id, num_successful_txns: txns }
}

#[test]
fn insert_block_computes_version_from_parent() {
    let (mut store, g) = genesis_store(true);
    let b1 = child_of(&store, &g, 11, 1, 10);
    assert_eq!(store.execute_and_insert_block(b1, 11, compute(500, 4)), Ok(b1));
    assert_eq!(store.get_state_for_block(11), Some(ExecutedState { state_id: 500, version: 4 }));
    let b2 = child_of(&store, &b1, 12, 2, 20);
    assert_eq!(store.execute_and_insert_block(b2, 12, compute(600, 3)), Ok(b2));
    assert_eq!(store.get_state_for_block(12), Some(ExecutedState { state_id: 600, version: 7 }));
    assert!(store.block_exists(12));
    assert_eq!(store.get_block(12), Some(b2));
}

#[test]
fn duplicate_insert_returns_existing_block() {
    let (mut store, g) = genesis_store(true);
    let b1 = child_of(&store, &g, 11, 1, 10);
    store.execute_and_insert_block(b1, 11, compute(500, 4)).unwrap();
    let mut other = b1;
    other.timestamp_usecs = 99;
    assert_eq!(store.execute_and_insert_block(other, 11, compute(1, 1)), Ok(b1));
    assert_eq!(store.get_state_for_block(11), Some(ExecutedState { state_id: 500, version: 4 }));
    // nothing is executed for a block that is already stored: any result will do
    assert_eq!(store.execute_and_insert_block(b1, 11, compute(1, u64::MAX)), Ok(b1));
    assert_eq!(store.get_state_for_block(11), Some(ExecutedState { state_id: 500, version: 4 }));
}

#[test]
fn insert_errors_in_order() {
    let (mut store, g) = genesis_store(true);
    let b1 = child_of(&store, &g, 11, 1, 10);
    store.execute_and_insert_block(b1, 11, compute(500, 4)).unwrap();

    let mut old = child_of(&store, &g, 20, 0, 10);
    old.round = 0;
    assert_eq!(store.verify_and_get_parent_info(&old, 20), Err(InsertError::OldBlock));

    let b2 = child_of(&store, &b1, 12, 2, 20);
    assert_eq!(store.verify_and_get_parent_info(&b2, 99), Err(InsertError::InvalidBlockHash));

    let mut not_certified = b2;
    not_certified.quorum_cert = qc_for(GENESIS, 0, ExecutedState::state_for_genesis(), 0);
    assert_eq!(store.verify_and_get_parent_info(&not_certified, 12), Err(InsertError::ParentNotCertified));

    let mut orphan = b2;
    orphan.parent_id = 77;
    orphan.quorum_cert.certified_block_id = 77;
    assert_eq!(store.verify_and_get_parent_info(&orphan, 12), Err(InsertError::MissingParentBlock(77)));
    assert_eq!(store.execute_and_insert_block(orphan, 12, compute(1, 1)), Err(InsertError::MissingParentBlock(77)));

    let mut bad_height = b2;
    bad_height.height = 5;
    assert_eq!(store.verify_and_get_parent_info(&bad_height, 12), Err(InsertError::InvalidBlockHeight));

    let mut bad_round = child_of(&store, &b1, 12, 1, 20);
    bad_round.round = 1;
    assert_eq!(store.verify_and_get_parent_info(&bad_round, 12), Err(InsertError::InvalidBlockRound));

    let early = child_of(&store, &b1, 12, 2, 10);
    assert_eq!(store.verify_and_get_parent_info(&early, 12), Err(InsertError::NonIncreasingTimestamp));

    assert_eq!(store.verify_and_get_parent_info(&b2, 12), Ok((11, 4)));
    assert!(!store.block_exists(12));
}

#[test]
fn timestamps_are_not_checked_when_not_enforced() {
    let (mut store, g) = genesis_store(false);
    let b1 = child_of(&store, &g, 11, 1, 0);
    assert_eq!(store.execute_and_insert_block(b1, 11, compute(500, 0)), Ok(b1));
}

#[test]
fn need_fetch_classification() {
    let (mut store, g) = genesis_store(true);
    let b1 = child_of(&store, &g, 11, 1, 10);
    store.execute_and_insert_block(b1, 11, compute(500, 4)).unwrap();
    let s1 = store.get_state_for_block(11).unwrap();
    let gqc = store.get_quorum_cert_for_block(GENESIS).unwrap();
    assert_eq!(store.need_fetch_for_quorum_cert(&gqc), NeedFetchResult::QCAlreadyExist);
    let qc1 = qc_for(11, 1, s1, 0);
    assert_eq!(store.need_fetch_for_quorum_cert(&qc1), NeedFetchResult::QCBlockExist);
    let missing = qc_for(55, 4, s1, 0);
    assert_eq!(store.need_fetch_for_quorum_cert(&missing), NeedFetchResult::NeedFetch);
    assert_eq!(store.insert_single_quorum_cert(qc1), Ok(()));
    assert_eq!(store.need_fetch_for_quorum_cert(&qc1), NeedFetchResult::QCAlreadyExist);
}

#[test]
fn qc_before_root_is_recognised() {
    let qc = qc_for(GENESIS, 5, ExecutedState::state_for_genesis(), GENESIS);
    let g = Block { id: GENESIS, parent_id: 0, round: 5, height: 0, timestamp_usecs: 0, quorum_cert: qc, author: 0 };
    let store = BlockStore::new(g, qc, qc, true);
    let older = qc_for(3, 4, ExecutedState::state_for_genesis(), 0);
    assert_eq!(store.need_fetch_for_quorum_cert(&older), NeedFetchResult::QCRoundBeforeRoot);
}

#[test]
fn need_sync_rule() {
    let (mut store, g) = genesis_store(true);
    let b1 = child_of(&store, &g, 11, 1, 10);
    store.execute_and_insert_block(b1, 11, compute(500, 4)).unwrap();
    let s = ExecutedState::state_for_genesis();
    // the committed block is here
    assert!(!store.need_sync_for_quorum_cert(11, &qc_for(90, 10, s, 11)));
    // root round 0 + 2 >= certified round 2
    assert!(!store.need_sync_for_quorum_cert(50, &qc_for(90, 2, s, 50)));
    // far behind
    assert!(store.need_sync_for_quorum_cert(50, &qc_for(90, 3, s, 50)));
}

#[test]
fn inserting_qc_updates_highest_certificates() {
    let (mut store, g) = genesis_store(true);
    let b1 = child_of(&store, &g, 11, 1, 10);
    store.execute_and_insert_block(b1, 11, compute(500, 4)).unwrap();
    let b2 = child_of(&store, &b1, 12, 2, 20);
    store.execute_and_insert_block(b2, 12, compute(600, 1)).unwrap();
    let s2 = store.get_state_for_block(12).unwrap();
    let qc2 = qc_for(12, 2, s2, 11);
    assert_eq!(store.insert_single_quorum_cert(qc2), Ok(()));
    assert_eq!(store.highest_certified_block(), b2);
    assert_eq!(store.highest_quorum_cert(), qc2);
    assert_eq!(store.highest_ledger_info(), qc2);
    // a certificate of a lower block changes neither
    let s1 = store.get_state_for_block(11).unwrap();
    let qc1 = qc_for(11, 1, s1, 0);
    assert_eq!(store.insert_single_quorum_cert(qc1), Ok(()));
    assert_eq!(store.highest_certified_block(), b2);
    assert_eq!(store.highest_ledger_info(), qc2);
    assert_eq!(store.get_quorum_cert_for_block(11), Some(qc1));
}

#[test]
fn qc_for_unknown_block_is_refused() {
    let (mut store, _g) = genesis_store(true);
    let qc = qc_for(44, 3, ExecutedState::state_for_genesis(), 0);
    assert_eq!(store.insert_single_quorum_cert(qc), Err(InsertError::MissingParentBlock(44)));
}

#[test]
fn first_certificate_of_a_block_is_kept() {
    let (mut store, g) = genesis_store(true);
    let b1 = child_of(&store, &g, 11, 1, 10);
    store.execute_and_insert_block(b1, 11, compute(500, 4)).unwrap();
    let s1 = store.get_state_for_block(11).unwrap();
    let first = qc_for(11, 1, s1, 0);
    let second = QuorumCert::new(11, s1, 1, LedgerInfoWithSignatures::new(ledger_info(0), 9));
    store.insert_single_quorum_cert(first).unwrap();
    store.insert_single_quorum_cert(second).unwrap();
    assert_eq!(store.get_quorum_cert_for_block(11), Some(first));
}

#[test]
fn path_from_root_lists_the_branch() {
    let (mut store, g) = genesis_store(true);
    let b1 = child_of(&store, &g, 11, 1, 10);
    store.execute_and_insert_block(b1, 11, compute(500, 4)).unwrap();
    let b2 = child_of(&store, &b1, 12, 2, 20);
    store.execute_and_insert_block(b2, 12, compute(600, 1)).unwrap();
    assert_eq!(store.path_from_root(b2), Some(vec![b1, b2]));
    assert_eq!(store.path_from_root(g), Some(vec![]));
    let mut stray = b2;
    stray.parent_id = 404;
    assert_eq!(store.path_from_root(stray), None);
}

#[test]
fn ledger_info_placeholder_for_known_and_unknown_blocks() {
    let (mut store, g) = genesis_store(true);
    let b1 = child_of(&store, &g, 11, 1, 10);
    store.execute_and_insert_block(b1, 11, compute(500, 4)).unwrap();
    assert_eq!(store.ledger_info_placeholder(Some(11)), LedgerInfo::new(4, 500, 0, 11, 0, 10));
    assert_eq!(store.ledger_info_placeholder(None), BlockStore::zero_ledger_info_placeholder());
    assert_eq!(store.ledger_info_placeholder(Some(99)), LedgerInfo::new(0, 0, 0, 0, 0, 0));
}

fn vote(block: u64, author: u64, state_id: u64) -> VoteMsg {
    VoteMsg::new(block, ExecutedState { state_id, version: 1 }, 1, author, ledger_info(0), 42)
}

#[test]
fn votes_form_a_certificate_at_quorum() {
    let (mut store, _g) = genesis_store(true);
    assert_eq!(store.insert_vote(vote(11, 1, 5), 3), VoteReceptionResult::VoteAdded(1));
    assert_eq!(store.insert_vote(vote(11, 1, 5), 3), VoteReceptionResult::DuplicateVote);
    assert_eq!(store.insert_vote(vote(11, 2, 5), 3), VoteReceptionResult::VoteAdded(2));
    // a vote for another execution result is counted apart
    assert_eq!(store.insert_vote(vote(11, 3, 6), 3), VoteReceptionResult::VoteAdded(1));
    let expected = QuorumCert::new(
        11,
        ExecutedState { state_id: 5, version: 1 },
        1,
        LedgerInfoWithSignatures::new(LedgerInfo::new(0, 0, 42, 0, 0, 0), 3),
    );
    assert_eq!(store.insert_vote(vote(11, 4, 5), 3), VoteReceptionResult::NewQuorumCertificate(expected));
}

#[test]
fn vote_for_certified_block_returns_old_certificate() {
    let (mut store, _g) = genesis_store(true);
    let gqc = store.get_quorum_cert_for_block(GENESIS).unwrap();
    let v = VoteMsg::new(GENESIS, ExecutedState::state_for_genesis(), 0, 9, ledger_info(0), 1);
    assert_eq!(store.insert_vote(v, 1), VoteReceptionResult::OldQuorumCertificate(gqc));
}
