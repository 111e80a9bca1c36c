use consensus_model::common::{is_zero, ExecutedState, LedgerInfo, LedgerInfoWithSignatures, GENESIS_BLOCK_ID};
use consensus_model::config::{ChainedBftSMRConfig, ConsensusConfig};
use consensus_model::quorum_cert::{QcCheck, QuorumCert, VoteMsgVerificationError};
use consensus_model::state_synchronizer::SyncStatus;

fn qc(block: u64, round: u64, state: ExecutedState, data_hash: u64, committed: u64) -> QuorumCert {
    QuorumCert::new(block, state, round, LedgerInfoWithSignatures::new(LedgerInfo::new(0, 0, data_hash, committed, 0, 0), 1))
}

#[test]
fn committed_block_id_is_none_for_placeholder() {
    let s = ExecutedState { state_id: 3, version: 1 };
    assert_eq!(qc(5, 1, s, 0, 0).committed_block_id(), None);
    assert_eq!(qc(5, 1, s, 0, 9).committed_block_id(), Some(9));
    assert!(is_zero(0));
    assert!(!is_zero(9));
}

#[test]
fn verify_checks_consensus_data_then_genesis() {
    let s = ExecutedState { state_id: 3, version: 1 };
    assert_eq!(qc(5, 1, s, 42, 0).verify(41), Err(VoteMsgVerificationError::ConsensusDataMismatch));
    assert_eq!(qc(5, 1, s, 42, 0).verify(42), Ok(QcCheck::SignaturesToVerify));
    let genesis = qc(GENESIS_BLOCK_ID, 0, ExecutedState::state_for_genesis(), 7, 0);
    assert_eq!(genesis.verify(7), Ok(QcCheck::Genesis));
}

#[test]
fn getters_return_fields() {
    let s = ExecutedState { state_id: 3, version: 1 };
    let q = qc(5, 2, s, 42, 9);
    assert_eq!(q.certified_block_id(), 5);
    assert_eq!(q.certified_block_round(), 2);
    assert_eq!(q.certified_state(), s);
    assert_eq!(q.ledger_info().ledger_info().consensus_block_id(), 9);
}

#[test]
fn config_defaults() {
    let c = ChainedBftSMRConfig::from_node_config(&ConsensusConfig {
        max_pruned_blocks_in_mem: None,
        pacemaker_initial_timeout_ms: None,
        contiguous_rounds: 2,
        max_block_size: 100,
    });
    assert_eq!(c.pacemaker_initial_timeout_ms, 1000);
    assert_eq!(c.max_pruned_blocks_in_mem, 10000);
    assert_eq!(c.contiguous_rounds, 2);
    let c = ChainedBftSMRConfig::from_node_config(&ConsensusConfig {
        max_pruned_blocks_in_mem: Some(5),
        pacemaker_initial_timeout_ms: Some(250),
        contiguous_rounds: 1,
        max_block_size: 7,
    });
    assert_eq!(c.pacemaker_initial_timeout_ms, 250);
    assert_eq!(c.max_pruned_blocks_in_mem, 5);
    assert_eq!(c.max_block_size, 7);
}

#[test]
fn sync_status_variants_compare() {
    assert_eq!(SyncStatus::Finished, SyncStatus::Finished);
    assert_ne!(SyncStatus::Finished, SyncStatus::ChunkIsEmpty);
}
