use consensus_model::block::Block;
use consensus_model::common::{ExecutedState, LedgerInfo, LedgerInfoWithSignatures};
use consensus_model::proposer_election::{ProposalInfo, ProposerElection, RotatingProposer};
use consensus_model::quorum_cert::QuorumCert;

fn qc() -> QuorumCert {
    QuorumCert::new(1, ExecutedState::state_for_genesis(), 0, LedgerInfoWithSignatures::new(LedgerInfo::new(0, 0, 0, 1, 0, 0), 1))
}

fn proposal(author: u64, round: u64) -> ProposalInfo {
    let q = qc();
    ProposalInfo {
        proposal: Block { id: 5, parent_id: 1, round, height: 1, timestamp_usecs: 1, quorum_cert: q, author },
        proposer_info: author,
        timeout_certificate: None,
        highest_ledger_info: q,
    }
}

#[test]
fn proposers_rotate_every_contiguous_rounds() {
    let e = RotatingProposer::new(vec![10, 20, 30], 2);
    assert_eq!(e.get_proposer(0), 10);
    assert_eq!(e.get_proposer(1), 10);
    assert_eq!(e.get_proposer(2), 20);
    assert_eq!(e.get_proposer(5), 30);
    assert_eq!(e.get_proposer(6), 10);
}

#[test]
fn exactly_one_valid_proposer_per_round() {
    let e = RotatingProposer::new(vec![10, 20, 30], 1);
    assert_eq!(e.is_valid_proposer(20, 1), Some(20));
    assert_eq!(e.is_valid_proposer(10, 1), None);
    assert_eq!(e.get_valid_proposers(4), vec![20]);
}

#[test]
fn only_proposals_of_the_valid_proposer_are_passed_on() {
    let e = RotatingProposer::new(vec![10, 20], 1);
    assert!(e.process_proposal(proposal(20, 3)).is_some());
    assert!(e.process_proposal(proposal(10, 3)).is_none());
}
