use consensus_model::pacemaker::{LocalPacemaker, NewRoundReason};
use consensus_model::timeout::{
    HighestTimeoutCertificates, PacemakerTimeout, PacemakerTimeoutCertificate, PacemakerTimeoutManager,
};

fn no_certificates() -> HighestTimeoutCertificates {
    HighestTimeoutCertificates::new(None, None)
}

#[test]
fn first_update_moves_past_the_highest_qc() {
    let mut p = LocalPacemaker::new(0, 4, 3, no_certificates());
    assert_eq!(p.current_round(), 0);
    let e = p.update_current_round().unwrap();
    assert_eq!(e.round, 5);
    assert!(matches!(e.reason, NewRoundReason::QCReady));
    assert_eq!(p.current_round(), 5);
    // nothing new: no event
    assert!(p.update_current_round().is_none());
}

#[test]
fn certificates_advance_the_round_monotonically() {
    let mut p = LocalPacemaker::new(0, 0, 3, no_certificates());
    let e = p.process_certificates(3, None).unwrap();
    assert_eq!(e.round, 4);
    assert_eq!(p.current_round(), 4);
    // an older certificate does not move the round back
    assert!(p.process_certificates(1, None).is_none());
    assert_eq!(p.current_round(), 4);
    let e = p.process_certificates(7, None).unwrap();
    assert_eq!(e.round, 8);
}

#[test]
fn timeout_certificate_starts_a_round() {
    let mut p = LocalPacemaker::new(0, 2, 3, no_certificates());
    let tc = PacemakerTimeoutCertificate::new(6, vec![PacemakerTimeout::new(6, 1)]);
    let e = p.process_certificates(2, Some(&tc)).unwrap();
    assert_eq!(e.round, 7);
    match e.reason {
        NewRoundReason::Timeout { cert } => assert_eq!(cert.round(), 6),
        NewRoundReason::QCReady => panic!("expected a timeout reason"),
    }
}

#[test]
fn remote_timeouts_form_a_certificate_at_quorum() {
    let mut p = LocalPacemaker::new(0, 0, 2, no_certificates());
    let (first, formed) = p.process_remote_timeout(PacemakerTimeout::new(5, 1));
    assert_eq!(first.unwrap().round, 1);
    assert!(!formed);
    assert!(p.highest_timeout_certificates().highest_local_timeout_certificate.is_none());
    let (second, formed) = p.process_remote_timeout(PacemakerTimeout::new(4, 2));
    assert!(second.is_some());
    assert!(formed);
    // quorum of 2: authors 1 (round 5) and 2 (round 4) both timed out at round 4 or above
    assert_eq!(p.current_round(), 5);
    let certs = p.highest_timeout_certificates();
    let tc = certs.highest_local_timeout_certificate.unwrap();
    assert_eq!(tc.round(), 4);
    assert_eq!(tc.timeouts.len(), 2);
}

#[test]
fn round_index_after_commit() {
    let mut p = LocalPacemaker::new(0, 4, 3, no_certificates());
    let e = p.update_current_round().unwrap();
    // nothing committed yet: round 5 is index 4
    assert_eq!(e.round_index_after_committed_qc, 4);
    p.update_highest_committed_round(3);
    assert!(p.process_certificates(9, None).is_some());
    // committed round 3: round 10 is index 10 - 3 - 3 = 4
    let e = p.create_new_round_task(NewRoundReason::QCReady);
    assert_eq!(e.round, 10);
    assert_eq!(e.round_index_after_committed_qc, 4);
    p.update_highest_committed_round(9);
    assert_eq!(p.create_new_round_task(NewRoundReason::QCReady).round_index_after_committed_qc, 0);
}

#[test]
fn timeout_certificate_round_is_the_quorum_th_highest() {
    let mut m = PacemakerTimeoutManager::new(3, no_certificates());
    assert!(!m.update_received_timeout(PacemakerTimeout::new(9, 1)));
    assert!(!m.update_received_timeout(PacemakerTimeout::new(4, 2)));
    assert!(m.update_received_timeout(PacemakerTimeout::new(7, 3)));
    let tc = m.highest_timeout_certificate().unwrap();
    assert_eq!(tc.round(), 4);
    assert!(m.update_received_timeout(PacemakerTimeout::new(8, 4)));
    let tc = m.generate_timeout_certificate(3).unwrap();
    assert_eq!(tc.round(), 7);
    assert_eq!(tc.timeouts.len(), 3);
    assert!(tc.timeouts.iter().all(|t| t.round() >= 7));
    assert!(m.generate_timeout_certificate(5).is_none());
}

#[test]
fn older_timeout_of_the_same_author_is_ignored() {
    let mut m = PacemakerTimeoutManager::new(1, no_certificates());
    assert!(m.update_received_timeout(PacemakerTimeout::new(5, 1)));
    assert!(!m.update_received_timeout(PacemakerTimeout::new(5, 1)));
    assert!(!m.update_received_timeout(PacemakerTimeout::new(3, 1)));
    assert_eq!(m.highest_timeout_certificate().unwrap().round(), 5);
    assert!(m.update_received_timeout(PacemakerTimeout::new(6, 1)));
    assert_eq!(m.generate_timeout_certificate(1).unwrap().timeouts.len(), 1);
}

#[test]
fn highest_received_certificate_only_rises() {
    let mut m = PacemakerTimeoutManager::new(2, no_certificates());
    m.update_highest_received_timeout_certificate(&PacemakerTimeoutCertificate::new(5, vec![]));
    m.update_highest_received_timeout_certificate(&PacemakerTimeoutCertificate::new(3, vec![]));
    assert_eq!(m.highest_timeout_certificate().unwrap().round(), 5);
}

