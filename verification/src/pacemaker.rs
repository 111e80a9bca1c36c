//! The pacemaker: decides the current round from the highest certificates
//! known, and announces each new round.
use vstd::prelude::*;
use crate::common::{Author, Round};
use crate::block_store::BlockStore;
use crate::event_processor::TimeoutMsg;
use crate::timeout::{
    highest_of, received_certificate_recorded, same_certificate, tc_round_or_zero, timeout_recorded, HighestTimeoutCertificates,
    PacemakerTimeout, PacemakerTimeoutCertificate, PacemakerTimeoutManager,
};

verus! {

/// Why a new round started.
pub enum NewRoundReason {
    /// A quorum certificate was formed for the previous round.
    QCReady,
    /// A timeout certificate was formed for the previous round.
    Timeout { cert: PacemakerTimeoutCertificate },
}

/// The announcement of a new round.
pub struct NewRoundEvent {
    /// The new round.
    pub round: Round,
    /// Why it started.
    pub reason: NewRoundReason,
    /// The index of the round after the highest committed certificate, from
    /// which the round's duration is derived.
    pub round_index_after_committed_qc: u64,
}

/// The index of round `current` after the highest committed round `committed`:
/// round `committed + 3` is index 0 (the three-chain rule needs three rounds to
/// commit), earlier rounds are index 0 too, and after genesis (nothing
/// committed yet) round 1 is index 0.
pub open spec fn round_index(current: Round, committed: Round) -> int {
    if committed == 0 {
        current - 1
    } else if current < committed + 3 {
        0
    } else {
        current - committed - 3
    }
}

/// `new` is the pacemaker `old` after learning of a certificate of round
/// `qc_round` and, possibly, of a timeout certificate `tc`: its highest
/// certified round is raised to `qc_round` if that is higher, `tc` is recorded
/// as a received certificate, and its current round is one past the highest
/// certified round.
pub open spec fn certificates_processed(
    old: LocalPacemaker,
    new: LocalPacemaker,
    qc_round: Round,
    tc: Option<PacemakerTimeoutCertificate>,
) -> bool {
    &&& new.qc_round() == if qc_round > old.qc_round() {
        qc_round
    } else {
        old.qc_round()
    }
    &&& new.committed_round() == old.committed_round()
    &&& match tc {
        Some(tc) => received_certificate_recorded(old.timeouts(), new.timeouts(), tc),
        None => new.timeouts() == old.timeouts(),
    }
    &&& new.round() == new.best_round() + 1
}

/// A pacemaker that relies on increasing local timeouts.  Its current round is
/// one past the highest round certified, by a quorum certificate or by a
/// timeout certificate, and it never decreases.
pub struct LocalPacemaker {
    /// Highest round that a block was committed.
    highest_committed_round: Round,
    /// Highest round known certified by a quorum certificate.
    highest_qc_round: Round,
    /// The current round.
    current_round: Round,
    /// The timeouts received and the timeout certificates known.
    pacemaker_timeout_manager: PacemakerTimeoutManager,
}

impl LocalPacemaker {
    pub closed spec fn round(&self) -> Round {
        self.current_round
    }

    pub closed spec fn qc_round(&self) -> Round {
        self.highest_qc_round
    }

    pub closed spec fn committed_round(&self) -> Round {
        self.highest_committed_round
    }

    pub closed spec fn timeouts(&self) -> PacemakerTimeoutManager {
        self.pacemaker_timeout_manager
    }

    /// The highest certified round: of a quorum certificate or a timeout certificate.
    pub open spec fn best_round(&self) -> Round {
        if self.timeouts().highest_round() > self.qc_round() {
            self.timeouts().highest_round()
        } else {
            self.qc_round()
        }
    }

    /// The pacemaker is consistent: its timeout manager is, no certified round is
    /// the last round, and the current round is at most one past the highest
    /// certified round.
    pub open spec fn wf(&self) -> bool {
        &&& self.timeouts().wf()
        &&& self.qc_round() < u64::MAX
        &&& self.round() <= self.best_round() + 1
    }

    /// A pacemaker at round zero, which moves to the round after the highest
    /// certified round on its first update.
    pub fn new(
        highest_committed_round: Round,
        highest_qc_round: Round,
        pacemaker_timeout_quorum_size: usize,
        highest_timeout_certificates: HighestTimeoutCertificates,
    ) -> (p: Self)
        requires
            highest_qc_round < u64::MAX,
            pacemaker_timeout_quorum_size >= 1,
            tc_round_or_zero(highest_timeout_certificates.highest_local_timeout_certificate) < u64::MAX,
            tc_round_or_zero(highest_timeout_certificates.highest_received_timeout_certificate) < u64::MAX,
        ensures
            p.wf(),
            p.round() == 0,
            p.qc_round() == highest_qc_round,
            p.committed_round() == highest_committed_round,
            p.timeouts().quorum_size() == pacemaker_timeout_quorum_size,
            p.timeouts().received() == Seq::<PacemakerTimeout>::empty(),
            p.timeouts().highest_local() == highest_timeout_certificates.highest_local_timeout_certificate,
            p.timeouts().highest_received() == highest_timeout_certificates.highest_received_timeout_certificate,
    {
        LocalPacemaker {
            highest_committed_round,
            highest_qc_round,
            current_round: 0,
            pacemaker_timeout_manager: PacemakerTimeoutManager::new(
                pacemaker_timeout_quorum_size,
                highest_timeout_certificates,
            ),
        }
    }

    /// The current round.
    pub fn current_round(&self) -> (r: Round)
        ensures
            r == self.round(),
    {
        self.current_round
    }

    /// Raises the highest committed round to `highest_committed_round` if that is higher.
    pub fn update_highest_committed_round(&mut self, highest_committed_round: Round)
        requires
            old(self).wf(),
        ensures
            final(self).wf(),
            final(self).round() == old(self).round(),
            final(self).qc_round() == old(self).qc_round(),
            final(self).timeouts() == old(self).timeouts(),
            final(self).committed_round() == if highest_committed_round > old(self).committed_round() {
                highest_committed_round
            } else {
                old(self).committed_round()
            },
    {
        if self.highest_committed_round < highest_committed_round {
            self.highest_committed_round = highest_committed_round;
        }
    }

    /// The announcement of the current round, for `reason`.
    pub fn create_new_round_task(&self, reason: NewRoundReason) -> (e: NewRoundEvent)
        requires
            self.round() >= 1,
        ensures
            e.round == self.round(),
            e.reason == reason,
            e.round_index_after_committed_qc == round_index(self.round(), self.committed_round()),
    {
        let index = if self.highest_committed_round == 0 {
            self.current_round - 1
        } else if self.current_round < self.highest_committed_round || self.current_round
            - self.highest_committed_round < 3 {
            0
        } else {
            self.current_round - self.highest_committed_round - 3
        };
        NewRoundEvent { round: self.current_round, reason, round_index_after_committed_qc: index }
    }

    /// Moves to the round after the highest certified round (by a quorum
    /// certificate, or by a timeout certificate when that is higher) and
    /// announces it; announces nothing when the round does not change.
    pub fn update_current_round(&mut self) -> (e: Option<NewRoundEvent>)
        requires
            old(self).wf(),
        ensures
            final(self).wf(),
            final(self).qc_round() == old(self).qc_round(),
            final(self).committed_round() == old(self).committed_round(),
            final(self).timeouts() == old(self).timeouts(),
            final(self).round() == old(self).best_round() + 1,
            final(self).round() >= old(self).round(),
            old(self).round() == final(self).round() ==> e is None,
            old(self).round() != final(self).round() ==> e is Some && e->0.round == final(self).round()
                && e->0.round_index_after_committed_qc == round_index(
                final(self).round(),
                final(self).committed_round(),
            ) && (e->0.reason is Timeout <==> old(self).timeouts().highest_round() > old(
                self,
            ).qc_round()) && (e->0.reason matches NewRoundReason::Timeout { cert } ==> cert.round == highest_of(
                old(self).timeouts().highest_local(),
                old(self).timeouts().highest_received(),
            )->0.round && cert.timeouts@ == highest_of(
                old(self).timeouts().highest_local(),
                old(self).timeouts().highest_received(),
            )->0.timeouts@),
    {
        let mut best_round = self.highest_qc_round;
        let mut best_reason = NewRoundReason::QCReady;
        let highest_tc = self.pacemaker_timeout_manager.highest_timeout_certificate();
        match highest_tc {
            Some(tc) => {
                if tc.round > best_round {
                    best_round = tc.round;
                    best_reason = NewRoundReason::Timeout { cert: tc };
                }
            },
            None => {},
        }
        proof {
            assert(best_round == old(self).best_round());
        }
        let new_round = best_round + 1;
        if self.current_round == new_round {
            return None;
        }
        self.current_round = new_round;
        Some(self.create_new_round_task(best_reason))
    }

    /// Learns of a certified round: records the timeout certificate, if any,
    /// raises the highest certified round to `qc_round` if that is higher, and
    /// updates the current round.
    pub fn process_certificates(
        &mut self,
        qc_round: Round,
        timeout_certificate: Option<&PacemakerTimeoutCertificate>,
    ) -> (e: Option<NewRoundEvent>)
        requires
            old(self).wf(),
            qc_round < u64::MAX,
            timeout_certificate matches Some(tc) ==> tc.round < u64::MAX,
        ensures
            final(self).wf(),
            certificates_processed(
                *old(self),
                *final(self),
                qc_round,
                match timeout_certificate {
                    Some(tc) => Some(*tc),
                    None => None,
                },
            ),
            final(self).round() >= old(self).round(),
            timeout_certificate matches Some(tc) ==> final(self).timeouts().highest_round() >= tc.round,
            final(self).timeouts().highest_round() >= old(self).timeouts().highest_round(),
            old(self).round() == final(self).round() ==> e is None,
            old(self).round() != final(self).round() ==> e is Some && e->0.round == final(self).round(),
    {
        match timeout_certificate {
            Some(tc) => {
                self.pacemaker_timeout_manager.update_highest_received_timeout_certificate(tc);
            },
            None => {},
        }
        if qc_round > self.highest_qc_round {
            self.highest_qc_round = qc_round;
        }
        self.update_current_round()
    }

    /// Learns of a timeout from another validator: records it with the timeout
    /// manager first (it may complete a timeout certificate, which then counts
    /// as certified), and updates the current round from what is then known.
    /// Recording it is what lets received timeouts ever form a certificate.
    /// Returns the announcement of the new round, if any, and whether a new
    /// highest local timeout certificate formed (to be persisted).
    pub fn process_remote_timeout(&mut self, pacemaker_timeout: PacemakerTimeout) -> (r: (
        Option<NewRoundEvent>,
        bool,
    ))
        requires
            old(self).wf(),
            pacemaker_timeout.round < u64::MAX,
        ensures
            final(self).wf(),
            final(self).qc_round() == old(self).qc_round(),
            final(self).committed_round() == old(self).committed_round(),
            final(self).round() == final(self).best_round() + 1,
            final(self).round() >= old(self).round(),
            timeout_recorded(old(self).timeouts(), final(self).timeouts(), pacemaker_timeout, r.1),
            final(self).timeouts().highest_round() >= old(self).timeouts().highest_round(),
            old(self).round() == final(self).round() ==> r.0 is None,
            old(self).round() != final(self).round() ==> r.0 is Some && r.0->0.round == final(self).round(),
    {
        let formed = self.pacemaker_timeout_manager.update_received_timeout(pacemaker_timeout);
        let e = self.update_current_round();
        (e, formed)
    }

    /// A copy of the highest timeout certificates known, local and received,
    /// for persisting them.
    pub fn highest_timeout_certificates(&self) -> (r: HighestTimeoutCertificates)
        ensures
            same_certificate(r.highest_local_timeout_certificate, self.timeouts().highest_local()),
            same_certificate(r.highest_received_timeout_certificate, self.timeouts().highest_received()),
    {
        self.pacemaker_timeout_manager.highest_timeout_certificates()
    }
}

/// The pacemaker of the abstract model: a round counter that a daemon moves
/// forward, with the highest committed round.
#[allow(non_camel_case_types)]
pub struct pacemaker_daemon {
    current_round: Round,
    highest_committed_round: Round,
}

impl pacemaker_daemon {
    pub closed spec fn round(&self) -> Round {
        self.current_round
    }

    pub closed spec fn committed_round(&self) -> Round {
        self.highest_committed_round
    }

    pub fn new(current_round: Round, highest_committed_round: Round) -> (p: Self)
        ensures
            p.round() == current_round,
            p.committed_round() == highest_committed_round,
    {
        pacemaker_daemon { current_round, highest_committed_round }
    }

    /// One step of the daemon: moves to the next round and, when
    /// `broadcast_timeout` says so, builds the timeout message of `author` for
    /// that round, carrying the highest certificates of `block_store`, to be
    /// broadcast.
    pub fn daemon(&mut self, broadcast_timeout: bool, block_store: &BlockStore, author: Author) -> (r: Option<
        TimeoutMsg,
    >)
        requires
            old(self).round() < u64::MAX,
        ensures
            final(self).round() == old(self).round() + 1,
            final(self).committed_round() == old(self).committed_round(),
            r == if broadcast_timeout {
                Some(
                    TimeoutMsg {
                        highest_quorum_certificate: block_store.tree().highest_qc(),
                        highest_ledger_info: block_store.tree().highest_li(),
                        pacemaker_timeout: PacemakerTimeout { round: final(self).round(), author },
                        author,
                    },
                )
            } else {
                None
            },
    {
        self.current_round = self.current_round + 1;
        if broadcast_timeout {
            Some(
                TimeoutMsg::new(
                    block_store.highest_quorum_cert(),
                    block_store.highest_ledger_info(),
                    PacemakerTimeout::new(self.current_round, author),
                    author,
                ),
            )
        } else {
            None
        }
    }

    /// The current round.
    pub fn current_round(&self) -> (r: Round)
        ensures
            r == self.round(),
    {
        self.current_round
    }

    /// Raises the highest committed round to `highest_committed_round` if that is higher.
    pub fn update_highest_committed_round(&mut self, highest_committed_round: Round)
        ensures
            final(self).round() == old(self).round(),
            final(self).committed_round() == if highest_committed_round > old(self).committed_round() {
                highest_committed_round
            } else {
                old(self).committed_round()
            },
    {
        if self.highest_committed_round < highest_committed_round {
            self.highest_committed_round = highest_committed_round;
        }
    }
}

/// The highest certified round is the larger of the round certified by a
/// quorum certificate and the rounds of the highest local and received
/// timeout certificates: at least each of them, and equal to one of them.
pub proof fn lemma_best_round_is_the_highest_certified(p: LocalPacemaker)
    ensures
        p.best_round() >= p.qc_round(),
        p.best_round() >= tc_round_or_zero(p.timeouts().highest_local()),
        p.best_round() >= tc_round_or_zero(p.timeouts().highest_received()),
        p.best_round() == p.qc_round() || p.best_round() == tc_round_or_zero(p.timeouts().highest_local())
            || p.best_round() == tc_round_or_zero(p.timeouts().highest_received()),
{
    crate::timeout::lemma_highest_of_is_the_larger(p.timeouts().highest_local(), p.timeouts().highest_received());
}

/// Round indices count from the third round after the highest committed
/// round (index 0), one per round; after genesis (nothing committed yet)
/// round 1 has index 0.
pub proof fn lemma_round_index_counts_rounds(committed: Round, i: nat)
    ensures
        committed > 0 && committed + 3 + i <= u64::MAX ==> round_index((committed + 3 + i) as Round, committed) == i,
        committed > 0 ==> round_index(committed, committed) == 0,
        1 + i <= u64::MAX ==> round_index((1 + i) as Round, 0) == i,
{
}

} // verus!
