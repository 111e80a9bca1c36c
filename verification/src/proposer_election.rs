//! Who may propose in a round, and the proposals that reach the election.
use vstd::prelude::*;
use crate::common::{Author, Round};
use crate::block::Block;
use crate::quorum_cert::QuorumCert;
use crate::timeout::PacemakerTimeoutCertificate;

verus! {

/// A proposal as it travels: the block, its proposer, the timeout certificate
/// that started the round (if any) and the proposer's highest ledger info.
pub struct ProposalInfo {
    pub proposal: Block,
    pub proposer_info: Author,
    pub timeout_certificate: Option<PacemakerTimeoutCertificate>,
    pub highest_ledger_info: QuorumCert,
}

/// The logic of choosing a leader among multiple candidates.
pub trait ProposerElection {
    /// Whether `author` is a valid proposer for `round`.
    spec fn is_proposer_for(&self, author: Author, round: Round) -> bool;

    /// `Some(author)` if `author` is a valid proposer for `round`, otherwise `None`.
    fn is_valid_proposer(&self, author: Author, round: Round) -> (r: Option<Author>)
        ensures
            r == if self.is_proposer_for(author, round) {
                Some(author)
            } else {
                None
            },
    ;

    /// All the valid proposers for `round`.
    fn get_valid_proposers(&self, round: Round) -> (r: Vec<Author>)
        ensures
            forall|a: Author| r@.contains(a) <==> self.is_proposer_for(a, round),
    ;

    /// Passes a proposal on as the winning proposal of its round if its
    /// proposer is valid for that round.
    fn process_proposal(&self, proposal: ProposalInfo) -> (r: Option<ProposalInfo>)
        ensures
            r == if self.is_proposer_for(proposal.proposer_info, proposal.proposal.round) {
                Some(proposal)
            } else {
                None
            },
    ;
}

/// The proposer of `round` in a round-robin rotation through `proposers`,
/// each proposing for `contiguous_rounds` rounds in a row.
pub open spec fn rotation_proposer(proposers: Seq<Author>, contiguous_rounds: u32, round: Round) -> Author {
    proposers[((round / (contiguous_rounds as u64)) % (proposers.len() as u64)) as int]
}

/// Maps a round to an author by a round-robin rotation.
pub struct RotatingProposer {
    /// Ordering of proposers to rotate through (all honest replicas must agree on this).
    proposers: Vec<Author>,
    /// Number of contiguous rounds a proposer is active in a row.
    contiguous_rounds: u32,
}

impl RotatingProposer {
    #[verifier::type_invariant]
    spec fn inv(&self) -> bool {
        &&& self.proposers@.len() > 0
        &&& self.contiguous_rounds > 0
    }

    pub closed spec fn proposers(&self) -> Seq<Author> {
        self.proposers@
    }

    pub closed spec fn rounds_in_a_row(&self) -> u32 {
        self.contiguous_rounds
    }

    /// The proposer of `round`.
    pub open spec fn proposer_of(&self, round: Round) -> Author {
        rotation_proposer(self.proposers(), self.rounds_in_a_row(), round)
    }

    pub fn new(proposers: Vec<Author>, contiguous_rounds: u32) -> (p: Self)
        requires
            proposers@.len() > 0,
            contiguous_rounds > 0,
        ensures
            p.proposers() == proposers@,
            p.rounds_in_a_row() == contiguous_rounds,
    {
        RotatingProposer { proposers, contiguous_rounds }
    }

    /// The proposer of `round`.
    pub fn get_proposer(&self, round: Round) -> (a: Author)
        ensures
            a == self.proposer_of(round),
    {
        proof {
            use_type_invariant(self);
        }
        let per_proposer = self.contiguous_rounds as u64;
        let n = self.proposers.len() as u64;
        let index = ((round / per_proposer) % n) as usize;
        self.proposers[index]
    }
}

impl ProposerElection for RotatingProposer {
    open spec fn is_proposer_for(&self, author: Author, round: Round) -> bool {
        author == self.proposer_of(round)
    }

    fn is_valid_proposer(&self, author: Author, round: Round) -> (r: Option<Author>) {
        if self.get_proposer(round) == author {
            Some(author)
        } else {
            None
        }
    }

    fn get_valid_proposers(&self, round: Round) -> (r: Vec<Author>) {
        let mut v = Vec::new();
        v.push(self.get_proposer(round));
        proof {
            assert forall|a: Author| v@.contains(a) <==> self.is_proposer_for(a, round) by {
                if a == self.proposer_of(round) {
                    assert(v@[0] == a);
                }
            }
        }
        v
    }

    fn process_proposal(&self, proposal: ProposalInfo) -> (r: Option<ProposalInfo>) {
        if self.is_valid_proposer(proposal.proposer_info, proposal.proposal.round).is_none() {
            return None;
        }
        Some(proposal)
    }
}

/// Rotation by blocks of rounds: for every number `c` of contiguous rounds,
/// the `c` rounds `k * c` to `k * c + c - 1` all have one proposer, the
/// `k`-th of the rotation (counting round the list of proposers).
pub proof fn lemma_rotation_in_blocks_of_rounds(p: RotatingProposer, k: nat, j: nat)
    requires
        0 < p.proposers().len() <= usize::MAX,
        p.rounds_in_a_row() > 0,
        j < p.rounds_in_a_row(),
        k * p.rounds_in_a_row() + j <= u64::MAX,
    ensures
        p.proposer_of((k * p.rounds_in_a_row() + j) as Round) == p.proposers()[(k % p.proposers().len()) as int],
{
    let c = p.rounds_in_a_row() as int;
    let round = k * c + j;
    vstd::arithmetic::div_mod::lemma_fundamental_div_mod_converse(round, c, k as int, j as int);
    assert(k <= k * c) by (nonlinear_arith)
        requires
            c >= 1,
    ;
    let r = (k * p.rounds_in_a_row() + j) as Round;
    assert(r == round);
    assert(r / (p.rounds_in_a_row() as u64) == k);
    let n = p.proposers().len();
    assert((n as u64) == n);
    assert(((r / (p.rounds_in_a_row() as u64)) % (n as u64)) as int == (k % n) as int);
}

} // verus!
