//! Quorum certificates: a quorum of votes for one block and its execution state.
use vstd::prelude::*;
use crate::common::{
    is_zero, ExecutedState, HashValue, LedgerInfoWithSignatures, Round, GENESIS_BLOCK_ID, ZERO_HASH,
};

verus! {

/// A quorum certificate for a block.
#[derive(Clone, Copy, Debug, PartialEq, Eq, Structural)]
pub struct QuorumCert {
    /// The id of a block that is certified by this quorum certificate.
    pub certified_block_id: HashValue,
    /// The execution state of the corresponding block.
    pub certified_state: ExecutedState,
    /// The round of a certified block.
    pub certified_block_round: Round,
    /// The signed ledger info of a committed block that carries the data about the certified block.
    pub signed_ledger_info: LedgerInfoWithSignatures,
}

/// Why a quorum certificate fails verification.
#[derive(Clone, Copy, Debug, PartialEq, Eq, Structural)]
pub enum VoteMsgVerificationError {
    /// The signed ledger info does not carry the digest of the certified data.
    ConsensusDataMismatch,
    /// The signatures do not verify against the validator set.
    SigVerifyError,
}

/// What remains to be done after the consensus data of a certificate has been checked.
#[derive(Clone, Copy, Debug, PartialEq, Eq, Structural)]
pub enum QcCheck {
    /// The certificate is the genesis certificate, which carries no real signatures.
    Genesis,
    /// The signatures of the signed ledger info must be verified against the validator set.
    SignaturesToVerify,
}

impl QuorumCert {
    /// The committed block id carried by the certificate, if it is not the placeholder.
    pub open spec fn spec_committed_block_id(self) -> Option<HashValue> {
        let id = self.signed_ledger_info.ledger_info.consensus_block_id;
        if id == ZERO_HASH {
            None
        } else {
            Some(id)
        }
    }

    /// Whether this is the certificate of the genesis block.
    pub open spec fn is_genesis(self) -> bool {
        &&& self.certified_block_round == 0
        &&& self.certified_block_id == GENESIS_BLOCK_ID
        &&& self.certified_state == ExecutedState::spec_state_for_genesis()
    }

    pub fn new(
        block_id: HashValue,
        state: ExecutedState,
        round: Round,
        signed_ledger_info: LedgerInfoWithSignatures,
    ) -> (qc: QuorumCert)
        ensures
            qc.certified_block_id == block_id,
            qc.certified_state == state,
            qc.certified_block_round == round,
            qc.signed_ledger_info == signed_ledger_info,
    {
        QuorumCert {
            certified_block_id: block_id,
            certified_state: state,
            certified_block_round: round,
            signed_ledger_info,
        }
    }

    pub fn certified_block_id(&self) -> (r: HashValue)
        ensures
            r == self.certified_block_id,
    {
        self.certified_block_id
    }

    pub fn certified_state(&self) -> (r: ExecutedState)
        ensures
            r == self.certified_state,
    {
        self.certified_state
    }

    pub fn certified_block_round(&self) -> (r: Round)
        ensures
            r == self.certified_block_round,
    {
        self.certified_block_round
    }

    pub fn ledger_info(&self) -> (r: &LedgerInfoWithSignatures)
        ensures
            *r == self.signed_ledger_info,
    {
        &self.signed_ledger_info
    }

    /// The id of the block that the signed ledger info commits, or `None` for the
    /// placeholder id zero.
    pub fn committed_block_id(&self) -> (r: Option<HashValue>)
        ensures
            r == self.spec_committed_block_id(),
    {
        let id = self.ledger_info().ledger_info().consensus_block_id();
        if is_zero(id) {
            None
        } else {
            Some(id)
        }
    }

    /// Checks the consensus data of the certificate against `vote_digest`, the
    /// digest of (certified block id, certified state, certified round) that the
    /// caller's hashing computed.  The genesis certificate is accepted as it is;
    /// any other certificate still needs its signatures verified.
    pub fn verify(&self, vote_digest: HashValue) -> (r: Result<QcCheck, VoteMsgVerificationError>)
        ensures
            self.signed_ledger_info.ledger_info.consensus_data_hash != vote_digest ==> r
                == Err::<QcCheck, VoteMsgVerificationError>(
                VoteMsgVerificationError::ConsensusDataMismatch,
            ),
            self.signed_ledger_info.ledger_info.consensus_data_hash == vote_digest ==> r == Ok::<
                QcCheck,
                VoteMsgVerificationError,
            >(if self.is_genesis() { QcCheck::Genesis } else { QcCheck::SignaturesToVerify }),
    {
        if self.ledger_info().ledger_info().consensus_data_hash() != vote_digest {
            return Err(VoteMsgVerificationError::ConsensusDataMismatch);
        }
        let genesis_state = ExecutedState::state_for_genesis();
        if self.certified_block_round == 0 && self.certified_block_id == GENESIS_BLOCK_ID
            && self.certified_state.state_id == genesis_state.state_id
            && self.certified_state.version == genesis_state.version {
            return Ok(QcCheck::Genesis);
        }
        Ok(QcCheck::SignaturesToVerify)
    }
}

} // verus!
