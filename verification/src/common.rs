//! Plain values shared by the consensus modules.
use vstd::prelude::*;

verus! {

/// A consensus round number.
pub type Round = u64;

/// The height of a block: its distance from the genesis block.
pub type Height = u64;

/// A digest that identifies a block, a state or a ledger info.
///
/// Digests are computed by the caller's hashing; the consensus logic only
/// compares them.
pub type HashValue = u64;

/// The identity of a validator.
pub type Author = u64;

/// The digest that stands for "no value" (a placeholder).
pub const ZERO_HASH: HashValue = 0;

/// The identifier of the genesis block.
pub const GENESIS_BLOCK_ID: HashValue = 1;

/// The state digest of the empty transaction accumulator (the genesis state).
pub const ACCUMULATOR_PLACEHOLDER_HASH: HashValue = 2;

/// Whether a digest is the placeholder digest.
pub fn is_zero(h: HashValue) -> (r: bool)
    ensures
        r <==> h == ZERO_HASH,
{
    h == ZERO_HASH
}

/// The execution state that a block leads to: the root of the state tree and
/// the number of transactions executed so far.
#[derive(Clone, Copy, Debug, PartialEq, Eq, Structural)]
pub struct ExecutedState {
    pub state_id: HashValue,
    pub version: u64,
}

impl ExecutedState {
    /// The state of the genesis block.
    pub open spec fn spec_state_for_genesis() -> ExecutedState {
        ExecutedState { state_id: ACCUMULATOR_PLACEHOLDER_HASH, version: 0 }
    }

    /// The state of the genesis block.
    pub fn state_for_genesis() -> (s: ExecutedState)
        ensures
            s == Self::spec_state_for_genesis(),
    {
        ExecutedState { state_id: ACCUMULATOR_PLACEHOLDER_HASH, version: 0 }
    }
}

/// What the ledger is at a committed block: the data that validators sign.
#[derive(Clone, Copy, Debug, PartialEq, Eq, Structural)]
pub struct LedgerInfo {
    /// The version of the latest transaction in the ledger.
    pub version: u64,
    /// The root hash of the transaction accumulator.
    pub transaction_accumulator_hash: HashValue,
    /// The digest of the consensus data (block id, state and round) that was voted on.
    pub consensus_data_hash: HashValue,
    /// The id of the block committed by this ledger info (zero if none).
    pub consensus_block_id: HashValue,
    /// The epoch number.
    pub epoch_num: u64,
    /// The timestamp of the committed block.
    pub timestamp_usecs: u64,
}

impl LedgerInfo {
    pub fn new(
        version: u64,
        transaction_accumulator_hash: HashValue,
        consensus_data_hash: HashValue,
        consensus_block_id: HashValue,
        epoch_num: u64,
        timestamp_usecs: u64,
    ) -> (li: LedgerInfo)
        ensures
            li == (LedgerInfo {
                version,
                transaction_accumulator_hash,
                consensus_data_hash,
                consensus_block_id,
                epoch_num,
                timestamp_usecs,
            }),
    {
        LedgerInfo {
            version,
            transaction_accumulator_hash,
            consensus_data_hash,
            consensus_block_id,
            epoch_num,
            timestamp_usecs,
        }
    }

    pub fn consensus_block_id(&self) -> (r: HashValue)
        ensures
            r == self.consensus_block_id,
    {
        self.consensus_block_id
    }

    pub fn consensus_data_hash(&self) -> (r: HashValue)
        ensures
            r == self.consensus_data_hash,
    {
        self.consensus_data_hash
    }
}

/// A ledger info together with the number of distinct validators that signed it.
///
/// The signature bytes are produced and checked by the caller's cryptography;
/// the consensus logic only needs to know how many validators signed.
#[derive(Clone, Copy, Debug, PartialEq, Eq, Structural)]
pub struct LedgerInfoWithSignatures {
    pub ledger_info: LedgerInfo,
    pub num_signatures: u64,
}

impl LedgerInfoWithSignatures {
    pub fn new(ledger_info: LedgerInfo, num_signatures: u64) -> (r: LedgerInfoWithSignatures)
        ensures
            r.ledger_info == ledger_info,
            r.num_signatures == num_signatures,
    {
        LedgerInfoWithSignatures { ledger_info, num_signatures }
    }

    pub fn ledger_info(&self) -> (r: LedgerInfo)
        ensures
            r == self.ledger_info,
    {
        self.ledger_info
    }
}

} // verus!
