//! Blocks of the chained protocol.
use vstd::prelude::*;
use crate::common::{Author, HashValue, Height, Round};
use crate::quorum_cert::QuorumCert;

verus! {

/// A proposed block.  Its payload is kept by the caller, keyed by the block id.
#[derive(Clone, Copy, Debug, PartialEq, Eq, Structural)]
pub struct Block {
    /// This block's id.
    pub id: HashValue,
    /// The id of the parent block.
    pub parent_id: HashValue,
    /// The round of the block: a monotonically increasing counter of the protocol.
    pub round: Round,
    /// The position of the block in the chain (parent height + 1).
    pub height: Height,
    /// The time at which the block was proposed.
    pub timestamp_usecs: u64,
    /// The certificate of the parent block that this block extends.
    pub quorum_cert: QuorumCert,
    /// The validator that proposed the block.
    pub author: Author,
}

impl Block {
    pub fn id(&self) -> (r: HashValue)
        ensures
            r == self.id,
    {
        self.id
    }

    pub fn parent_id(&self) -> (r: HashValue)
        ensures
            r == self.parent_id,
    {
        self.parent_id
    }

    pub fn round(&self) -> (r: Round)
        ensures
            r == self.round,
    {
        self.round
    }

    pub fn height(&self) -> (r: Height)
        ensures
            r == self.height,
    {
        self.height
    }

    pub fn timestamp_usecs(&self) -> (r: u64)
        ensures
            r == self.timestamp_usecs,
    {
        self.timestamp_usecs
    }

    pub fn quorum_cert(&self) -> (r: &QuorumCert)
        ensures
            *r == self.quorum_cert,
    {
        &self.quorum_cert
    }

    pub fn author(&self) -> (r: Author)
        ensures
            r == self.author,
    {
        self.author
    }
}

} // verus!
