//! Safety and liveness rules of a chained-BFT consensus protocol, and a model
//! of the HotStuff protocol.
//!
//! The replica logic is written as functions from a replica's state and an
//! event to its next state and the actions to perform; messaging, storage,
//! execution and cryptography are the caller's.
use vstd::prelude::*;

pub mod common;
pub mod quorum_cert;
pub mod block;
pub mod vote_msg;
pub mod block_tree;
pub mod block_store;
pub mod safety_rules;
pub mod timeout;
pub mod pacemaker;
pub mod proposer_election;
pub mod proposal_generator;
pub mod event_processor;
pub mod persistent_storage;
pub mod config;
pub mod state_synchronizer;
pub mod hotstuff;
pub mod hotstuff_safety;

verus! {

} // verus!
