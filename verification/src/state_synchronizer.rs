//! Outcomes of state synchronization.
use vstd::prelude::*;

verus! {

/// How a state synchronization ended.
#[derive(Clone, Copy, Debug, PartialEq, Eq, Structural)]
pub enum SyncStatus {
    Finished,
    ExecutionFailed,
    StorageReadFailed,
    DownloadFailed,
    DownloaderNotAvailable,
    ChunkIsEmpty,
}

} // verus!
