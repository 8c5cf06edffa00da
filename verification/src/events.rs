//! What happens in the file system, as announced to listeners.
use vstd::prelude::*;

use crate::types::{FileId, OriginId, VirtualPath};

verus! {

/// An event on the bus.
#[derive(Debug, Clone)]
pub enum Event {
    FileAccessed { file_id: FileId, origin_id: OriginId, path: VirtualPath, offset: u64, size: u32 },
    FileAdded { path: VirtualPath, origin_id: OriginId },
    FileRemoved { path: VirtualPath, file_id: Option<FileId> },
    FileModified { path: VirtualPath },
    SyncStarted { origin_id: OriginId },
    SyncCompleted { origin_id: OriginId, files_changed: u64 },
    OriginHealthChanged { origin_id: OriginId, healthy: bool },
    CacheEviction { bytes_freed: u64 },
    OriginConnected { origin_id: OriginId },
    OriginDisconnected { origin_id: OriginId },
    AllOriginsUnhealthy { candidate_count: usize },
}

} // verus!
