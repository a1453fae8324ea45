//! The sync folder: which file the document is read from.
//!
//! The folder is shared with programs that the store knows nothing of. The
//! store takes no lock; it relies on atomic writes and tolerant reads.

use crate::reader::{BACKUP_ATTEMPTS, PRIMARY_ATTEMPTS};
use vstd::prelude::*;

verus! {

/// Where the document of the sync folder comes from.
#[derive(Clone, Copy, Debug, PartialEq, Eq, Structural)]
pub enum SyncSource {
    /// The document file of the folder.
    Primary,
    /// The file under the name that earlier versions used; never written.
    Legacy,
    /// No file: the document of a new installation.
    Skeleton,
}

/// How the document of the sync folder is read.
#[derive(Clone, Copy, Debug, PartialEq, Eq, Structural)]
pub struct SyncRead {
    /// The file to read, if any.
    pub source: SyncSource,
    /// The attempts that the read of that file is allowed.
    pub attempts: u32,
    /// The attempts that the read of its backup is allowed after the read
    /// of the file has failed; 0 where no backup is tried.
    pub backup_attempts: u32,
}

/// The source of the document: the document file where it exists, else the
/// file under the old name where that exists, else the skeleton.
pub open spec fn sync_source(primary_exists: bool, legacy_exists: bool) -> SyncSource {
    if primary_exists {
        SyncSource::Primary
    } else if legacy_exists {
        SyncSource::Legacy
    } else {
        SyncSource::Skeleton
    }
}

/// How the document is read from `sync_source`: the document file with
/// retries and with its backup to fall back on, the file under the old name
/// once and without a backup, the skeleton without any read.
pub open spec fn sync_read(primary_exists: bool, legacy_exists: bool) -> SyncRead {
    match sync_source(primary_exists, legacy_exists) {
        SyncSource::Primary => SyncRead {
            source: SyncSource::Primary,
            attempts: PRIMARY_ATTEMPTS,
            backup_attempts: BACKUP_ATTEMPTS,
        },
        SyncSource::Legacy => SyncRead {
            source: SyncSource::Legacy,
            attempts: 1,
            backup_attempts: 0,
        },
        SyncSource::Skeleton => SyncRead {
            source: SyncSource::Skeleton,
            attempts: 0,
            backup_attempts: 0,
        },
    }
}

/// Decides how the document of the sync folder is read. `primary_exists`
/// says whether the document file is in the folder, `legacy_exists` whether
/// the file under the old name is.
pub fn plan_sync_read(primary_exists: bool, legacy_exists: bool) -> (read: SyncRead)
    ensures
        read == sync_read(primary_exists, legacy_exists),
{
    if primary_exists {
        SyncRead {
            source: SyncSource::Primary,
            attempts: PRIMARY_ATTEMPTS,
            backup_attempts: BACKUP_ATTEMPTS,
        }
    } else if legacy_exists {
        SyncRead { source: SyncSource::Legacy, attempts: 1, backup_attempts: 0 }
    } else {
        SyncRead { source: SyncSource::Skeleton, attempts: 0, backup_attempts: 0 }
    }
}

} // verus!
