//! What the client reports about its synchronisation with the server.

use vstd::prelude::*;
use vstd::string::StringExecFns;

verus! {

/// What can go wrong with a synchronisation.
#[derive(Debug)]
pub enum SyncError {
    NetworkError(String),
    ServerError(String),
    DataError(String),
    /// A synchronisation is already under way.
    AlreadySyncing,
}

impl SyncError {
    /// The text of the error.
    pub open spec fn spec_message(self) -> Seq<char> {
        match self {
            SyncError::NetworkError(reason) => "网络错误: "@ + reason@,
            SyncError::ServerError(reason) => "服务器错误: "@ + reason@,
            SyncError::DataError(reason) => "数据错误: "@ + reason@,
            SyncError::AlreadySyncing => "同步已在进行中"@,
        }
    }

    /// The text of the error.
    pub fn message(&self) -> (text: String)
        ensures
            text@ == self.spec_message(),
    {
        match self {
            SyncError::NetworkError(reason) => String::from_str("网络错误: ").concat(
                reason.as_str(),
            ),
            SyncError::ServerError(reason) => String::from_str("服务器错误: ").concat(
                reason.as_str(),
            ),
            SyncError::DataError(reason) => String::from_str("数据错误: ").concat(
                reason.as_str(),
            ),
            SyncError::AlreadySyncing => String::from_str("同步已在进行中"),
        }
    }
}

/// One change that could not be synchronised.
#[derive(Debug)]
pub struct SyncErrorItem {
    pub id: String,
    pub entity: String,
    pub entity_id: String,
    pub operation: String,
    pub error: String,
    pub timestamp: String,
    pub retry_count: i32,
}

/// Where the synchronisation stands.
#[derive(Debug)]
pub struct SyncStatus {
    pub is_syncing: bool,
    pub last_sync_at: Option<String>,
    pub pending_changes: i64,
    pub sync_errors: Vec<SyncErrorItem>,
}

impl Clone for SyncErrorItem {
    fn clone(&self) -> (copy: Self)
        ensures
            copy == *self,
    {
        SyncErrorItem {
            id: self.id.clone(),
            entity: self.entity.clone(),
            entity_id: self.entity_id.clone(),
            operation: self.operation.clone(),
            error: self.error.clone(),
            timestamp: self.timestamp.clone(),
            retry_count: self.retry_count,
        }
    }
}

impl Clone for SyncStatus {
    fn clone(&self) -> (copy: Self)
        ensures
            copy.is_syncing == self.is_syncing,
            copy.last_sync_at == self.last_sync_at,
            copy.pending_changes == self.pending_changes,
            copy.sync_errors@ == self.sync_errors@,
    {
        let last_sync_at = match &self.last_sync_at {
            Some(at) => Some(at.clone()),
            None => None,
        };
        let mut sync_errors: Vec<SyncErrorItem> = Vec::new();
        let mut i: usize = 0;
        while i < self.sync_errors.len()
            invariant
                i <= self.sync_errors.len(),
                sync_errors@ == self.sync_errors@.take(i as int),
            decreases self.sync_errors.len() - i,
        {
            sync_errors.push(self.sync_errors[i].clone());
            assert(sync_errors@ =~= self.sync_errors@.take(i + 1));
            i += 1;
        }
        assert(self.sync_errors@.take(i as int) =~= self.sync_errors@);
        SyncStatus {
            is_syncing: self.is_syncing,
            last_sync_at,
            pending_changes: self.pending_changes,
            sync_errors,
        }
    }
}

impl SyncStatus {
    /// The status of a client with `pending_count` changes to send and
    /// `errors` from earlier attempts, of which the time of the last
    /// synchronisation is not known.
    pub fn new(is_syncing: bool, pending_count: i64, errors: Vec<SyncErrorItem>) -> (status: Self)
        ensures
            status.is_syncing == is_syncing,
            status.last_sync_at is None,
            status.pending_changes == pending_count,
            status.sync_errors == errors,
    {
        SyncStatus {
            is_syncing,
            last_sync_at: None,
            pending_changes: pending_count,
            sync_errors: errors,
        }
    }
}

} // verus!
