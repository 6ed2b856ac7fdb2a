use vstd::prelude::*;

use crate::identity::Identity;

verus! {

/// Address text that stands for "nobody" in the records returned for ids
/// that were never issued.
pub const NULL_ADDRESS: &'static str = "GAAAAAAAAAAAAAAAAAAAAAAAAAAAAAAAAAAAAAAAAAAAAAAAAAAAAWHF";

/// File name of the record returned for a file id that was never issued.
pub const MISSING_FILE_NAME: &'static str = "Not_Found";

/// Why an operation of a ledger was refused.
#[derive(Clone, Copy, Debug, PartialEq, Eq, Structural)]
pub enum LedgerError {
    /// A mint or redeem amount that is not positive.
    InvalidAmount,
    /// A redeem of more points than the user holds.
    InsufficientBalance,
    /// A user with no reward record, or a file or permission id never issued.
    NotFound,
    /// The verified caller is not the identity the operation acts for.
    AuthFailure,
}

/// Metadata of one uploaded file.
#[derive(Clone, Debug)]
pub struct FileRecord {
    pub file_id: u64,
    pub owner: Identity,
    pub file_name: String,
    /// Content fingerprint, for instance an IPFS hash.
    pub file_hash: String,
    /// Size in bytes.
    pub file_size: u64,
    pub upload_time: u64,
    pub is_public: bool,
    pub download_count: u64,
}

/// A grant of access to one file, from its sharer to another identity.
#[derive(Clone, Debug)]
pub struct SharePermission {
    pub permission_id: u64,
    pub file_id: u64,
    pub owner: Identity,
    pub shared_with: Identity,
    pub can_download: bool,
    /// Zero means the grant never expires.
    pub expiry_time: u64,
    pub granted_time: u64,
}

/// Platform-wide counters.
#[derive(Clone, Copy, Debug, PartialEq, Eq, Structural)]
pub struct SyncStats {
    pub total_files: u64,
    pub total_shares: u64,
    pub total_downloads: u64,
    pub active_users: u64,
}

/// Store key of a file record.
#[derive(Clone, Copy, Debug, PartialEq, Eq, Structural)]
pub enum FileBook {
    File(u64),
}

/// Store key of a share permission.
#[derive(Clone, Copy, Debug, PartialEq, Eq, Structural)]
pub enum ShareBook {
    Share(u64),
}

/// Store key of an identity's upload count.
#[derive(Clone, Debug)]
pub enum UserFiles {
    Count(Identity),
}

/// The record that stands for a file id that was never issued.
pub open spec fn is_missing_file(r: FileRecord) -> bool {
    &&& r.file_id == 0
    &&& r.owner@ == NULL_ADDRESS@
    &&& r.file_name@ == MISSING_FILE_NAME@
    &&& r.file_hash@ == Seq::<char>::empty()
    &&& r.file_size == 0
    &&& r.upload_time == 0
    &&& !r.is_public
    &&& r.download_count == 0
}

/// The permission that stands for a permission id that was never issued.
pub open spec fn is_missing_share(r: SharePermission) -> bool {
    &&& r.permission_id == 0
    &&& r.file_id == 0
    &&& r.owner@ == NULL_ADDRESS@
    &&& r.shared_with@ == NULL_ADDRESS@
    &&& !r.can_download
    &&& r.expiry_time == 0
    &&& r.granted_time == 0
}

impl FileRecord {
    /// The record returned for a file id that was never issued.
    pub fn missing() -> (r: FileRecord)
        ensures
            is_missing_file(r),
    {
        FileRecord {
            file_id: 0,
            owner: Identity::new(String::from_str(NULL_ADDRESS)),
            file_name: String::from_str(MISSING_FILE_NAME),
            file_hash: String::new(),
            file_size: 0,
            upload_time: 0,
            is_public: false,
            download_count: 0,
        }
    }

    /// A copy of this record.
    pub fn duplicate(&self) -> (r: FileRecord)
        ensures
            r == *self,
    {
        FileRecord {
            file_id: self.file_id,
            owner: self.owner.duplicate(),
            file_name: self.file_name.clone(),
            file_hash: self.file_hash.clone(),
            file_size: self.file_size,
            upload_time: self.upload_time,
            is_public: self.is_public,
            download_count: self.download_count,
        }
    }
}

impl SharePermission {
    /// The permission returned for a permission id that was never issued.
    pub fn missing() -> (r: SharePermission)
        ensures
            is_missing_share(r),
    {
        SharePermission {
            permission_id: 0,
            file_id: 0,
            owner: Identity::new(String::from_str(NULL_ADDRESS)),
            shared_with: Identity::new(String::from_str(NULL_ADDRESS)),
            can_download: false,
            expiry_time: 0,
            granted_time: 0,
        }
    }

    /// A copy of this permission.
    pub fn duplicate(&self) -> (r: SharePermission)
        ensures
            r == *self,
    {
        SharePermission {
            permission_id: self.permission_id,
            file_id: self.file_id,
            owner: self.owner.duplicate(),
            shared_with: self.shared_with.duplicate(),
            can_download: self.can_download,
            expiry_time: self.expiry_time,
            granted_time: self.granted_time,
        }
    }
}

impl SyncStats {
    /// All counters at zero, as before anything was recorded.
    pub fn zero() -> (r: SyncStats)
        ensures
            r == (SyncStats { total_files: 0, total_shares: 0, total_downloads: 0, active_users: 0 }),
    {
        SyncStats { total_files: 0, total_shares: 0, total_downloads: 0, active_users: 0 }
    }
}

} // verus!
