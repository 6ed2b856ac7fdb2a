use vstd::prelude::*;

use crate::identity::Identity;
use crate::records::{
    is_missing_file, is_missing_share, FileRecord, LedgerError, SharePermission, SyncStats,
};
use crate::table::{distinct_keys, entries_match, Entry, IdentityMap};

verus! {

/// What the file-sync ledger holds: files and permissions in the order of
/// their ids, upload counts per identity, and the platform counters.
pub struct SyncView {
    pub files: Seq<FileRecord>,
    pub shares: Seq<SharePermission>,
    pub user_files: Map<Seq<char>, u64>,
    pub stats: SyncStats,
}

/// Sum of the download counts of `files`.
pub open spec fn downloads_sum(files: Seq<FileRecord>) -> int
    decreases files.len(),
{
    if files.len() == 0 {
        0
    } else {
        downloads_sum(files.drop_last()) + files.last().download_count
    }
}

/// Number of uploads recorded for `owner`.
pub open spec fn file_count_of(v: SyncView, owner: Seq<char>) -> int {
    if v.user_files.contains_key(owner) {
        v.user_files[owner] as int
    } else {
        0
    }
}

/// Id that the next upload receives.
pub open spec fn next_file_id(v: SyncView) -> int {
    (v.files.len() + 1) as int
}

/// Id that the next share receives.
pub open spec fn next_share_id(v: SyncView) -> int {
    (v.shares.len() + 1) as int
}

/// Whether `id` names a file that was uploaded.
pub open spec fn file_issued(v: SyncView, id: u64) -> bool {
    1 <= id <= v.files.len()
}

/// Whether `id` names a permission that was granted.
pub open spec fn share_issued(v: SyncView, id: u64) -> bool {
    1 <= id <= v.shares.len()
}

/// File and permission ids run 1, 2, ... in order; every permission names
/// an uploaded file; the counters agree with the records.
pub open spec fn records_wf(files: Seq<FileRecord>, shares: Seq<SharePermission>, stats: SyncStats) -> bool {
    &&& forall|i: int| 0 <= i < files.len() ==> (#[trigger] files[i]).file_id == i + 1
    &&& forall|i: int|
        0 <= i < shares.len() ==> {
            &&& (#[trigger] shares[i]).permission_id == i + 1
            &&& 1 <= shares[i].file_id <= files.len()
        }
    &&& stats.total_files == files.len()
    &&& stats.total_downloads == downloads_sum(files)
    &&& stats.total_shares <= shares.len()
}

/// The records are well formed and no identity has more uploads than there
/// are files.
pub open spec fn sync_wf(v: SyncView) -> bool {
    &&& records_wf(v.files, v.shares, v.stats)
    &&& forall|u: Seq<char>| #[trigger] v.user_files.contains_key(u) ==> v.user_files[u] <= v.files.len()
}

/// The ledger after `owner` uploads a file.
pub open spec fn upload_view(
    v: SyncView,
    owner: Identity,
    file_name: String,
    file_hash: String,
    file_size: u64,
    is_public: bool,
    now: u64,
) -> SyncView {
    let rec = FileRecord {
        file_id: next_file_id(v) as u64,
        owner,
        file_name,
        file_hash,
        file_size,
        upload_time: now,
        is_public,
        download_count: 0,
    };
    SyncView {
        files: v.files.push(rec),
        user_files: v.user_files.insert(owner@, (file_count_of(v, owner@) + 1) as u64),
        stats: SyncStats { total_files: (v.stats.total_files + 1) as u64, ..v.stats },
        ..v
    }
}

/// The ledger after `owner` shares file `file_id` with `shared_with`.
pub open spec fn share_view(
    v: SyncView,
    owner: Identity,
    file_id: u64,
    shared_with: Identity,
    expiry_time: u64,
    now: u64,
) -> SyncView {
    let perm = SharePermission {
        permission_id: next_share_id(v) as u64,
        file_id,
        owner,
        shared_with,
        can_download: true,
        expiry_time,
        granted_time: now,
    };
    SyncView {
        shares: v.shares.push(perm),
        stats: SyncStats { total_shares: (v.stats.total_shares + 1) as u64, ..v.stats },
        ..v
    }
}

/// The ledger after one download of the issued file `file_id`.
pub open spec fn download_view(v: SyncView, file_id: u64) -> SyncView {
    let i = file_id - 1;
    SyncView {
        files: v.files.update(
            i,
            FileRecord { download_count: (v.files[i].download_count + 1) as u64, ..v.files[i] },
        ),
        stats: SyncStats { total_downloads: (v.stats.total_downloads + 1) as u64, ..v.stats },
        ..v
    }
}

/// The ledger after the issued permission `permission_id` is revoked: the
/// permission stays, without download rights, and the live share count
/// drops by one unless it is already zero.
pub open spec fn revoke_view(v: SyncView, permission_id: u64) -> SyncView {
    let i = permission_id - 1;
    SyncView {
        shares: v.shares.update(i, SharePermission { can_download: false, ..v.shares[i] }),
        stats: SyncStats {
            total_shares: if v.stats.total_shares > 0 {
                (v.stats.total_shares - 1) as u64
            } else {
                0
            },
            ..v.stats
        },
        ..v
    }
}

pub proof fn lemma_downloads_sum_push(files: Seq<FileRecord>, rec: FileRecord)
    ensures
        downloads_sum(files.push(rec)) == downloads_sum(files) + rec.download_count,
{
    assert(files.push(rec).drop_last() =~= files);
}

pub proof fn lemma_downloads_sum_update(files: Seq<FileRecord>, i: int, rec: FileRecord)
    requires
        0 <= i < files.len(),
    ensures
        downloads_sum(files.update(i, rec)) == downloads_sum(files) - files[i].download_count
            + rec.download_count,
    decreases files.len(),
{
    if i == files.len() - 1 {
        assert(files.update(i, rec).drop_last() =~= files.drop_last());
    } else {
        lemma_downloads_sum_update(files.drop_last(), i, rec);
        assert(files.update(i, rec).drop_last() =~= files.drop_last().update(i, rec));
    }
}

pub proof fn lemma_downloads_sum_bound(files: Seq<FileRecord>, i: int)
    requires
        0 <= i < files.len(),
    ensures
        files[i].download_count <= downloads_sum(files),
    decreases files.len(),
{
    lemma_downloads_sum_nonneg(files.drop_last());
    if i < files.len() - 1 {
        lemma_downloads_sum_bound(files.drop_last(), i);
    }
}

pub proof fn lemma_downloads_sum_prefix(files: Seq<FileRecord>, i: int)
    requires
        0 <= i <= files.len(),
    ensures
        downloads_sum(files.subrange(0, i)) <= downloads_sum(files),
    decreases files.len(),
{
    if i == files.len() {
        assert(files.subrange(0, i) =~= files);
    } else {
        lemma_downloads_sum_prefix(files.drop_last(), i);
        assert(files.drop_last().subrange(0, i) =~= files.subrange(0, i));
    }
}

pub proof fn lemma_downloads_sum_nonneg(files: Seq<FileRecord>)
    ensures
        0 <= downloads_sum(files),
    decreases files.len(),
{
    if files.len() > 0 {
        lemma_downloads_sum_nonneg(files.drop_last());
    }
}

/// The file-sync ledger: file records, share permissions, per-identity
/// upload counts and platform counters.
pub struct StreamSyncContract {
    files: Vec<FileRecord>,
    shares: Vec<SharePermission>,
    user_files: IdentityMap<u64>,
    stats: SyncStats,
}

impl View for StreamSyncContract {
    type V = SyncView;

    closed spec fn view(&self) -> SyncView {
        SyncView {
            files: self.files@,
            shares: self.shares@,
            user_files: self.user_files@,
            stats: self.stats,
        }
    }
}

impl StreamSyncContract {
    pub closed spec fn inv(&self) -> bool {
        &&& self.user_files.wf()
        &&& sync_wf(self@)
    }

    /// An empty ledger.
    pub fn new() -> (r: StreamSyncContract)
        ensures
            r.inv(),
            r@.files == Seq::<FileRecord>::empty(),
            r@.shares == Seq::<SharePermission>::empty(),
            r@.user_files == Map::<Seq<char>, u64>::empty(),
            r@.stats == (SyncStats { total_files: 0, total_shares: 0, total_downloads: 0, active_users: 0 }),
    {
        StreamSyncContract {
            files: Vec::new(),
            shares: Vec::new(),
            user_files: IdentityMap::new(),
            stats: SyncStats::zero(),
        }
    }
    /// Records a file uploaded by `owner` and returns its id, the next in
    /// sequence. `caller` is the identity the host verified for this call;
    /// `now` is the host's clock.
    pub fn upload_file(
        &mut self,
        caller: &Identity,
        owner: Identity,
        file_name: String,
        file_hash: String,
        file_size: u64,
        is_public: bool,
        now: u64,
    ) -> (r: Result<u64, LedgerError>)
        requires
            old(self).inv(),
            old(self)@.files.len() < u64::MAX,
        ensures
            final(self).inv(),
            caller@ != owner@ ==> r == Err::<u64, LedgerError>(LedgerError::AuthFailure)
                && final(self)@ == old(self)@,
            caller@ == owner@ ==> r == Ok::<u64, LedgerError>(next_file_id(old(self)@) as u64)
                && final(self)@ == upload_view(
                old(self)@,
                owner,
                file_name,
                file_hash,
                file_size,
                is_public,
                now,
            ),
    {
        if !caller.same_as(&owner) {
            return Err(LedgerError::AuthFailure);
        }
        let ghost pre = self@;
        let file_id = self.files.len() as u64 + 1;
        let user_count = match self.user_files.get(&owner) {
            Some(n) => n,
            None => 0,
        };
        proof {
            if pre.user_files.contains_key(owner@) {
                assert(pre.user_files[owner@] <= pre.files.len());
            }
        }
        self.user_files.insert(&owner, user_count + 1);
        self.stats.total_files = self.stats.total_files + 1;
        let record = FileRecord {
            file_id,
            owner,
            file_name,
            file_hash,
            file_size,
            upload_time: now,
            is_public,
            download_count: 0,
        };
        proof {
            lemma_downloads_sum_push(pre.files, record);
        }
        self.files.push(record);
        proof {
            let post = self@;
            assert forall|u: Seq<char>| #[trigger] post.user_files.contains_key(u) implies post.user_files[u]
                <= post.files.len() by {
                if u != record.owner@ {
                    assert(pre.user_files.contains_key(u));
                }
            }
            assert forall|i: int| 0 <= i < post.shares.len() implies file_issued(post, #[trigger] post.shares[i].file_id) by {
                assert(file_issued(pre, pre.shares[i].file_id));
            }
            assert(post.files =~= pre.files.push(record));
        }
        Ok(file_id)
    }
    /// Grants `shared_with` access to file `file_id` on behalf of `owner`
    /// and returns the new permission's id, the next in sequence. The file's
    /// own owner is not compared with `owner`.
    pub fn share_file(
        &mut self,
        caller: &Identity,
        owner: Identity,
        file_id: u64,
        shared_with: Identity,
        expiry_time: u64,
        now: u64,
    ) -> (r: Result<u64, LedgerError>)
        requires
            old(self).inv(),
            old(self)@.shares.len() < u64::MAX,
        ensures
            final(self).inv(),
            caller@ != owner@ ==> r == Err::<u64, LedgerError>(LedgerError::AuthFailure)
                && final(self)@ == old(self)@,
            caller@ == owner@ && !file_issued(old(self)@, file_id) ==> r == Err::<u64, LedgerError>(
                LedgerError::NotFound,
            ) && final(self)@ == old(self)@,
            caller@ == owner@ && file_issued(old(self)@, file_id) ==> r == Ok::<u64, LedgerError>(
                next_share_id(old(self)@) as u64,
            ) && final(self)@ == share_view(old(self)@, owner, file_id, shared_with, expiry_time, now),
    {
        if !caller.same_as(&owner) {
            return Err(LedgerError::AuthFailure);
        }
        let file = self.get_file(file_id);
        if file.file_id == 0 {
            return Err(LedgerError::NotFound);
        }
        let ghost pre = self@;
        assert(file == pre.files[file_id - 1]);
        let permission_id = self.shares.len() as u64 + 1;
        let permission = SharePermission {
            permission_id,
            file_id,
            owner,
            shared_with,
            can_download: true,
            expiry_time,
            granted_time: now,
        };
        self.shares.push(permission);
        self.stats.total_shares = self.stats.total_shares + 1;
        proof {
            assert(self@.shares =~= pre.shares.push(permission));
            assert forall|i: int| 0 <= i < self@.shares.len() implies (#[trigger] self@.shares[i]).permission_id
                == i + 1 && file_issued(self@, self@.shares[i].file_id) by {
                if i < pre.shares.len() {
                    assert(pre.shares[i] == self@.shares[i]);
                }
            }
            assert(self@.user_files == pre.user_files);
        }
        Ok(permission_id)
    }

    /// Counts one download of file `file_id` by `downloader`. Neither a
    /// permission nor the file's visibility is consulted.
    pub fn record_download(&mut self, caller: &Identity, file_id: u64, downloader: &Identity) -> (r:
        Result<(), LedgerError>)
        requires
            old(self).inv(),
            old(self)@.stats.total_downloads < u64::MAX,
        ensures
            final(self).inv(),
            caller@ != downloader@ ==> r == Err::<(), LedgerError>(LedgerError::AuthFailure)
                && final(self)@ == old(self)@,
            caller@ == downloader@ && !file_issued(old(self)@, file_id) ==> r == Err::<(), LedgerError>(
                LedgerError::NotFound,
            ) && final(self)@ == old(self)@,
            caller@ == downloader@ && file_issued(old(self)@, file_id) ==> r == Ok::<(), LedgerError>(())
                && final(self)@ == download_view(old(self)@, file_id),
    {
        if !caller.same_as(downloader) {
            return Err(LedgerError::AuthFailure);
        }
        let mut file = self.get_file(file_id);
        if file.file_id == 0 {
            return Err(LedgerError::NotFound);
        }
        let ghost pre = self@;
        assert(file_issued(pre, file_id));
        assert(file == pre.files[file_id - 1]);
        let n = self.files.len();
        let i = (file_id - 1) as usize;
        proof {
            lemma_downloads_sum_bound(pre.files, i as int);
        }
        file.download_count = file.download_count + 1;
        self.stats.total_downloads = self.stats.total_downloads + 1;
        proof {
            lemma_downloads_sum_update(pre.files, i as int, file);
        }
        self.files.set(i, file);
        proof {
            assert(self@.files =~= download_view(pre, file_id).files);
        }
        Ok(())
    }

    /// Withdraws the download right of permission `permission_id` on behalf
    /// of `owner`; the permission itself is kept. The permission's own owner
    /// is not compared with `owner`.
    pub fn revoke_share(&mut self, caller: &Identity, owner: &Identity, permission_id: u64) -> (r:
        Result<(), LedgerError>)
        requires
            old(self).inv(),
        ensures
            final(self).inv(),
            caller@ != owner@ ==> r == Err::<(), LedgerError>(LedgerError::AuthFailure)
                && final(self)@ == old(self)@,
            caller@ == owner@ && !share_issued(old(self)@, permission_id) ==> r == Err::<(), LedgerError>(
                LedgerError::NotFound,
            ) && final(self)@ == old(self)@,
            caller@ == owner@ && share_issued(old(self)@, permission_id) ==> r == Ok::<(), LedgerError>(())
                && final(self)@ == revoke_view(old(self)@, permission_id),
    {
        if !caller.same_as(owner) {
            return Err(LedgerError::AuthFailure);
        }
        let mut permission = self.get_share(permission_id);
        if permission.permission_id == 0 {
            return Err(LedgerError::NotFound);
        }
        let ghost pre = self@;
        assert(share_issued(pre, permission_id));
        assert(permission == pre.shares[permission_id - 1]);
        permission.can_download = false;
        if self.stats.total_shares > 0 {
            self.stats.total_shares = self.stats.total_shares - 1;
        }
        let n = self.shares.len();
        self.shares.set((permission_id - 1) as usize, permission);
        proof {
            assert(self@.shares =~= revoke_view(pre, permission_id).shares);
            assert forall|i: int| 0 <= i < self@.shares.len() implies (#[trigger] self@.shares[i]).permission_id
                == i + 1 && file_issued(self@, self@.shares[i].file_id) by {
                assert(pre.shares[i].permission_id == i + 1);
            }
        }
        Ok(())
    }

    /// The record of file `file_id`, or the missing-file record when that id
    /// was never issued.
    pub fn get_file(&self, file_id: u64) -> (r: FileRecord)
        requires
            self.inv(),
        ensures
            file_issued(self@, file_id) ==> r == self@.files[file_id - 1],
            !file_issued(self@, file_id) ==> is_missing_file(r),
    {
        if file_id >= 1 && file_id <= self.files.len() as u64 {
            self.files[(file_id - 1) as usize].duplicate()
        } else {
            FileRecord::missing()
        }
    }

    /// The permission `permission_id`, or the missing-permission record when
    /// that id was never issued.
    pub fn get_share(&self, permission_id: u64) -> (r: SharePermission)
        requires
            self.inv(),
        ensures
            share_issued(self@, permission_id) ==> r == self@.shares[permission_id - 1],
            !share_issued(self@, permission_id) ==> is_missing_share(r),
    {
        if permission_id >= 1 && permission_id <= self.shares.len() as u64 {
            self.shares[(permission_id - 1) as usize].duplicate()
        } else {
            SharePermission::missing()
        }
    }

    /// Number of files uploaded by `owner`.
    pub fn get_user_file_count(&self, owner: &Identity) -> (r: u64)
        requires
            self.inv(),
        ensures
            r == file_count_of(self@, owner@),
    {
        match self.user_files.get(owner) {
            Some(n) => n,
            None => 0,
        }
    }

    /// The platform counters.
    pub fn get_sync_stats(&self) -> (r: SyncStats)
        ensures
            r == self@.stats,
    {
        self.stats
    }
    /// A ledger holding the given records, upload counts and counters, or
    /// `None` when they do not fit together.
    pub fn from_parts(
        files: Vec<FileRecord>,
        shares: Vec<SharePermission>,
        user_files: Vec<Entry<u64>>,
        stats: SyncStats,
    ) -> (r: Option<StreamSyncContract>)
        ensures
            r is Some <==> records_wf(files@, shares@, stats) && distinct_keys(user_files@) && forall|i: int|
                0 <= i < user_files@.len() ==> (#[trigger] user_files@[i]).value <= files@.len(),
            r matches Some(c) ==> {
                &&& c.inv()
                &&& c@.files == files@
                &&& c@.shares == shares@
                &&& c@.stats == stats
                &&& entries_match(user_files@, c@.user_files)
            },
    {
        let n = files.len();
        let mut i: usize = 0;
        while i < n
            invariant
                n == files@.len(),
                i <= n,
                forall|j: int| 0 <= j < i ==> (#[trigger] files@[j]).file_id == j + 1,
            decreases n - i,
        {
            if files[i].file_id != i as u64 + 1 {
                return None;
            }
            i = i + 1;
        }
        let m = shares.len();
        let mut i: usize = 0;
        while i < m
            invariant
                m == shares@.len(),
                n == files@.len(),
                i <= m,
                forall|j: int|
                    0 <= j < i ==> (#[trigger] shares@[j]).permission_id == j + 1 && 1 <= shares@[j].file_id
                        <= n,
            decreases m - i,
        {
            let p = &shares[i];
            if p.permission_id != i as u64 + 1 || p.file_id < 1 || p.file_id > n as u64 {
                return None;
            }
            i = i + 1;
        }
        if stats.total_files != n as u64 || stats.total_shares > m as u64 {
            return None;
        }
        let mut acc: u64 = 0;
        let mut i: usize = 0;
        while i < n
            invariant
                n == files@.len(),
                i <= n,
                acc == downloads_sum(files@.subrange(0, i as int)),
                acc <= stats.total_downloads,
            decreases n - i,
        {
            let count = files[i].download_count;
            proof {
                assert(files@.subrange(0, i + 1).drop_last() =~= files@.subrange(0, i as int));
            }
            if count > stats.total_downloads - acc {
                proof {
                    lemma_downloads_sum_prefix(files@, i + 1);
                }
                return None;
            }
            acc = acc + count;
            i = i + 1;
        }
        proof {
            assert(files@.subrange(0, n as int) =~= files@);
        }
        if acc != stats.total_downloads {
            return None;
        }
        let k = user_files.len();
        let mut i: usize = 0;
        while i < k
            invariant
                k == user_files@.len(),
                n == files@.len(),
                i <= k,
                forall|j: int| 0 <= j < i ==> (#[trigger] user_files@[j]).value <= n,
            decreases k - i,
        {
            if user_files[i].value > n as u64 {
                return None;
            }
            i = i + 1;
        }
        let ghost counts = user_files@;
        match IdentityMap::from_entries(user_files) {
            None => None,
            Some(table) => {
                let c = StreamSyncContract { files, shares, user_files: table, stats };
                proof {
                    assert forall|u: Seq<char>| #[trigger] c@.user_files.contains_key(u) implies c@.user_files[u]
                        <= c@.files.len() by {
                        let j = choose|j: int| 0 <= j < counts.len() && counts[j].key@ == u;
                        assert(counts[j].value <= n);
                    }
                }
                Some(c)
            },
        }
    }

    /// The records, upload counts and counters that this ledger holds.
    pub fn into_parts(self) -> (r: (Vec<FileRecord>, Vec<SharePermission>, Vec<Entry<u64>>, SyncStats))
        requires
            self.inv(),
        ensures
            r.0@ == self@.files,
            r.1@ == self@.shares,
            entries_match(r.2@, self@.user_files),
            r.3 == self@.stats,
    {
        let counts = self.user_files.to_entries();
        (self.files, self.shares, counts, self.stats)
    }
}

} // verus!
