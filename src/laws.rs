use vstd::prelude::*;

use crate::identity::Identity;
use crate::records::LedgerError;
use crate::reward::{balance_of, mint_outcome, redeem_outcome, reset_outcome, reward_wf};
use crate::sync::{
    download_view, downloads_sum, file_count_of, file_issued, lemma_downloads_sum_bound,
    lemma_downloads_sum_push, lemma_downloads_sum_update, next_file_id, next_share_id, revoke_view,
    share_view, sync_wf, upload_view, SyncView,
};

verus! {

/// A user of a fresh reward ledger holds no points.
pub proof fn fresh_balance_is_zero(user: Seq<char>)
    ensures
        balance_of(Map::<Seq<char>, i128>::empty(), user) == 0,
{
}

/// Minting a positive amount succeeds and raises the user's balance by
/// exactly that amount.
pub proof fn mint_adds_amount(m: Map<Seq<char>, i128>, user: Seq<char>, amount: i128)
    requires
        reward_wf(m),
        amount > 0,
        balance_of(m, user) + amount <= i128::MAX,
    ensures
        mint_outcome(m, user, amount).1 == Ok::<(), LedgerError>(()),
        balance_of(mint_outcome(m, user, amount).0, user) == balance_of(m, user) + amount,
        reward_wf(mint_outcome(m, user, amount).0),
{
}

/// Redeeming a positive amount no larger than the balance succeeds and
/// lowers the balance by exactly that amount.
pub proof fn redeem_within_balance(m: Map<Seq<char>, i128>, user: Seq<char>, amount: i128)
    requires
        reward_wf(m),
        m.contains_key(user),
        0 < amount <= balance_of(m, user),
    ensures
        redeem_outcome(m, user, amount).1 == Ok::<(), LedgerError>(()),
        balance_of(redeem_outcome(m, user, amount).0, user) == balance_of(m, user) - amount,
        reward_wf(redeem_outcome(m, user, amount).0),
{
}

/// Redeeming more than a recorded user holds fails with
/// `InsufficientBalance` and leaves the balances unchanged.
pub proof fn redeem_beyond_balance(m: Map<Seq<char>, i128>, user: Seq<char>, amount: i128)
    requires
        reward_wf(m),
        m.contains_key(user),
        amount > balance_of(m, user),
    ensures
        redeem_outcome(m, user, amount) == (m, Err::<(), LedgerError>(LedgerError::InsufficientBalance)),
{
}

/// Redeeming a positive amount of a user without a record fails with
/// `NotFound` and leaves the balances unchanged.
pub proof fn redeem_unknown_user(m: Map<Seq<char>, i128>, user: Seq<char>, amount: i128)
    requires
        !m.contains_key(user),
        amount > 0,
    ensures
        redeem_outcome(m, user, amount) == (m, Err::<(), LedgerError>(LedgerError::NotFound)),
{
}

/// After a reset the user holds no points, whatever came before.
pub proof fn reset_clears_balance(m: Map<Seq<char>, i128>, user: Seq<char>)
    ensures
        balance_of(reset_outcome(m, user), user) == 0,
{
}

/// Upload ids start at 1 on an empty ledger, each upload is stored under
/// the id it was given, and the next upload gets the id after it.
pub proof fn upload_ids_follow_on(
    v: SyncView,
    owner: Identity,
    file_name: String,
    file_hash: String,
    file_size: u64,
    is_public: bool,
    now: u64,
)
    requires
        sync_wf(v),
        v.files.len() < u64::MAX,
    ensures
        v.files.len() == 0 ==> next_file_id(v) == 1,
        ({
            let w = upload_view(v, owner, file_name, file_hash, file_size, is_public, now);
            &&& w.files.last().file_id == next_file_id(v)
            &&& next_file_id(w) == next_file_id(v) + 1
            &&& sync_wf(w)
        }),
{
    let w = upload_view(v, owner, file_name, file_hash, file_size, is_public, now);
    lemma_downloads_sum_push(v.files, w.files.last());
    assert(w.files.drop_last() =~= v.files);
    assert forall|u: Seq<char>| #[trigger] w.user_files.contains_key(u) implies w.user_files[u]
        <= w.files.len() by {
        if u != owner@ {
            assert(v.user_files.contains_key(u));
        }
    }
    assert forall|i: int| 0 <= i < w.shares.len() implies file_issued(w, (#[trigger] w.shares[i]).file_id) by {
        assert(file_issued(v, v.shares[i].file_id));
    }
    assert forall|i: int| 0 <= i < w.files.len() implies (#[trigger] w.files[i]).file_id == i + 1 by {
        if i < v.files.len() {
            assert(w.files[i] == v.files[i]);
        }
    }
}

/// An upload adds one to the platform's file total and one to the owner's
/// upload count.
pub proof fn upload_counts_one(
    v: SyncView,
    owner: Identity,
    file_name: String,
    file_hash: String,
    file_size: u64,
    is_public: bool,
    now: u64,
)
    requires
        sync_wf(v),
        v.files.len() < u64::MAX,
    ensures
        ({
            let w = upload_view(v, owner, file_name, file_hash, file_size, is_public, now);
            &&& w.stats.total_files == v.stats.total_files + 1
            &&& file_count_of(w, owner@) == file_count_of(v, owner@) + 1
        }),
{
    if v.user_files.contains_key(owner@) {
        assert(v.user_files[owner@] <= v.files.len());
    }
}

/// A share adds one to the live share total; revoking that permission takes
/// it back off.
pub proof fn share_then_revoke_counts(
    v: SyncView,
    owner: Identity,
    file_id: u64,
    shared_with: Identity,
    expiry_time: u64,
    now: u64,
)
    requires
        sync_wf(v),
        v.shares.len() < u64::MAX,
    ensures
        ({
            let w = share_view(v, owner, file_id, shared_with, expiry_time, now);
            &&& w.stats.total_shares == v.stats.total_shares + 1
            &&& revoke_view(w, next_share_id(v) as u64).stats.total_shares == v.stats.total_shares
        }),
{
}

/// Revoking never takes the live share total below zero: a revoke when it
/// is zero leaves it at zero, and otherwise takes off exactly one.
pub proof fn revoke_floors_at_zero(v: SyncView, permission_id: u64)
    ensures
        v.stats.total_shares == 0 ==> revoke_view(v, permission_id).stats.total_shares == 0,
        v.stats.total_shares > 0 ==> revoke_view(v, permission_id).stats.total_shares
            == v.stats.total_shares - 1,
{
}

/// A download adds one to the file's download count and one to the
/// platform's download total, and the total stays the sum of the counts.
pub proof fn download_counts_one(v: SyncView, file_id: u64)
    requires
        sync_wf(v),
        file_issued(v, file_id),
        v.stats.total_downloads < u64::MAX,
    ensures
        ({
            let w = download_view(v, file_id);
            &&& w.files[file_id - 1].download_count == v.files[file_id - 1].download_count + 1
            &&& w.stats.total_downloads == v.stats.total_downloads + 1
            &&& w.stats.total_downloads == downloads_sum(w.files)
        }),
{
    let i = file_id - 1;
    lemma_downloads_sum_bound(v.files, i);
    let w = download_view(v, file_id);
    lemma_downloads_sum_update(v.files, i, w.files[i]);
}

} // verus!
