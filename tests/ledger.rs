use stream_sync::table::Entry;
use stream_sync::{
    Identity, LedgerError, RewardLedger, StreamSyncContract, SyncStats, MISSING_FILE_NAME,
    NULL_ADDRESS,
};

fn id(text: &str) -> Identity {
    Identity::new(text.to_string())
}

fn upload(c: &mut StreamSyncContract, owner: &str, name: &str) -> u64 {
    c.upload_file(&id(owner), id(owner), name.to_string(), "h".to_string(), 1, true, 100)
        .unwrap()
}

#[test]
fn fresh_user_has_zero_balance() {
    let ledger = RewardLedger::new();
    assert_eq!(ledger.get_balance(&id("alice")), 0);
}

#[test]
fn mint_increases_balance_by_amount() {
    let mut ledger = RewardLedger::new();
    let u = id("alice");
    assert_eq!(ledger.mint(&u, 40), Ok(()));
    assert_eq!(ledger.get_balance(&u), 40);
    assert_eq!(ledger.mint(&u, 2), Ok(()));
    assert_eq!(ledger.get_balance(&u), 42);
    assert_eq!(ledger.get_balance(&id("bob")), 0);
}

#[test]
fn mint_rejects_non_positive_amounts() {
    let mut ledger = RewardLedger::new();
    let u = id("alice");
    assert_eq!(ledger.mint(&u, 0), Err(LedgerError::InvalidAmount));
    assert_eq!(ledger.mint(&u, -5), Err(LedgerError::InvalidAmount));
    assert_eq!(ledger.get_balance(&u), 0);
}

#[test]
fn redeem_within_balance_reduces_it() {
    let mut ledger = RewardLedger::new();
    let u = id("alice");
    ledger.mint(&u, 10).unwrap();
    assert_eq!(ledger.redeem(&u, 4), Ok(()));
    assert_eq!(ledger.get_balance(&u), 6);
    assert_eq!(ledger.redeem(&u, 6), Ok(()));
    assert_eq!(ledger.get_balance(&u), 0);
}

#[test]
fn redeem_beyond_balance_fails_and_keeps_it() {
    let mut ledger = RewardLedger::new();
    let u = id("alice");
    ledger.mint(&u, 10).unwrap();
    assert_eq!(ledger.redeem(&u, 11), Err(LedgerError::InsufficientBalance));
    assert_eq!(ledger.get_balance(&u), 10);
}

#[test]
fn redeem_rejects_non_positive_amounts() {
    let mut ledger = RewardLedger::new();
    let u = id("alice");
    ledger.mint(&u, 10).unwrap();
    assert_eq!(ledger.redeem(&u, 0), Err(LedgerError::InvalidAmount));
    assert_eq!(ledger.get_balance(&u), 10);
}

#[test]
fn redeem_of_unminted_user_is_not_found() {
    let mut ledger = RewardLedger::new();
    let u = id("carol");
    assert_eq!(ledger.redeem(&u, 1), Err(LedgerError::NotFound));
    assert_eq!(ledger.redeem(&u, i128::MAX), Err(LedgerError::NotFound));
    assert_eq!(ledger.get_balance(&u), 0);
}

#[test]
fn reset_zeroes_balance() {
    let mut ledger = RewardLedger::new();
    let u = id("alice");
    ledger.mint(&u, 77).unwrap();
    ledger.reset_balance(&u);
    assert_eq!(ledger.get_balance(&u), 0);
    let fresh = id("dave");
    ledger.reset_balance(&fresh);
    assert_eq!(ledger.get_balance(&fresh), 0);
    // the reset created a record: a redeem is now short of points, not unknown
    assert_eq!(ledger.redeem(&fresh, 1), Err(LedgerError::InsufficientBalance));
}

#[test]
fn upload_ids_start_at_one_and_follow_on() {
    let mut c = StreamSyncContract::new();
    assert_eq!(upload(&mut c, "A", "a"), 1);
    assert_eq!(upload(&mut c, "B", "b"), 2);
    assert_eq!(upload(&mut c, "A", "c"), 3);
    assert_eq!(c.get_file(2).file_id, 2);
    assert_eq!(c.get_file(3).file_name, "c");
}

#[test]
fn upload_counts_files_per_owner_and_in_total() {
    let mut c = StreamSyncContract::new();
    assert_eq!(c.get_user_file_count(&id("A")), 0);
    upload(&mut c, "A", "a");
    upload(&mut c, "A", "b");
    upload(&mut c, "B", "c");
    assert_eq!(c.get_user_file_count(&id("A")), 2);
    assert_eq!(c.get_user_file_count(&id("B")), 1);
    assert_eq!(c.get_sync_stats().total_files, 3);
}

#[test]
fn upload_keeps_given_fields() {
    let mut c = StreamSyncContract::new();
    let owner = id("A");
    let r = c.upload_file(&owner, id("A"), "doc".to_string(), "h1".to_string(), 10, false, 555);
    assert_eq!(r, Ok(1));
    let f = c.get_file(1);
    assert!(f.owner.same_as(&owner));
    assert_eq!(f.file_name, "doc");
    assert_eq!(f.file_hash, "h1");
    assert_eq!(f.file_size, 10);
    assert_eq!(f.upload_time, 555);
    assert!(!f.is_public);
    assert_eq!(f.download_count, 0);
}

#[test]
fn upload_by_other_caller_is_refused() {
    let mut c = StreamSyncContract::new();
    let r = c.upload_file(&id("B"), id("A"), "doc".to_string(), "h".to_string(), 1, true, 0);
    assert_eq!(r, Err(LedgerError::AuthFailure));
    assert_eq!(c.get_sync_stats().total_files, 0);
    assert_eq!(c.get_file(1).file_id, 0);
}

#[test]
fn share_and_revoke_move_live_share_count() {
    let mut c = StreamSyncContract::new();
    upload(&mut c, "A", "a");
    assert_eq!(c.share_file(&id("A"), id("A"), 1, id("B"), 0, 5), Ok(1));
    assert_eq!(c.share_file(&id("A"), id("A"), 1, id("C"), 99, 6), Ok(2));
    assert_eq!(c.get_sync_stats().total_shares, 2);
    assert_eq!(c.revoke_share(&id("A"), &id("A"), 2), Ok(()));
    assert_eq!(c.get_sync_stats().total_shares, 1);
    let p = c.get_share(2);
    assert_eq!(p.permission_id, 2);
    assert!(!p.can_download);
    assert_eq!(p.expiry_time, 99);
    assert_eq!(p.granted_time, 6);
}

#[test]
fn repeated_revoke_never_goes_below_zero() {
    let mut c = StreamSyncContract::new();
    upload(&mut c, "A", "a");
    c.share_file(&id("A"), id("A"), 1, id("B"), 0, 0).unwrap();
    assert_eq!(c.revoke_share(&id("A"), &id("A"), 1), Ok(()));
    assert_eq!(c.get_sync_stats().total_shares, 0);
    assert_eq!(c.revoke_share(&id("A"), &id("A"), 1), Ok(()));
    assert_eq!(c.get_sync_stats().total_shares, 0);
}

#[test]
fn share_of_unknown_file_is_not_found() {
    let mut c = StreamSyncContract::new();
    assert_eq!(c.share_file(&id("A"), id("A"), 1, id("B"), 0, 0), Err(LedgerError::NotFound));
    upload(&mut c, "A", "a");
    assert_eq!(c.share_file(&id("A"), id("A"), 0, id("B"), 0, 0), Err(LedgerError::NotFound));
    assert_eq!(c.share_file(&id("A"), id("A"), 2, id("B"), 0, 0), Err(LedgerError::NotFound));
    assert_eq!(c.get_sync_stats().total_shares, 0);
}

#[test]
fn share_by_other_caller_is_refused() {
    let mut c = StreamSyncContract::new();
    upload(&mut c, "A", "a");
    assert_eq!(c.share_file(&id("B"), id("A"), 1, id("B"), 0, 0), Err(LedgerError::AuthFailure));
}

#[test]
fn share_of_another_owners_file_is_allowed() {
    // the file's owner is not compared with the sharer
    let mut c = StreamSyncContract::new();
    upload(&mut c, "A", "a");
    assert_eq!(c.share_file(&id("M"), id("M"), 1, id("B"), 0, 0), Ok(1));
    assert!(c.get_share(1).owner.same_as(&id("M")));
}

#[test]
fn revoke_of_unknown_permission_is_not_found() {
    let mut c = StreamSyncContract::new();
    assert_eq!(c.revoke_share(&id("A"), &id("A"), 1), Err(LedgerError::NotFound));
    assert_eq!(c.revoke_share(&id("A"), &id("A"), 0), Err(LedgerError::NotFound));
}

#[test]
fn revoke_by_other_caller_is_refused() {
    let mut c = StreamSyncContract::new();
    upload(&mut c, "A", "a");
    c.share_file(&id("A"), id("A"), 1, id("B"), 0, 0).unwrap();
    assert_eq!(c.revoke_share(&id("B"), &id("A"), 1), Err(LedgerError::AuthFailure));
    assert!(c.get_share(1).can_download);
}

#[test]
fn download_counts_on_file_and_in_total() {
    let mut c = StreamSyncContract::new();
    upload(&mut c, "A", "a");
    upload(&mut c, "A", "b");
    assert_eq!(c.record_download(&id("X"), 2, &id("X")), Ok(()));
    assert_eq!(c.record_download(&id("Y"), 2, &id("Y")), Ok(()));
    assert_eq!(c.record_download(&id("X"), 1, &id("X")), Ok(()));
    assert_eq!(c.get_file(2).download_count, 2);
    assert_eq!(c.get_file(1).download_count, 1);
    assert_eq!(c.get_sync_stats().total_downloads, 3);
}

#[test]
fn download_of_unknown_file_is_not_found() {
    let mut c = StreamSyncContract::new();
    assert_eq!(c.record_download(&id("X"), 1, &id("X")), Err(LedgerError::NotFound));
    assert_eq!(c.get_sync_stats().total_downloads, 0);
}

#[test]
fn download_by_other_caller_is_refused() {
    let mut c = StreamSyncContract::new();
    upload(&mut c, "A", "a");
    assert_eq!(c.record_download(&id("X"), 1, &id("Y")), Err(LedgerError::AuthFailure));
    assert_eq!(c.get_file(1).download_count, 0);
}

#[test]
fn unknown_ids_give_sentinel_records() {
    let c = StreamSyncContract::new();
    let f = c.get_file(7);
    assert_eq!(f.file_id, 0);
    assert_eq!(f.owner.as_text(), NULL_ADDRESS);
    assert_eq!(f.file_name, MISSING_FILE_NAME);
    assert_eq!(f.file_hash, "");
    assert_eq!(f.download_count, 0);
    let p = c.get_share(7);
    assert_eq!(p.permission_id, 0);
    assert_eq!(p.file_id, 0);
    assert_eq!(p.shared_with.as_text(), NULL_ADDRESS);
    assert!(!p.can_download);
}

#[test]
fn fresh_stats_are_zero() {
    let c = StreamSyncContract::new();
    assert_eq!(
        c.get_sync_stats(),
        SyncStats { total_files: 0, total_shares: 0, total_downloads: 0, active_users: 0 }
    );
}

#[test]
fn upload_share_download_revoke_scenario() {
    let mut c = StreamSyncContract::new();
    let a = id("A");
    let b = id("B");
    let fid = c
        .upload_file(&a, a.duplicate(), "doc".to_string(), "h1".to_string(), 10, false, 1)
        .unwrap();
    assert_eq!(fid, 1);
    assert!(c.get_file(1).owner.same_as(&a));
    let pid = c.share_file(&a, a.duplicate(), 1, b.duplicate(), 0, 2).unwrap();
    assert_eq!(pid, 1);
    assert!(c.get_share(1).can_download);
    c.record_download(&b, 1, &b).unwrap();
    assert_eq!(c.get_file(1).download_count, 1);
    assert_eq!(c.get_sync_stats().total_downloads, 1);
    c.revoke_share(&a, &a, 1).unwrap();
    assert!(!c.get_share(1).can_download);
    assert_eq!(c.get_sync_stats().total_shares, 0);
}

#[test]
fn download_needs_no_permission_and_ignores_visibility() {
    // any authenticated caller may count a download of any private file
    let mut c = StreamSyncContract::new();
    c.upload_file(&id("A"), id("A"), "p".to_string(), "h".to_string(), 1, false, 0).unwrap();
    assert_eq!(c.record_download(&id("Z"), 1, &id("Z")), Ok(()));
    assert_eq!(c.get_file(1).download_count, 1);
}

#[test]
fn sync_parts_round_trip() {
    let mut c = StreamSyncContract::new();
    upload(&mut c, "A", "a");
    upload(&mut c, "B", "b");
    c.share_file(&id("A"), id("A"), 2, id("B"), 0, 0).unwrap();
    c.record_download(&id("B"), 2, &id("B")).unwrap();
    let (files, shares, counts, stats) = c.into_parts();
    assert_eq!(files.len(), 2);
    assert_eq!(shares.len(), 1);
    assert_eq!(counts.len(), 2);
    let mut back = StreamSyncContract::from_parts(files, shares, counts, stats).unwrap();
    assert_eq!(back.get_file(2).download_count, 1);
    assert_eq!(back.get_user_file_count(&id("B")), 1);
    assert_eq!(back.get_sync_stats(), stats);
    assert_eq!(upload(&mut back, "C", "c"), 3);
}

#[test]
fn sync_parts_that_disagree_are_refused() {
    let mut c = StreamSyncContract::new();
    upload(&mut c, "A", "a");
    c.record_download(&id("A"), 1, &id("A")).unwrap();
    let (files, shares, counts, stats) = c.into_parts();

    let wrong_total = SyncStats { total_downloads: 2, ..stats };
    assert!(StreamSyncContract::from_parts(files.clone(), shares.clone(), counts.clone(), wrong_total)
        .is_none());

    let wrong_files = SyncStats { total_files: 2, ..stats };
    assert!(StreamSyncContract::from_parts(files.clone(), shares.clone(), counts.clone(), wrong_files)
        .is_none());

    let mut renumbered = files.clone();
    renumbered[0].file_id = 5;
    assert!(StreamSyncContract::from_parts(renumbered, shares.clone(), counts.clone(), stats).is_none());

    let twice = vec![
        Entry { key: id("A"), value: 1 },
        Entry { key: id("A"), value: 1 },
    ];
    assert!(StreamSyncContract::from_parts(files.clone(), shares.clone(), twice, stats).is_none());

    let too_many = vec![Entry { key: id("A"), value: 2 }];
    assert!(StreamSyncContract::from_parts(files, shares, too_many, stats).is_none());
}

#[test]
fn reward_entries_round_trip_and_refusals() {
    let mut ledger = RewardLedger::new();
    ledger.mint(&id("A"), 3).unwrap();
    ledger.mint(&id("B"), 9).unwrap();
    let entries = ledger.to_entries();
    assert_eq!(entries.len(), 2);
    let back = RewardLedger::from_entries(entries).unwrap();
    assert_eq!(back.get_balance(&id("A")), 3);
    assert_eq!(back.get_balance(&id("B")), 9);

    let negative = vec![Entry { key: id("A"), value: -1 }];
    assert!(RewardLedger::from_entries(negative).is_none());
    let twice = vec![Entry { key: id("A"), value: 1 }, Entry { key: id("A"), value: 2 }];
    assert!(RewardLedger::from_entries(twice).is_none());
}
