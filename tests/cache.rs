use tmo_catalog::cache::{
    choose_snapshot, fresh, latest_snapshot, snapshot_name,
    snapshot_time_of, CacheError, FRESHNESS_WINDOW,
};

fn names(v: &[&str]) -> Vec<String> {
    v.iter().map(|s| s.to_string()).collect()
}

#[test]
fn snapshot_names() {
    assert_eq!(snapshot_name(7, 1700000000), "7-1700000000");
    assert_eq!(snapshot_name(0, 0), "0-0");
    assert_eq!(snapshot_time_of("7-1700000000", 7), Some(1700000000));
    assert_eq!(snapshot_time_of("7-100-extra", 7), None);
    assert_eq!(snapshot_time_of("7-100-200", 7), None);
    assert_eq!(snapshot_time_of("7-+5", 7), Some(5));
    assert_eq!(snapshot_time_of("77-100", 7), None);
    assert_eq!(snapshot_time_of("7-abc", 7), None);
    assert_eq!(snapshot_time_of("7-", 7), None);
    assert_eq!(snapshot_time_of("7", 7), None);
    assert_eq!(snapshot_time_of("7-18446744073709551616", 7), None);
}

#[test]
fn later_snapshot_wins() {
    let now = 1_700_000_000u64;
    let a = snapshot_name(7, now - 100);
    let b = snapshot_name(7, now - 10);
    let listing = vec![a.clone(), "notes.txt".to_string(), b.clone()];
    assert_eq!(choose_snapshot(&listing, 7, now), Ok(2));
    let listing = vec![b, a];
    assert_eq!(choose_snapshot(&listing, 7, now), Ok(0));
}

#[test]
fn expired_by_one_second() {
    let ts = 1_000_000_000u64;
    let listing = vec![snapshot_name(7, ts)];
    assert_eq!(choose_snapshot(&listing, 7, ts + 15 * 86400 + 1), Err(CacheError::CacheExpired));
    assert_eq!(choose_snapshot(&listing, 7, ts + 15 * 86400), Ok(0));
    assert_eq!(choose_snapshot(&listing, 7, ts - 15 * 86400 - 1), Err(CacheError::CacheExpired));
    assert_eq!(choose_snapshot(&listing, 7, ts - 15 * 86400), Ok(0));
}

#[test]
fn freshness_window() {
    assert_eq!(FRESHNESS_WINDOW, 1_296_000);
    assert!(fresh(10, 10));
    assert!(fresh(1_296_000, 0));
    assert!(!fresh(1_296_001, 0));
    assert!(!fresh(0, 1_296_001));
}

#[test]
fn no_snapshot_of_the_catalog() {
    assert_eq!(choose_snapshot(&vec![], 7, 0), Err(CacheError::CacheNotFound));
    let listing = names(&["8-100", "77-100", "7x-100", "7-abc", "x-7-100"]);
    assert_eq!(choose_snapshot(&listing, 7, 100), Err(CacheError::CacheNotFound));
}

#[test]
fn zero_time_and_ties() {
    assert_eq!(choose_snapshot(&names(&["7-0"]), 7, 0), Ok(0));
    assert_eq!(latest_snapshot(&names(&["7-5", "7-9", "7-9"]), 7), Some((1, 9)));
    assert_eq!(latest_snapshot(&names(&["x", "y"]), 7), None);
}

#[test]
fn written_snapshot_is_read_back() {
    let now = 1_750_000_000u64;
    let mut listing = names(&["7-1749999000", "8-1750000500"]);
    listing.push(snapshot_name(7, now));
    assert_eq!(choose_snapshot(&listing, 7, now), Ok(2));
    assert_eq!(choose_snapshot(&listing, 7, now + 60), Ok(2));
}

#[test]
fn suffixed_names_never_decide() {
    assert_eq!(choose_snapshot(&names(&["7-100-x"]), 7, 100), Err(CacheError::CacheNotFound));
    let listing = names(&["7-100", "7-500-x"]);
    assert_eq!(choose_snapshot(&listing, 7, 100), Ok(0));
    let listing = names(&["7-100", "7-9999999-bak"]);
    assert_eq!(choose_snapshot(&listing, 7, 100), Ok(0));
}

#[test]
fn expired_latest_is_not_replaced_by_older() {
    let now = 10_000_000u64;
    let listing = vec![snapshot_name(7, now - 10), snapshot_name(7, now + 1_296_001)];
    assert_eq!(choose_snapshot(&listing, 7, now), Err(CacheError::CacheExpired));
}

#[test]
fn future_snapshot_within_window_is_fresh() {
    let now = 10_000_000u64;
    let listing = vec![snapshot_name(7, now + 1_296_000)];
    assert_eq!(choose_snapshot(&listing, 7, now), Ok(0));
}
