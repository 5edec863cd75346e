use cosmic_runkat::lockfile::{boot_time_from_stat, cleanup_decision, is_lockfile_active, Cleanup, LockfileState};

#[test]
fn fresh_lockfile_is_active() {
    assert!(is_lockfile_active(LockfileState::Stamped { modified_unix: Some(100), age_secs: Some(44) }));
    assert!(!is_lockfile_active(LockfileState::Stamped { modified_unix: Some(100), age_secs: Some(45) }));
    assert!(!is_lockfile_active(LockfileState::Stamped { modified_unix: Some(100), age_secs: None }));
    assert!(!is_lockfile_active(LockfileState::Unstamped));
    assert!(!is_lockfile_active(LockfileState::Absent));
}

#[test]
fn lockfile_from_previous_boot_is_removed() {
    let state = LockfileState::Stamped { modified_unix: Some(999), age_secs: Some(1) };
    assert_eq!(cleanup_decision(state, Some(1000)), Cleanup::RemovePreviousBoot);
    assert_eq!(cleanup_decision(state, Some(999)), Cleanup::Keep);
    assert_eq!(cleanup_decision(state, None), Cleanup::Keep);
}

#[test]
fn stale_and_unreadable_lockfiles_are_removed() {
    let stale = LockfileState::Stamped { modified_unix: Some(5000), age_secs: Some(45) };
    assert_eq!(cleanup_decision(stale, Some(1000)), Cleanup::RemoveStale);
    assert_eq!(cleanup_decision(LockfileState::Unstamped, Some(1000)), Cleanup::RemoveUnreadable);
    assert_eq!(cleanup_decision(LockfileState::Absent, Some(1000)), Cleanup::Keep);
}

#[test]
fn boot_time_from_proc_stat() {
    let stat = b"cpu  1 2 3\nintr 5\nbtime 1700000000\nprocesses 42\n";
    assert_eq!(boot_time_from_stat(stat), Some(1_700_000_000));
    assert_eq!(boot_time_from_stat(b"cpu 1\nbtime \nbtime 5\n"), None);
    assert_eq!(boot_time_from_stat(b"cpu 1\nbtime\nbtime 5\n"), Some(5));
    assert_eq!(boot_time_from_stat(b"xbtime 5\n"), None);
    assert_eq!(boot_time_from_stat(b"btime    77   \n"), Some(77));
    assert_eq!(boot_time_from_stat(b""), None);
}
