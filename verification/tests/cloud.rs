use ludusavi::change::ScanChange;
use ludusavi::cloud::{changes, has_conflict, reconcile, settle, transfers, CloudOutcome, SyncDirection};
use ludusavi::scan::BackupError;

fn listing(entries: &[(&str, &str)]) -> Vec<(String, String)> {
    entries.iter().map(|(path, hash)| (path.to_string(), hash.to_string())).collect()
}

fn outcomes(found: &[ludusavi::cloud::CloudFinding]) -> Vec<(String, CloudOutcome)> {
    found.iter().map(|entry| (entry.path.clone(), entry.outcome)).collect()
}

#[test]
fn path_changed_on_both_sides_is_a_conflict() {
    let local = listing(&[("game/save", "local-edit")]);
    let remote = listing(&[("game/save", "remote-edit")]);
    let synced = listing(&[("game/save", "as-synced")]);
    for direction in [SyncDirection::Upload, SyncDirection::Download] {
        let found = reconcile(&local, &remote, &synced, direction);
        assert_eq!(vec![("game/save".to_string(), CloudOutcome::Conflict)], outcomes(&found));
        assert!(has_conflict(&found));
        assert!(transfers(&found).is_empty());
        assert!(changes(&found).is_empty());
    }
}

#[test]
fn upload_classifies_local_paths_against_the_remote() {
    let local = listing(&[("new", "1"), ("edited", "2b"), ("kept", "3")]);
    let remote = listing(&[("edited", "2a"), ("kept", "3"), ("remote-only", "4")]);
    let synced = listing(&[("edited", "2a"), ("kept", "3"), ("remote-only", "4")]);
    let found = reconcile(&local, &remote, &synced, SyncDirection::Upload);
    assert_eq!(
        vec![
            ("new".to_string(), CloudOutcome::Change(ScanChange::New)),
            ("edited".to_string(), CloudOutcome::Change(ScanChange::Different)),
            ("kept".to_string(), CloudOutcome::Change(ScanChange::Same)),
        ],
        outcomes(&found)
    );
    assert!(!has_conflict(&found));
    assert_eq!(vec!["new".to_string(), "edited".to_string()], transfers(&found));
    let listed: Vec<(String, ScanChange)> =
        changes(&found).into_iter().map(|change| (change.path, change.change)).collect();
    assert_eq!(
        vec![
            ("new".to_string(), ScanChange::New),
            ("edited".to_string(), ScanChange::Different),
            ("kept".to_string(), ScanChange::Same),
        ],
        listed
    );
}

#[test]
fn download_classifies_remote_paths_against_the_local() {
    let local = listing(&[("edited", "2a"), ("kept", "3")]);
    let remote = listing(&[("edited", "2b"), ("kept", "3"), ("remote-only", "4")]);
    let synced = listing(&[("edited", "2a"), ("kept", "3")]);
    let found = reconcile(&local, &remote, &synced, SyncDirection::Download);
    assert_eq!(
        vec![
            ("edited".to_string(), CloudOutcome::Change(ScanChange::Different)),
            ("kept".to_string(), CloudOutcome::Change(ScanChange::Same)),
            ("remote-only".to_string(), CloudOutcome::Change(ScanChange::New)),
        ],
        outcomes(&found)
    );
    assert_eq!(vec!["edited".to_string(), "remote-only".to_string()], transfers(&found));
}

#[test]
fn one_conflict_leaves_the_other_paths_alone() {
    let local = listing(&[("clash", "l"), ("fine", "2"), ("fresh", "3")]);
    let remote = listing(&[("clash", "r"), ("fine", "1")]);
    let synced = listing(&[("clash", "s"), ("fine", "1")]);
    let found = reconcile(&local, &remote, &synced, SyncDirection::Upload);
    assert_eq!(
        vec![
            ("clash".to_string(), CloudOutcome::Conflict),
            ("fine".to_string(), CloudOutcome::Change(ScanChange::Different)),
            ("fresh".to_string(), CloudOutcome::Change(ScanChange::New)),
        ],
        outcomes(&found)
    );
    assert!(has_conflict(&found));
    assert_eq!(vec!["fine".to_string(), "fresh".to_string()], transfers(&found));
    assert_eq!(2, changes(&found).len());
}

#[test]
fn sides_that_agree_are_not_in_conflict() {
    // Both moved away from what was synchronized, to the same content.
    let local = listing(&[("a", "new")]);
    let remote = listing(&[("a", "new")]);
    let synced = listing(&[("a", "old")]);
    let found = reconcile(&local, &remote, &synced, SyncDirection::Upload);
    assert_eq!(vec![("a".to_string(), CloudOutcome::Change(ScanChange::Same))], outcomes(&found));
}

#[test]
fn never_synchronized_and_different_is_a_conflict() {
    let local = listing(&[("a", "l"), ("b", "1")]);
    let remote = listing(&[("a", "r")]);
    let found = reconcile(&local, &remote, &vec![], SyncDirection::Upload);
    assert_eq!(
        vec![
            ("a".to_string(), CloudOutcome::Conflict),
            ("b".to_string(), CloudOutcome::Change(ScanChange::New)),
        ],
        outcomes(&found)
    );
}

#[test]
fn path_removed_remotely_and_edited_locally_is_a_conflict() {
    let local = listing(&[("a", "edited")]);
    let remote = listing(&[]);
    let synced = listing(&[("a", "old")]);
    let found = reconcile(&local, &remote, &synced, SyncDirection::Upload);
    assert_eq!(vec![("a".to_string(), CloudOutcome::Conflict)], outcomes(&found));
    let down = reconcile(&local, &remote, &synced, SyncDirection::Download);
    assert!(down.is_empty());
}

#[test]
fn nothing_to_reconcile() {
    let found = reconcile(&vec![], &vec![], &vec![], SyncDirection::Upload);
    assert!(found.is_empty());
    assert!(!has_conflict(&found));
    assert!(transfers(&found).is_empty());
}

#[test]
fn failed_transfer_does_not_block_the_others() {
    let planned = vec!["a".to_string(), "b".to_string(), "c".to_string()];
    let failures = vec![("b".to_string(), BackupError::Raw("timeout".to_string()))];
    let report = settle(&planned, &failures);
    assert_eq!(vec!["a".to_string(), "c".to_string()], report.done);
    assert_eq!(vec!["b".to_string()], report.failed);
    assert!(report.sync_failed());

    let clean = settle(&planned, &vec![]);
    assert_eq!(planned, clean.done);
    assert!(clean.failed.is_empty());
    assert!(!clean.sync_failed());
}
