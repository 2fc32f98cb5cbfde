use ludusavi::change::ScanChange;
use ludusavi::scan::{BackupError, BackupInfo, ScanInfo, ScannedFile, ScannedRegistry};

fn scan_of(files: Vec<ScannedFile>, keys: Vec<ScannedRegistry>) -> ScanInfo {
    ScanInfo {
        game_name: "game".to_string(),
        found_files: files,
        found_registry_keys: keys,
    }
}

#[test]
fn scan_without_entries_cannot_be_reported() {
    assert!(!ScanInfo::default().can_report_game());
    assert!(!scan_of(vec![], vec![]).can_report_game());
    assert!(!scan_of(vec![], vec![]).found_anything());
}

#[test]
fn scan_with_a_file_or_a_key_can_be_reported() {
    assert!(scan_of(vec![ScannedFile::new("/a", 0, "h")], vec![]).can_report_game());
    assert!(scan_of(vec![], vec![ScannedRegistry::new("HKEY_CURRENT_USER/K")]).can_report_game());
}

#[test]
fn new_has_precedence_over_same_and_bytes_are_summed() {
    let scan = scan_of(
        vec![
            ScannedFile::new("/matching", 10, "same-hash").change_as(ScanChange::Same),
            ScannedFile::new("/fresh", 32, "other-hash").change_as(ScanChange::New),
        ],
        vec![],
    );
    assert_eq!(ScanChange::New, scan.overall_change());
    assert_eq!(42, scan.sum_bytes(None));
    assert_eq!(42, scan.total_possible_bytes());
    assert_eq!(Some(42), scan.checked_total_bytes());
}

#[test]
fn overall_change_by_precedence() {
    let tagged = |changes: &[ScanChange]| {
        scan_of(
            changes
                .iter()
                .enumerate()
                .map(|(i, change)| ScannedFile::new(&format!("/{}", i), 1, "h").change_as(*change))
                .collect(),
            vec![],
        )
        .overall_change()
    };
    assert_eq!(ScanChange::Unknown, tagged(&[]));
    assert_eq!(ScanChange::Unknown, tagged(&[ScanChange::Unknown, ScanChange::Unknown]));
    assert_eq!(ScanChange::Same, tagged(&[ScanChange::Unknown, ScanChange::Same]));
    assert_eq!(ScanChange::Different, tagged(&[ScanChange::Same, ScanChange::Different, ScanChange::Unknown]));
    assert_eq!(ScanChange::New, tagged(&[ScanChange::Different, ScanChange::New, ScanChange::Same]));
    assert_eq!(ScanChange::New, tagged(&[ScanChange::New]));
}

#[test]
fn overall_change_sees_registry_keys_and_values() {
    let key_only = scan_of(vec![], vec![ScannedRegistry::new("K").change_as(ScanChange::Different)]);
    assert_eq!(ScanChange::Different, key_only.overall_change());

    let value_only = scan_of(
        vec![ScannedFile::new("/a", 1, "h").change_as(ScanChange::Same)],
        vec![ScannedRegistry::new("K")
            .change_as(ScanChange::Same)
            .with_value("v", ScanChange::New, false)],
    );
    assert_eq!(ScanChange::New, value_only.overall_change());
}

#[test]
fn key_change_is_independent_of_its_values() {
    let key = ScannedRegistry::new("K")
        .change_as(ScanChange::Same)
        .with_value("v", ScanChange::New, true);
    assert_eq!(ScanChange::Same, key.change());
    assert_eq!(ScanChange::New, key.values[0].1.change);
    assert!(key.values[0].1.ignored);
    assert_eq!(ScanChange::New, key.worst_change());
    assert_eq!(ScanChange::Same, ScannedRegistry::new("K").with_value_same("v").worst_change());
    assert_eq!(ScanChange::Unknown, ScannedRegistry::new("K").worst_change());
}

#[test]
fn failed_files_are_left_out_of_the_processed_bytes() {
    let scan = scan_of(
        vec![
            ScannedFile::new("/a", 100, "1"),
            ScannedFile::new("/b", 50, "2"),
            ScannedFile::new("/c", 7, "3"),
        ],
        vec![],
    );
    let info = BackupInfo {
        failed_files: vec![("/b".to_string(), BackupError::Raw("broken".to_string()))],
        failed_registry: vec![],
    };
    assert_eq!(107, scan.sum_bytes(Some(&info)));
    assert_eq!(157, scan.sum_bytes(None));
    assert_eq!(157, scan.sum_bytes(Some(&BackupInfo::default())));
}

#[test]
fn failure_of_a_path_that_was_not_found_changes_nothing() {
    let scan = scan_of(vec![ScannedFile::new("/a", 100, "1")], vec![]);
    let info = BackupInfo {
        failed_files: vec![("/elsewhere".to_string(), BackupError::DirectoryUnwritable)],
        failed_registry: vec![],
    };
    assert_eq!(100, scan.sum_bytes(Some(&info)));
}

#[test]
fn total_that_does_not_fit_is_reported_as_none() {
    let scan = scan_of(
        vec![ScannedFile::new("/a", u64::MAX, "1"), ScannedFile::new("/b", 1, "2")],
        vec![],
    );
    assert_eq!(None, scan.checked_total_bytes());
    let fits = scan_of(
        vec![ScannedFile::new("/a", u64::MAX - 1, "1"), ScannedFile::new("/b", 1, "2")],
        vec![],
    );
    assert_eq!(Some(u64::MAX), fits.checked_total_bytes());
}

#[test]
fn first_cause_counts_for_a_path_named_twice() {
    let info = BackupInfo {
        failed_files: vec![
            ("/a".to_string(), BackupError::Raw("first".to_string())),
            ("/a".to_string(), BackupError::Raw("second".to_string())),
        ],
        failed_registry: vec![("K".to_string(), BackupError::SnapshotClash)],
    };
    assert_eq!("first", info.file_error("/a").unwrap().message());
    assert!(info.file_error("/b").is_none());
    assert!(info.file_error("K").is_none());
    assert_eq!("a snapshot of this time exists already", info.registry_error("K").unwrap().message());
}

#[test]
fn messages_of_causes() {
    assert_eq!("disk full", BackupError::Raw("disk full".to_string()).message());
    assert_eq!("unable to prepare the backup directory", BackupError::DirectoryUnwritable.message());
}

#[test]
fn total_failure_names_every_entry() {
    let scan = scan_of(
        vec![ScannedFile::new("/a", 1, "1"), ScannedFile::new("/b", 2, "2")],
        vec![ScannedRegistry::new("K").with_value_same("v")],
    );
    let info = BackupInfo::total_failure(&scan, &BackupError::DirectoryUnwritable);
    let files: Vec<&str> = info.failed_files.iter().map(|(path, _)| path.as_str()).collect();
    assert_eq!(vec!["/a", "/b"], files);
    let keys: Vec<&str> = info.failed_registry.iter().map(|(path, _)| path.as_str()).collect();
    assert_eq!(vec!["K"], keys);
    for (_, cause) in info.failed_files.iter().chain(info.failed_registry.iter()) {
        assert!(matches!(cause, BackupError::DirectoryUnwritable));
    }
    assert_eq!(0, scan.sum_bytes(Some(&info)));
}

#[test]
fn readable_paths_when_backing_up() {
    let plain = ScannedFile::new("/system/a", 1, "h");
    assert_eq!("/system/a", plain.readable(false));
    assert_eq!(None, plain.alt_readable(false));
    assert!(!plain.restoring());

    let mut redirected = ScannedFile::new("/system/a", 1, "h");
    redirected.redirected = Some("/elsewhere/a".to_string());
    assert_eq!("/system/a", redirected.readable(false));
    assert_eq!(Some("/elsewhere/a".to_string()), redirected.alt_readable(false));
}

#[test]
fn readable_paths_when_restoring() {
    let mut stored = ScannedFile::new("/backup/a", 1, "h");
    stored.original_path = Some("/system/a".to_string());
    assert!(stored.restoring());
    assert_eq!("/system/a", stored.readable(true));
    assert_eq!(None, stored.alt_readable(true));

    stored.redirected = Some("/elsewhere/a".to_string());
    assert_eq!("/elsewhere/a", stored.readable(true));
    assert_eq!(Some("/system/a".to_string()), stored.alt_readable(true));

    let bare = ScannedFile::new("/backup/b", 1, "h");
    assert_eq!("/backup/b", bare.readable(true));
}

#[test]
fn scan_is_a_restore_when_a_file_has_an_original_path() {
    let mut stored = ScannedFile::new("/backup/a", 1, "h");
    stored.original_path = Some("/system/a".to_string());
    assert!(scan_of(vec![ScannedFile::new("/x", 1, "h"), stored], vec![]).restoring());
    assert!(!scan_of(vec![ScannedFile::new("/x", 1, "h")], vec![]).restoring());
    assert!(!ScanInfo::default().restoring());
}

#[test]
fn builders_of_files_and_keys() {
    let file = ScannedFile::new("/a", 3, "h").change_as(ScanChange::Different).ignored();
    assert_eq!("/a", file.path);
    assert_eq!(3, file.size);
    assert_eq!("h", file.hash);
    assert!(file.ignored);
    assert_eq!(ScanChange::Different, file.change());
    let copy = file.clone();
    assert_eq!(file.path, copy.path);
    assert_eq!(file.change, copy.change);

    let key = ScannedRegistry::new("K").ignored().with_value_same("one").with_value("two", ScanChange::New, true);
    assert!(key.ignored);
    assert_eq!(ScanChange::Unknown, key.change());
    assert_eq!(2, key.values.len());
    assert_eq!("one", key.values[0].0);
    assert_eq!(ScanChange::Same, key.values[0].1.change);
    assert!(!key.values[0].1.ignored);
    assert_eq!("two", key.values[1].0);
}

#[test]
fn scan_holds_its_entries_as_sets() {
    let mut scan = ScanInfo::new("game");
    assert_eq!("game", scan.game_name);
    assert!(!scan.can_report_game());
    assert!(scan.insert_file(ScannedFile::new("/a", 1, "first")));
    assert!(!scan.insert_file(ScannedFile::new("/a", 2, "second")));
    assert!(scan.insert_file(ScannedFile::new("/b", 3, "third")));
    assert_eq!(2, scan.found_files.len());
    assert_eq!("first", scan.found_files[0].hash);
    assert_eq!(4, scan.sum_bytes(None));
    assert!(scan.insert_registry_key(ScannedRegistry::new("K").with_value_same("v")));
    assert!(!scan.insert_registry_key(ScannedRegistry::new("K")));
    assert_eq!(1, scan.found_registry_keys.len());
    assert_eq!(1, scan.found_registry_keys[0].values.len());
}

#[test]
fn value_of_a_name_is_set_once() {
    let key = ScannedRegistry::new("K")
        .with_value("v", ScanChange::New, false)
        .with_value_same("w")
        .with_value("v", ScanChange::Different, true);
    assert_eq!(2, key.values.len());
    assert_eq!("v", key.values[0].0);
    assert_eq!(ScanChange::Different, key.values[0].1.change);
    assert!(key.values[0].1.ignored);
    assert_eq!("w", key.values[1].0);
}
