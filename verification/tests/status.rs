use ludusavi::change::ScanChange;
use ludusavi::scan::{BackupError, BackupInfo, ScanInfo, ScannedFile};
use ludusavi::status::OperationStatus;

fn scan(files: Vec<ScannedFile>) -> ScanInfo {
    ScanInfo {
        game_name: "game".to_string(),
        found_files: files,
        found_registry_keys: vec![],
    }
}

fn counts(status: &OperationStatus) -> (usize, u64, usize, u64, usize, usize, usize) {
    let changed = status.changed_games();
    (
        status.total_games(),
        status.total_bytes(),
        status.processed_games(),
        status.processed_bytes(),
        changed.new,
        changed.different,
        changed.same,
    )
}

#[test]
fn empty_status_is_all_zero() {
    let status = OperationStatus::default();
    assert_eq!((0, 0, 0, 0, 0, 0, 0), counts(&status));
    assert!(status.processed_all_games());
    assert!(status.processed_all_bytes());
}

#[test]
fn processed_application_counts_everywhere() {
    let mut status = OperationStatus::default();
    status.add_game(&scan(vec![ScannedFile::new("/a", 10, "h").change_as(ScanChange::New)]), None, true);
    assert_eq!((1, 10, 1, 10, 1, 0, 0), counts(&status));
}

#[test]
fn skipped_application_counts_in_the_totals_only() {
    let mut status = OperationStatus::default();
    status.add_game(&scan(vec![ScannedFile::new("/a", 10, "h").change_as(ScanChange::Different)]), None, false);
    assert_eq!((1, 10, 0, 0, 0, 1, 0), counts(&status));
    assert!(!status.processed_all_games());
    assert!(!status.processed_all_bytes());
}

#[test]
fn unknown_application_enters_no_bucket() {
    let mut status = OperationStatus::default();
    status.add_game(&scan(vec![ScannedFile::new("/a", 10, "h")]), None, true);
    assert_eq!((1, 10, 1, 10, 0, 0, 0), counts(&status));
}

#[test]
fn failed_bytes_are_discovered_but_not_processed() {
    let mut status = OperationStatus::default();
    let info = BackupInfo {
        failed_files: vec![("/b".to_string(), BackupError::Raw("x".to_string()))],
        failed_registry: vec![],
    };
    status.add_game(
        &scan(vec![
            ScannedFile::new("/a", 100, "1").change_as(ScanChange::Same),
            ScannedFile::new("/b", 50, "2").change_as(ScanChange::Same),
        ]),
        Some(&info),
        true,
    );
    assert_eq!((1, 150, 1, 100, 0, 0, 1), counts(&status));
}

#[test]
fn processed_never_exceeds_total_over_a_sequence() {
    let mut status = OperationStatus::default();
    let changes = [ScanChange::New, ScanChange::Different, ScanChange::Same, ScanChange::Unknown];
    for round in 0..40u64 {
        let game = scan(vec![
            ScannedFile::new("/a", round * 3, "1").change_as(changes[(round % 4) as usize]),
            ScannedFile::new("/b", round, "2"),
        ]);
        let info = BackupInfo {
            failed_files: if round % 3 == 0 {
                vec![("/a".to_string(), BackupError::Raw("x".to_string()))]
            } else {
                vec![]
            },
            failed_registry: vec![],
        };
        assert!(status.can_add(&game));
        status.add_game(&game, Some(&info), round % 2 == 0);
        assert!(status.processed_games() <= status.total_games());
        assert!(status.processed_bytes() <= status.total_bytes());
        let changed = status.changed_games();
        assert!(changed.new + changed.different + changed.same <= status.total_games());
    }
    assert_eq!(40, status.total_games());
    assert_eq!(20, status.processed_games());
    assert_eq!((0..40u64).map(|r| r * 4).sum::<u64>(), status.total_bytes());
    let changed = status.changed_games();
    assert_eq!((10, 10, 10), (changed.new, changed.different, changed.same));
}

#[test]
fn status_without_room_says_so() {
    let mut status = OperationStatus::default();
    status.add_game(&scan(vec![ScannedFile::new("/a", u64::MAX - 5, "1")]), None, true);
    assert!(status.can_add(&scan(vec![ScannedFile::new("/a", 5, "1")])));
    assert!(!status.can_add(&scan(vec![ScannedFile::new("/a", 6, "1")])));
    assert!(!status.can_add(&scan(vec![
        ScannedFile::new("/a", u64::MAX, "1"),
        ScannedFile::new("/b", 1, "2"),
    ])));
}

#[test]
fn copy_of_a_status_holds_the_same_counts() {
    let mut status = OperationStatus::default();
    status.add_game(&scan(vec![ScannedFile::new("/a", 10, "h").change_as(ScanChange::New)]), None, true);
    assert_eq!(counts(&status), counts(&status.clone()));
}
