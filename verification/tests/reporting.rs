use ludusavi::change::ScanChange;
use ludusavi::cloud::CloudChange;
use ludusavi::duplicate::DuplicateDetector;
use ludusavi::layout::{GameLayout, Os, Timestamp};
use ludusavi::lines::{
    cli_game_header, cli_game_line_item, cli_game_line_item_error, cli_game_line_item_redirected,
    cli_game_line_item_redirecting, cli_summary,
};
use ludusavi::document::{api_file, duplicated_by, ApiGame};
use ludusavi::report::{report_cloud_changes, ApiErrors, CloudReport, OperationStepDecision, Reporter};
use ludusavi::scan::{BackupError, BackupInfo, ScanInfo, ScannedFile, ScannedRegistry};
use ludusavi::status::OperationStatus;

fn s(text: &str) -> String {
    text.to_string()
}

fn one_file(name: &str, change: ScanChange) -> ScanInfo {
    ScanInfo {
        game_name: s(name),
        found_files: vec![ScannedFile::new("/file", 2048, "h").change_as(change)],
        found_registry_keys: vec![],
    }
}

fn layout() -> GameLayout {
    let mut layout = GameLayout::new();
    let scan = one_file("game", ScanChange::New);
    layout
        .create_named(Some(s("one")), &scan, Some(Os::Windows), None, Timestamp { secs: 10, nanos: 0 }, true)
        .unwrap();
    layout
        .create_named(Some(s("two")), &scan, None, Some(s("after the boss")), Timestamp { secs: 20, nanos: 0 }, true)
        .unwrap();
    assert!(layout.lock("backup-two"));
    layout
}

#[test]
fn application_without_entries_is_left_out_of_report_and_tally() {
    for mut reporter in [Reporter::standard(), Reporter::json()] {
        reporter.add_game(
            "kept",
            &one_file("kept", ScanChange::Same),
            &BackupInfo::default(),
            &OperationStepDecision::Processed,
            &DuplicateDetector::new(),
        );
        let before = format!("{:?}", reporter);
        let info = BackupInfo {
            failed_files: vec![(s("/file"), BackupError::Raw(s("x")))],
            failed_registry: vec![],
        };
        let successful = reporter.add_game(
            "empty",
            &ScanInfo { game_name: s("empty"), found_files: vec![], found_registry_keys: vec![] },
            &info,
            &OperationStepDecision::Processed,
            &DuplicateDetector::new(),
        );
        assert!(successful);
        assert_eq!(before, format!("{:?}", reporter));
    }
}

#[test]
fn failed_entry_trips_the_errors_and_the_answer() {
    let info = BackupInfo {
        failed_files: vec![],
        failed_registry: vec![(s("K"), BackupError::Raw(s("denied")))],
    };
    let scan = ScanInfo {
        game_name: s("foo"),
        found_files: vec![],
        found_registry_keys: vec![ScannedRegistry::new("K")],
    };
    let mut standard = Reporter::standard();
    assert!(!standard.add_game("foo", &scan, &info, &OperationStepDecision::Processed, &DuplicateDetector::new()));
    match &standard {
        Reporter::Standard { errors, .. } => assert_eq!(Some(true), errors.some_games_failed),
        other => panic!("unexpected report: {:?}", other),
    }
    let mut clean = Reporter::standard();
    assert!(clean.add_game(
        "foo",
        &scan,
        &BackupInfo::default(),
        &OperationStepDecision::Processed,
        &DuplicateDetector::new()
    ));
    match &clean {
        Reporter::Standard { errors, .. } => assert_eq!(None, errors.some_games_failed),
        other => panic!("unexpected report: {:?}", other),
    }
}

#[test]
fn decision_that_is_not_processed_counts_in_the_totals_only() {
    let mut reporter = Reporter::standard();
    reporter.add_game(
        "foo",
        &one_file("foo", ScanChange::Different),
        &BackupInfo::default(),
        &OperationStepDecision::Ignored,
        &DuplicateDetector::new(),
    );
    reporter.add_game(
        "bar",
        &one_file("bar", ScanChange::Same),
        &BackupInfo::default(),
        &OperationStepDecision::Cancelled,
        &DuplicateDetector::new(),
    );
    assert_eq!(
        "foo [2.00 KiB] [IGNORED] [Δ]:\n  - [Δ] /file\n\nbar [2.00 KiB] [CANCELLED]:\n  - /file\n\nOverall:\n  Games: 0 / 2 [Δ1]\n  Size: 0 B / 4.00 KiB\n  Location: /backups",
        reporter.render("/backups").unwrap()
    );
}

#[test]
fn suppressed_summary_leaves_the_lines() {
    let mut reporter = Reporter::standard();
    reporter.add_game(
        "foo",
        &one_file("foo", ScanChange::New),
        &BackupInfo::default(),
        &OperationStepDecision::Processed,
        &DuplicateDetector::new(),
    );
    reporter.trip_cloud_conflict();
    reporter.suppress_overall();
    assert_eq!("foo [2.00 KiB] [+]:\n  - [+] /file\n", reporter.render("/backups").unwrap());

    let mut structured = Reporter::json();
    structured.suppress_overall();
    structured.add_game(
        "foo",
        &one_file("foo", ScanChange::New),
        &BackupInfo::default(),
        &OperationStepDecision::Processed,
        &DuplicateDetector::new(),
    );
    match structured {
        Reporter::Json { output } => {
            assert!(output.overall.is_none());
            assert_eq!(1, output.games.len());
        }
        other => panic!("unexpected report: {:?}", other),
    }
}

#[test]
fn warnings_follow_the_summary() {
    let mut reporter = Reporter::standard();
    reporter.trip_cloud_sync_failed();
    reporter.trip_cloud_conflict();
    assert_eq!(
        "\nOverall:\n  Games: 0\n  Size: 0 B\n  Location: /b\n\nWarning: Your local and cloud backups are in conflict. Perform an upload or download to resolve this.\n\nWarning: Unable to synchronize with cloud.",
        reporter.render("/b").unwrap()
    );
}

#[test]
fn messages_of_errors() {
    assert!(ApiErrors::default().messages().is_empty());
    let mut reporter = Reporter::standard();
    reporter.trip_unknown_games(vec![s("ghost")]);
    reporter.trip_cloud_sync_failed();
    match &reporter {
        Reporter::Standard { errors, .. } => {
            assert_eq!(vec![s("Warning: Unable to synchronize with cloud.")], errors.messages());
            assert_eq!(Some(vec![s("ghost")]), errors.unknown_games);
            assert!(errors.cloud_conflict.is_none());
            assert!(errors.cloud_sync_failed.is_some());
            assert_eq!(None, errors.some_games_failed);
        }
        other => panic!("unexpected report: {:?}", other),
    }
}

#[test]
fn errors_of_a_structured_report_appear_with_the_first_note() {
    let mut reporter = Reporter::json();
    match &reporter {
        Reporter::Json { output } => assert!(output.errors.is_none()),
        other => panic!("unexpected report: {:?}", other),
    }
    reporter.trip_cloud_conflict();
    reporter.trip_unknown_games(vec![s("a"), s("b")]);
    match &reporter {
        Reporter::Json { output } => {
            let errors = output.errors.as_ref().unwrap();
            assert!(errors.cloud_conflict.is_some());
            assert!(errors.cloud_sync_failed.is_none());
            assert_eq!(Some(vec![s("a"), s("b")]), errors.unknown_games);
            assert_eq!(None, errors.some_games_failed);
        }
        other => panic!("unexpected report: {:?}", other),
    }
}

#[test]
fn snapshots_in_a_report_in_text() {
    let layout = layout();
    let mut reporter = Reporter::standard();
    reporter.add_backups(
        "game",
        "Game: The Title",
        "/backups/game",
        &layout.list(),
        &vec![s("2023-06-22T12:15:00")],
    );
    reporter.suppress_overall();
    assert_eq!(
        "Game: The Title:\n  Folder: /backups/game\n  - \"backup-two\" (2023-06-22T12:15:00) [🔒] - after the boss\n  - \"backup-one\" (?) [Windows]\n",
        reporter.render("").unwrap()
    );
}

#[test]
fn snapshots_in_a_structured_report() {
    let layout = layout();
    let mut reporter = Reporter::json();
    reporter.add_backups("game", "Game: The Title", "/backups/game", &layout.list(), &vec![]);
    match reporter {
        Reporter::Json { output } => {
            assert_eq!(1, output.games.len());
            assert_eq!("game", output.games[0].0);
            match &output.games[0].1 {
                ApiGame::Stored { backup_dir, backups } => {
                    assert_eq!("/backups/game", backup_dir);
                    assert_eq!(2, backups.len());
                    assert_eq!("backup-two", backups[0].name);
                    assert_eq!(Timestamp { secs: 20, nanos: 0 }, backups[0].when);
                    assert_eq!(None, backups[0].os);
                    assert_eq!(Some(s("after the boss")), backups[0].comment);
                    assert!(backups[0].locked);
                    assert_eq!("backup-one", backups[1].name);
                    assert_eq!(Some(Os::Windows), backups[1].os);
                    assert_eq!(None, backups[1].comment);
                    assert!(!backups[1].locked);
                }
                other => panic!("unexpected form: {:?}", other),
            }
        }
        other => panic!("unexpected report: {:?}", other),
    }
}

#[test]
fn application_without_snapshots_is_not_listed() {
    for mut reporter in [Reporter::standard(), Reporter::json()] {
        let before = format!("{:?}", reporter);
        reporter.add_backups("game", "Game", "/backups/game", &vec![], &vec![s("now")]);
        assert_eq!(before, format!("{:?}", reporter));
    }
}

#[test]
fn found_titles_in_the_order_of_their_texts() {
    let mut reporter = Reporter::standard();
    reporter.add_found_titles(&vec![s("Pear"), s("Apple"), s("Fig")]);
    reporter.suppress_overall();
    assert_eq!("Apple\nFig\nPear", reporter.render("").unwrap());
}

#[test]
fn found_titles_in_a_structured_report() {
    let mut reporter = Reporter::json();
    reporter.add_game(
        "Fig",
        &one_file("Fig", ScanChange::New),
        &BackupInfo::default(),
        &OperationStepDecision::Processed,
        &DuplicateDetector::new(),
    );
    reporter.add_game(
        "Kiwi",
        &one_file("Kiwi", ScanChange::New),
        &BackupInfo::default(),
        &OperationStepDecision::Processed,
        &DuplicateDetector::new(),
    );
    reporter.add_found_titles(&vec![s("Pear"), s("Fig"), s("Apple"), s("Pear")]);
    match reporter {
        Reporter::Json { output } => {
            let mut listed: Vec<(String, String)> = output
                .games
                .iter()
                .map(|(name, game)| {
                    (
                        name.clone(),
                        match game {
                            ApiGame::Found {} => s("found"),
                            ApiGame::Operative { .. } => s("operative"),
                            ApiGame::Stored { .. } => s("stored"),
                        },
                    )
                })
                .collect();
            listed.sort();
            assert_eq!(
                vec![
                    (s("Apple"), s("found")),
                    (s("Fig"), s("found")),
                    (s("Kiwi"), s("operative")),
                    (s("Pear"), s("found")),
                ],
                listed
            );
        }
        other => panic!("unexpected report: {:?}", other),
    }
}

#[test]
fn application_added_twice_is_entered_once() {
    let mut reporter = Reporter::json();
    for change in [ScanChange::New, ScanChange::Same] {
        reporter.add_game(
            "foo",
            &one_file("foo", change),
            &BackupInfo::default(),
            &OperationStepDecision::Processed,
            &DuplicateDetector::new(),
        );
    }
    match reporter {
        Reporter::Json { output } => {
            assert_eq!(1, output.games.len());
            match &output.games[0].1 {
                ApiGame::Operative { change, .. } => assert_eq!(ScanChange::Same, *change),
                other => panic!("unexpected form: {:?}", other),
            }
            assert_eq!(2, output.overall.as_ref().unwrap().total_games());
        }
        other => panic!("unexpected report: {:?}", other),
    }
}

#[test]
fn redirected_files_in_both_directions() {
    let mut backed_up = ScannedFile::new("/system/save", 1, "h");
    backed_up.redirected = Some(s("/redirected/save"));
    let mut restored = ScannedFile::new("/backup/save", 1, "h");
    restored.original_path = Some(s("/system/save"));
    restored.redirected = Some(s("/redirected/save"));

    let mut text = Reporter::standard();
    text.add_game(
        "up",
        &ScanInfo { game_name: s("up"), found_files: vec![backed_up.clone()], found_registry_keys: vec![] },
        &BackupInfo::default(),
        &OperationStepDecision::Processed,
        &DuplicateDetector::new(),
    );
    text.add_game(
        "down",
        &ScanInfo { game_name: s("down"), found_files: vec![restored.clone()], found_registry_keys: vec![] },
        &BackupInfo::default(),
        &OperationStepDecision::Processed,
        &DuplicateDetector::new(),
    );
    text.suppress_overall();
    assert_eq!(
        "up [1 B]:\n  - /system/save\n    - Redirecting to: /redirected/save\n\ndown [1 B]:\n  - /redirected/save\n    - Redirected from: /system/save\n",
        text.render("").unwrap()
    );

    let detector = DuplicateDetector::new();
    let up = api_file(&backed_up, &BackupInfo::default(), &detector, "up", false);
    assert_eq!(Some(s("/redirected/save")), up.redirected_path);
    assert_eq!(None, up.original_path);
    let down = api_file(&restored, &BackupInfo::default(), &detector, "down", true);
    assert_eq!(None, down.redirected_path);
    assert_eq!(Some(s("/system/save")), down.original_path);
}

#[test]
fn duplicated_by_lists_the_others_only_when_contested() {
    let claimants = vec![(s("foo"), true), (s("bar"), false), (s("baz"), true)];
    assert_eq!(vec![s("bar"), s("baz")], duplicated_by(claimants.clone(), true, "foo"));
    assert_eq!(vec![s("foo"), s("bar"), s("baz")], duplicated_by(claimants.clone(), true, "other"));
    assert!(duplicated_by(claimants, false, "foo").is_empty());
}

#[test]
fn lines_of_entries() {
    assert_eq!("  - /a", cli_game_line_item("/a", true, false, false, ScanChange::Same, false));
    assert_eq!("    - v", cli_game_line_item("v", true, false, false, ScanChange::Unknown, true));
    assert_eq!(
        "  - [FAILED] [IGNORED] [DUPLICATED] [+] /a",
        cli_game_line_item("/a", false, true, true, ScanChange::New, false)
    );
    assert_eq!("  - [IGNORED] [Δ] /a", cli_game_line_item("/a", true, true, false, ScanChange::Different, false));
    assert_eq!("    - Redirected from: /x", cli_game_line_item_redirected("/x"));
    assert_eq!("    - Redirecting to: /x", cli_game_line_item_redirecting("/x"));
    assert_eq!("    - disk full", cli_game_line_item_error("disk full"));
    assert_eq!(
        "foo [0 B]:",
        cli_game_header("foo", 0, OperationStepDecision::Processed, false, ScanChange::Unknown)
    );
    assert_eq!(
        "foo [1.00 MiB] [IGNORED] [DUPLICATES] [+]:",
        cli_game_header("foo", 1 << 20, OperationStepDecision::Ignored, true, ScanChange::New)
    );
}

#[test]
fn summary_of_a_status() {
    let mut status = OperationStatus::default();
    assert_eq!("Overall:\n  Games: 0\n  Size: 0 B\n  Location: here", cli_summary(&status, "here"));
    status.add_game(&one_file("a", ScanChange::New), None, true);
    status.add_game(&one_file("b", ScanChange::New), None, true);
    status.add_game(&one_file("c", ScanChange::Different), None, false);
    assert_eq!(
        "Overall:\n  Games: 2 / 3 [+2] [Δ1]\n  Size: 4.00 KiB / 6.00 KiB\n  Location: here",
        cli_summary(&status, "here")
    );
}

#[test]
fn cloud_changes_in_text_are_sorted() {
    let changes = vec![
        CloudChange { path: s("b/save"), change: ScanChange::Same },
        CloudChange { path: s("a/save"), change: ScanChange::Different },
        CloudChange { path: s("c/save"), change: ScanChange::New },
        CloudChange { path: s("a/save"), change: ScanChange::New },
        CloudChange { path: s("d/save"), change: ScanChange::Unknown },
    ];
    match report_cloud_changes(&changes, false) {
        CloudReport::Lines(lines) => assert_eq!(
            vec!["[+] a/save", "[Δ] a/save", "[=] b/save", "[+] c/save", "[?] d/save"],
            lines
        ),
        other => panic!("unexpected report: {:?}", other),
    }
}

#[test]
fn no_cloud_changes_in_text() {
    assert!(matches!(report_cloud_changes(&vec![], false), CloudReport::Nothing));
}

#[test]
fn cloud_changes_in_a_structured_report() {
    let changes = vec![
        CloudChange { path: s("b/save"), change: ScanChange::Same },
        CloudChange { path: s("a/save"), change: ScanChange::Different },
        CloudChange { path: s("b/save"), change: ScanChange::New },
    ];
    match report_cloud_changes(&changes, true) {
        CloudReport::Api(output) => {
            assert!(output.errors.is_none());
            assert!(output.overall.is_none());
            assert!(output.games.is_empty());
            let mut listed: Vec<(String, ScanChange)> =
                output.cloud.iter().map(|(path, entry)| (path.clone(), entry.change)).collect();
            listed.sort_by(|a, b| a.0.cmp(&b.0));
            assert_eq!(vec![(s("a/save"), ScanChange::Different), (s("b/save"), ScanChange::New)], listed);
        }
        other => panic!("unexpected report: {:?}", other),
    }
    match report_cloud_changes(&vec![], true) {
        CloudReport::Api(output) => assert!(output.cloud.is_empty()),
        other => panic!("unexpected report: {:?}", other),
    }
}
