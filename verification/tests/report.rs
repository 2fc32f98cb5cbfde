use ludusavi::change::ScanChange;
use ludusavi::duplicate::DuplicateDetector;
use ludusavi::document::ApiGame;
use ludusavi::report::{OperationStepDecision, Reporter};
use ludusavi::scan::{BackupError, BackupInfo, ScanInfo, ScannedFile, ScannedRegistry};

fn s(text: &str) -> String {
    text.to_string()
}

fn plain_file(path: &str, size: u64, hash: &str, original_path: Option<&str>) -> ScannedFile {
    ScannedFile {
        path: s(path),
        size,
        hash: s(hash),
        original_path: original_path.map(s),
        ignored: false,
        change: Default::default(),
        container: None,
        redirected: None,
    }
}

fn test_failure() -> BackupError {
    BackupError::Raw(s("test"))
}

fn rendered(reporter: &Reporter) -> String {
    reporter.render("/dev/null").unwrap()
}

#[test]
fn can_render_in_standard_mode_with_minimal_input() {
    let mut reporter = Reporter::standard();
    reporter.add_game(
        "foo",
        &ScanInfo::default(),
        &BackupInfo::default(),
        &OperationStepDecision::Processed,
        &DuplicateDetector::default(),
    );
    assert_eq!(
        r#"
Overall:
  Games: 0
  Size: 0 B
  Location: /dev/null
            "#
        .trim_end(),
        rendered(&reporter)
    )
}

#[test]
fn can_render_in_standard_mode_with_one_game_in_backup_mode() {
    let mut reporter = Reporter::standard();

    reporter.add_game(
        "foo",
        &ScanInfo {
            game_name: s("foo"),
            found_files: vec![
                plain_file("/file1", 102_400, "1", None),
                plain_file("/file2", 51_200, "2", None),
            ],
            found_registry_keys: vec![
                ScannedRegistry::new("HKEY_CURRENT_USER/Key1"),
                ScannedRegistry::new("HKEY_CURRENT_USER/Key2"),
                ScannedRegistry::new("HKEY_CURRENT_USER/Key3").with_value_same("Value1"),
            ],
            ..Default::default()
        },
        &BackupInfo {
            failed_files: vec![(s("/file2"), test_failure())],
            failed_registry: vec![(s("HKEY_CURRENT_USER/Key1"), test_failure())],
        },
        &OperationStepDecision::Processed,
        &DuplicateDetector::default(),
    );
    assert_eq!(
        r#"
foo [100.00 KiB]:
  - /file1
  - [FAILED] /file2
    - test
  - [FAILED] HKEY_CURRENT_USER/Key1
    - test
  - HKEY_CURRENT_USER/Key2
  - HKEY_CURRENT_USER/Key3
    - Value1

Overall:
  Games: 1
  Size: 100.00 KiB / 150.00 KiB
  Location: /dev/null
            "#
        .trim(),
        rendered(&reporter)
    );
}

#[test]
fn can_render_in_standard_mode_with_multiple_games_in_backup_mode() {
    let mut reporter = Reporter::standard();

    reporter.add_game(
        "foo",
        &ScanInfo {
            game_name: s("foo"),
            found_files: vec![ScannedFile {
                path: s("/file1"),
                size: 1,
                hash: "1".to_string(),
                original_path: None,
                ignored: false,
                change: ScanChange::Same,
                container: None,
                redirected: None,
            }],
            found_registry_keys: vec![],
            ..Default::default()
        },
        &BackupInfo {
            failed_files: vec![],
            failed_registry: vec![],
        },
        &OperationStepDecision::Processed,
        &DuplicateDetector::default(),
    );
    reporter.add_game(
        "bar",
        &ScanInfo {
            game_name: s("bar"),
            found_files: vec![plain_file("/file2", 3, "2", None)],
            found_registry_keys: vec![],
            ..Default::default()
        },
        &BackupInfo {
            failed_files: vec![],
            failed_registry: vec![],
        },
        &OperationStepDecision::Processed,
        &DuplicateDetector::default(),
    );
    assert_eq!(
        r#"
foo [1 B]:
  - /file1

bar [3 B]:
  - /file2

Overall:
  Games: 2
  Size: 4 B
  Location: /dev/null
            "#
        .trim(),
        rendered(&reporter)
    );
}

#[test]
fn can_render_in_standard_mode_with_one_game_in_restore_mode() {
    let mut reporter = Reporter::standard();

    reporter.add_game(
        "foo",
        &ScanInfo {
            game_name: s("foo"),
            found_files: vec![
                plain_file("/backup/file1", 102_400, "1", Some("/original/file1")),
                plain_file("/backup/file2", 51_200, "2", Some("/original/file2")),
            ],
            found_registry_keys: vec![],
            ..Default::default()
        },
        &BackupInfo::default(),
        &OperationStepDecision::Processed,
        &DuplicateDetector::default(),
    );
    assert_eq!(
        r#"
foo [150.00 KiB]:
  - /original/file1
  - /original/file2

Overall:
  Games: 1
  Size: 150.00 KiB
  Location: /dev/null
            "#
        .trim(),
        rendered(&reporter)
    );
}

#[test]
fn can_render_in_standard_mode_with_duplicated_entries() {
    let mut reporter = Reporter::standard();

    let mut duplicate_detector = DuplicateDetector::default();
    for name in &["foo", "bar"] {
        duplicate_detector.add_game(
            &ScanInfo {
                game_name: s(name),
                found_files: vec![ScannedFile::new("/file1", 102_400, "1").change_as(ScanChange::New)],
                found_registry_keys: vec![
                    ScannedRegistry::new("HKEY_CURRENT_USER/Key1").change_as(ScanChange::New)
                ],
                ..Default::default()
            },
            true,
        );
    }

    reporter.add_game(
        "foo",
        &ScanInfo {
            game_name: s("foo"),
            found_files: vec![ScannedFile::new("/file1", 102_400, "1")],
            found_registry_keys: vec![ScannedRegistry::new("HKEY_CURRENT_USER/Key1")],
            ..Default::default()
        },
        &BackupInfo::default(),
        &OperationStepDecision::Processed,
        &duplicate_detector,
    );
    assert_eq!(
        r#"
foo [100.00 KiB] [DUPLICATES]:
  - [DUPLICATED] /file1
  - [DUPLICATED] HKEY_CURRENT_USER/Key1

Overall:
  Games: 1
  Size: 100.00 KiB
  Location: /dev/null
            "#
        .trim(),
        rendered(&reporter)
    );
}

// The application as a whole takes the change of highest precedence among
// its entries: with a new file among them it is new.
#[test]
fn can_render_in_standard_mode_with_different_file_changes() {
    let mut reporter = Reporter::standard();

    reporter.add_game(
        "foo",
        &ScanInfo {
            game_name: s("foo"),
            found_files: vec![
                ScannedFile::new("/new", 1, "1").change_as(ScanChange::New),
                ScannedFile::new("/different", 1, "1").change_as(ScanChange::Different),
                ScannedFile::new("/same", 1, "1").change_as(ScanChange::Same),
                ScannedFile::new("/unknown", 1, "1").change_as(ScanChange::Unknown),
            ],
            found_registry_keys: vec![],
            ..Default::default()
        },
        &BackupInfo {
            failed_files: vec![],
            failed_registry: vec![],
        },
        &OperationStepDecision::Processed,
        &DuplicateDetector::default(),
    );
    reporter.add_game(
        "bar",
        &ScanInfo {
            game_name: s("bar"),
            found_files: vec![ScannedFile::new("/brand-new", 1, "1").change_as(ScanChange::New)],
            found_registry_keys: vec![],
            ..Default::default()
        },
        &BackupInfo {
            failed_files: vec![],
            failed_registry: vec![],
        },
        &OperationStepDecision::Processed,
        &DuplicateDetector::default(),
    );
    assert_eq!(
        r#"
foo [4 B] [+]:
  - [Δ] /different
  - [+] /new
  - /same
  - /unknown

bar [1 B] [+]:
  - [+] /brand-new

Overall:
  Games: 2 [+2]
  Size: 5 B
  Location: /dev/null
            "#
        .trim(),
        rendered(&reporter)
    );
}

fn json_output(reporter: Reporter) -> ludusavi::report::JsonOutput {
    match reporter {
        Reporter::Json { output } => output,
        Reporter::Standard { .. } => panic!("a structured report was asked for"),
    }
}

fn object(fields: Vec<(&str, Option<serde_json::Value>)>) -> serde_json::Value {
    let mut map = serde_json::Map::new();
    for (name, value) in fields {
        if let Some(value) = value {
            map.insert(name.to_string(), value);
        }
    }
    serde_json::Value::Object(map)
}

fn keyed<T>(entries: &[(String, T)], convert: impl Fn(&T) -> serde_json::Value) -> serde_json::Value {
    let mut map = serde_json::Map::new();
    for (name, entry) in entries {
        map.insert(name.clone(), convert(entry));
    }
    serde_json::Value::Object(map)
}

fn flag(set: bool) -> Option<serde_json::Value> {
    if set {
        Some(serde_json::Value::Bool(true))
    } else {
        None
    }
}

fn text(value: &str) -> serde_json::Value {
    serde_json::Value::String(value.to_string())
}

fn change(value: ScanChange) -> serde_json::Value {
    text(match value {
        ScanChange::New => "New",
        ScanChange::Different => "Different",
        ScanChange::Same => "Same",
        ScanChange::Unknown => "Unknown",
    })
}

fn names(values: &[String]) -> Option<serde_json::Value> {
    let mut sorted: Vec<String> = values.to_vec();
    sorted.sort();
    if sorted.is_empty() {
        None
    } else {
        Some(serde_json::Value::Array(sorted.iter().map(|name| text(name)).collect()))
    }
}

fn error(value: &Option<ludusavi::document::SaveError>) -> Option<serde_json::Value> {
    value.as_ref().map(|cause| object(vec![("message", Some(text(&cause.message)))]))
}

// The document as it is written out: flags that are not set, lists that
// are empty and parts that are absent are left out.
fn document(output: &ludusavi::report::JsonOutput) -> serde_json::Value {
    let errors = output.errors.as_ref().map(|errors| {
        object(vec![
            ("someGamesFailed", errors.some_games_failed.map(serde_json::Value::Bool)),
            (
                "unknownGames",
                errors
                    .unknown_games
                    .as_ref()
                    .map(|games| serde_json::Value::Array(games.iter().map(|name| text(name)).collect())),
            ),
            ("cloudConflict", errors.cloud_conflict.as_ref().map(|_| object(vec![]))),
            ("cloudSyncFailed", errors.cloud_sync_failed.as_ref().map(|_| object(vec![]))),
        ])
    });
    let overall = output.overall.as_ref().map(|status| {
        let changed = status.changed_games();
        object(vec![
            ("totalGames", Some(status.total_games().into())),
            ("totalBytes", Some(status.total_bytes().into())),
            ("processedGames", Some(status.processed_games().into())),
            ("processedBytes", Some(status.processed_bytes().into())),
            (
                "changedGames",
                Some(object(vec![
                    ("new", Some(changed.new.into())),
                    ("different", Some(changed.different.into())),
                    ("same", Some(changed.same.into())),
                ])),
            ),
        ])
    });
    let games = keyed(&output.games, |game| match game {
        ApiGame::Operative {
            decision,
            change: overall,
            files,
            registry,
        } => object(vec![
            (
                "decision",
                Some(text(match decision {
                    OperationStepDecision::Processed => "Processed",
                    OperationStepDecision::Cancelled => "Cancelled",
                    OperationStepDecision::Ignored => "Ignored",
                })),
            ),
            ("change", Some(change(*overall))),
            (
                "files",
                Some(keyed(files, |file| {
                    object(vec![
                        ("failed", flag(file.failed)),
                        ("error", error(&file.error)),
                        ("ignored", flag(file.ignored)),
                        ("change", Some(change(file.change))),
                        ("bytes", Some(file.bytes.into())),
                        ("originalPath", file.original_path.as_deref().map(text)),
                        ("redirectedPath", file.redirected_path.as_deref().map(text)),
                        ("duplicatedBy", names(&file.duplicated_by)),
                    ])
                })),
            ),
            (
                "registry",
                Some(keyed(registry, |key| {
                    object(vec![
                        ("failed", flag(key.failed)),
                        ("error", error(&key.error)),
                        ("ignored", flag(key.ignored)),
                        ("change", Some(change(key.change))),
                        ("duplicatedBy", names(&key.duplicated_by)),
                        (
                            "values",
                            if key.values.is_empty() {
                                None
                            } else {
                                Some(keyed(&key.values, |value| {
                                    object(vec![
                                        ("ignored", flag(value.ignored)),
                                        ("change", Some(change(value.change))),
                                        ("duplicatedBy", names(&value.duplicated_by)),
                                    ])
                                }))
                            },
                        ),
                    ])
                })),
            ),
        ]),
        ApiGame::Stored { backup_dir, backups } => object(vec![
            ("backupDir", Some(text(backup_dir))),
            (
                "backups",
                Some(serde_json::Value::Array(
                    backups
                        .iter()
                        .map(|backup| {
                            object(vec![
                                ("name", Some(text(&backup.name))),
                                ("locked", Some(serde_json::Value::Bool(backup.locked))),
                            ])
                        })
                        .collect(),
                )),
            ),
        ]),
        ApiGame::Found {} => object(vec![]),
    });
    object(vec![
        ("errors", errors),
        ("overall", overall),
        ("games", Some(games)),
        (
            "cloud",
            if output.cloud.is_empty() {
                None
            } else {
                Some(keyed(&output.cloud, |entry| object(vec![("change", Some(change(entry.change)))])))
            },
        ),
    ])
}

fn assert_document(expected: &str, reporter: Reporter) {
    assert!(reporter.render("/dev/null").is_none());
    let expected: serde_json::Value = serde_json::from_str(expected).unwrap();
    assert_eq!(expected, document(&json_output(reporter)));
}

#[test]
fn can_render_in_json_mode_with_minimal_input() {
    let mut reporter = Reporter::json();

    reporter.add_game(
        "foo",
        &ScanInfo::default(),
        &BackupInfo::default(),
        &OperationStepDecision::Processed,
        &DuplicateDetector::default(),
    );
    assert_document(
        r#"
{
  "overall": {
    "totalGames": 0,
    "totalBytes": 0,
    "processedGames": 0,
    "processedBytes": 0,
    "changedGames": {
      "new": 0,
      "different": 0,
      "same": 0
    }
  },
  "games": {}
}
            "#
        .trim(),
        reporter,
    );
}

#[test]
fn can_render_in_json_mode_with_one_game_in_backup_mode() {
    let mut reporter = Reporter::json();

    reporter.add_game(
        "foo",
        &ScanInfo {
            game_name: s("foo"),
            found_files: vec![ScannedFile::new("/file1", 100, "1"), ScannedFile::new("/file2", 50, "2")],
            found_registry_keys: vec![
                ScannedRegistry::new("HKEY_CURRENT_USER/Key1"),
                ScannedRegistry::new("HKEY_CURRENT_USER/Key2"),
                ScannedRegistry::new("HKEY_CURRENT_USER/Key3").with_value_same("Value1"),
            ],
            ..Default::default()
        },
        &BackupInfo {
            failed_files: vec![(s("/file2"), test_failure())],
            failed_registry: vec![(s("HKEY_CURRENT_USER/Key1"), test_failure())],
        },
        &OperationStepDecision::Processed,
        &DuplicateDetector::default(),
    );
    assert_document(
        r#"
{
  "errors": {
    "someGamesFailed": true
  },
  "overall": {
    "totalGames": 1,
    "totalBytes": 150,
    "processedGames": 1,
    "processedBytes": 100,
    "changedGames": {
      "new": 0,
      "different": 0,
      "same": 1
    }
  },
  "games": {
    "foo": {
      "decision": "Processed",
      "change": "Same",
      "files": {
        "/file1": {
          "change": "Unknown",
          "bytes": 100
        },
        "/file2": {
          "failed": true,
          "error": {
            "message": "test"
          },
          "change": "Unknown",
          "bytes": 50
        }
      },
      "registry": {
        "HKEY_CURRENT_USER/Key1": {
          "failed": true,
          "error": {
            "message": "test"
          },
          "change": "Unknown"
        },
        "HKEY_CURRENT_USER/Key2": {
          "change": "Unknown"
        },
        "HKEY_CURRENT_USER/Key3": {
          "change": "Unknown",
          "values": {
            "Value1": {
              "change": "Same"
            }
          }
        }
      }
    }
  }
}
            "#
        .trim(),
        reporter,
    );
}

// Entries that were not classified leave the application unclassified: it
// is counted in the totals and in none of the buckets.
#[test]
fn can_render_in_json_mode_with_one_game_in_restore_mode() {
    let mut reporter = Reporter::json();

    reporter.add_game(
        "foo",
        &ScanInfo {
            game_name: s("foo"),
            found_files: vec![
                plain_file("/backup/file1", 100, "1", Some("/original/file1")),
                plain_file("/backup/file2", 50, "2", Some("/original/file2")),
            ],
            found_registry_keys: vec![],
            ..Default::default()
        },
        &BackupInfo::default(),
        &OperationStepDecision::Processed,
        &DuplicateDetector::default(),
    );
    assert_document(
        r#"
  {
  "overall": {
    "totalGames": 1,
    "totalBytes": 150,
    "processedGames": 1,
    "processedBytes": 150,
    "changedGames": {
      "new": 0,
      "different": 0,
      "same": 0
    }
  },
  "games": {
    "foo": {
      "decision": "Processed",
      "change": "Unknown",
      "files": {
        "/original/file1": {
          "change": "Unknown",
          "bytes": 100
        },
        "/original/file2": {
          "change": "Unknown",
          "bytes": 50
        }
      },
      "registry": {}
    }
  }
}
            "#
        .trim(),
        reporter,
    );
}

// As above: the entries are unclassified, and so is the application.
#[test]
fn can_render_in_json_mode_with_duplicated_entries() {
    let mut reporter = Reporter::json();

    let mut duplicate_detector = DuplicateDetector::default();
    for name in &["foo", "bar"] {
        duplicate_detector.add_game(
            &ScanInfo {
                game_name: s(name),
                found_files: vec![ScannedFile::new("/file1", 102_400, "1")],
                found_registry_keys: vec![ScannedRegistry::new("HKEY_CURRENT_USER/Key1")],
                ..Default::default()
            },
            true,
        );
    }

    reporter.add_game(
        "foo",
        &ScanInfo {
            game_name: s("foo"),
            found_files: vec![ScannedFile::new("/file1", 100, "2")],
            found_registry_keys: vec![ScannedRegistry::new("HKEY_CURRENT_USER/Key1")],
            ..Default::default()
        },
        &BackupInfo::default(),
        &OperationStepDecision::Processed,
        &duplicate_detector,
    );
    assert_document(
        r#"
{
  "overall": {
    "totalGames": 1,
    "totalBytes": 100,
    "processedGames": 1,
    "processedBytes": 100,
    "changedGames": {
      "new": 0,
      "different": 0,
      "same": 0
    }
  },
  "games": {
    "foo": {
      "decision": "Processed",
      "change": "Unknown",
      "files": {
        "/file1": {
          "change": "Unknown",
          "bytes": 100,
          "duplicatedBy": [
            "bar"
          ]
        }
      },
      "registry": {
        "HKEY_CURRENT_USER/Key1": {
          "change": "Unknown",
          "duplicatedBy": [
            "bar"
          ]
        }
      }
    }
  }
}
            "#
        .trim(),
        reporter,
    );
}

// With a new file among its entries the application as a whole is new.
#[test]
fn can_render_in_json_mode_with_different_file_changes() {
    let mut reporter = Reporter::json();

    reporter.add_game(
        "foo",
        &ScanInfo {
            game_name: s("foo"),
            found_files: vec![
                ScannedFile::new("/new", 1, "1").change_as(ScanChange::New),
                ScannedFile::new("/different", 1, "2").change_as(ScanChange::Different),
                ScannedFile::new("/same", 1, "2").change_as(ScanChange::Same),
                ScannedFile::new("/unknown", 1, "2").change_as(ScanChange::Unknown),
            ],
            found_registry_keys: vec![],
            ..Default::default()
        },
        &BackupInfo {
            failed_files: vec![],
            failed_registry: vec![],
        },
        &OperationStepDecision::Processed,
        &DuplicateDetector::default(),
    );
    assert_document(
        r#"
{
  "overall": {
    "totalGames": 1,
    "totalBytes": 4,
    "processedGames": 1,
    "processedBytes": 4,
    "changedGames": {
      "new": 1,
      "different": 0,
      "same": 0
    }
  },
  "games": {
    "foo": {
      "decision": "Processed",
      "change": "New",
      "files": {
        "/different": {
          "change": "Different",
          "bytes": 1
        },
        "/new": {
          "change": "New",
          "bytes": 1
        },
        "/same": {
          "change": "Same",
          "bytes": 1
        },
        "/unknown": {
          "change": "Unknown",
          "bytes": 1
        }
      },
      "registry": {}
    }
  }
}
            "#
        .trim(),
        reporter,
    );
}
