//! The structured report: its parts, and what each part says of the
//! entries that it reports.

use vstd::prelude::*;

use crate::change::ScanChange;
use crate::cloud::CloudChange;
use crate::duplicate::{
    claimants_of, contested, lists_claimants, others_claiming, ClaimIndex, Claimants, DuplicateDetector,
    ResourceKeyModel,
};
use crate::layout::{Backup, BackupModel, Os, Timestamp};
use crate::lines::{file_paths, paths_of_files, paths_of_registry, registry_paths};
use crate::listing::{distinct, has_name, place_of, put};
use crate::report::OperationStepDecision;
use crate::scan::{text_of, BackupError, BackupInfo, ScanInfo, ScannedFile, ScannedRegistry};
use crate::text::{rank_by_text, ranks, same_text, texts_of};

verus! {

/// Why an entry failed.
#[derive(Debug)]
pub struct SaveError {
    /// The cause.
    pub message: String,
}

/// A file in a structured report.
#[derive(Debug)]
pub struct ApiFile {
    /// Whether the file failed to process.
    pub failed: bool,
    /// The cause, where it failed.
    pub error: Option<SaveError>,
    /// Whether the file was ignored.
    pub ignored: bool,
    /// How the file compares to its baseline.
    pub change: ScanChange,
    /// Size of the file.
    pub bytes: u64,
    /// Where the file came from, if it was restored to a redirected place.
    pub original_path: Option<String>,
    /// Where the file lies in the backup, if it was backed up through a redirect.
    pub redirected_path: Option<String>,
    /// The other applications that have the same file.
    pub duplicated_by: Vec<String>,
}

/// A value under a registry key in a structured report.
#[derive(Debug)]
pub struct ApiRegistryValue {
    /// Whether the value was ignored.
    pub ignored: bool,
    /// How the value compares to its baseline.
    pub change: ScanChange,
    /// The other applications that have the same value.
    pub duplicated_by: Vec<String>,
}

/// A registry key in a structured report.
#[derive(Debug)]
pub struct ApiRegistry {
    /// Whether the key failed to process.
    pub failed: bool,
    /// The cause, where it failed.
    pub error: Option<SaveError>,
    /// Whether the key was ignored.
    pub ignored: bool,
    /// How the key compares to its baseline.
    pub change: ScanChange,
    /// The other applications that have the same key.
    pub duplicated_by: Vec<String>,
    /// The values under the key, by name.
    pub values: Vec<(String, ApiRegistryValue)>,
}

/// A snapshot in a structured report.
#[derive(Debug)]
pub struct ApiBackup {
    pub name: String,
    pub when: Timestamp,
    pub os: Option<Os>,
    pub comment: Option<String>,
    pub locked: bool,
}

/// An application in a structured report, in one of three forms.
#[derive(Debug)]
pub enum ApiGame {
    /// An application that was backed up or restored.
    Operative {
        /// How the application was handled.
        decision: OperationStepDecision,
        /// How the application as a whole compares to its baseline.
        change: ScanChange,
        /// The files, by the path shown for each.
        files: Vec<(String, ApiFile)>,
        /// The registry keys, by path.
        registry: Vec<(String, ApiRegistry)>,
    },
    /// An application whose snapshots are listed.
    Stored {
        /// The directory that holds the snapshots.
        backup_dir: String,
        /// The snapshots.
        backups: Vec<ApiBackup>,
    },
    /// An application that a search found.
    Found {},
}

/// A path of the remote store in a structured report.
#[derive(Debug)]
pub struct CloudEntry {
    /// How the sending side's file compares to the receiving side's.
    pub change: ScanChange,
}

/// Whether `listed` names the applications that share a resource with
/// `game`: where the resource is contested, every claimant but `game`,
/// each once; where it is not, nobody.
pub open spec fn others_listed(listed: Seq<String>, claimants: Claimants, game: Seq<char>) -> bool {
    if contested(claimants) {
        &&& texts_of(listed).to_set() == others_claiming(claimants, game)
        &&& texts_of(listed).no_duplicates()
    } else {
        listed.len() == 0
    }
}

/// Whether `error` carries the cause that `failures` holds first for `path`.
pub open spec fn error_reported(error: Option<SaveError>, failures: Seq<(String, BackupError)>, path: Seq<char>) -> bool {
    if has_name(failures, path) {
        error matches Some(cause) && cause.message@ == failures[place_of(failures, path)].1.spec_message()
    } else {
        error is None
    }
}

/// Whether `api` reports `file` as the application `game` sees it.
pub open spec fn reports_file(
    api: ApiFile,
    file: ScannedFile,
    info: BackupInfo,
    index: ClaimIndex,
    game: Seq<char>,
    restoring: bool,
) -> bool {
    &&& api.bytes == file.size
    &&& api.failed == info.file_failed(file.path@)
    &&& error_reported(api.error, info.failed_files@, file.path@)
    &&& api.ignored == file.ignored
    &&& api.change == file.change
    &&& text_of(api.original_path) == (if restoring {
        file@.alt_readable(restoring)
    } else {
        None
    })
    &&& text_of(api.redirected_path) == (if restoring {
        None
    } else {
        file@.alt_readable(restoring)
    })
    &&& others_listed(api.duplicated_by@, claimants_of(index, ResourceKeyModel::File(file.path@)), game)
}

/// Whether `api` reports the value at place `v` under `key`.
pub open spec fn reports_value(api: ApiRegistryValue, key: ScannedRegistry, v: int, index: ClaimIndex, game: Seq<char>) -> bool {
    &&& api.ignored == key.values@[v].1.ignored
    &&& api.change == key.values@[v].1.change
    &&& others_listed(
        api.duplicated_by@,
        claimants_of(index, ResourceKeyModel::RegistryValue(key.path@, key.values@[v].0@)),
        game,
    )
}

/// Whether `entry` reports, under its name, a value of that name under `key`.
pub open spec fn value_entry(entry: (String, ApiRegistryValue), key: ScannedRegistry, index: ClaimIndex, game: Seq<char>) -> bool {
    exists|v: int|
        0 <= v < key.values@.len() && entry.0@ == key.values@[v].0@ && #[trigger] reports_value(
            entry.1,
            key,
            v,
            index,
            game,
        )
}

/// Whether `entry` reports, under the path shown for it, a file of `scan_info`.
pub open spec fn file_entry(entry: (String, ApiFile), scan_info: ScanInfo, info: BackupInfo, index: ClaimIndex) -> bool {
    exists|i: int|
        0 <= i < scan_info.found_files@.len() && entry.0@ == (#[trigger] scan_info.found_files@[i])@.readable(
            scan_info.spec_restoring(),
        ) && reports_file(
            entry.1,
            scan_info.found_files@[i],
            info,
            index,
            scan_info.game_name@,
            scan_info.spec_restoring(),
        )
}

/// Whether `entry` reports, under its path, a registry key of `scan_info`.
pub open spec fn registry_entry(
    entry: (String, ApiRegistry),
    scan_info: ScanInfo,
    info: BackupInfo,
    index: ClaimIndex,
) -> bool {
    exists|k: int|
        0 <= k < scan_info.found_registry_keys@.len() && entry.0@ == (
        #[trigger] scan_info.found_registry_keys@[k]).path@ && reports_registry(
            entry.1,
            scan_info.found_registry_keys@[k],
            info,
            index,
            scan_info.game_name@,
        )
}

/// Whether `values` reports the values under `key`: every value is there
/// under its name, every entry reports a value of its name, and no name
/// is there twice.
pub open spec fn reports_values(
    values: Seq<(String, ApiRegistryValue)>,
    key: ScannedRegistry,
    index: ClaimIndex,
    game: Seq<char>,
) -> bool {
    &&& distinct(values)
    &&& forall|v: int| 0 <= v < key.values@.len() ==> has_name(values, (#[trigger] key.values@[v]).0@)
    &&& forall|e: int| 0 <= e < values.len() ==> value_entry(#[trigger] values[e], key, index, game)
}

/// Whether `api` reports the registry key `key` as the application `game`
/// sees it.
pub open spec fn reports_registry(
    api: ApiRegistry,
    key: ScannedRegistry,
    info: BackupInfo,
    index: ClaimIndex,
    game: Seq<char>,
) -> bool {
    &&& api.failed == info.registry_failed(key.path@)
    &&& error_reported(api.error, info.failed_registry@, key.path@)
    &&& api.ignored == key.ignored
    &&& api.change == key.change
    &&& others_listed(api.duplicated_by@, claimants_of(index, ResourceKeyModel::Registry(key.path@)), game)
    &&& reports_values(api.values@, key, index, game)
}

/// Whether `files` reports the files of `scan_info`: every file is there
/// under the path shown for it, every entry reports a file shown under
/// that path, and no path is there twice.
pub open spec fn reports_files(
    files: Seq<(String, ApiFile)>,
    scan_info: ScanInfo,
    info: BackupInfo,
    index: ClaimIndex,
) -> bool {
    &&& distinct(files)
    &&& forall|i: int|
        0 <= i < scan_info.found_files@.len() ==> has_name(
            files,
            (#[trigger] scan_info.found_files@[i])@.readable(scan_info.spec_restoring()),
        )
    &&& forall|e: int| 0 <= e < files.len() ==> file_entry(#[trigger] files[e], scan_info, info, index)
}

/// Whether `registry` reports the registry keys of `scan_info`: every key
/// is there under its path, every entry reports a key of that path, and
/// no path is there twice.
pub open spec fn reports_keys(
    registry: Seq<(String, ApiRegistry)>,
    scan_info: ScanInfo,
    info: BackupInfo,
    index: ClaimIndex,
) -> bool {
    &&& distinct(registry)
    &&& forall|k: int|
        0 <= k < scan_info.found_registry_keys@.len() ==> has_name(
            registry,
            (#[trigger] scan_info.found_registry_keys@[k]).path@,
        )
    &&& forall|e: int| 0 <= e < registry.len() ==> registry_entry(#[trigger] registry[e], scan_info, info, index)
}

/// Whether `game` is the report of the application that `scan_info` describes.
pub open spec fn reports_game(
    game: ApiGame,
    scan_info: ScanInfo,
    info: BackupInfo,
    decision: OperationStepDecision,
    index: ClaimIndex,
) -> bool {
    &&& game matches ApiGame::Operative { decision: handled, change, files, registry }
    &&& handled == decision
    &&& change == scan_info.spec_overall_change()
    &&& reports_files(files@, scan_info, info, index)
    &&& reports_keys(registry@, scan_info, info, index)
}

/// The applications other than `game` among `claimants`, where two or
/// more enabled applications are among them; else nobody.
pub fn duplicated_by(claimants: Vec<(String, bool)>, contested_now: bool, game: &str) -> (listed: Vec<String>)
    ensures
        contested_now ==> forall|held: Claimants| #[trigger]
            lists_claimants(claimants@, held) ==> texts_of(listed@).to_set() == others_claiming(held, game@)
                && texts_of(listed@).no_duplicates(),
        !contested_now ==> listed@.len() == 0,
{
    let mut listed: Vec<String> = Vec::new();
    if !contested_now {
        return listed;
    }
    let ghost mut origin: Seq<int> = Seq::empty();
    let mut i: usize = 0;
    while i < claimants.len()
        invariant
            i <= claimants@.len(),
            origin.len() == listed@.len(),
            forall|e: int|
                0 <= e < listed@.len() ==> 0 <= (#[trigger] origin[e]) < i && listed@[e]@
                    == claimants@[origin[e]].0@ && listed@[e]@ != game@,
            forall|e: int, f: int| 0 <= e < f < listed@.len() ==> (#[trigger] origin[e]) < (#[trigger] origin[f]),
            forall|j: int|
                0 <= j < i && (#[trigger] claimants@[j]).0@ != game@ ==> exists|e: int|
                    0 <= e < listed@.len() && (#[trigger] listed@[e])@ == claimants@[j].0@,
        decreases claimants@.len() - i,
    {
        if !same_text(claimants[i].0.as_str(), game) {
            let ghost earlier = listed@;
            listed.push(claimants[i].0.clone());
            proof {
                origin = origin.push(i as int);
                let last = earlier.len() as int;
                assert forall|j: int|
                    0 <= j < i + 1 && (#[trigger] claimants@[j]).0@ != game@ implies exists|e: int|
                    0 <= e < listed@.len() && (#[trigger] listed@[e])@ == claimants@[j].0@ by {
                    if j < i {
                        let e = choose|e: int| 0 <= e < earlier.len() && (#[trigger] earlier[e])@ == claimants@[j].0@;
                        assert(listed@[e]@ == claimants@[j].0@);
                    } else {
                        assert(listed@[last]@ == claimants@[j].0@);
                    }
                }
            }
        }
        i += 1;
    }
    proof {
        let texts = texts_of(listed@);
        assert forall|held: Claimants| #[trigger] lists_claimants(claimants@, held) implies texts.to_set()
            == others_claiming(held, game@) && texts.no_duplicates() by {
            assert forall|e: int, f: int| 0 <= e < texts.len() && 0 <= f < texts.len() && e != f implies texts[e]
                != texts[f] by {
                if e < f {
                    assert(origin[e] < origin[f]);
                    assert(claimants@[origin[e]].0@ != claimants@[origin[f]].0@);
                } else {
                    assert(origin[f] < origin[e]);
                    assert(claimants@[origin[f]].0@ != claimants@[origin[e]].0@);
                }
            }
            assert forall|name: Seq<char>| texts.to_set().contains(name) == others_claiming(held, game@).contains(
                name,
            ) by {
                if texts.contains(name) {
                    let e = choose|e: int| 0 <= e < texts.len() && texts[e] == name;
                    assert(listed@[e]@ == claimants@[origin[e]].0@);
                    assert(held.contains_key(claimants@[origin[e]].0@));
                }
                if others_claiming(held, game@).contains(name) {
                    assert(held.contains_key(name));
                    let j = choose|j: int| 0 <= j < claimants@.len() && (#[trigger] claimants@[j]).0@ == name;
                    let e = choose|e: int| 0 <= e < listed@.len() && (#[trigger] listed@[e])@ == claimants@[j].0@;
                    assert(texts[e] == name);
                }
            }
            assert(texts.to_set() =~= others_claiming(held, game@));
        }
    }
    listed
}

fn save_error(cause: Option<&BackupError>) -> (error: Option<SaveError>)
    ensures
        error is Some == cause is Some,
        error is Some ==> error->0.message@ == cause->0.spec_message(),
{
    match cause {
        Some(given) => Some(SaveError { message: given.message() }),
        None => None,
    }
}

/// The report of `file` as the application `game` sees it.
pub fn api_file(
    file: &ScannedFile,
    info: &BackupInfo,
    detector: &DuplicateDetector,
    game: &str,
    restoring: bool,
) -> (api: ApiFile)
    ensures
        reports_file(api, *file, *info, detector@, game@, restoring),
{
    let cause = info.file_error(file.path.as_str());
    let contested_now = !detector.is_file_duplicated(file).resolved();
    let other = file.alt_readable(restoring);
    let (original_path, redirected_path) = if restoring {
        (other, None)
    } else {
        (None, other)
    };
    ApiFile {
        failed: cause.is_some(),
        error: save_error(cause),
        ignored: file.ignored,
        change: file.change,
        bytes: file.size,
        original_path,
        redirected_path,
        duplicated_by: duplicated_by(detector.file(file), contested_now, game),
    }
}

/// The report of `key` as the application `game` sees it.
pub fn api_registry(key: &ScannedRegistry, info: &BackupInfo, detector: &DuplicateDetector, game: &str) -> (api:
    ApiRegistry)
    ensures
        reports_registry(api, *key, *info, detector@, game@),
{
    let mut values: Vec<(String, ApiRegistryValue)> = Vec::new();
    let mut v: usize = 0;
    while v < key.values.len()
        invariant
            v <= key.values@.len(),
            distinct(values@),
            forall|j: int| 0 <= j < v ==> has_name(values@, (#[trigger] key.values@[j]).0@),
            forall|e: int| 0 <= e < values@.len() ==> value_entry(#[trigger] values@[e], *key, detector@, game@),
        decreases key.values@.len() - v,
    {
        let name = &key.values[v].0;
        let contested_now = !detector.is_registry_value_duplicated(key.path.as_str(), name.as_str()).resolved();
        let api = ApiRegistryValue {
            ignored: key.values[v].1.ignored,
            change: key.values[v].1.change,
            duplicated_by: duplicated_by(
                detector.registry_value(key.path.as_str(), name.as_str()),
                contested_now,
                game,
            ),
        };
        assert(reports_value(api, *key, v as int, detector@, game@));
        let ghost before = values@;
        put(&mut values, name.clone(), api);
        proof {
            assert forall|e: int| 0 <= e < values@.len() implies value_entry(
                #[trigger] values@[e],
                *key,
                detector@,
                game@,
            ) by {
                if e == place_of(values@, name@) {
                    assert(values@[e].1 == api);
                    assert(reports_value(values@[e].1, *key, v as int, detector@, game@));
                } else {
                    assert(values@[e] == before[e]);
                    assert(value_entry(before[e], *key, detector@, game@));
                }
            }
        }
        v += 1;
    }
    let cause = info.registry_error(key.path.as_str());
    let contested_now = !detector.is_registry_duplicated(key.path.as_str()).resolved();
    ApiRegistry {
        failed: cause.is_some(),
        error: save_error(cause),
        ignored: key.ignored,
        change: key.change,
        duplicated_by: duplicated_by(detector.registry(key.path.as_str()), contested_now, game),
        values,
    }
}

/// The report of the application that `scan_info` describes.
pub fn api_game(
    scan_info: &ScanInfo,
    info: &BackupInfo,
    decision: OperationStepDecision,
    detector: &DuplicateDetector,
) -> (game: ApiGame)
    ensures
        reports_game(game, *scan_info, *info, decision, detector@),
{
    let restoring = scan_info.restoring();
    let name = scan_info.game_name.as_str();
    let mut files: Vec<(String, ApiFile)> = Vec::new();
    let file_order = rank_by_text(&paths_of_files(scan_info));
    let mut c: usize = 0;
    while c < file_order.len()
        invariant
            c <= file_order@.len(),
            restoring == scan_info.spec_restoring(),
            name@ == scan_info.game_name@,
            ranks(file_order@, file_paths(*scan_info)),
            distinct(files@),
            forall|j: int|
                0 <= j < c ==> has_name(
                    files@,
                    scan_info.found_files@[(#[trigger] file_order@[j]) as int]@.readable(restoring),
                ),
            forall|e: int| 0 <= e < files@.len() ==> file_entry(#[trigger] files@[e], *scan_info, *info, detector@),
        decreases file_order@.len() - c,
    {
        let file = &scan_info.found_files[file_order[c]];
        let api = api_file(file, info, detector, name, restoring);
        let shown = file.readable(restoring);
        let ghost before = files@;
        let ghost text = shown@;
        put(&mut files, shown, api);
        proof {
            assert forall|e: int| 0 <= e < files@.len() implies file_entry(
                #[trigger] files@[e],
                *scan_info,
                *info,
                detector@,
            ) by {
                if e == place_of(files@, text) {
                    assert(files@[e].1 == api);
                    assert(files@[e].0@ == scan_info.found_files@[file_order@[c as int] as int]@.readable(
                        restoring,
                    ));
                } else {
                    assert(files@[e] == before[e]);
                    assert(file_entry(before[e], *scan_info, *info, detector@));
                }
            }
        }
        c += 1;
    }
    proof {
        assert forall|i: int| 0 <= i < scan_info.found_files@.len() implies has_name(
            files@,
            (#[trigger] scan_info.found_files@[i])@.readable(restoring),
        ) by {
            assert(file_order@.contains(i as usize));
            let j = choose|j: int| 0 <= j < file_order@.len() && file_order@[j] == i as usize;
            assert(has_name(files@, scan_info.found_files@[file_order@[j] as int]@.readable(restoring)));
        }
    }
    let mut registry: Vec<(String, ApiRegistry)> = Vec::new();
    let key_order = rank_by_text(&paths_of_registry(scan_info));
    let mut k: usize = 0;
    while k < key_order.len()
        invariant
            k <= key_order@.len(),
            name@ == scan_info.game_name@,
            ranks(key_order@, registry_paths(*scan_info)),
            distinct(registry@),
            forall|j: int|
                0 <= j < k ==> has_name(
                    registry@,
                    scan_info.found_registry_keys@[(#[trigger] key_order@[j]) as int].path@,
                ),
            forall|e: int|
                0 <= e < registry@.len() ==> registry_entry(#[trigger] registry@[e], *scan_info, *info, detector@),
        decreases key_order@.len() - k,
    {
        let key = &scan_info.found_registry_keys[key_order[k]];
        let api = api_registry(key, info, detector, name);
        let ghost before = registry@;
        put(&mut registry, key.path.clone(), api);
        proof {
            assert forall|e: int| 0 <= e < registry@.len() implies registry_entry(
                #[trigger] registry@[e],
                *scan_info,
                *info,
                detector@,
            ) by {
                if e == place_of(registry@, key.path@) {
                    assert(registry@[e].1 == api);
                    assert(registry@[e].0@ == scan_info.found_registry_keys@[key_order@[k as int] as int].path@);
                } else {
                    assert(registry@[e] == before[e]);
                    assert(registry_entry(before[e], *scan_info, *info, detector@));
                }
            }
        }
        k += 1;
    }
    proof {
        assert forall|i: int| 0 <= i < scan_info.found_registry_keys@.len() implies has_name(
            registry@,
            (#[trigger] scan_info.found_registry_keys@[i]).path@,
        ) by {
            assert(key_order@.contains(i as usize));
            let j = choose|j: int| 0 <= j < key_order@.len() && key_order@[j] == i as usize;
            assert(has_name(registry@, scan_info.found_registry_keys@[key_order@[j] as int].path@));
        }
    }
    ApiGame::Operative { decision, change: scan_info.overall_change(), files, registry }
}

/// Whether `api` reports the snapshot `backup`.
pub open spec fn reports_backup(api: ApiBackup, backup: BackupModel) -> bool {
    &&& api.name@ == backup.name
    &&& api.when == backup.when
    &&& api.os == backup.os
    &&& text_of(api.comment) == backup.comment
    &&& api.locked == backup.locked
}

/// Whether `game` lists the snapshots `backups` in the directory `backup_dir`.
pub open spec fn reports_stored(game: ApiGame, backup_dir: Seq<char>, backups: Seq<BackupModel>) -> bool {
    &&& game matches ApiGame::Stored { backup_dir: dir, backups: listed }
    &&& dir@ == backup_dir
    &&& listed@.len() == backups.len()
    &&& forall|i: int| 0 <= i < backups.len() ==> reports_backup(#[trigger] listed@[i], backups[i])
}

/// The snapshots as mathematical values.
pub open spec fn models_of(backups: Seq<&Backup>) -> Seq<BackupModel> {
    Seq::new(backups.len(), |i: int| backups[i]@)
}

/// Whether `entry` reports, under its path, one of `changes` for that path.
pub open spec fn cloud_entry(entry: (String, CloudEntry), changes: Seq<CloudChange>) -> bool {
    exists|i: int|
        0 <= i < changes.len() && entry.0@ == (#[trigger] changes[i]).path@ && entry.1.change
            == changes[i].change
}

/// Whether `cloud` reports `changes`: every path is there, every entry
/// reports a change of its path, and no path is there twice.
pub open spec fn reports_cloud(cloud: Seq<(String, CloudEntry)>, changes: Seq<CloudChange>) -> bool {
    &&& distinct(cloud)
    &&& forall|i: int| 0 <= i < changes.len() ==> has_name(cloud, (#[trigger] changes[i]).path@)
    &&& forall|e: int| 0 <= e < cloud.len() ==> cloud_entry(#[trigger] cloud[e], changes)
}

} // verus!
