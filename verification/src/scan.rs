//! What one scan of one application found, and what failed when it was
//! backed up or restored.

use vstd::prelude::*;

use crate::change::ScanChange;
use crate::text::same_text;
use crate::listing::{distinct, entered, find_named, has_name, place_of, put};

verus! {

/// A file found by a scan. Its identity is `path`.
#[derive(Debug)]
pub struct ScannedFile {
    /// Where the file lies: on the system when backing up, inside the
    /// snapshot when restoring.
    pub path: String,
    /// Size in bytes.
    pub size: u64,
    /// Content hash, computed once per scan.
    pub hash: String,
    /// When restoring, the place on the system that the file was taken from.
    pub original_path: Option<String>,
    /// Excluded by the user's filter, but still recorded.
    pub ignored: bool,
    /// How the file compares to its baseline.
    pub change: ScanChange,
    /// An archive that holds the file, if it is not stored loose.
    pub container: Option<String>,
    /// Where a redirect sends the file, if one applies.
    pub redirected: Option<String>,
}

/// Mathematical value of a [`ScannedFile`].
pub struct ScannedFileModel {
    pub path: Seq<char>,
    pub size: nat,
    pub hash: Seq<char>,
    pub original_path: Option<Seq<char>>,
    pub ignored: bool,
    pub change: ScanChange,
    pub container: Option<Seq<char>>,
    pub redirected: Option<Seq<char>>,
}

/// The text of an optional string.
pub open spec fn text_of(value: Option<String>) -> Option<Seq<char>> {
    match value {
        Some(text) => Some(text@),
        None => None,
    }
}

/// A copy of an optional string.
pub fn copy_text(value: &Option<String>) -> (copy: Option<String>)
    ensures
        copy == *value,
{
    match value {
        Some(text) => Some(text.clone()),
        None => None,
    }
}

impl View for ScannedFile {
    type V = ScannedFileModel;

    open spec fn view(&self) -> ScannedFileModel {
        ScannedFileModel {
            path: self.path@,
            size: self.size as nat,
            hash: self.hash@,
            original_path: text_of(self.original_path),
            ignored: self.ignored,
            change: self.change,
            container: text_of(self.container),
            redirected: text_of(self.redirected),
        }
    }
}

impl ScannedFileModel {
    /// The path shown to the user: when restoring, the redirect target if
    /// there is one, else the original place; when backing up, `path`.
    pub open spec fn readable(self, restoring: bool) -> Seq<char> {
        if restoring {
            match self.redirected {
                Some(target) => target,
                None => match self.original_path {
                    Some(original) => original,
                    None => self.path,
                },
            }
        } else {
            self.path
        }
    }

    /// The second path shown beside `readable`, when a redirect applies:
    /// when restoring, the original place; when backing up, the redirect target.
    pub open spec fn alt_readable(self, restoring: bool) -> Option<Seq<char>> {
        if restoring {
            if self.redirected is Some {
                self.original_path
            } else {
                None
            }
        } else {
            self.redirected
        }
    }
}

impl Clone for ScannedFile {
    fn clone(&self) -> (copy: Self)
        ensures
            copy == *self,
    {
        ScannedFile {
            path: self.path.clone(),
            size: self.size,
            hash: self.hash.clone(),
            original_path: copy_text(&self.original_path),
            ignored: self.ignored,
            change: self.change,
            container: copy_text(&self.container),
            redirected: copy_text(&self.redirected),
        }
    }
}

impl ScannedFile {
    /// A file at `path` with the given size and hash, not ignored, not
    /// redirected, and not yet classified.
    pub fn new(path: &str, size: u64, hash: &str) -> (file: Self)
        ensures
            file@ == (ScannedFileModel {
                path: path@,
                size: size as nat,
                hash: hash@,
                original_path: None,
                ignored: false,
                change: ScanChange::Unknown,
                container: None,
                redirected: None,
            }),
    {
        ScannedFile {
            path: path.to_owned(),
            size,
            hash: hash.to_owned(),
            original_path: None,
            ignored: false,
            change: ScanChange::Unknown,
            container: None,
            redirected: None,
        }
    }

    /// The same file with its classification replaced.
    pub fn change_as(self, change: ScanChange) -> (file: Self)
        ensures
            file == (ScannedFile { change, ..self }),
    {
        let mut file = self;
        file.change = change;
        file
    }

    /// The same file, marked as ignored.
    pub fn ignored(self) -> (file: Self)
        ensures
            file == (ScannedFile { ignored: true, ..self }),
    {
        let mut file = self;
        file.ignored = true;
        file
    }

    /// The file's classification.
    pub fn change(&self) -> (change: ScanChange)
        ensures
            change == self.change,
    {
        self.change
    }

    /// Whether the file comes out of a snapshot: its original place is known.
    pub fn restoring(&self) -> (restoring: bool)
        ensures
            restoring == (self@.original_path is Some),
    {
        self.original_path.is_some()
    }

    /// The path shown to the user.
    pub fn readable(&self, restoring: bool) -> (shown: String)
        ensures
            shown@ == self@.readable(restoring),
    {
        if restoring {
            match &self.redirected {
                Some(target) => target.clone(),
                None => match &self.original_path {
                    Some(original) => original.clone(),
                    None => self.path.clone(),
                },
            }
        } else {
            self.path.clone()
        }
    }

    /// The second path shown beside `readable`, when a redirect applies.
    pub fn alt_readable(&self, restoring: bool) -> (shown: Option<String>)
        ensures
            text_of(shown) == self@.alt_readable(restoring),
    {
        if restoring {
            if self.redirected.is_some() {
                copy_text(&self.original_path)
            } else {
                None
            }
        } else {
            copy_text(&self.redirected)
        }
    }
}

/// A value under a registry key, as a scan found it.
#[derive(Clone, Copy, Debug, PartialEq, Eq, Structural)]
pub struct ScannedRegistryValue {
    /// Excluded by the user's filter, but still recorded.
    pub ignored: bool,
    /// How the value compares to its baseline.
    pub change: ScanChange,
}

/// A registry key found by a scan. Its identity is `path`.
///
/// The key's own classification says nothing of its values: a key may be
/// `Same` while a value under it is `New`.
#[derive(Debug)]
pub struct ScannedRegistry {
    /// The key's path, in its normalized rendering.
    pub path: String,
    /// Excluded by the user's filter, but still recorded.
    pub ignored: bool,
    /// How the key compares to its baseline.
    pub change: ScanChange,
    /// The values under the key, by name.
    pub values: Vec<(String, ScannedRegistryValue)>,
}

impl ScannedRegistry {
    /// Whether the key holds a value called `name`.
    pub open spec fn has_value(&self, name: Seq<char>) -> bool {
        exists|v: int| 0 <= v < self.values@.len() && (#[trigger] self.values@[v]).0@ == name
    }

    /// Whether the key itself or one of its values is classified as `change`.
    pub open spec fn holds_change(&self, change: ScanChange) -> bool {
        self.change == change || values_hold_change(self.values@, change)
    }

    /// A key at `path` without values, not ignored and not yet classified.
    pub fn new(path: &str) -> (key: Self)
        ensures
            key.path@ == path@,
            !key.ignored,
            key.change == ScanChange::Unknown,
            key.values@.len() == 0,
    {
        ScannedRegistry {
            path: path.to_owned(),
            ignored: false,
            change: ScanChange::Unknown,
            values: Vec::new(),
        }
    }

    /// The same key with its classification replaced.
    pub fn change_as(self, change: ScanChange) -> (key: Self)
        ensures
            key == (ScannedRegistry { change, ..self }),
    {
        let mut key = self;
        key.change = change;
        key
    }

    /// The same key, marked as ignored.
    pub fn ignored(self) -> (key: Self)
        ensures
            key == (ScannedRegistry { ignored: true, ..self }),
    {
        let mut key = self;
        key.ignored = true;
        key
    }

    /// The same key with the value called `name` set: in the place of a
    /// value of that name, where the key has one, and else as one more value.
    pub fn with_value(self, name: &str, change: ScanChange, ignored: bool) -> (key: Self)
        ensures
            key.path == self.path,
            key.ignored == self.ignored,
            key.change == self.change,
            entered(self.values@, key.values@, name@, ScannedRegistryValue { ignored, change }),
            distinct(self.values@) ==> distinct(key.values@),
    {
        let mut key = self;
        put(&mut key.values, name.to_owned(), ScannedRegistryValue { ignored, change });
        key
    }

    /// The same key with the value called `name` set and classified as `Same`.
    pub fn with_value_same(self, name: &str) -> (key: Self)
        ensures
            key.path == self.path,
            key.ignored == self.ignored,
            key.change == self.change,
            entered(
                self.values@,
                key.values@,
                name@,
                ScannedRegistryValue { ignored: false, change: ScanChange::Same },
            ),
            distinct(self.values@) ==> distinct(key.values@),
    {
        self.with_value(name, ScanChange::Same, false)
    }

    /// The key's classification.
    pub fn change(&self) -> (change: ScanChange)
        ensures
            change == self.change,
    {
        self.change
    }
}

/// Why an entry could not be backed up or restored.
#[derive(Debug)]
pub enum BackupError {
    /// The cause as the copying layer reported it.
    Raw(String),
    /// The application's snapshot directory could not be written.
    DirectoryUnwritable,
    /// A snapshot of the same name, or one that is not older, exists already.
    SnapshotClash,
}

impl BackupError {
    /// The text of the cause.
    pub open spec fn spec_message(&self) -> Seq<char> {
        match self {
            BackupError::Raw(text) => text@,
            BackupError::DirectoryUnwritable => "unable to prepare the backup directory"@,
            BackupError::SnapshotClash => "a snapshot of this time exists already"@,
        }
    }

    /// The text of the cause.
    pub fn message(&self) -> (text: String)
        ensures
            text@ == self.spec_message(),
    {
        match self {
            BackupError::Raw(text) => text.clone(),
            BackupError::DirectoryUnwritable => "unable to prepare the backup directory".to_owned(),
            BackupError::SnapshotClash => "a snapshot of this time exists already".to_owned(),
        }
    }
}

impl Clone for BackupError {
    fn clone(&self) -> (copy: Self)
        ensures
            copy == *self,
    {
        match self {
            BackupError::Raw(text) => BackupError::Raw(text.clone()),
            BackupError::DirectoryUnwritable => BackupError::DirectoryUnwritable,
            BackupError::SnapshotClash => BackupError::SnapshotClash,
        }
    }
}

/// What failed when a scan's entries were copied. An entry that is in
/// neither list succeeded.
#[derive(Debug)]
pub struct BackupInfo {
    /// Paths of the files that failed, each with its cause.
    pub failed_files: Vec<(String, BackupError)>,
    /// Paths of the registry keys that failed, each with its cause.
    pub failed_registry: Vec<(String, BackupError)>,
}

impl Default for BackupInfo {
    fn default() -> (info: Self)
        ensures
            info.failed_files@.len() == 0,
            info.failed_registry@.len() == 0,
    {
        BackupInfo { failed_files: Vec::new(), failed_registry: Vec::new() }
    }
}

impl BackupInfo {
    /// Whether the file at `path` failed.
    pub open spec fn file_failed(&self, path: Seq<char>) -> bool {
        has_name(self.failed_files@, path)
    }

    /// Whether the registry key at `path` failed.
    pub open spec fn registry_failed(&self, path: Seq<char>) -> bool {
        has_name(self.failed_registry@, path)
    }

    /// Whether this is the outcome in which every file and every registry
    /// key of `scan_info` failed, in the scan's order, each for `error`.
    pub open spec fn fails_everything(&self, scan_info: ScanInfo, error: BackupError) -> bool {
        &&& self.failed_files@.len() == scan_info.found_files@.len()
        &&& forall|i: int|
            0 <= i < scan_info.found_files@.len() ==> (#[trigger] self.failed_files@[i]).0
                == scan_info.found_files@[i].path && self.failed_files@[i].1 == error
        &&& self.failed_registry@.len() == scan_info.found_registry_keys@.len()
        &&& forall|k: int|
            0 <= k < scan_info.found_registry_keys@.len() ==> (#[trigger] self.failed_registry@[k]).0
                == scan_info.found_registry_keys@[k].path && self.failed_registry@[k].1 == error
    }

    /// The outcome in which every file and every registry key of
    /// `scan_info` failed for the same cause.
    pub fn total_failure(scan_info: &ScanInfo, error: &BackupError) -> (info: Self)
        ensures
            info.fails_everything(*scan_info, *error),
    {
        let mut failed_files: Vec<(String, BackupError)> = Vec::new();
        let mut i: usize = 0;
        while i < scan_info.found_files.len()
            invariant
                i <= scan_info.found_files@.len(),
                failed_files@.len() == i,
                forall|j: int|
                    0 <= j < i ==> (#[trigger] failed_files@[j]).0 == scan_info.found_files@[j].path
                        && failed_files@[j].1 == *error,
            decreases scan_info.found_files@.len() - i,
        {
            failed_files.push((scan_info.found_files[i].path.clone(), error.clone()));
            i += 1;
        }
        let mut failed_registry: Vec<(String, BackupError)> = Vec::new();
        let mut k: usize = 0;
        while k < scan_info.found_registry_keys.len()
            invariant
                k <= scan_info.found_registry_keys@.len(),
                failed_registry@.len() == k,
                forall|j: int|
                    0 <= j < k ==> (#[trigger] failed_registry@[j]).0 == scan_info.found_registry_keys@[j].path
                        && failed_registry@[j].1 == *error,
            decreases scan_info.found_registry_keys@.len() - k,
        {
            failed_registry.push((scan_info.found_registry_keys[k].path.clone(), error.clone()));
            k += 1;
        }
        BackupInfo { failed_files, failed_registry }
    }

    /// The cause recorded for the file at `path`: the first one, if the path
    /// is named more than once.
    pub fn file_error(&self, path: &str) -> (cause: Option<&BackupError>)
        ensures
            cause is Some <==> self.file_failed(path@),
            cause matches Some(error) ==> *error == self.failed_files@[place_of(
                self.failed_files@,
                path@,
            )].1,
    {
        match find_named(&self.failed_files, path) {
            Some(index) => Some(&self.failed_files[index].1),
            None => None,
        }
    }

    /// The cause recorded for the registry key at `path`: the first one, if
    /// the path is named more than once.
    pub fn registry_error(&self, path: &str) -> (cause: Option<&BackupError>)
        ensures
            cause is Some <==> self.registry_failed(path@),
            cause matches Some(error) ==> *error == self.failed_registry@[place_of(
                self.failed_registry@,
                path@,
            )].1,
    {
        match find_named(&self.failed_registry, path) {
            Some(index) => Some(&self.failed_registry[index].1),
            None => None,
        }
    }
}

/// Everything one scan found for one application.
#[derive(Debug)]
pub struct ScanInfo {
    /// The application's name: its identity within one operation.
    pub game_name: String,
    /// The files found.
    pub found_files: Vec<ScannedFile>,
    /// The registry keys found.
    pub found_registry_keys: Vec<ScannedRegistry>,
}

/// Sum of the sizes of `files`.
pub open spec fn size_sum(files: Seq<ScannedFile>) -> nat
    decreases files.len(),
{
    if files.len() == 0 {
        0
    } else {
        size_sum(files.drop_last()) + files.last().size as nat
    }
}

/// Sum of the sizes of those of `files` that `info` does not name as failed.
pub open spec fn succeeded_size_sum(files: Seq<ScannedFile>, info: BackupInfo) -> nat
    decreases files.len(),
{
    if files.len() == 0 {
        0
    } else if info.file_failed(files.last().path@) {
        succeeded_size_sum(files.drop_last(), info)
    } else {
        succeeded_size_sum(files.drop_last(), info) + files.last().size as nat
    }
}

/// Sum of the sizes of those of `files` that `info` names as failed.
pub open spec fn failed_size_sum(files: Seq<ScannedFile>, info: BackupInfo) -> nat
    decreases files.len(),
{
    if files.len() == 0 {
        0
    } else if info.file_failed(files.last().path@) {
        failed_size_sum(files.drop_last(), info) + files.last().size as nat
    } else {
        failed_size_sum(files.drop_last(), info)
    }
}

/// The sizes of the files that succeeded and of those that failed add up to
/// the size of all: the successful part is the whole less the failures.
pub proof fn lemma_sizes_split(files: Seq<ScannedFile>, info: BackupInfo)
    ensures
        succeeded_size_sum(files, info) + failed_size_sum(files, info) == size_sum(files),
    decreases files.len(),
{
    if files.len() > 0 {
        lemma_sizes_split(files.drop_last(), info);
    }
}

/// A prefix of a list of files is no larger than the whole list.
pub proof fn lemma_size_sum_prefix(files: Seq<ScannedFile>, count: int)
    requires
        0 <= count <= files.len(),
    ensures
        size_sum(files.take(count)) <= size_sum(files),
    decreases files.len(),
{
    if count < files.len() {
        lemma_size_sum_prefix(files.drop_last(), count);
        assert(files.drop_last().take(count) == files.take(count));
    } else {
        assert(files.take(count) == files);
    }
}

/// The classification of highest precedence among those present.
pub open spec fn worst_present(new: bool, different: bool, same: bool) -> ScanChange {
    if new {
        ScanChange::New
    } else if different {
        ScanChange::Different
    } else if same {
        ScanChange::Same
    } else {
        ScanChange::Unknown
    }
}

/// Whether one of `files` is classified as `change`.
pub open spec fn files_hold_change(files: Seq<ScannedFile>, change: ScanChange) -> bool {
    exists|i: int| 0 <= i < files.len() && (#[trigger] files[i]).change == change
}

/// Whether one of `keys`, or a value under one of them, is classified as `change`.
pub open spec fn registry_holds_change(keys: Seq<ScannedRegistry>, change: ScanChange) -> bool {
    exists|k: int| 0 <= k < keys.len() && (#[trigger] keys[k]).holds_change(change)
}

impl Default for ScanInfo {
    fn default() -> (info: Self)
        ensures
            info.game_name@.len() == 0,
            info.found_files@.len() == 0,
            info.found_registry_keys@.len() == 0,
    {
        ScanInfo { game_name: String::new(), found_files: Vec::new(), found_registry_keys: Vec::new() }
    }
}

impl ScanInfo {
    /// Whether the scan has a file at `path`.
    pub open spec fn has_file(&self, path: Seq<char>) -> bool {
        exists|i: int| 0 <= i < self.found_files@.len() && (#[trigger] self.found_files@[i]).path@ == path
    }

    /// Whether the scan has a registry key at `path`.
    pub open spec fn has_registry(&self, path: Seq<char>) -> bool {
        exists|k: int|
            0 <= k < self.found_registry_keys@.len() && (#[trigger] self.found_registry_keys@[k]).path@
                == path
    }

    /// Whether the scan has a registry key at `path` with a value called `name`.
    pub open spec fn has_registry_value(&self, path: Seq<char>, name: Seq<char>) -> bool {
        exists|k: int|
            0 <= k < self.found_registry_keys@.len() && (#[trigger] self.found_registry_keys@[k]).path@
                == path && self.found_registry_keys@[k].has_value(name)
    }

    /// Whether the scan holds its entries as sets: no two files at one
    /// path, no two registry keys at one path, and under no key two
    /// values of one name.
    pub open spec fn unique(&self) -> bool {
        &&& forall|i: int, j: int|
            0 <= i < j < self.found_files@.len() ==> (#[trigger] self.found_files@[i]).path@ != (
            #[trigger] self.found_files@[j]).path@
        &&& forall|i: int, j: int|
            0 <= i < j < self.found_registry_keys@.len() ==> (#[trigger] self.found_registry_keys@[i]).path@
                != (#[trigger] self.found_registry_keys@[j]).path@
        &&& forall|k: int|
            0 <= k < self.found_registry_keys@.len() ==> distinct(
                (#[trigger] self.found_registry_keys@[k]).values@,
            )
    }

    /// A scan of the application `game_name` that has found nothing yet.
    pub fn new(game_name: &str) -> (info: Self)
        ensures
            info.game_name@ == game_name@,
            info.found_files@.len() == 0,
            info.found_registry_keys@.len() == 0,
            info.unique(),
    {
        ScanInfo { game_name: game_name.to_owned(), found_files: Vec::new(), found_registry_keys: Vec::new() }
    }

    /// Adds a file, unless the scan has a file at its path already. Says
    /// whether the file was added.
    pub fn insert_file(&mut self, file: ScannedFile) -> (inserted: bool)
        ensures
            inserted == !old(self).has_file(file.path@),
            inserted ==> final(self).found_files@ == old(self).found_files@.push(file),
            !inserted ==> final(self).found_files@ == old(self).found_files@,
            final(self).game_name == old(self).game_name,
            final(self).found_registry_keys == old(self).found_registry_keys,
            old(self).unique() ==> final(self).unique(),
    {
        let mut i: usize = 0;
        while i < self.found_files.len()
            invariant
                i <= self.found_files@.len(),
                *self == *old(self),
                forall|j: int| 0 <= j < i ==> (#[trigger] self.found_files@[j]).path@ != file.path@,
            decreases self.found_files@.len() - i,
        {
            if same_text(self.found_files[i].path.as_str(), file.path.as_str()) {
                return false;
            }
            i += 1;
        }
        self.found_files.push(file);
        true
    }

    /// Adds a registry key, unless the scan has a key at its path
    /// already. Says whether the key was added.
    pub fn insert_registry_key(&mut self, key: ScannedRegistry) -> (inserted: bool)
        ensures
            inserted == !old(self).has_registry(key.path@),
            inserted ==> final(self).found_registry_keys@ == old(self).found_registry_keys@.push(key),
            !inserted ==> final(self).found_registry_keys@ == old(self).found_registry_keys@,
            final(self).game_name == old(self).game_name,
            final(self).found_files == old(self).found_files,
            old(self).unique() && distinct(key.values@) ==> final(self).unique(),
    {
        let mut i: usize = 0;
        while i < self.found_registry_keys.len()
            invariant
                i <= self.found_registry_keys@.len(),
                *self == *old(self),
                forall|j: int| 0 <= j < i ==> (#[trigger] self.found_registry_keys@[j]).path@ != key.path@,
            decreases self.found_registry_keys@.len() - i,
        {
            if same_text(self.found_registry_keys[i].path.as_str(), key.path.as_str()) {
                return false;
            }
            i += 1;
        }
        self.found_registry_keys.push(key);
        true
    }

    /// Whether some entry of the scan is classified as `change`.
    pub open spec fn holds_change(&self, change: ScanChange) -> bool {
        files_hold_change(self.found_files@, change) || registry_holds_change(
            self.found_registry_keys@,
            change,
        )
    }

    /// The scan's classification as a whole: the one of highest precedence
    /// among its entries, `New` over `Different` over `Same`; `Unknown`
    /// where no entry has any of these.
    pub open spec fn spec_overall_change(&self) -> ScanChange {
        worst_present(
            self.holds_change(ScanChange::New),
            self.holds_change(ScanChange::Different),
            self.holds_change(ScanChange::Same),
        )
    }

    /// Size of everything found, in bytes.
    pub open spec fn total_size(&self) -> nat {
        size_sum(self.found_files@)
    }

    /// Size of what was found and did not fail, in bytes.
    pub open spec fn processed_size(&self, backup_info: Option<BackupInfo>) -> nat {
        match backup_info {
            Some(info) => succeeded_size_sum(self.found_files@, info),
            None => size_sum(self.found_files@),
        }
    }

    pub open spec fn spec_found_anything(&self) -> bool {
        self.found_files@.len() > 0 || self.found_registry_keys@.len() > 0
    }

    /// Whether the scan found any file or registry key.
    #[verifier::when_used_as_spec(spec_found_anything)]
    pub fn found_anything(&self) -> (found: bool)
        ensures
            found == self.spec_found_anything(),
    {
        self.found_files.len() > 0 || self.found_registry_keys.len() > 0
    }

    pub open spec fn spec_can_report_game(&self) -> bool {
        self.spec_found_anything()
    }

    /// Whether the application belongs in reports and tallies: it does
    /// exactly when the scan found something.
    #[verifier::when_used_as_spec(spec_can_report_game)]
    pub fn can_report_game(&self) -> (reportable: bool)
        ensures
            reportable == self.spec_can_report_game(),
            reportable == (self.found_files@.len() > 0 || self.found_registry_keys@.len() > 0),
    {
        self.found_anything()
    }

    pub open spec fn spec_restoring(&self) -> bool {
        exists|i: int|
            0 <= i < self.found_files@.len() && (#[trigger] self.found_files@[i]).original_path is Some
    }

    /// Whether the scan describes a restore: some file comes out of a snapshot.
    #[verifier::when_used_as_spec(spec_restoring)]
    pub fn restoring(&self) -> (restoring: bool)
        ensures
            restoring == self.spec_restoring(),
    {
        let mut i: usize = 0;
        while i < self.found_files.len()
            invariant
                i <= self.found_files@.len(),
                forall|j: int| 0 <= j < i ==> (#[trigger] self.found_files@[j]).original_path is None,
            decreases self.found_files@.len() - i,
        {
            if self.found_files[i].original_path.is_some() {
                return true;
            }
            i += 1;
        }
        false
    }

    /// Size of everything found, or nothing where it is more than a `u64` holds.
    pub fn checked_total_bytes(&self) -> (total: Option<u64>)
        ensures
            total is Some <==> self.total_size() <= u64::MAX,
            total matches Some(bytes) ==> bytes == self.total_size(),
    {
        let mut sum: u64 = 0;
        let mut i: usize = 0;
        while i < self.found_files.len()
            invariant
                i <= self.found_files@.len(),
                sum == size_sum(self.found_files@.take(i as int)),
            decreases self.found_files@.len() - i,
        {
            let size = self.found_files[i].size;
            proof {
                assert(self.found_files@.take(i + 1).drop_last() == self.found_files@.take(i as int));
                lemma_size_sum_prefix(self.found_files@, i + 1);
            }
            if size > u64::MAX - sum {
                return None;
            }
            sum = sum + size;
            i += 1;
        }
        proof {
            assert(self.found_files@.take(i as int) == self.found_files@);
        }
        Some(sum)
    }

    /// Size of everything found, in bytes.
    pub fn total_possible_bytes(&self) -> (total: u64)
        requires
            self.total_size() <= u64::MAX,
        ensures
            total == self.total_size(),
    {
        self.sum_bytes(None)
    }

    /// Size of what was found, in bytes; with a `backup_info`, less the
    /// files that it names as failed.
    pub fn sum_bytes(&self, backup_info: Option<&BackupInfo>) -> (total: u64)
        requires
            self.total_size() <= u64::MAX,
        ensures
            backup_info matches Some(info) ==> total == succeeded_size_sum(self.found_files@, *info),
            backup_info is None ==> total == self.total_size(),
            total <= self.total_size(),
    {
        let mut sum: u64 = 0;
        let mut i: usize = 0;
        while i < self.found_files.len()
            invariant
                i <= self.found_files@.len(),
                self.total_size() <= u64::MAX,
                backup_info matches Some(info) ==> sum == succeeded_size_sum(
                    self.found_files@.take(i as int),
                    *info,
                ),
                backup_info is None ==> sum == size_sum(self.found_files@.take(i as int)),
                sum <= size_sum(self.found_files@.take(i as int)),
            decreases self.found_files@.len() - i,
        {
            let file = &self.found_files[i];
            proof {
                assert(self.found_files@.take(i + 1).drop_last() == self.found_files@.take(i as int));
                lemma_size_sum_prefix(self.found_files@, i + 1);
            }
            let failed = match backup_info {
                Some(info) => info.file_error(file.path.as_str()).is_some(),
                None => false,
            };
            if !failed {
                sum = sum + file.size;
            }
            i += 1;
        }
        proof {
            assert(self.found_files@.take(i as int) == self.found_files@);
        }
        sum
    }

    /// The scan's classification as a whole, found in one pass over its
    /// entries: each entry's classification is reduced into the result by
    /// precedence.
    pub fn overall_change(&self) -> (change: ScanChange)
        ensures
            change == self.spec_overall_change(),
    {
        let mut worst = ScanChange::Unknown;
        let mut i: usize = 0;
        while i < self.found_files.len()
            invariant
                i <= self.found_files@.len(),
                worst == worst_present(
                    files_hold_change(self.found_files@.take(i as int), ScanChange::New),
                    files_hold_change(self.found_files@.take(i as int), ScanChange::Different),
                    files_hold_change(self.found_files@.take(i as int), ScanChange::Same),
                ),
            decreases self.found_files@.len() - i,
        {
            proof {
                lemma_files_hold_change_step(self.found_files@, i as int, ScanChange::New);
                lemma_files_hold_change_step(self.found_files@, i as int, ScanChange::Different);
                lemma_files_hold_change_step(self.found_files@, i as int, ScanChange::Same);
            }
            worst = worst.worse(self.found_files[i].change);
            i += 1;
        }
        proof {
            assert(self.found_files@.take(i as int) == self.found_files@);
        }
        let mut k: usize = 0;
        while k < self.found_registry_keys.len()
            invariant
                k <= self.found_registry_keys@.len(),
                worst == worst_present(
                    files_hold_change(self.found_files@, ScanChange::New) || registry_holds_change(
                        self.found_registry_keys@.take(k as int),
                        ScanChange::New,
                    ),
                    files_hold_change(self.found_files@, ScanChange::Different) || registry_holds_change(
                        self.found_registry_keys@.take(k as int),
                        ScanChange::Different,
                    ),
                    files_hold_change(self.found_files@, ScanChange::Same) || registry_holds_change(
                        self.found_registry_keys@.take(k as int),
                        ScanChange::Same,
                    ),
                ),
            decreases self.found_registry_keys@.len() - k,
        {
            let key = &self.found_registry_keys[k];
            proof {
                lemma_registry_holds_change_step(self.found_registry_keys@, k as int, ScanChange::New);
                lemma_registry_holds_change_step(self.found_registry_keys@, k as int, ScanChange::Different);
                lemma_registry_holds_change_step(self.found_registry_keys@, k as int, ScanChange::Same);
            }
            worst = worst.worse(key.worst_change());
            k += 1;
        }
        proof {
            assert(self.found_registry_keys@.take(k as int) == self.found_registry_keys@);
        }
        worst
    }
}

proof fn lemma_values_hold_change_step(values: Seq<(String, ScannedRegistryValue)>, v: int, change: ScanChange)
    requires
        0 <= v < values.len(),
    ensures
        values_hold_change(values.take(v + 1), change) == (values_hold_change(values.take(v), change)
            || values[v].1.change == change),
{
    let shorter = values.take(v);
    let longer = values.take(v + 1);
    if values_hold_change(longer, change) {
        let w = choose|w: int| 0 <= w < longer.len() && (#[trigger] longer[w]).1.change == change;
        if w < v {
            assert(shorter[w].1.change == change);
        }
    }
    if values_hold_change(shorter, change) {
        let w = choose|w: int| 0 <= w < shorter.len() && (#[trigger] shorter[w]).1.change == change;
        assert(longer[w].1.change == change);
    }
    if values[v].1.change == change {
        assert(longer[v].1.change == change);
    }
}

/// Whether one of `values` is classified as `change`.
pub open spec fn values_hold_change(values: Seq<(String, ScannedRegistryValue)>, change: ScanChange) -> bool {
    exists|v: int| 0 <= v < values.len() && (#[trigger] values[v]).1.change == change
}

impl ScannedRegistry {
    /// The classification of highest precedence among the key's own and
    /// those of its values.
    pub fn worst_change(&self) -> (change: ScanChange)
        ensures
            change == worst_present(
                self.holds_change(ScanChange::New),
                self.holds_change(ScanChange::Different),
                self.holds_change(ScanChange::Same),
            ),
    {
        let mut worst = self.change;
        let mut v: usize = 0;
        while v < self.values.len()
            invariant
                v <= self.values@.len(),
                worst == worst_present(
                    self.change == ScanChange::New || values_hold_change(
                        self.values@.take(v as int),
                        ScanChange::New,
                    ),
                    self.change == ScanChange::Different || values_hold_change(
                        self.values@.take(v as int),
                        ScanChange::Different,
                    ),
                    self.change == ScanChange::Same || values_hold_change(
                        self.values@.take(v as int),
                        ScanChange::Same,
                    ),
                ),
            decreases self.values@.len() - v,
        {
            proof {
                lemma_values_hold_change_step(self.values@, v as int, ScanChange::New);
                lemma_values_hold_change_step(self.values@, v as int, ScanChange::Different);
                lemma_values_hold_change_step(self.values@, v as int, ScanChange::Same);
            }
            worst = worst.worse(self.values[v].1.change);
            v += 1;
        }
        proof {
            assert(self.values@.take(v as int) == self.values@);
        }
        worst
    }
}

/// The scan's classification as a whole has the highest precedence among
/// its entries: no entry's classification outranks it, and unless it is
/// `Unknown`, some entry has it.
pub proof fn lemma_overall_change_is_worst(scan_info: ScanInfo)
    ensures
        forall|change: ScanChange|
            scan_info.holds_change(change) ==> change.rank() <= scan_info.spec_overall_change().rank(),
        scan_info.spec_overall_change() != ScanChange::Unknown ==> scan_info.holds_change(
            scan_info.spec_overall_change(),
        ),
{
}

proof fn lemma_files_hold_change_step(files: Seq<ScannedFile>, i: int, change: ScanChange)
    requires
        0 <= i < files.len(),
    ensures
        files_hold_change(files.take(i + 1), change) == (files_hold_change(files.take(i), change)
            || files[i].change == change),
{
    let shorter = files.take(i);
    let longer = files.take(i + 1);
    if files_hold_change(longer, change) {
        let w = choose|w: int| 0 <= w < longer.len() && (#[trigger] longer[w]).change == change;
        if w < i {
            assert(shorter[w].change == change);
        }
    }
    if files_hold_change(shorter, change) {
        let w = choose|w: int| 0 <= w < shorter.len() && (#[trigger] shorter[w]).change == change;
        assert(longer[w].change == change);
    }
    if files[i].change == change {
        assert(longer[i].change == change);
    }
}

proof fn lemma_registry_holds_change_step(keys: Seq<ScannedRegistry>, k: int, change: ScanChange)
    requires
        0 <= k < keys.len(),
    ensures
        registry_holds_change(keys.take(k + 1), change) == (registry_holds_change(keys.take(k), change)
            || keys[k].holds_change(change)),
{
    let shorter = keys.take(k);
    let longer = keys.take(k + 1);
    if registry_holds_change(longer, change) {
        let w = choose|w: int| 0 <= w < longer.len() && (#[trigger] longer[w]).holds_change(change);
        if w < k {
            assert(shorter[w].holds_change(change));
        }
    }
    if registry_holds_change(shorter, change) {
        let w = choose|w: int| 0 <= w < shorter.len() && (#[trigger] shorter[w]).holds_change(change);
        assert(longer[w].holds_change(change));
    }
    if keys[k].holds_change(change) {
        assert(longer[k].holds_change(change));
    }
}

} // verus!
