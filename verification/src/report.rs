//! Reports of an operation: lines of text for a person, or a structured
//! document for a program. Both are filled from the same results.

use vstd::prelude::*;

use crate::change::ScanChange;
use crate::cloud::CloudChange;
use crate::document::{
    api_game, cloud_entry, models_of, reports_backup, reports_cloud, reports_game, reports_stored, ApiBackup,
    ApiGame, CloudEntry,
};
use crate::duplicate::{ClaimIndex, DuplicateDetector};
use crate::layout::{Backup, BackupModel};
use crate::lines::{
    append_lines, backup_line_text, cli_backup_line, cli_game_lines, cli_summary, game_lines, summary_text, within,
};
use crate::listing::{distinct, has_name, place_of, put};
use crate::scan::{BackupInfo, ScanInfo};
use crate::status::OperationStatus;
use crate::text::{join, joined, keys_of, rank_by_text, ranks, sorted_keys, sorted_order, text_ranking, texts_of};

verus! {

/// Marks that the local snapshots and the remote store are in conflict.
#[derive(Debug, PartialEq, Eq, Structural)]
pub struct CloudConflict {}

/// Marks that synchronizing with the remote store was tried and failed.
#[derive(Debug, PartialEq, Eq, Structural)]
pub struct CloudSyncFailed {}

/// What went wrong in an operation as a whole.
#[derive(Debug)]
pub struct ApiErrors {
    /// Whether any application failed.
    pub some_games_failed: Option<bool>,
    /// Names of the applications asked for that are not known, if any.
    pub unknown_games: Option<Vec<String>>,
    /// Present when the local snapshots and the remote store are in
    /// conflict, so that they could not be synchronized automatically.
    pub cloud_conflict: Option<CloudConflict>,
    /// Present when synchronizing with the remote store was tried and failed.
    pub cloud_sync_failed: Option<CloudSyncFailed>,
}

/// The warning shown for a conflict with the remote store.
pub open spec fn conflict_warning() -> Seq<char> {
    "Warning: Your local and cloud backups are in conflict. Perform an upload or download to resolve this."@
}

/// The warning shown when synchronizing with the remote store failed.
pub open spec fn sync_failed_warning() -> Seq<char> {
    "Warning: Unable to synchronize with cloud."@
}

impl Default for ApiErrors {
    fn default() -> (errors: Self)
        ensures
            errors == ApiErrors::none(),
    {
        ApiErrors { some_games_failed: None, unknown_games: None, cloud_conflict: None, cloud_sync_failed: None }
    }
}

impl ApiErrors {
    /// No error at all.
    pub open spec fn none() -> ApiErrors {
        ApiErrors { some_games_failed: None, unknown_games: None, cloud_conflict: None, cloud_sync_failed: None }
    }

    /// The warnings that a report in text shows below its summary: the
    /// one for a conflict first, then the one for a failed synchronization.
    pub open spec fn spec_messages(&self) -> Seq<Seq<char>> {
        (if self.cloud_conflict is Some {
            seq![conflict_warning()]
        } else {
            Seq::empty()
        }) + (if self.cloud_sync_failed is Some {
            seq![sync_failed_warning()]
        } else {
            Seq::empty()
        })
    }

    /// The warnings that a report in text shows below its summary.
    pub fn messages(&self) -> (out: Vec<String>)
        ensures
            crate::text::texts_of(out@) == self.spec_messages(),
    {
        let mut out: Vec<String> = Vec::new();
        if self.cloud_conflict.is_some() {
            out.push(
                "Warning: Your local and cloud backups are in conflict. Perform an upload or download to resolve this.".to_owned(),
            );
        }
        if self.cloud_sync_failed.is_some() {
            out.push("Warning: Unable to synchronize with cloud.".to_owned());
        }
        assert(crate::text::texts_of(out@) =~= self.spec_messages());
        out
    }
}

/// How an application was handled.
#[derive(Clone, Copy, Debug, PartialEq, Eq, Structural)]
pub enum OperationStepDecision {
    /// It was backed up or restored.
    Processed,
    /// The operation was cancelled before its turn.
    Cancelled,
    /// It was left out on purpose.
    Ignored,
}

/// A structured report.
#[derive(Debug)]
pub struct JsonOutput {
    /// What went wrong, if anything was noted.
    pub errors: Option<ApiErrors>,
    /// The tally of the operation, for a backup or a restore.
    pub overall: Option<OperationStatus>,
    /// The applications, by name.
    pub games: Vec<(String, ApiGame)>,
    /// The paths of the remote store, relative to its folder.
    pub cloud: Vec<(String, CloudEntry)>,
}

/// A report in the making.
#[derive(Debug)]
pub enum Reporter {
    /// A report in lines of text.
    Standard {
        /// The lines so far.
        parts: Vec<String>,
        /// The tally, unless the summary is suppressed.
        status: Option<OperationStatus>,
        /// What went wrong.
        errors: ApiErrors,
    },
    /// A structured report.
    Json {
        /// The document so far.
        output: JsonOutput,
    },
}

/// A note for the report's errors.
pub enum ErrorNote {
    /// Some application failed.
    SomeGamesFailed,
    /// These applications are not known.
    UnknownGames(Vec<String>),
    /// The local snapshots and the remote store are in conflict.
    CloudConflict,
    /// Synchronizing with the remote store failed.
    CloudSyncFailed,
}

/// `errors` with the note taken.
pub open spec fn noted(errors: ApiErrors, note: ErrorNote) -> ApiErrors {
    match note {
        ErrorNote::SomeGamesFailed => ApiErrors { some_games_failed: Some(true), ..errors },
        ErrorNote::UnknownGames(games) => ApiErrors { unknown_games: Some(games), ..errors },
        ErrorNote::CloudConflict => ApiErrors { cloud_conflict: Some(CloudConflict {  }), ..errors },
        ErrorNote::CloudSyncFailed => ApiErrors { cloud_sync_failed: Some(CloudSyncFailed {  }), ..errors },
    }
}

fn take_note(errors: &mut ApiErrors, note: ErrorNote)
    ensures
        *final(errors) == noted(*old(errors), note),
{
    match note {
        ErrorNote::SomeGamesFailed => {
            errors.some_games_failed = Some(true);
        },
        ErrorNote::UnknownGames(games) => {
            errors.unknown_games = Some(games);
        },
        ErrorNote::CloudConflict => {
            errors.cloud_conflict = Some(CloudConflict {  });
        },
        ErrorNote::CloudSyncFailed => {
            errors.cloud_sync_failed = Some(CloudSyncFailed {  });
        },
    }
}

impl Reporter {
    /// The errors noted so far; none where a structured report has no
    /// errors yet.
    pub open spec fn errors(&self) -> ApiErrors {
        match self {
            Reporter::Standard { errors, .. } => *errors,
            Reporter::Json { output } => match output.errors {
                Some(errors) => errors,
                None => ApiErrors::none(),
            },
        }
    }

    /// The tally, unless it is suppressed.
    pub open spec fn status(&self) -> Option<OperationStatus> {
        match self {
            Reporter::Standard { status, .. } => *status,
            Reporter::Json { output } => output.overall,
        }
    }

    /// Whether `other` is the same report but for its errors and its tally.
    pub open spec fn same_body(&self, other: &Reporter) -> bool {
        match (self, other) {
            (Reporter::Standard { parts: a, .. }, Reporter::Standard { parts: b, .. }) => a == b,
            (Reporter::Json { output: a }, Reporter::Json { output: b }) => a.games == b.games && a.cloud
                == b.cloud,
            _ => false,
        }
    }

    /// An empty report in lines of text, with an empty tally.
    pub fn standard() -> (reporter: Self)
        ensures
            reporter matches Reporter::Standard { parts, status, errors } && parts@.len() == 0 && status
                is Some && status->0@ == crate::status::StatusModel::zero() && errors == ApiErrors::none(),
    {
        Reporter::Standard { parts: Vec::new(), status: Some(OperationStatus::default()), errors: ApiErrors::default() }
    }

    /// An empty structured report, with an empty tally.
    pub fn json() -> (reporter: Self)
        ensures
            reporter matches Reporter::Json { output } && output.errors is None && output.overall is Some
                && output.overall->0@ == crate::status::StatusModel::zero() && output.games@.len() == 0
                && output.cloud@.len() == 0,
    {
        Reporter::Json {
            output: JsonOutput {
                errors: None,
                overall: Some(OperationStatus::default()),
                games: Vec::new(),
                cloud: Vec::new(),
            },
        }
    }

    fn set_errors(&mut self, note: ErrorNote)
        ensures
            final(self).errors() == noted(old(self).errors(), note),
            final(self).status() == old(self).status(),
            final(self).same_body(&*old(self)),
            *final(self) matches Reporter::Json { output } ==> output.errors is Some,
    {
        match self {
            Reporter::Standard { errors, .. } => {
                take_note(errors, note);
            },
            Reporter::Json { output } => {
                let mut errors = match output.errors.take() {
                    Some(errors) => errors,
                    None => ApiErrors::default(),
                };
                take_note(&mut errors, note);
                output.errors = Some(errors);
            },
        }
    }

    fn trip_some_games_failed(&mut self)
        ensures
            final(self).errors() == noted(old(self).errors(), ErrorNote::SomeGamesFailed),
            final(self).status() == old(self).status(),
            final(self).same_body(&*old(self)),
    {
        self.set_errors(ErrorNote::SomeGamesFailed);
    }

    /// Notes the names of applications that were asked for and are not known.
    pub fn trip_unknown_games(&mut self, games: Vec<String>)
        ensures
            final(self).errors() == noted(old(self).errors(), ErrorNote::UnknownGames(games)),
            final(self).status() == old(self).status(),
            final(self).same_body(&*old(self)),
    {
        self.set_errors(ErrorNote::UnknownGames(games));
    }

    /// Notes that the local snapshots and the remote store are in conflict.
    pub fn trip_cloud_conflict(&mut self)
        ensures
            final(self).errors() == noted(old(self).errors(), ErrorNote::CloudConflict),
            final(self).status() == old(self).status(),
            final(self).same_body(&*old(self)),
    {
        self.set_errors(ErrorNote::CloudConflict);
    }

    /// Notes that synchronizing with the remote store failed.
    pub fn trip_cloud_sync_failed(&mut self)
        ensures
            final(self).errors() == noted(old(self).errors(), ErrorNote::CloudSyncFailed),
            final(self).status() == old(self).status(),
            final(self).same_body(&*old(self)),
    {
        self.set_errors(ErrorNote::CloudSyncFailed);
    }

    /// Drops the tally, so that the report shows no summary.
    pub fn suppress_overall(&mut self)
        ensures
            final(self).status() is None,
            final(self).same_body(&*old(self)),
            match (*old(self), *final(self)) {
                (Reporter::Standard { errors: a, .. }, Reporter::Standard { errors: b, .. }) => a == b,
                (Reporter::Json { output: a }, Reporter::Json { output: b }) => a.errors == b.errors,
                _ => false,
            },
    {
        match self {
            Reporter::Standard { status, .. } => {
                *status = None;
            },
            Reporter::Json { output } => {
                output.overall = None;
            },
        }
    }
}

/// Whether no file and no registry key of `scan_info` failed.
pub open spec fn all_succeeded(scan_info: ScanInfo, info: BackupInfo) -> bool {
    &&& forall|i: int|
        0 <= i < scan_info.found_files@.len() ==> !info.file_failed((#[trigger] scan_info.found_files@[i]).path@)
    &&& forall|k: int|
        0 <= k < scan_info.found_registry_keys@.len() ==> !info.registry_failed(
            (#[trigger] scan_info.found_registry_keys@[k]).path@,
        )
}

/// Whether no file and no registry key of `scan_info` failed.
pub fn scan_succeeded(scan_info: &ScanInfo, info: &BackupInfo) -> (ok: bool)
    ensures
        ok == all_succeeded(*scan_info, *info),
{
    let mut i: usize = 0;
    while i < scan_info.found_files.len()
        invariant
            i <= scan_info.found_files@.len(),
            forall|j: int| 0 <= j < i ==> !info.file_failed((#[trigger] scan_info.found_files@[j]).path@),
        decreases scan_info.found_files@.len() - i,
    {
        if info.file_error(scan_info.found_files[i].path.as_str()).is_some() {
            return false;
        }
        i += 1;
    }
    let mut k: usize = 0;
    while k < scan_info.found_registry_keys.len()
        invariant
            k <= scan_info.found_registry_keys@.len(),
            forall|j: int| 0 <= j < scan_info.found_files@.len() ==> !info.file_failed((#[trigger] scan_info.found_files@[j]).path@),
            forall|j: int|
                0 <= j < k ==> !info.registry_failed((#[trigger] scan_info.found_registry_keys@[j]).path@),
        decreases scan_info.found_registry_keys@.len() - k,
    {
        if info.registry_error(scan_info.found_registry_keys[k].path.as_str()).is_some() {
            return false;
        }
        k += 1;
    }
    true
}

/// What adding an application does to a report's tally: a tally that is
/// there counts the application, as processed where the decision was
/// `Processed`; a suppressed tally stays suppressed.
pub open spec fn tallied(
    before: Option<OperationStatus>,
    after: Option<OperationStatus>,
    scan_info: ScanInfo,
    info: BackupInfo,
    decision: OperationStepDecision,
) -> bool {
    match before {
        Some(status) => after is Some && after->0@ == status@.with_scan(
            scan_info,
            Some(info),
            decision == OperationStepDecision::Processed,
        ),
        None => after is None,
    }
}

/// What adding an application does to the body of a report.
///
/// In text, the application's lines are appended. In a structured report
/// the application is entered under the name in `scan_info`, in the
/// place of an entry of that name if there is one; no other entry and
/// nothing of the remote store's paths changes.
pub open spec fn game_added(
    before: Reporter,
    after: Reporter,
    name: Seq<char>,
    scan_info: ScanInfo,
    info: BackupInfo,
    decision: OperationStepDecision,
    index: ClaimIndex,
) -> bool {
    match (before, after) {
        (Reporter::Standard { parts: a, .. }, Reporter::Standard { parts: b, .. }) => texts_of(b@)
            == texts_of(a@) + game_lines(name, scan_info, info, decision, index),
        (Reporter::Json { output: a }, Reporter::Json { output: b }) => {
            &&& b.cloud == a.cloud
            &&& has_name(b.games@, scan_info.game_name@)
            &&& reports_game(b.games@[place_of(b.games@, scan_info.game_name@)].1, scan_info, info, decision, index)
            &&& b.games@.len() == (if has_name(a.games@, scan_info.game_name@) {
                a.games@.len()
            } else {
                a.games@.len() + 1
            })
            &&& forall|j: int|
                0 <= j < a.games@.len() && j != place_of(b.games@, scan_info.game_name@) ==> (
                #[trigger] b.games@[j]) == a.games@[j]
        },
        _ => false,
    }
}

impl Reporter {
    /// Whether the report can take the application that `scan_info`
    /// describes: the size of what was found fits, and the tally, where
    /// there is one, has room for it.
    pub open spec fn has_room_for(&self, scan_info: ScanInfo) -> bool {
        &&& scan_info.total_size() <= u64::MAX
        &&& self.status() matches Some(status) ==> status.has_room_for(scan_info)
    }

    /// Whether the report can take the application that `scan_info` describes.
    pub fn can_add(&self, scan_info: &ScanInfo) -> (room: bool)
        ensures
            room == self.has_room_for(*scan_info),
    {
        if scan_info.checked_total_bytes().is_none() {
            return false;
        }
        let tally = match self {
            Reporter::Standard { status, .. } => status,
            Reporter::Json { output } => &output.overall,
        };
        match tally {
            Some(status) => status.can_add(scan_info),
            None => true,
        }
    }

    /// Adds an application to the report. Says whether all of its entries
    /// succeeded.
    ///
    /// An application whose scan found nothing is left out: the report
    /// and its tally stay exactly as they are, and the answer is `true`.
    /// Otherwise the application is added to the body and counted in the
    /// tally, and where an entry failed, the report's errors note that
    /// some application failed.
    pub fn add_game(
        &mut self,
        name: &str,
        scan_info: &ScanInfo,
        backup_info: &BackupInfo,
        decision: &OperationStepDecision,
        duplicate_detector: &DuplicateDetector,
    ) -> (successful: bool)
        requires
            old(self).has_room_for(*scan_info),
        ensures
            !scan_info.spec_can_report_game() ==> successful && *final(self) == *old(self),
            scan_info.spec_can_report_game() ==> {
                &&& successful == all_succeeded(*scan_info, *backup_info)
                &&& final(self).errors() == (if successful {
                    old(self).errors()
                } else {
                    noted(old(self).errors(), ErrorNote::SomeGamesFailed)
                })
                &&& tallied(old(self).status(), final(self).status(), *scan_info, *backup_info, *decision)
                &&& game_added(
                    *old(self),
                    *final(self),
                    name@,
                    *scan_info,
                    *backup_info,
                    *decision,
                    duplicate_detector@,
                )
            },
    {
        if !scan_info.can_report_game() {
            return true;
        }
        let successful = scan_succeeded(scan_info, backup_info);
        let processed = match decision {
            OperationStepDecision::Processed => true,
            _ => false,
        };
        match self {
            Reporter::Standard { parts, status, .. } => {
                append_lines(parts, cli_game_lines(name, scan_info, backup_info, *decision, duplicate_detector));
                match status {
                    Some(tally) => {
                        tally.add_game(scan_info, Some(backup_info), processed);
                    },
                    None => {},
                }
            },
            Reporter::Json { output } => {
                match &mut output.overall {
                    Some(tally) => {
                        tally.add_game(scan_info, Some(backup_info), processed);
                    },
                    None => {},
                }
                let game = api_game(scan_info, backup_info, *decision, duplicate_detector);
                put(&mut output.games, scan_info.game_name.clone(), game);
            },
        }
        if !successful {
            self.trip_some_games_failed();
        }
        successful
    }
}

/// The time text for the snapshot at place `i`: the one given for it,
/// or a question mark where none is given.
pub open spec fn time_at(times: Seq<Seq<char>>, i: int) -> Seq<char> {
    if 0 <= i < times.len() {
        times[i]
    } else {
        "?"@
    }
}

/// The lines that list an application's snapshots: its title, the
/// directory, one line for each snapshot, and an empty line.
pub open spec fn backups_lines(
    display_title: Seq<char>,
    backup_dir: Seq<char>,
    backups: Seq<BackupModel>,
    times: Seq<Seq<char>>,
) -> Seq<Seq<char>> {
    seq![display_title + ":"@, "  Folder: "@ + backup_dir] + Seq::new(
        backups.len(),
        |i: int| backup_line_text(backups[i], time_at(times, i)),
    ) + seq![""@]
}

/// What listing an application's snapshots does to a report; without
/// snapshots, nothing.
pub open spec fn backups_added(
    before: Reporter,
    after: Reporter,
    name: Seq<char>,
    display_title: Seq<char>,
    backup_dir: Seq<char>,
    backups: Seq<BackupModel>,
    times: Seq<Seq<char>>,
) -> bool {
    if backups.len() == 0 {
        after == before
    } else {
        match (before, after) {
            (
                Reporter::Standard { parts: a, status: s, errors: e },
                Reporter::Standard { parts: b, status: t, errors: f },
            ) => s == t && e == f && texts_of(b@) == texts_of(a@) + backups_lines(
                display_title,
                backup_dir,
                backups,
                times,
            ),
            (Reporter::Json { output: a }, Reporter::Json { output: b }) => {
                &&& b.errors == a.errors
                &&& b.overall == a.overall
                &&& b.cloud == a.cloud
                &&& has_name(b.games@, name)
                &&& reports_stored(b.games@[place_of(b.games@, name)].1, backup_dir, backups)
                &&& b.games@.len() == (if has_name(a.games@, name) {
                    a.games@.len()
                } else {
                    a.games@.len() + 1
                })
                &&& forall|j: int|
                    0 <= j < a.games@.len() && j != place_of(b.games@, name) ==> (#[trigger] b.games@[j])
                        == a.games@[j]
            },
            _ => false,
        }
    }
}

/// What a report in text shows after the summary: each warning after an
/// empty line.
pub open spec fn warnings_text(messages: Seq<Seq<char>>) -> Seq<char>
    decreases messages.len(),
{
    if messages.len() == 0 {
        ""@
    } else {
        warnings_text(messages.drop_last()) + "\n\n"@ + messages.last()
    }
}

/// A report in text as a whole: the lines, then the summary with the
/// warnings; only the lines where the tally is suppressed.
pub open spec fn rendered_text(
    parts: Seq<Seq<char>>,
    status: Option<OperationStatus>,
    errors: ApiErrors,
    location: Seq<char>,
) -> Seq<char> {
    match status {
        Some(tally) => joined(parts, "\n"@) + "\n"@ + summary_text(tally@, location) + warnings_text(
            errors.spec_messages(),
        ),
        None => joined(parts, "\n"@),
    }
}

impl Reporter {
    /// Lists an application's snapshots in the report: in text under
    /// `display_title`, in a structured report under `name`. `times`
    /// gives, for each snapshot, its time as the reader's clock shows it.
    /// Without snapshots nothing is added.
    pub fn add_backups(
        &mut self,
        name: &str,
        display_title: &str,
        backup_dir: &str,
        available_backups: &Vec<&Backup>,
        times: &Vec<String>,
    )
        ensures
            backups_added(
                *old(self),
                *final(self),
                name@,
                display_title@,
                backup_dir@,
                models_of(available_backups@),
                texts_of(times@),
            ),
    {
        if available_backups.len() == 0 {
            return ;
        }
        let ghost backups = models_of(available_backups@);
        match self {
            Reporter::Standard { parts, .. } => {
                let mut lines: Vec<String> = Vec::new();
                let mut title = display_title.to_owned();
                title.append(":");
                lines.push(title);
                let mut folder = "  Folder: ".to_owned();
                folder.append(backup_dir);
                lines.push(folder);
                let ghost head = texts_of(lines@);
                let mut i: usize = 0;
                while i < available_backups.len()
                    invariant
                        i <= available_backups@.len(),
                        backups == models_of(available_backups@),
                        texts_of(lines@) == head + Seq::new(
                            i as nat,
                            |j: int| backup_line_text(backups[j], time_at(texts_of(times@), j)),
                        ),
                    decreases available_backups@.len() - i,
                {
                    let ghost earlier = texts_of(lines@);
                    let line = if i < times.len() {
                        cli_backup_line(available_backups[i], times[i].as_str())
                    } else {
                        cli_backup_line(available_backups[i], "?")
                    };
                    lines.push(line);
                    proof {
                        assert(texts_of(lines@) =~= earlier.push(
                            backup_line_text(backups[i as int], time_at(texts_of(times@), i as int)),
                        ));
                        assert(texts_of(lines@) =~= head + Seq::new(
                            (i + 1) as nat,
                            |j: int| backup_line_text(backups[j], time_at(texts_of(times@), j)),
                        ));
                    }
                    i += 1;
                }
                let ghost body = texts_of(lines@);
                lines.push("".to_owned());
                proof {
                    assert(texts_of(lines@) =~= body.push(""@));
                    assert(texts_of(lines@) =~= backups_lines(
                        display_title@,
                        backup_dir@,
                        backups,
                        texts_of(times@),
                    ));
                }
                append_lines(parts, lines);
            },
            Reporter::Json { output } => {
                let mut listed: Vec<ApiBackup> = Vec::new();
                let mut i: usize = 0;
                while i < available_backups.len()
                    invariant
                        i <= available_backups@.len(),
                        backups == models_of(available_backups@),
                        listed@.len() == i,
                        forall|j: int| 0 <= j < i ==> reports_backup(#[trigger] listed@[j], backups[j]),
                    decreases available_backups@.len() - i,
                {
                    let backup = available_backups[i];
                    let comment = match backup.comment() {
                        Some(text) => Some(text.clone()),
                        None => None,
                    };
                    listed.push(
                        ApiBackup {
                            name: backup.name().to_owned(),
                            when: backup.when(),
                            os: backup.os(),
                            comment,
                            locked: backup.locked(),
                        },
                    );
                    i += 1;
                }
                put(
                    &mut output.games,
                    name.to_owned(),
                    ApiGame::Stored { backup_dir: backup_dir.to_owned(), backups: listed },
                );
            },
        }
    }

    /// The report as one text, with the summary for the place `path`
    /// where snapshots are kept; nothing for a structured report, which
    /// is written out by whoever holds the means to do so.
    pub fn render(&self, path: &str) -> (text: Option<String>)
        ensures
            match *self {
                Reporter::Standard { parts, status, errors } => text is Some && text->0@ == rendered_text(
                    texts_of(parts@),
                    status,
                    errors,
                    path@,
                ),
                Reporter::Json { .. } => text is None,
            },
    {
        match self {
            Reporter::Standard { parts, status, errors } => match status {
                Some(tally) => {
                    let mut out = join(parts, "\n");
                    out.append("\n");
                    out.append(cli_summary(tally, path).as_str());
                    let ghost head = out@;
                    let messages = errors.messages();
                    let mut i: usize = 0;
                    proof {
                        assert(texts_of(messages@).take(0) =~= Seq::<Seq<char>>::empty());
                        reveal_strlit("");
                        assert(head + warnings_text(texts_of(messages@).take(0)) =~= head);
                    }
                    while i < messages.len()
                        invariant
                            i <= messages@.len(),
                            out@ == head + warnings_text(texts_of(messages@).take(i as int)),
                        decreases messages@.len() - i,
                    {
                        proof {
                            let longer = texts_of(messages@).take(i + 1);
                            assert(longer.drop_last() =~= texts_of(messages@).take(i as int));
                            assert(longer.last() == messages@[i as int]@);
                        }
                        let ghost earlier = out@;
                        out.append("\n\n");
                        out.append(messages[i].as_str());
                        proof {
                            assert(out@ =~= head + warnings_text(texts_of(messages@).take(i + 1)));
                        }
                        i += 1;
                    }
                    proof {
                        assert(texts_of(messages@).take(i as int) =~= texts_of(messages@));
                    }
                    Some(out)
                },
                None => Some(join(parts, "\n")),
            },
            Reporter::Json { .. } => None,
        }
    }
}

/// Whether `titles` holds the text `name`.
pub open spec fn holds_title(titles: Seq<String>, name: Seq<char>) -> bool {
    exists|i: int| 0 <= i < titles.len() && (#[trigger] titles[i])@ == name
}

/// Whether the applications `after` are the applications `before` with
/// every title entered as found: each title has an entry that says so,
/// and under every other name there is what there was.
pub open spec fn titles_entered(
    before: Seq<(String, ApiGame)>,
    after: Seq<(String, ApiGame)>,
    titles: Seq<String>,
) -> bool {
    &&& forall|i: int|
        0 <= i < titles.len() ==> has_name(after, (#[trigger] titles[i])@) && after[place_of(
            after,
            titles[i]@,
        )].1 is Found
    &&& forall|other: Seq<char>|
        !holds_title(titles, other) ==> (#[trigger] has_name(after, other)) == has_name(before, other)
            && (has_name(before, other) ==> after[place_of(after, other)] == before[place_of(before, other)])
}

/// What adding found titles does to a report.
///
/// In text, the titles are appended in the order of their texts. In a
/// structured report each title is entered as found, in the place of an
/// entry of that name if there is one; the entries of other names stay
/// as they are, and no other name is entered.
pub open spec fn titles_added(before: Reporter, after: Reporter, titles: Seq<String>) -> bool {
    match (before, after) {
        (
            Reporter::Standard { parts: a, status: s, errors: e },
            Reporter::Standard { parts: b, status: t, errors: f },
        ) => s == t && e == f && texts_of(b@) == texts_of(a@) + Seq::new(
            titles.len(),
            |i: int| titles[text_ranking(texts_of(titles))[i] as int]@,
        ),
        (Reporter::Json { output: a }, Reporter::Json { output: b }) => {
            &&& b.errors == a.errors
            &&& b.overall == a.overall
            &&& b.cloud == a.cloud
            &&& titles_entered(a.games@, b.games@, titles)
        },
        _ => false,
    }
}

/// The titles at the places that `order` lists, in its order.
pub fn titles_in(names: &Vec<String>, order: &Vec<usize>) -> (titles: Vec<String>)
    requires
        within(order@, names@.len()),
    ensures
        texts_of(titles@) == Seq::new(order@.len(), |i: int| names@[order@[i] as int]@),
{
    let mut titles: Vec<String> = Vec::new();
    let mut c: usize = 0;
    while c < order.len()
        invariant
            c <= order@.len(),
            within(order@, names@.len()),
            titles@.len() == c,
            forall|i: int| 0 <= i < c ==> (#[trigger] titles@[i])@ == names@[order@[i] as int]@,
        decreases order@.len() - c,
    {
        titles.push(names[order[c]].clone());
        c += 1;
    }
    assert(texts_of(titles@) =~= Seq::new(order@.len(), |i: int| names@[order@[i] as int]@));
    titles
}

impl Reporter {
    /// Adds the titles that a search found, in the order of their texts.
    pub fn add_found_titles(&mut self, names: &Vec<String>)
        ensures
            titles_added(*old(self), *final(self), names@),
    {
        let order = rank_by_text(names);
        match self {
            Reporter::Standard { parts, .. } => {
                append_lines(parts, titles_in(names, &order));
            },
            Reporter::Json { output } => {
                let ghost first = output.games@;
                let mut c: usize = 0;
                while c < order.len()
                    invariant
                        c <= order@.len(),
                        ranks(order@, texts_of(names@)),
                        output.errors == old(self)->Json_output.errors,
                        output.overall == old(self)->Json_output.overall,
                        output.cloud == old(self)->Json_output.cloud,
                        first == old(self)->Json_output.games@,
                        forall|j: int|
                            0 <= j < c ==> has_name(output.games@, names@[(#[trigger] order@[j]) as int]@)
                                && output.games@[place_of(output.games@, names@[order@[j] as int]@)].1 is Found,
                        forall|other: Seq<char>|
                            !holds_title(names@, other) ==> (#[trigger] has_name(output.games@, other))
                                == has_name(first, other) && (has_name(first, other) ==> output.games@[place_of(
                                output.games@,
                                other,
                            )] == first[place_of(first, other)]),
                    decreases order@.len() - c,
                {
                    let title = &names[order[c]];
                    let ghost before = output.games@;
                    put(&mut output.games, title.clone(), ApiGame::Found {  });
                    proof {
                        assert(holds_title(names@, title@));
                        assert forall|j: int| 0 <= j < c + 1 implies has_name(
                            output.games@,
                            names@[(#[trigger] order@[j]) as int]@,
                        ) && output.games@[place_of(output.games@, names@[order@[j] as int]@)].1 is Found by {
                            let known = names@[order@[j] as int]@;
                            if known != title@ {
                                assert(has_name(before, known));
                            }
                        }
                        assert forall|other: Seq<char>| !holds_title(names@, other) implies (#[trigger] has_name(
                            output.games@,
                            other,
                        )) == has_name(first, other) && (has_name(first, other) ==> output.games@[place_of(
                            output.games@,
                            other,
                        )] == first[place_of(first, other)]) by {
                            assert(other != title@);
                            assert(has_name(before, other) == has_name(first, other));
                            if has_name(first, other) {
                                assert(has_name(before, other));
                            }
                        }
                    }
                    c += 1;
                }
                proof {
                    assert forall|i: int| 0 <= i < names@.len() implies has_name(
                        output.games@,
                        (#[trigger] names@[i])@,
                    ) && output.games@[place_of(output.games@, names@[i]@)].1 is Found by {
                        assert(order@.contains(i as usize));
                        let j = choose|j: int| 0 <= j < order@.len() && order@[j] == i as usize;
                        assert(has_name(output.games@, names@[order@[j] as int]@));
                    }
                }
            },
        }
    }
}

/// The number by which a change is ordered in a list of changes.
pub open spec fn change_code(change: ScanChange) -> usize {
    match change {
        ScanChange::New => 0,
        ScanChange::Different => 1,
        ScanChange::Same => 2,
        ScanChange::Unknown => 3,
    }
}

/// The change that a number stands for.
pub open spec fn coded_change(code: usize) -> ScanChange {
    if code == 0 {
        ScanChange::New
    } else if code == 1 {
        ScanChange::Different
    } else if code == 2 {
        ScanChange::Same
    } else {
        ScanChange::Unknown
    }
}

/// The line of a changed path: the sign of its change in brackets, then
/// the path.
pub open spec fn cloud_line_text(key: (Seq<char>, usize)) -> Seq<char> {
    "["@ + coded_change(key.1).spec_symbol() + "] "@ + key.0
}

/// The paths with the numbers of their changes.
pub open spec fn cloud_keys(changes: Seq<CloudChange>) -> Seq<(Seq<char>, usize)> {
    Seq::new(changes.len(), |i: int| (changes[i].path@, change_code(changes[i].change)))
}

/// Writes one line for each path with the number of its change, in the
/// order given.
pub fn cloud_lines(keys: &Vec<(String, usize)>) -> (lines: Vec<String>)
    ensures
        texts_of(lines@) == Seq::new(keys@.len(), |i: int| cloud_line_text(keys_of(keys@)[i])),
{
    let mut lines: Vec<String> = Vec::new();
    let mut i: usize = 0;
    while i < keys.len()
        invariant
            i <= keys@.len(),
            lines@.len() == i,
            forall|j: int| 0 <= j < i ==> (#[trigger] lines@[j])@ == cloud_line_text(keys_of(keys@)[j]),
        decreases keys@.len() - i,
    {
        let code = keys[i].1;
        let change = if code == 0 {
            ScanChange::New
        } else if code == 1 {
            ScanChange::Different
        } else if code == 2 {
            ScanChange::Same
        } else {
            ScanChange::Unknown
        };
        let mut line = "[".to_owned();
        line.append(change.symbol());
        line.append("] ");
        line.append(keys[i].0.as_str());
        lines.push(line);
        i += 1;
    }
    assert(texts_of(lines@) =~= Seq::new(keys@.len(), |i: int| cloud_line_text(keys_of(keys@)[i])));
    lines
}

/// The report of the changes between the local files and the remote store.
#[derive(Debug)]
pub enum CloudReport {
    /// A structured report of the changes.
    Api(JsonOutput),
    /// There is no change to show.
    Nothing,
    /// One line of text for each change.
    Lines(Vec<String>),
}

/// Reports the changes between the local files and the remote store.
///
/// With `api` set, the report is structured: each path with its change,
/// no applications, no tally, no errors. Otherwise it is in text: nothing
/// where there is no change, and else one line for each change, in the
/// order of the paths and, for one path, of the changes.
pub fn report_cloud_changes(changes: &Vec<CloudChange>, api: bool) -> (report: CloudReport)
    ensures
        api ==> (report matches CloudReport::Api(output) && output.errors is None && output.overall is None
            && output.games@.len() == 0 && reports_cloud(output.cloud@, changes@)),
        !api && changes@.len() == 0 ==> report is Nothing,
        !api && changes@.len() > 0 ==> (report matches CloudReport::Lines(lines) && texts_of(lines@)
            == Seq::new(changes@.len(), |i: int| cloud_line_text(sorted_order(cloud_keys(changes@))[i]))),
{
    if api {
        let mut cloud: Vec<(String, CloudEntry)> = Vec::new();
        let mut i: usize = 0;
        while i < changes.len()
            invariant
                i <= changes@.len(),
                distinct(cloud@),
                forall|j: int| 0 <= j < i ==> has_name(cloud@, (#[trigger] changes@[j]).path@),
                forall|e: int| 0 <= e < cloud@.len() ==> cloud_entry(#[trigger] cloud@[e], changes@),
            decreases changes@.len() - i,
        {
            let ghost before = cloud@;
            let entry = CloudEntry { change: changes[i].change };
            put(&mut cloud, changes[i].path.clone(), entry);
            proof {
                assert forall|e: int| 0 <= e < cloud@.len() implies cloud_entry(#[trigger] cloud@[e], changes@) by {
                    if e == place_of(cloud@, changes@[i as int].path@) {
                        assert(cloud@[e].1 == entry);
                        assert(cloud@[e].0@ == changes@[i as int].path@);
                    } else {
                        assert(cloud@[e] == before[e]);
                        assert(cloud_entry(before[e], changes@));
                    }
                }
            }
            i += 1;
        }
        return CloudReport::Api(JsonOutput { errors: None, overall: None, games: Vec::new(), cloud });
    }
    if changes.len() == 0 {
        return CloudReport::Nothing;
    }
    let mut keys: Vec<(String, usize)> = Vec::new();
    let mut i: usize = 0;
    while i < changes.len()
        invariant
            i <= changes@.len(),
            keys@.len() == i,
            forall|j: int|
                0 <= j < i ==> (#[trigger] keys@[j]).0@ == changes@[j].path@ && keys@[j].1 == change_code(
                    changes@[j].change,
                ),
        decreases changes@.len() - i,
    {
        let code: usize = match changes[i].change {
            ScanChange::New => 0,
            ScanChange::Different => 1,
            ScanChange::Same => 2,
            ScanChange::Unknown => 3,
        };
        keys.push((changes[i].path.clone(), code));
        i += 1;
    }
    assert(keys_of(keys@) =~= cloud_keys(changes@));
    let sorted = sorted_keys(keys);
    proof {
        broadcast use vstd::seq_lib::to_multiset_len;

        assert(keys_of(sorted@).len() == keys_of(sorted@).to_multiset().len());
        assert(cloud_keys(changes@).len() == cloud_keys(changes@).to_multiset().len());
    }
    let lines = cloud_lines(&sorted);
    CloudReport::Lines(lines)
}

} // verus!
