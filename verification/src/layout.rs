//! The snapshots of one application: creation, listing, locking and pruning.
//!
//! Snapshots are kept oldest first. Each is immutable once created, except
//! for its lock, which exempts it from pruning.

use std::fmt::Write;
use vstd::prelude::*;

use crate::manifest::{manifest_of, Manifest, ManifestModel};
use crate::scan::{text_of, BackupError, BackupInfo, ScanInfo};
use crate::text::{same_text, texts_of};

verus! {

/// A point in time: seconds since the start of 1970 in UTC, and the
/// nanoseconds into that second.
#[derive(Clone, Copy, Debug, PartialEq, Eq, Structural)]
pub struct Timestamp {
    pub secs: i64,
    pub nanos: u32,
}

impl Timestamp {
    pub open spec fn spec_before(&self, other: &Timestamp) -> bool {
        self.secs < other.secs || (self.secs == other.secs && self.nanos < other.nanos)
    }

    /// Whether this point in time comes strictly before `other`.
    #[verifier::when_used_as_spec(spec_before)]
    pub fn before(&self, other: &Timestamp) -> (earlier: bool)
        ensures
            earlier == self.spec_before(other),
    {
        self.secs < other.secs || (self.secs == other.secs && self.nanos < other.nanos)
    }
}

/// The operating system that a snapshot was taken on.
#[derive(Clone, Copy, Debug, PartialEq, Eq, Structural)]
pub enum Os {
    Windows,
    Linux,
    Mac,
    Other,
}

/// A snapshot as a mathematical value.
pub struct BackupModel {
    pub name: Seq<char>,
    pub when: Timestamp,
    pub os: Option<Os>,
    pub comment: Option<Seq<char>>,
    pub locked: bool,
    pub manifest: ManifestModel,
}

/// One snapshot of an application.
pub struct Backup {
    name: String,
    when: Timestamp,
    os: Option<Os>,
    comment: Option<String>,
    locked: bool,
    manifest: Manifest,
}

impl View for Backup {
    type V = BackupModel;

    closed spec fn view(&self) -> BackupModel {
        BackupModel {
            name: self.name@,
            when: self.when,
            os: self.os,
            comment: text_of(self.comment),
            locked: self.locked,
            manifest: self.manifest@,
        }
    }
}

impl Backup {
    /// The snapshot's name, unique among the application's snapshots.
    pub fn name(&self) -> (name: &str)
        ensures
            name@ == self@.name,
    {
        self.name.as_str()
    }

    /// When the snapshot was created.
    pub fn when(&self) -> (time: Timestamp)
        ensures
            time == self@.when,
    {
        self.when
    }

    /// The operating system that the snapshot was taken on, where known.
    pub fn os(&self) -> (os: Option<Os>)
        ensures
            os == self@.os,
    {
        self.os
    }

    /// The comment given when the snapshot was created.
    pub fn comment(&self) -> (comment: Option<&String>)
        ensures
            comment is Some == self@.comment is Some,
            comment matches Some(text) ==> self@.comment == Some(text@),
    {
        self.comment.as_ref()
    }

    /// Whether the snapshot is exempt from pruning.
    pub fn locked(&self) -> (locked: bool)
        ensures
            locked == self@.locked,
    {
        self.locked
    }

    /// The entries captured, with their fingerprints: the baseline for
    /// later scans.
    pub fn manifest(&self) -> (manifest: &Manifest)
        ensures
            manifest@ == self@.manifest,
    {
        &self.manifest
    }
}

/// The text that stands for a second of UTC time in a snapshot's name:
/// year, month, day, `T`, hour, minute, second, `Z`, as chrono formats
/// them; nothing where chrono cannot represent the second.
pub uninterp spec fn utc_stamp_text(secs: i64) -> Option<Seq<char>>;

/// Formats a second of UTC time for a snapshot's name.
///
/// Trusted: calls chrono's `DateTime::from_timestamp` and `DateTime::format`
/// with the pattern `%Y%m%dT%H%M%SZ`. The contract only names the result:
/// it is a function of `secs` alone, since UTC needs no time zone data.
#[verifier::external_body]
fn utc_stamp(secs: i64) -> (text: Option<String>)
    ensures
        text_of(text) == utc_stamp_text(secs),
{
    match chrono::DateTime::from_timestamp(secs, 0) {
        Some(time) => {
            let mut out = String::new();
            match write!(out, "{}", time.format("%Y%m%dT%H%M%SZ")) {
                Ok(()) => Some(out),
                Err(_) => None,
            }
        },
        None => None,
    }
}

/// The name of the snapshot whose time is written as `stamp`.
pub open spec fn snapshot_name(stamp: Seq<char>) -> Seq<char> {
    "backup-"@ + stamp
}

/// Whether the snapshots are in the order of their creation, oldest first.
pub open spec fn ordered(snapshots: Seq<BackupModel>) -> bool {
    forall|i: int, j: int|
        0 <= i < j < snapshots.len() ==> (#[trigger] snapshots[i]).when.spec_before(
            &(#[trigger] snapshots[j]).when,
        )
}

/// Whether no two snapshots have the same name.
pub open spec fn distinct_names(snapshots: Seq<BackupModel>) -> bool {
    forall|i: int, j: int|
        0 <= i < j < snapshots.len() ==> (#[trigger] snapshots[i]).name != (#[trigger] snapshots[j]).name
}

/// Whether a snapshot may be created now: the directory can be written, the
/// time has a stamp, no snapshot has the name that the stamp gives, and the
/// time is after that of the newest snapshot.
pub open spec fn can_create(
    snapshots: Seq<BackupModel>,
    stamp: Option<Seq<char>>,
    time: Timestamp,
    writable: bool,
) -> bool {
    &&& writable
    &&& stamp is Some
    &&& forall|i: int| 0 <= i < snapshots.len() ==> (#[trigger] snapshots[i]).name != snapshot_name(stamp->0)
    &&& snapshots.len() > 0 ==> snapshots.last().when.spec_before(&time)
}

/// The snapshot that creation appends: unlocked, with the manifest of the scan.
pub open spec fn created_snapshot(
    stamp: Seq<char>,
    scan_info: ScanInfo,
    os: Option<Os>,
    comment: Option<Seq<char>>,
    time: Timestamp,
) -> BackupModel {
    BackupModel {
        name: snapshot_name(stamp),
        when: time,
        os,
        comment,
        locked: false,
        manifest: manifest_of(scan_info),
    }
}

/// What creation does, from the snapshots `before` to the snapshots `after`.
///
/// Where a snapshot may be created, it is appended and its name returned.
/// Otherwise the snapshots stay as they are, and every entry of the scan
/// is reported as failed: for an unwritable directory where that is the
/// reason, else for the clash with an existing snapshot.
pub open spec fn creation(
    before: Seq<BackupModel>,
    after: Seq<BackupModel>,
    outcome: Result<String, BackupInfo>,
    stamp: Option<Seq<char>>,
    scan_info: ScanInfo,
    os: Option<Os>,
    comment: Option<Seq<char>>,
    time: Timestamp,
    writable: bool,
) -> bool {
    if can_create(before, stamp, time, writable) {
        &&& outcome matches Ok(name)
        &&& name@ == snapshot_name(stamp->0)
        &&& after == before.push(created_snapshot(stamp->0, scan_info, os, comment, time))
    } else {
        &&& outcome matches Err(info)
        &&& after == before
        &&& info.fails_everything(
            scan_info,
            if writable {
                BackupError::SnapshotClash
            } else {
                BackupError::DirectoryUnwritable
            },
        )
    }
}

/// Which snapshots pruning may remove: those beyond a count, those beyond an age.
#[derive(Clone, Copy, Debug)]
pub struct Retention {
    /// Keep this many of the newest snapshots; more are expired.
    pub keep: Option<usize>,
    /// Snapshots older than this many seconds are expired.
    pub max_age_secs: Option<u64>,
}

/// Whether the policy has the snapshot at `index` expired at time `now`.
pub open spec fn expired(snapshots: Seq<BackupModel>, index: int, retention: Retention, now: Timestamp) -> bool {
    ||| retention.keep is Some && snapshots.len() - index > retention.keep->0
    ||| retention.max_age_secs is Some && now.secs - snapshots[index].when.secs > retention.max_age_secs->0
}

/// Whether pruning removes the snapshot at `index`: it is expired, not
/// locked, and not the newest.
pub open spec fn prunable(snapshots: Seq<BackupModel>, index: int, retention: Retention, now: Timestamp) -> bool {
    &&& 0 <= index < snapshots.len() - 1
    &&& !snapshots[index].locked
    &&& expired(snapshots, index, retention, now)
}

/// Those of the first `count` snapshots that pruning keeps, in their order.
pub open spec fn kept_upto(
    snapshots: Seq<BackupModel>,
    count: int,
    retention: Retention,
    now: Timestamp,
) -> Seq<BackupModel>
    decreases count,
{
    if count <= 0 {
        Seq::empty()
    } else if prunable(snapshots, count - 1, retention, now) {
        kept_upto(snapshots, count - 1, retention, now)
    } else {
        kept_upto(snapshots, count - 1, retention, now).push(snapshots[count - 1])
    }
}

/// The names of those of the first `count` snapshots that pruning removes,
/// in their order.
pub open spec fn pruned_upto(
    snapshots: Seq<BackupModel>,
    count: int,
    retention: Retention,
    now: Timestamp,
) -> Seq<Seq<char>>
    decreases count,
{
    if count <= 0 {
        Seq::empty()
    } else if prunable(snapshots, count - 1, retention, now) {
        pruned_upto(snapshots, count - 1, retention, now).push(snapshots[count - 1].name)
    } else {
        pruned_upto(snapshots, count - 1, retention, now)
    }
}

/// The snapshots that are left after pruning.
pub open spec fn after_prune(snapshots: Seq<BackupModel>, retention: Retention, now: Timestamp) -> Seq<BackupModel> {
    kept_upto(snapshots, snapshots.len() as int, retention, now)
}

/// The snapshots with the lock of the one called `name` set to `locked`.
pub open spec fn with_lock(snapshots: Seq<BackupModel>, name: Seq<char>, locked: bool) -> Seq<BackupModel> {
    Seq::new(
        snapshots.len(),
        |i: int|
            if snapshots[i].name == name {
                BackupModel { locked, ..snapshots[i] }
            } else {
                snapshots[i]
            },
    )
}

/// Whether a snapshot is called `name`.
pub open spec fn has_snapshot(snapshots: Seq<BackupModel>, name: Seq<char>) -> bool {
    exists|i: int| 0 <= i < snapshots.len() && (#[trigger] snapshots[i]).name == name
}

/// What pruning keeps of the first `count` snapshots comes from among
/// them, in their order; so order and distinct names are kept too.
proof fn lemma_kept_upto(snapshots: Seq<BackupModel>, count: int, retention: Retention, now: Timestamp)
    requires
        0 <= count <= snapshots.len(),
        ordered(snapshots),
        distinct_names(snapshots),
    ensures
        forall|e: int|
            0 <= e < kept_upto(snapshots, count, retention, now).len() ==> exists|j: int|
                0 <= j < count && snapshots[j] == #[trigger] kept_upto(snapshots, count, retention, now)[e],
        ordered(kept_upto(snapshots, count, retention, now)),
        distinct_names(kept_upto(snapshots, count, retention, now)),
        kept_upto(snapshots, count, retention, now).len() <= count,
    decreases count,
{
    if count > 0 {
        lemma_kept_upto(snapshots, count - 1, retention, now);
        let earlier = kept_upto(snapshots, count - 1, retention, now);
        let kept = kept_upto(snapshots, count, retention, now);
        if !prunable(snapshots, count - 1, retention, now) {
            assert forall|e: int| 0 <= e < kept.len() implies exists|j: int|
                0 <= j < count && snapshots[j] == #[trigger] kept[e] by {
                if e < earlier.len() {
                    let j = choose|j: int| 0 <= j < count - 1 && snapshots[j] == earlier[e];
                    assert(snapshots[j] == kept[e]);
                } else {
                    assert(snapshots[count - 1] == kept[e]);
                }
            }
            assert forall|a: int, b: int| 0 <= a < b < kept.len() implies (#[trigger] kept[a]).when.spec_before(
                &(#[trigger] kept[b]).when,
            ) && kept[a].name != kept[b].name by {
                if b < earlier.len() {
                    assert(earlier[a].when.spec_before(&earlier[b].when));
                    assert(earlier[a].name != earlier[b].name);
                } else {
                    let j = choose|j: int| 0 <= j < count - 1 && snapshots[j] == earlier[a];
                    assert(snapshots[j].when.spec_before(&snapshots[count - 1].when));
                    assert(snapshots[j].name != snapshots[count - 1].name);
                }
            }
        } else {
            assert forall|e: int| 0 <= e < kept.len() implies exists|j: int|
                0 <= j < count && snapshots[j] == #[trigger] kept[e] by {
                let j = choose|j: int| 0 <= j < count - 1 && snapshots[j] == earlier[e];
                assert(snapshots[j] == kept[e]);
            }
        }
    }
}

/// Pruning removes no locked snapshot and never the newest one, whatever
/// the policy, the time and the snapshots are.
pub proof fn lemma_prune_spares_locked_and_newest(
    snapshots: Seq<BackupModel>,
    retention: Retention,
    now: Timestamp,
    index: int,
)
    requires
        0 <= index < snapshots.len(),
        snapshots[index].locked || index == snapshots.len() - 1,
    ensures
        after_prune(snapshots, retention, now).contains(snapshots[index]),
{
    lemma_unprunable_is_kept(snapshots, snapshots.len() as int, retention, now, index);
}

proof fn lemma_unprunable_is_kept(
    snapshots: Seq<BackupModel>,
    count: int,
    retention: Retention,
    now: Timestamp,
    index: int,
)
    requires
        0 <= index < count <= snapshots.len(),
        !prunable(snapshots, index, retention, now),
    ensures
        kept_upto(snapshots, count, retention, now).contains(snapshots[index]),
    decreases count,
{
    let kept = kept_upto(snapshots, count, retention, now);
    if index == count - 1 {
        assert(kept.last() == snapshots[index]);
    } else {
        lemma_unprunable_is_kept(snapshots, count - 1, retention, now, index);
        let earlier = kept_upto(snapshots, count - 1, retention, now);
        let e = choose|e: int| 0 <= e < earlier.len() && earlier[e] == snapshots[index];
        if !prunable(snapshots, count - 1, retention, now) {
            assert(kept[e] == snapshots[index]);
        }
    }
}

/// Locking and unlocking are idempotent: doing it twice is doing it once.
pub proof fn lemma_lock_is_idempotent(snapshots: Seq<BackupModel>, name: Seq<char>, locked: bool)
    ensures
        with_lock(with_lock(snapshots, name, locked), name, locked) == with_lock(snapshots, name, locked),
{
    assert(with_lock(with_lock(snapshots, name, locked), name, locked) =~= with_lock(snapshots, name, locked));
}

/// The snapshots as mathematical values.
spec fn snapshots_of(backups: Seq<Backup>) -> Seq<BackupModel> {
    Seq::new(backups.len(), |i: int| backups[i]@)
}

fn position_in(backups: &Vec<Backup>, name: &str) -> (found: Option<usize>)
    ensures
        found is Some == has_snapshot(snapshots_of(backups@), name@),
        found matches Some(index) ==> index < backups@.len() && snapshots_of(backups@)[index as int].name
            == name@,
{
    let mut i: usize = 0;
    while i < backups.len()
        invariant
            i <= backups@.len(),
            forall|j: int| 0 <= j < i ==> (#[trigger] snapshots_of(backups@)[j]).name != name@,
        decreases backups@.len() - i,
    {
        if same_text(backups[i].name.as_str(), name) {
            assert(snapshots_of(backups@)[i as int].name == name@);
            return Some(i);
        }
        i += 1;
    }
    None
}

fn create_in(
    backups: &mut Vec<Backup>,
    stamp: Option<String>,
    scan_info: &ScanInfo,
    os: Option<Os>,
    comment: Option<String>,
    time: Timestamp,
    writable: bool,
) -> (outcome: Result<String, BackupInfo>)
    requires
        ordered(snapshots_of(old(backups)@)),
        distinct_names(snapshots_of(old(backups)@)),
    ensures
        ordered(snapshots_of(final(backups)@)),
        distinct_names(snapshots_of(final(backups)@)),
        creation(
            snapshots_of(old(backups)@),
            snapshots_of(final(backups)@),
            outcome,
            text_of(stamp),
            *scan_info,
            os,
            text_of(comment),
            time,
            writable,
        ),
{
    let ghost before = snapshots_of(backups@);
    if !writable {
        return Err(BackupInfo::total_failure(scan_info, &BackupError::DirectoryUnwritable));
    }
    let text = match stamp {
        Some(text) => text,
        None => {
            return Err(BackupInfo::total_failure(scan_info, &BackupError::SnapshotClash));
        },
    };
    let mut name = "backup-".to_owned();
    name.append(text.as_str());
    assert(name@ == snapshot_name(text@));
    if position_in(backups, name.as_str()).is_some() {
        return Err(BackupInfo::total_failure(scan_info, &BackupError::SnapshotClash));
    }
    if backups.len() > 0 {
        assert(before.last() == backups@[backups@.len() - 1]@);
        if !backups[backups.len() - 1].when.before(&time) {
            return Err(BackupInfo::total_failure(scan_info, &BackupError::SnapshotClash));
        }
    }
    let ghost stored_before = backups@;
    let created = Backup {
        name: name.clone(),
        when: time,
        os,
        comment,
        locked: false,
        manifest: Manifest::of_scan(scan_info),
    };
    backups.push(created);
    proof {
        let after = snapshots_of(backups@);
        let last = stored_before.len() as int;
        assert forall|j: int| 0 <= j < last implies backups@[j] == stored_before[j] by {}
        assert(after =~= before.push(created_snapshot(text@, *scan_info, os, text_of(comment), time)));
        assert forall|a: int, b: int| 0 <= a < b < after.len() implies (#[trigger] after[a]).when.spec_before(
            &(#[trigger] after[b]).when,
        ) && after[a].name != after[b].name by {
            if b < last {
                assert(before[a].when.spec_before(&before[b].when));
                assert(before[a].name != before[b].name);
            } else {
                assert(before[a].name != snapshot_name(text@));
                if a < last - 1 {
                    assert(before[a].when.spec_before(&before[last - 1].when));
                }
            }
        }
    }
    Ok(name)
}

fn set_lock_in(backups: &mut Vec<Backup>, name: &str, locked: bool) -> (found: bool)
    requires
        ordered(snapshots_of(old(backups)@)),
        distinct_names(snapshots_of(old(backups)@)),
    ensures
        ordered(snapshots_of(final(backups)@)),
        distinct_names(snapshots_of(final(backups)@)),
        found == has_snapshot(snapshots_of(old(backups)@), name@),
        snapshots_of(final(backups)@) == with_lock(snapshots_of(old(backups)@), name@, locked),
{
    let ghost before = snapshots_of(backups@);
    match position_in(backups, name) {
        Some(index) => {
            let ghost stored_before = backups@;
            backups[index].locked = locked;
            proof {
                let after = snapshots_of(backups@);
                assert forall|j: int| 0 <= j < backups@.len() implies after[j] == with_lock(
                    before,
                    name@,
                    locked,
                )[j] by {
                    assert(before[j] == stored_before[j]@);
                    if j != index {
                        assert(backups@[j] == stored_before[j]);
                        if j < index {
                            assert(before[j].name != before[index as int].name);
                        } else {
                            assert(before[index as int].name != before[j].name);
                        }
                    }
                }
                assert(after =~= with_lock(before, name@, locked));
                assert forall|a: int, b: int| 0 <= a < b < after.len() implies (#[trigger] after[a]).when.spec_before(
                    &(#[trigger] after[b]).when,
                ) && after[a].name != after[b].name by {
                    assert(before[a].when.spec_before(&before[b].when));
                    assert(before[a].name != before[b].name);
                }
            }
            true
        },
        None => {
            proof {
                assert(snapshots_of(backups@) =~= with_lock(before, name@, locked));
            }
            false
        },
    }
}

fn prune_in(backups: &mut Vec<Backup>, retention: &Retention, now: Timestamp) -> (removed: Vec<String>)
    requires
        ordered(snapshots_of(old(backups)@)),
        distinct_names(snapshots_of(old(backups)@)),
    ensures
        ordered(snapshots_of(final(backups)@)),
        distinct_names(snapshots_of(final(backups)@)),
        snapshots_of(final(backups)@) == after_prune(snapshots_of(old(backups)@), *retention, now),
        texts_of(removed@) == pruned_upto(
            snapshots_of(old(backups)@),
            old(backups)@.len() as int,
            *retention,
            now,
        ),
{
    let ghost before = snapshots_of(backups@);
    let total = backups.len();
    let mut removed: Vec<String> = Vec::new();
    let mut seen: usize = 0;
    let mut at: usize = 0;
    proof {
        assert(snapshots_of(backups@) =~= kept_upto(before, 0, *retention, now) + before.subrange(
            0,
            total as int,
        ));
        assert(texts_of(removed@) =~= pruned_upto(before, 0, *retention, now));
    }
    while seen < total
        invariant
            seen <= total,
            total == before.len(),
            ordered(before),
            distinct_names(before),
            at == kept_upto(before, seen as int, *retention, now).len(),
            at <= seen,
            backups@.len() == at + (total - seen),
            snapshots_of(backups@) == kept_upto(before, seen as int, *retention, now) + before.subrange(
                seen as int,
                total as int,
            ),
            texts_of(removed@) == pruned_upto(before, seen as int, *retention, now),
        decreases total - seen,
    {
        let ghost stored = backups@;
        let ghost current = snapshots_of(backups@);
        assert(current[at as int] == before[seen as int]);
        assert(current[at as int] == stored[at as int]@);
        let candidate = &backups[at];
        let over_count = match retention.keep {
            Some(keep) => total - seen > keep,
            None => false,
        };
        let too_old = match retention.max_age_secs {
            Some(age) => (now.secs as i128) - (candidate.when.secs as i128) > age as i128,
            None => false,
        };
        let remove = seen + 1 < total && !candidate.locked && (over_count || too_old);
        assert(remove == prunable(before, seen as int, *retention, now));
        proof {
            lemma_kept_upto(before, seen as int, *retention, now);
            lemma_kept_upto(before, seen + 1, *retention, now);
        }
        if remove {
            let gone = backups.remove(at);
            let ghost earlier = removed@;
            removed.push(gone.name);
            proof {
                assert(gone == stored[at as int]);
                let after = snapshots_of(backups@);
                assert(after =~= kept_upto(before, seen + 1, *retention, now) + before.subrange(
                    seen + 1,
                    total as int,
                )) by {
                    assert forall|i: int| 0 <= i < after.len() implies after[i] == (kept_upto(
                        before,
                        seen + 1,
                        *retention,
                        now,
                    ) + before.subrange(seen + 1, total as int))[i] by {
                        if i < at {
                            assert(backups@[i] == stored[i]);
                            assert(current[i] == stored[i]@);
                        } else {
                            assert(backups@[i] == stored[i + 1]);
                            assert(current[i + 1] == stored[i + 1]@);
                        }
                    }
                }
                assert(texts_of(removed@) =~= pruned_upto(before, seen + 1, *retention, now)) by {
                    assert(texts_of(earlier) == pruned_upto(before, seen as int, *retention, now));
                    assert forall|i: int| 0 <= i < earlier.len() implies texts_of(removed@)[i] == texts_of(
                        earlier,
                    )[i] by {
                        assert(removed@[i] == earlier[i]);
                    }
                }
            }
        } else {
            proof {
                assert(snapshots_of(backups@) =~= kept_upto(before, seen + 1, *retention, now)
                    + before.subrange(seen + 1, total as int));
            }
            at += 1;
        }
        seen += 1;
    }
    proof {
        assert(snapshots_of(backups@) =~= after_prune(before, *retention, now));
        lemma_kept_upto(before, total as int, *retention, now);
    }
    removed
}

/// The snapshots of one application, oldest first.
pub struct GameLayout {
    backups: Vec<Backup>,
}

impl View for GameLayout {
    type V = Seq<BackupModel>;

    closed spec fn view(&self) -> Seq<BackupModel> {
        snapshots_of(self.backups@)
    }
}

impl GameLayout {
    /// The snapshots are in the order of their creation, and no two
    /// have the same name.
    #[verifier::type_invariant]
    spec fn in_order(&self) -> bool {
        ordered(snapshots_of(self.backups@)) && distinct_names(snapshots_of(self.backups@))
    }

    /// A layout without snapshots.
    pub fn new() -> (layout: Self)
        ensures
            layout@.len() == 0,
    {
        GameLayout { backups: Vec::new() }
    }

    /// How many snapshots there are. They are in the order of their
    /// creation, and no two have the same name.
    pub fn len(&self) -> (count: usize)
        ensures
            count == self@.len(),
            ordered(self@),
            distinct_names(self@),
    {
        proof {
            use_type_invariant(self);
        }
        self.backups.len()
    }

    /// The snapshots, newest first.
    pub fn list(&self) -> (listed: Vec<&Backup>)
        ensures
            listed@.len() == self@.len(),
            forall|i: int| 0 <= i < listed@.len() ==> (#[trigger] listed@[i])@ == self@[self@.len() - 1 - i],
    {
        let mut listed: Vec<&Backup> = Vec::new();
        let mut left: usize = self.backups.len();
        while left > 0
            invariant
                left <= self.backups@.len(),
                listed@.len() == self.backups@.len() - left,
                forall|i: int|
                    0 <= i < listed@.len() ==> (#[trigger] listed@[i])@ == self@[self@.len() - 1 - i],
            decreases left,
        {
            left -= 1;
            listed.push(&self.backups[left]);
        }
        listed
    }

    /// The newest snapshot, if there is any.
    pub fn latest(&self) -> (newest: Option<&Backup>)
        ensures
            newest is Some == (self@.len() > 0),
            newest matches Some(backup) ==> backup@ == self@.last(),
    {
        if self.backups.len() == 0 {
            None
        } else {
            Some(&self.backups[self.backups.len() - 1])
        }
    }

    /// The snapshot called `name`, if there is one.
    pub fn find(&self, name: &str) -> (found: Option<&Backup>)
        ensures
            found is Some == has_snapshot(self@, name@),
            found matches Some(backup) ==> backup@.name == name@ && self@.contains(backup@),
    {
        match position_in(&self.backups, name) {
            Some(index) => {
                assert(self@[index as int] == self.backups@[index as int]@);
                Some(&self.backups[index])
            },
            None => None,
        }
    }

    /// Creates a snapshot of what `scan_info` found, at the time `time`,
    /// whose second is written as `stamp` in the snapshot's name.
    pub fn create_named(
        &mut self,
        stamp: Option<String>,
        scan_info: &ScanInfo,
        os: Option<Os>,
        comment: Option<String>,
        time: Timestamp,
        writable: bool,
    ) -> (outcome: Result<String, BackupInfo>)
        ensures
            creation(
                old(self)@,
                final(self)@,
                outcome,
                text_of(stamp),
                *scan_info,
                os,
                text_of(comment),
                time,
                writable,
            ),
            ordered(final(self)@),
            distinct_names(final(self)@),
    {
        proof {
            use_type_invariant(&*self);
        }
        let mut backups: Vec<Backup> = Vec::new();
        std::mem::swap(&mut backups, &mut self.backups);
        let outcome = create_in(&mut backups, stamp, scan_info, os, comment, time, writable);
        self.backups = backups;
        outcome
    }

    /// Creates a snapshot of what `scan_info` found, at the time `time`.
    ///
    /// `writable` says whether the application's snapshot directory could
    /// be prepared. The snapshot's name is derived from the second of `time`.
    pub fn create(
        &mut self,
        scan_info: &ScanInfo,
        os: Option<Os>,
        comment: Option<String>,
        time: Timestamp,
        writable: bool,
    ) -> (outcome: Result<String, BackupInfo>)
        ensures
            creation(
                old(self)@,
                final(self)@,
                outcome,
                utc_stamp_text(time.secs),
                *scan_info,
                os,
                text_of(comment),
                time,
                writable,
            ),
            ordered(final(self)@),
            distinct_names(final(self)@),
    {
        let stamp = utc_stamp(time.secs);
        self.create_named(stamp, scan_info, os, comment, time, writable)
    }

    /// Exempts the snapshot called `name` from pruning. Says whether there
    /// is such a snapshot; locking a locked snapshot changes nothing.
    pub fn lock(&mut self, name: &str) -> (found: bool)
        ensures
            found == has_snapshot(old(self)@, name@),
            final(self)@ == with_lock(old(self)@, name@, true),
    {
        proof {
            use_type_invariant(&*self);
        }
        let mut backups: Vec<Backup> = Vec::new();
        std::mem::swap(&mut backups, &mut self.backups);
        let found = set_lock_in(&mut backups, name, true);
        self.backups = backups;
        found
    }

    /// Lifts the exemption of the snapshot called `name`. Says whether
    /// there is such a snapshot; unlocking an unlocked snapshot changes nothing.
    pub fn unlock(&mut self, name: &str) -> (found: bool)
        ensures
            found == has_snapshot(old(self)@, name@),
            final(self)@ == with_lock(old(self)@, name@, false),
    {
        proof {
            use_type_invariant(&*self);
        }
        let mut backups: Vec<Backup> = Vec::new();
        std::mem::swap(&mut backups, &mut self.backups);
        let found = set_lock_in(&mut backups, name, false);
        self.backups = backups;
        found
    }

    /// Removes the snapshots that the policy has expired at time `now`,
    /// but none that is locked and never the newest. Returns the names of
    /// the snapshots removed, oldest first.
    pub fn prune(&mut self, retention: &Retention, now: Timestamp) -> (removed: Vec<String>)
        ensures
            final(self)@ == after_prune(old(self)@, *retention, now),
            texts_of(removed@) == pruned_upto(old(self)@, old(self)@.len() as int, *retention, now),
            forall|i: int|
                0 <= i < old(self)@.len() && ((#[trigger] old(self)@[i]).locked || i == old(self)@.len() - 1)
                    ==> final(self)@.contains(old(self)@[i]),
    {
        proof {
            use_type_invariant(&*self);
        }
        let ghost before = self@;
        let mut backups: Vec<Backup> = Vec::new();
        std::mem::swap(&mut backups, &mut self.backups);
        let removed = prune_in(&mut backups, retention, now);
        self.backups = backups;
        proof {
            assert forall|i: int|
                0 <= i < before.len() && ((#[trigger] before[i]).locked || i == before.len() - 1) implies self@.contains(
                before[i],
            ) by {
                lemma_prune_spares_locked_and_newest(before, *retention, now, i);
            }
        }
        removed
    }
}

} // verus!
