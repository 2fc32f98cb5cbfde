//! Reconciliation of the local snapshots with what a remote store holds.
//!
//! For every path of the sending side the result is either its change
//! relative to the other side, or a conflict where both sides have moved
//! away from what was last synchronized. A conflict is never settled here
//! in favour of either side.

use vstd::prelude::*;

use crate::change::{classification, classify, Baseline, BaselineModel, Fingerprint, FingerprintModel, ScanChange};
use crate::listing::{find_named, has_name, place_of};
use crate::scan::BackupError;
use crate::text::texts_of;

verus! {

/// Which way data would move.
#[derive(Clone, Copy, Debug, PartialEq, Eq, Structural)]
pub enum SyncDirection {
    /// From the local files to the remote store.
    Upload,
    /// From the remote store to the local files.
    Download,
}

/// A path of the remote store with its change relative to the direction.
#[derive(Debug)]
pub struct CloudChange {
    /// The path, relative to the remote folder.
    pub path: String,
    /// How the sending side's file compares to the receiving side's.
    pub change: ScanChange,
}

/// What reconciliation found for one path.
#[derive(Clone, Copy, Debug, PartialEq, Eq, Structural)]
pub enum CloudOutcome {
    /// The path's change relative to the direction.
    Change(ScanChange),
    /// Both sides changed since they were last synchronized.
    Conflict,
}

/// A path with what reconciliation found for it.
#[derive(Debug)]
pub struct CloudFinding {
    /// The path, relative to the remote folder.
    pub path: String,
    /// What was found.
    pub outcome: CloudOutcome,
}

/// The hash that `listing` holds for `path`, if it has the path.
pub open spec fn hash_in(listing: Seq<(String, String)>, path: Seq<char>) -> Option<Seq<char>> {
    if has_name(listing, path) {
        Some(listing[place_of(listing, path)].1@)
    } else {
        None
    }
}

/// Whether both sides have `path` in a state that differs from the other
/// side's and from the state that was last synchronized.
pub open spec fn in_conflict(
    local: Seq<(String, String)>,
    remote: Seq<(String, String)>,
    synced: Seq<(String, String)>,
    path: Seq<char>,
) -> bool {
    &&& hash_in(local, path) != hash_in(synced, path)
    &&& hash_in(remote, path) != hash_in(synced, path)
    &&& hash_in(local, path) != hash_in(remote, path)
}

/// What `listing` holds for `path`, as a baseline.
pub open spec fn baseline_at(listing: Seq<(String, String)>, path: Seq<char>) -> BaselineModel {
    match hash_in(listing, path) {
        Some(hash) => BaselineModel::Found(FingerprintModel::Hashed(hash)),
        None => BaselineModel::Absent,
    }
}

/// What reconciliation finds for the sending side's entry `(path, hash)`.
pub open spec fn outcome_on(
    local: Seq<(String, String)>,
    remote: Seq<(String, String)>,
    synced: Seq<(String, String)>,
    direction: SyncDirection,
    path: Seq<char>,
    hash: Seq<char>,
) -> CloudOutcome {
    if in_conflict(local, remote, synced, path) {
        CloudOutcome::Conflict
    } else {
        CloudOutcome::Change(
            classification(
                FingerprintModel::Hashed(hash),
                baseline_at(
                    match direction {
                        SyncDirection::Upload => remote,
                        SyncDirection::Download => local,
                    },
                    path,
                ),
            ),
        )
    }
}

/// The side that data would be sent from.
pub open spec fn sending_side(
    local: Seq<(String, String)>,
    remote: Seq<(String, String)>,
    direction: SyncDirection,
) -> Seq<(String, String)> {
    match direction {
        SyncDirection::Upload => local,
        SyncDirection::Download => remote,
    }
}

/// Whether an outcome asks for a transfer: the path is new or different on
/// the sending side. A conflict asks for none.
pub open spec fn wants_transfer(outcome: CloudOutcome) -> bool {
    outcome == CloudOutcome::Change(ScanChange::New) || outcome == CloudOutcome::Change(
        ScanChange::Different,
    )
}

/// The paths among `entries` whose outcome asks for a transfer, in order.
pub open spec fn planned_paths(entries: Seq<CloudFinding>) -> Seq<Seq<char>>
    decreases entries.len(),
{
    if entries.len() == 0 {
        Seq::empty()
    } else if wants_transfer(entries.last().outcome) {
        planned_paths(entries.drop_last()).push(entries.last().path@)
    } else {
        planned_paths(entries.drop_last())
    }
}

/// The entries that are not in conflict, each as path and change, in order.
pub open spec fn settled_changes(entries: Seq<CloudFinding>) -> Seq<(Seq<char>, ScanChange)>
    decreases entries.len(),
{
    if entries.len() == 0 {
        Seq::empty()
    } else {
        match entries.last().outcome {
            CloudOutcome::Change(change) => settled_changes(entries.drop_last()).push(
                (entries.last().path@, change),
            ),
            CloudOutcome::Conflict => settled_changes(entries.drop_last()),
        }
    }
}

/// Whether some entry is in conflict.
pub open spec fn any_conflict(entries: Seq<CloudFinding>) -> bool {
    exists|i: int| 0 <= i < entries.len() && (#[trigger] entries[i]).outcome == CloudOutcome::Conflict
}

fn lookup<'a>(listing: &'a Vec<(String, String)>, path: &str) -> (hash: Option<&'a String>)
    ensures
        hash is Some == hash_in(listing@, path@) is Some,
        hash matches Some(text) ==> hash_in(listing@, path@) == Some(text@),
{
    match find_named(listing, path) {
        Some(index) => Some(&listing[index].1),
        None => None,
    }
}

fn same_state(a: Option<&String>, b: Option<&String>) -> (same: bool)
    ensures
        same == (match (a, b) {
            (Some(x), Some(y)) => x@ == y@,
            (None, None) => true,
            _ => false,
        }),
{
    match (a, b) {
        (Some(x), Some(y)) => *x == *y,
        (None, None) => true,
        _ => false,
    }
}

/// Compares the local files with the remote store.
///
/// `local` and `remote` list each side's paths with their hashes; `synced`
/// lists what both sides held when they were last synchronized. The
/// result has one entry for each entry of the sending side, in its order.
pub fn reconcile(
    local: &Vec<(String, String)>,
    remote: &Vec<(String, String)>,
    synced: &Vec<(String, String)>,
    direction: SyncDirection,
) -> (entries: Vec<CloudFinding>)
    ensures
        entries@.len() == sending_side(local@, remote@, direction).len(),
        forall|i: int|
            0 <= i < entries@.len() ==> {
                let sent = sending_side(local@, remote@, direction)[i];
                &&& (#[trigger] entries@[i]).path == sent.0
                &&& entries@[i].outcome == outcome_on(local@, remote@, synced@, direction, sent.0@, sent.1@)
            },
{
    let source = match direction {
        SyncDirection::Upload => local,
        SyncDirection::Download => remote,
    };
    let target = match direction {
        SyncDirection::Upload => remote,
        SyncDirection::Download => local,
    };
    let mut entries: Vec<CloudFinding> = Vec::new();
    let mut i: usize = 0;
    while i < source.len()
        invariant
            i <= source@.len(),
            source@ == sending_side(local@, remote@, direction),
            target@ == (match direction {
                SyncDirection::Upload => remote@,
                SyncDirection::Download => local@,
            }),
            entries@.len() == i,
            forall|j: int|
                0 <= j < i ==> (#[trigger] entries@[j]).path == source@[j].0 && entries@[j].outcome
                    == outcome_on(local@, remote@, synced@, direction, source@[j].0@, source@[j].1@),
        decreases source@.len() - i,
    {
        let path = &source[i].0;
        let here = lookup(local, path.as_str());
        let there = lookup(remote, path.as_str());
        let last = lookup(synced, path.as_str());
        let conflict = !same_state(here, last) && !same_state(there, last) && !same_state(here, there);
        let outcome = if conflict {
            CloudOutcome::Conflict
        } else {
            let baseline = match lookup(target, path.as_str()) {
                Some(hash) => Baseline::Found(Fingerprint::Hashed(hash.clone())),
                None => Baseline::Absent,
            };
            CloudOutcome::Change(classify(&Fingerprint::Hashed(source[i].1.clone()), &baseline))
        };
        entries.push(CloudFinding { path: path.clone(), outcome });
        i += 1;
    }
    entries
}

/// Whether some entry is in conflict.
pub fn has_conflict(entries: &Vec<CloudFinding>) -> (conflict: bool)
    ensures
        conflict == any_conflict(entries@),
{
    let mut i: usize = 0;
    while i < entries.len()
        invariant
            i <= entries@.len(),
            forall|j: int| 0 <= j < i ==> (#[trigger] entries@[j]).outcome != CloudOutcome::Conflict,
        decreases entries@.len() - i,
    {
        if let CloudOutcome::Conflict = entries[i].outcome {
            return true;
        }
        i += 1;
    }
    false
}

/// The paths to transfer: those that are new or different on the sending
/// side. A path in conflict is not among them.
pub fn transfers(entries: &Vec<CloudFinding>) -> (paths: Vec<String>)
    ensures
        texts_of(paths@) == planned_paths(entries@),
{
    let mut paths: Vec<String> = Vec::new();
    let mut i: usize = 0;
    proof {
        assert(texts_of(paths@) =~= planned_paths(entries@.take(0)));
    }
    while i < entries.len()
        invariant
            i <= entries@.len(),
            texts_of(paths@) == planned_paths(entries@.take(i as int)),
        decreases entries@.len() - i,
    {
        let ghost earlier = paths@;
        proof {
            assert(entries@.take(i + 1).drop_last() == entries@.take(i as int));
        }
        let wanted = match entries[i].outcome {
            CloudOutcome::Change(ScanChange::New) => true,
            CloudOutcome::Change(ScanChange::Different) => true,
            _ => false,
        };
        if wanted {
            paths.push(entries[i].path.clone());
            proof {
                assert(texts_of(paths@) =~= texts_of(earlier).push(entries@[i as int].path@));
            }
        }
        i += 1;
    }
    proof {
        assert(entries@.take(i as int) == entries@);
    }
    paths
}

/// The changes of the paths that are not in conflict.
pub fn changes(entries: &Vec<CloudFinding>) -> (listed: Vec<CloudChange>)
    ensures
        Seq::new(listed@.len(), |i: int| (listed@[i].path@, listed@[i].change)) == settled_changes(
            entries@,
        ),
{
    let mut listed: Vec<CloudChange> = Vec::new();
    let mut i: usize = 0;
    proof {
        assert(Seq::new(listed@.len(), |i: int| (listed@[i].path@, listed@[i].change)) =~= settled_changes(
            entries@.take(0),
        ));
    }
    while i < entries.len()
        invariant
            i <= entries@.len(),
            Seq::new(listed@.len(), |i: int| (listed@[i].path@, listed@[i].change)) == settled_changes(
                entries@.take(i as int),
            ),
        decreases entries@.len() - i,
    {
        let ghost earlier = listed@;
        proof {
            assert(entries@.take(i + 1).drop_last() == entries@.take(i as int));
        }
        if let CloudOutcome::Change(change) = entries[i].outcome {
            listed.push(CloudChange { path: entries[i].path.clone(), change });
            proof {
                assert(Seq::new(listed@.len(), |i: int| (listed@[i].path@, listed@[i].change)) =~= Seq::new(
                    earlier.len(),
                    |i: int| (earlier[i].path@, earlier[i].change),
                ).push((entries@[i as int].path@, change)));
            }
        }
        i += 1;
    }
    proof {
        assert(entries@.take(i as int) == entries@);
    }
    listed
}

/// A path in conflict is never among the paths to transfer, and has no
/// change among the settled ones.
pub proof fn lemma_conflict_plans_no_transfer(entries: Seq<CloudFinding>, path: Seq<char>)
    requires
        forall|i: int|
            0 <= i < entries.len() && (#[trigger] entries[i]).path@ == path ==> entries[i].outcome
                == CloudOutcome::Conflict,
    ensures
        !planned_paths(entries).contains(path),
        forall|change: ScanChange| !settled_changes(entries).contains((path, change)),
    decreases entries.len(),
{
    if entries.len() > 0 {
        let earlier = entries.drop_last();
        assert forall|i: int| 0 <= i < earlier.len() && (#[trigger] earlier[i]).path@ == path implies earlier[i].outcome
            == CloudOutcome::Conflict by {
            assert(earlier[i] == entries[i]);
        }
        lemma_conflict_plans_no_transfer(earlier, path);
        assert(entries.last() == entries[entries.len() - 1]);
        let planned = planned_paths(entries);
        if planned.contains(path) {
            let w = choose|w: int| 0 <= w < planned.len() && planned[w] == path;
            if w < planned_paths(earlier).len() {
                assert(planned_paths(earlier)[w] == path);
            } else {
                assert(entries[entries.len() - 1].path@ == path);
            }
        }
        assert forall|change: ScanChange| !settled_changes(entries).contains((path, change)) by {
            let settled = settled_changes(entries);
            if settled.contains((path, change)) {
                let w = choose|w: int| 0 <= w < settled.len() && settled[w] == (path, change);
                let before = settled_changes(earlier);
                if w < before.len() {
                    assert(before[w] == (path, change));
                    assert(before.contains((path, change)));
                } else {
                    assert(entries[entries.len() - 1].path@ == path);
                }
            }
        }
    }
}

/// What became of the transfers that were planned.
#[derive(Debug)]
pub struct SyncReport {
    /// The paths that were transferred.
    pub done: Vec<String>,
    /// The paths whose transfer failed.
    pub failed: Vec<String>,
}

/// Those of `planned` that `failures` names, where `failed` is set, or
/// those that it does not name, where it is not; in order.
pub open spec fn paths_by_outcome(planned: Seq<String>, failures: Seq<(String, BackupError)>, failed: bool) -> Seq<
    Seq<char>,
>
    decreases planned.len(),
{
    if planned.len() == 0 {
        Seq::empty()
    } else if has_name(failures, planned.last()@) == failed {
        paths_by_outcome(planned.drop_last(), failures, failed).push(planned.last()@)
    } else {
        paths_by_outcome(planned.drop_last(), failures, failed)
    }
}

impl SyncReport {
    pub open spec fn spec_sync_failed(&self) -> bool {
        self.failed@.len() > 0
    }

    /// Whether the transfer of some path failed.
    #[verifier::when_used_as_spec(spec_sync_failed)]
    pub fn sync_failed(&self) -> (failed: bool)
        ensures
            failed == self.spec_sync_failed(),
    {
        self.failed.len() > 0
    }
}

/// Sorts the planned transfers by what the transport reported: a path
/// that `failures` names has failed, every other path is done. One path's
/// failure leaves the others as they are.
pub fn settle(planned: &Vec<String>, failures: &Vec<(String, BackupError)>) -> (report: SyncReport)
    ensures
        texts_of(report.done@) == paths_by_outcome(planned@, failures@, false),
        texts_of(report.failed@) == paths_by_outcome(planned@, failures@, true),
        report.done@.len() + report.failed@.len() == planned@.len(),
{
    let mut done: Vec<String> = Vec::new();
    let mut failed: Vec<String> = Vec::new();
    let mut i: usize = 0;
    proof {
        assert(texts_of(done@) =~= paths_by_outcome(planned@.take(0), failures@, false));
        assert(texts_of(failed@) =~= paths_by_outcome(planned@.take(0), failures@, true));
    }
    while i < planned.len()
        invariant
            i <= planned@.len(),
            texts_of(done@) == paths_by_outcome(planned@.take(i as int), failures@, false),
            texts_of(failed@) == paths_by_outcome(planned@.take(i as int), failures@, true),
            done@.len() + failed@.len() == i,
        decreases planned@.len() - i,
    {
        let ghost done_before = done@;
        let ghost failed_before = failed@;
        proof {
            assert(planned@.take(i + 1).drop_last() == planned@.take(i as int));
        }
        if find_named(failures, planned[i].as_str()).is_some() {
            failed.push(planned[i].clone());
            proof {
                assert(texts_of(failed@) =~= texts_of(failed_before).push(planned@[i as int]@));
            }
        } else {
            done.push(planned[i].clone());
            proof {
                assert(texts_of(done@) =~= texts_of(done_before).push(planned@[i as int]@));
            }
        }
        i += 1;
    }
    proof {
        assert(planned@.take(i as int) == planned@);
    }
    SyncReport { done, failed }
}

} // verus!
