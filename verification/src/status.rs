//! The running tally of one operation over all its applications.

use vstd::prelude::*;

use crate::change::ScanChange;
use crate::scan::{BackupInfo, ScanInfo};

verus! {

/// How many applications were counted as new, different and same.
#[derive(Clone, Copy, Debug, PartialEq, Eq, Structural)]
pub struct ScanChangeCount {
    pub new: usize,
    pub different: usize,
    pub same: usize,
}

/// The tally as a mathematical value.
pub struct StatusModel {
    pub total_games: nat,
    pub total_bytes: nat,
    pub processed_games: nat,
    pub processed_bytes: nat,
    pub new_games: nat,
    pub different_games: nat,
    pub same_games: nat,
}

impl StatusModel {
    /// The tally before any application was added.
    pub open spec fn zero() -> StatusModel {
        StatusModel {
            total_games: 0,
            total_bytes: 0,
            processed_games: 0,
            processed_bytes: 0,
            new_games: 0,
            different_games: 0,
            same_games: 0,
        }
    }

    /// What was processed is no more than what was seen, and each
    /// application is in at most one bucket.
    pub open spec fn bounded(self) -> bool {
        &&& self.processed_games <= self.total_games
        &&& self.processed_bytes <= self.total_bytes
        &&& self.new_games + self.different_games + self.same_games <= self.total_games
    }

    /// The tally after one more application: `found` bytes were discovered,
    /// `done` of them handled; `processed` says whether the application
    /// counts as processed, and `change` is its classification as a whole.
    pub open spec fn with_game(self, found: nat, done: nat, processed: bool, change: ScanChange) -> StatusModel {
        StatusModel {
            total_games: self.total_games + 1,
            total_bytes: self.total_bytes + found,
            processed_games: if processed {
                self.processed_games + 1
            } else {
                self.processed_games
            },
            processed_bytes: if processed {
                self.processed_bytes + done
            } else {
                self.processed_bytes
            },
            new_games: if change == ScanChange::New {
                self.new_games + 1
            } else {
                self.new_games
            },
            different_games: if change == ScanChange::Different {
                self.different_games + 1
            } else {
                self.different_games
            },
            same_games: if change == ScanChange::Same {
                self.same_games + 1
            } else {
                self.same_games
            },
        }
    }

    /// The tally after `scan_info` was added with `backup_info`.
    pub open spec fn with_scan(self, scan_info: ScanInfo, backup_info: Option<BackupInfo>, processed: bool) -> StatusModel {
        self.with_game(
            scan_info.total_size(),
            scan_info.processed_size(backup_info),
            processed,
            scan_info.spec_overall_change(),
        )
    }
}

/// The outcome behind an optional reference.
pub open spec fn owned(backup_info: Option<&BackupInfo>) -> Option<BackupInfo> {
    match backup_info {
        Some(info) => Some(*info),
        None => None,
    }
}

/// Adding an application keeps the tally bounded, and never lowers a count.
pub proof fn lemma_with_game_bounded(status: StatusModel, found: nat, done: nat, processed: bool, change: ScanChange)
    requires
        status.bounded(),
        done <= found,
    ensures
        status.with_game(found, done, processed, change).bounded(),
        status.with_game(found, done, processed, change).total_games == status.total_games + 1,
        status.with_game(found, done, processed, change).total_bytes >= status.total_bytes,
        status.with_game(found, done, processed, change).processed_games >= status.processed_games,
        status.with_game(found, done, processed, change).processed_bytes >= status.processed_bytes,
{
}

/// One application as it is added to the tally.
pub struct AddedGame {
    pub scan_info: ScanInfo,
    pub backup_info: Option<BackupInfo>,
    pub processed: bool,
}

/// The tally after all of `games` were added, in their order, to an empty one.
pub open spec fn tally_of_scans(games: Seq<AddedGame>) -> StatusModel
    decreases games.len(),
{
    if games.len() == 0 {
        StatusModel::zero()
    } else {
        let last = games.last();
        tally_of_scans(games.drop_last()).with_scan(last.scan_info, last.backup_info, last.processed)
    }
}

/// After any sequence of applications is added, the processed
/// applications are no more than all applications, and the processed
/// bytes no more than all bytes.
pub proof fn lemma_processed_within_totals(games: Seq<AddedGame>)
    ensures
        tally_of_scans(games).processed_games <= tally_of_scans(games).total_games,
        tally_of_scans(games).processed_bytes <= tally_of_scans(games).total_bytes,
        tally_of_scans(games).bounded(),
    decreases games.len(),
{
    if games.len() > 0 {
        lemma_processed_within_totals(games.drop_last());
        let last = games.last();
        if last.backup_info is Some {
            crate::scan::lemma_sizes_split(last.scan_info.found_files@, last.backup_info->0);
        }
    }
}

/// An application whose classification is `Unknown` is counted in the
/// totals and in none of the three buckets.
pub proof fn lemma_unknown_is_in_no_bucket(status: StatusModel, found: nat, done: nat, processed: bool)
    ensures
        status.with_game(found, done, processed, ScanChange::Unknown).new_games == status.new_games,
        status.with_game(found, done, processed, ScanChange::Unknown).different_games
            == status.different_games,
        status.with_game(found, done, processed, ScanChange::Unknown).same_games == status.same_games,
        status.with_game(found, done, processed, ScanChange::Unknown).total_games == status.total_games + 1,
{
}

/// The running tally of one operation.
#[derive(Debug)]
pub struct OperationStatus {
    total_games: usize,
    total_bytes: u64,
    processed_games: usize,
    processed_bytes: u64,
    changed_games: ScanChangeCount,
}

impl View for OperationStatus {
    type V = StatusModel;

    closed spec fn view(&self) -> StatusModel {
        StatusModel {
            total_games: self.total_games as nat,
            total_bytes: self.total_bytes as nat,
            processed_games: self.processed_games as nat,
            processed_bytes: self.processed_bytes as nat,
            new_games: self.changed_games.new as nat,
            different_games: self.changed_games.different as nat,
            same_games: self.changed_games.same as nat,
        }
    }
}

impl OperationStatus {
    /// What was processed is never more than what was seen.
    #[verifier::type_invariant]
    spec fn within_totals(&self) -> bool {
        self@.bounded()
    }
}

impl Default for OperationStatus {
    fn default() -> (status: Self)
        ensures
            status@ == StatusModel::zero(),
    {
        OperationStatus {
            total_games: 0,
            total_bytes: 0,
            processed_games: 0,
            processed_bytes: 0,
            changed_games: ScanChangeCount { new: 0, different: 0, same: 0 },
        }
    }
}

impl Clone for OperationStatus {
    fn clone(&self) -> (copy: Self)
        ensures
            copy == *self,
    {
        proof {
            use_type_invariant(self);
        }
        OperationStatus {
            total_games: self.total_games,
            total_bytes: self.total_bytes,
            processed_games: self.processed_games,
            processed_bytes: self.processed_bytes,
            changed_games: self.changed_games,
        }
    }
}

impl OperationStatus {
    /// Whether one more application with `scan_info` can be counted
    /// without a count running over what its integer holds.
    pub open spec fn has_room_for(&self, scan_info: ScanInfo) -> bool {
        &&& self@.total_games < usize::MAX
        &&& self@.total_bytes + scan_info.total_size() <= u64::MAX
    }

    /// Whether one more application with `scan_info` can be counted.
    pub fn can_add(&self, scan_info: &ScanInfo) -> (room: bool)
        ensures
            room == self.has_room_for(*scan_info),
    {
        if self.total_games == usize::MAX {
            return false;
        }
        match scan_info.checked_total_bytes() {
            Some(found) => found <= u64::MAX - self.total_bytes,
            None => false,
        }
    }

    /// Counts one application.
    ///
    /// The totals always grow, by one application and by everything the
    /// scan found. The processed counts grow only where `processed` is
    /// set, the bytes then by what did not fail. The application enters
    /// the bucket of its overall change; with `Unknown` it enters none.
    pub fn add_game(&mut self, scan_info: &ScanInfo, backup_info: Option<&BackupInfo>, processed: bool)
        requires
            old(self).has_room_for(*scan_info),
        ensures
            final(self)@ == old(self)@.with_scan(*scan_info, owned(backup_info), processed),
            final(self)@.bounded(),
            final(self)@.processed_games <= final(self)@.total_games,
            final(self)@.processed_bytes <= final(self)@.total_bytes,
    {
        proof {
            use_type_invariant(&*self);
        }
        let found = scan_info.total_possible_bytes();
        self.total_games = self.total_games + 1;
        self.total_bytes = self.total_bytes + found;
        if processed {
            let done = scan_info.sum_bytes(backup_info);
            self.processed_games = self.processed_games + 1;
            self.processed_bytes = self.processed_bytes + done;
        }
        match scan_info.overall_change() {
            ScanChange::New => {
                self.changed_games.new = self.changed_games.new + 1;
            },
            ScanChange::Different => {
                self.changed_games.different = self.changed_games.different + 1;
            },
            ScanChange::Same => {
                self.changed_games.same = self.changed_games.same + 1;
            },
            ScanChange::Unknown => {},
        }
    }

    /// Applications seen.
    pub fn total_games(&self) -> (count: usize)
        ensures
            count == self@.total_games,
    {
        self.total_games
    }

    /// Bytes discovered.
    pub fn total_bytes(&self) -> (bytes: u64)
        ensures
            bytes == self@.total_bytes,
    {
        self.total_bytes
    }

    /// Applications handled: never more than were seen.
    pub fn processed_games(&self) -> (count: usize)
        ensures
            count == self@.processed_games,
            count <= self@.total_games,
    {
        proof {
            use_type_invariant(self);
        }
        self.processed_games
    }

    /// Bytes handled: never more than were discovered.
    pub fn processed_bytes(&self) -> (bytes: u64)
        ensures
            bytes == self@.processed_bytes,
            bytes <= self@.total_bytes,
    {
        proof {
            use_type_invariant(self);
        }
        self.processed_bytes
    }

    /// Applications per kind of change.
    pub fn changed_games(&self) -> (counts: ScanChangeCount)
        ensures
            counts.new == self@.new_games,
            counts.different == self@.different_games,
            counts.same == self@.same_games,
    {
        self.changed_games
    }

    /// Whether every application seen was handled.
    pub fn processed_all_games(&self) -> (all: bool)
        ensures
            all == (self@.processed_games == self@.total_games),
    {
        self.processed_games == self.total_games
    }

    /// Whether every byte discovered was handled.
    pub fn processed_all_bytes(&self) -> (all: bool)
        ensures
            all == (self@.processed_bytes == self@.total_bytes),
    {
        self.processed_bytes == self.total_bytes
    }
}

} // verus!
