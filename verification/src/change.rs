//! Change classification of a scanned entry against its baseline.

use vstd::prelude::*;

verus! {

/// How a scanned entry compares to its baseline.
#[derive(Clone, Copy, Debug, PartialEq, Eq, Structural, Hash)]
pub enum ScanChange {
    /// The entry exists now and has no counterpart in the baseline.
    New,
    /// The entry exists on both sides and its content differs.
    Different,
    /// The entry exists on both sides with identical content.
    Same,
    /// No baseline was available, so nothing can be said.
    Unknown,
}

impl Default for ScanChange {
    fn default() -> (change: Self)
        ensures
            change == ScanChange::Unknown,
    {
        ScanChange::Unknown
    }
}

impl ScanChange {
    /// Precedence of a classification when several are reduced to one:
    /// `New` over `Different` over `Same` over `Unknown`.
    pub open spec fn rank(self) -> nat {
        match self {
            ScanChange::New => 3,
            ScanChange::Different => 2,
            ScanChange::Same => 1,
            ScanChange::Unknown => 0,
        }
    }

    /// The classification of higher precedence among two.
    pub open spec fn spec_worse(self, other: ScanChange) -> ScanChange {
        if other.rank() > self.rank() {
            other
        } else {
            self
        }
    }

    /// The classification of higher precedence among `self` and `other`.
    pub fn worse(self, other: ScanChange) -> (out: ScanChange)
        ensures
            out == self.spec_worse(other),
    {
        match (self, other) {
            (ScanChange::New, _) => ScanChange::New,
            (_, ScanChange::New) => ScanChange::New,
            (ScanChange::Different, _) => ScanChange::Different,
            (_, ScanChange::Different) => ScanChange::Different,
            (ScanChange::Same, _) => ScanChange::Same,
            (_, ScanChange::Same) => ScanChange::Same,
            _ => ScanChange::Unknown,
        }
    }

    /// The sign that stands for the classification in a list of changes.
    pub open spec fn spec_symbol(&self) -> Seq<char> {
        match self {
            ScanChange::New => "+"@,
            ScanChange::Different => "Δ"@,
            ScanChange::Same => "="@,
            ScanChange::Unknown => "?"@,
        }
    }

    /// The sign that stands for the classification in a list of changes.
    pub fn symbol(&self) -> (sign: &'static str)
        ensures
            sign@ == self.spec_symbol(),
    {
        match self {
            ScanChange::New => "+",
            ScanChange::Different => "Δ",
            ScanChange::Same => "=",
            ScanChange::Unknown => "?",
        }
    }
}

/// What is known of an entry's content: a content hash, or, for entries
/// that carry no content of their own, only that the entry exists.
#[derive(Debug)]
pub enum Fingerprint {
    /// The entry exists; it has no content to compare.
    Present,
    /// The entry exists with this content hash.
    Hashed(String),
}

/// Mathematical value of a [`Fingerprint`].
pub enum FingerprintModel {
    Present,
    Hashed(Seq<char>),
}

impl View for Fingerprint {
    type V = FingerprintModel;

    open spec fn view(&self) -> FingerprintModel {
        match self {
            Fingerprint::Present => FingerprintModel::Present,
            Fingerprint::Hashed(hash) => FingerprintModel::Hashed(hash@),
        }
    }
}

/// What the baseline holds for an entry.
#[derive(Debug)]
pub enum Baseline {
    /// There is no baseline at all, or change tracking is switched off.
    Unavailable,
    /// There is a baseline and it has no counterpart of the entry.
    Absent,
    /// The baseline records the entry with this fingerprint.
    Found(Fingerprint),
}

/// Mathematical value of a [`Baseline`].
pub enum BaselineModel {
    Unavailable,
    Absent,
    Found(FingerprintModel),
}

impl View for Baseline {
    type V = BaselineModel;

    open spec fn view(&self) -> BaselineModel {
        match self {
            Baseline::Unavailable => BaselineModel::Unavailable,
            Baseline::Absent => BaselineModel::Absent,
            Baseline::Found(fingerprint) => BaselineModel::Found(fingerprint@),
        }
    }
}

/// The classification of an entry with fingerprint `current` against `baseline`.
pub open spec fn classification(current: FingerprintModel, baseline: BaselineModel) -> ScanChange {
    match baseline {
        BaselineModel::Unavailable => ScanChange::Unknown,
        BaselineModel::Absent => ScanChange::New,
        BaselineModel::Found(recorded) => if recorded == current {
            ScanChange::Same
        } else {
            ScanChange::Different
        },
    }
}

impl Clone for Fingerprint {
    fn clone(&self) -> (copy: Self)
        ensures
            copy == *self,
    {
        match self {
            Fingerprint::Present => Fingerprint::Present,
            Fingerprint::Hashed(hash) => Fingerprint::Hashed(hash.clone()),
        }
    }
}

impl Clone for Baseline {
    fn clone(&self) -> (copy: Self)
        ensures
            copy == *self,
    {
        match self {
            Baseline::Unavailable => Baseline::Unavailable,
            Baseline::Absent => Baseline::Absent,
            Baseline::Found(fingerprint) => Baseline::Found(fingerprint.clone()),
        }
    }
}

impl Fingerprint {
    /// Whether two fingerprints stand for the same content.
    pub fn matches(&self, other: &Fingerprint) -> (same: bool)
        ensures
            same == (self@ == other@),
    {
        match (self, other) {
            (Fingerprint::Present, Fingerprint::Present) => true,
            (Fingerprint::Hashed(a), Fingerprint::Hashed(b)) => *a == *b,
            _ => false,
        }
    }
}

/// Classifies an entry that exists now against what the baseline holds for it.
///
/// The result depends on the two values alone, and neither is modified, so
/// classifying the same pair again gives the same answer.
pub fn classify(current: &Fingerprint, baseline: &Baseline) -> (change: ScanChange)
    ensures
        change == classification(current@, baseline@),
{
    match baseline {
        Baseline::Unavailable => ScanChange::Unknown,
        Baseline::Absent => ScanChange::New,
        Baseline::Found(recorded) => if recorded.matches(current) {
            ScanChange::Same
        } else {
            ScanChange::Different
        },
    }
}

} // verus!
