//! The manifest of a snapshot: the fingerprint of every entry captured.
//! It is the baseline that later scans are classified against.

use vstd::prelude::*;

use crate::change::{classification, classify, Baseline, BaselineModel, Fingerprint, FingerprintModel};
use crate::duplicate::{
    lemma_resources_all, lemma_resources_next_file, lemma_resources_next_key, lemma_resources_next_value,
    resources_of, resources_upto, ResourceKey, ResourceKeyModel,
};
use crate::scan::{ScanInfo, ScannedFile, ScannedRegistry};

verus! {

/// A manifest as a mathematical value: the fingerprint of each entry it holds.
pub type ManifestModel = Map<ResourceKeyModel, FingerprintModel>;

/// What `manifest` holds for `key`.
pub open spec fn baseline_in(manifest: ManifestModel, key: ResourceKeyModel) -> BaselineModel {
    if manifest.contains_key(key) {
        BaselineModel::Found(manifest[key])
    } else {
        BaselineModel::Absent
    }
}

/// What an optional manifest holds for `key`: without a manifest there is
/// no baseline at all.
pub open spec fn baseline_of(manifest: Option<ManifestModel>, key: ResourceKeyModel) -> BaselineModel {
    match manifest {
        Some(held) => baseline_in(held, key),
        None => BaselineModel::Unavailable,
    }
}

/// Whether `index` is the first place at which `scan_info` has a file at `path`.
pub open spec fn first_file_at(scan_info: ScanInfo, path: Seq<char>, index: int) -> bool {
    &&& 0 <= index < scan_info.found_files@.len()
    &&& scan_info.found_files@[index].path@ == path
    &&& forall|j: int| 0 <= j < index ==> (#[trigger] scan_info.found_files@[j]).path@ != path
}

/// The fingerprint under which a manifest of `scan_info` records `key`: for
/// a file its hash (that of the first file, should the scan name a path
/// twice), for a registry key or value only that it is there.
pub open spec fn fingerprint_in(scan_info: ScanInfo, key: ResourceKeyModel) -> FingerprintModel {
    match key {
        ResourceKeyModel::File(path) => FingerprintModel::Hashed(
            scan_info.found_files@[choose|i: int| first_file_at(scan_info, path, i)].hash@,
        ),
        _ => FingerprintModel::Present,
    }
}

/// The manifest of everything that `scan_info` found.
pub open spec fn manifest_of(scan_info: ScanInfo) -> ManifestModel {
    Map::new(
        |key: ResourceKeyModel| resources_of(scan_info).contains(key),
        |key: ResourceKeyModel| fingerprint_in(scan_info, key),
    )
}

spec fn manifest_upto(scan_info: ScanInfo, held: Set<ResourceKeyModel>) -> ManifestModel {
    Map::new(|key: ResourceKeyModel| held.contains(key), |key: ResourceKeyModel| fingerprint_in(scan_info, key))
}

/// The manifest of a snapshot.
pub struct Manifest {
    entries: Vec<(ResourceKey, Fingerprint)>,
}

spec fn holds_key(entries: Seq<(ResourceKey, Fingerprint)>, key: ResourceKeyModel) -> bool {
    exists|i: int| 0 <= i < entries.len() && (#[trigger] entries[i]).0@ == key
}

spec fn keys_distinct(entries: Seq<(ResourceKey, Fingerprint)>) -> bool {
    forall|i: int, j: int| 0 <= i < j < entries.len() ==> (#[trigger] entries[i]).0@ != (#[trigger] entries[j]).0@
}

/// What the stored entries hold, as a map.
spec fn model_of(entries: Seq<(ResourceKey, Fingerprint)>) -> ManifestModel {
    Map::new(
        |key: ResourceKeyModel| holds_key(entries, key),
        |key: ResourceKeyModel|
            entries[choose|i: int| 0 <= i < entries.len() && (#[trigger] entries[i]).0@ == key].1@,
    )
}

impl View for Manifest {
    type V = ManifestModel;

    closed spec fn view(&self) -> ManifestModel {
        model_of(self.entries@)
    }
}

/// Whether the stored entries and the model say the same, with no entry
/// stored twice.
spec fn entries_match(entries: Seq<(ResourceKey, Fingerprint)>, model: ManifestModel) -> bool {
    &&& forall|i: int|
        0 <= i < entries.len() ==> model.contains_key((#[trigger] entries[i]).0@) && model[entries[i].0@]
            == entries[i].1@
    &&& forall|key: ResourceKeyModel| #[trigger]
        model.contains_key(key) ==> exists|i: int| 0 <= i < entries.len() && (#[trigger] entries[i]).0@ == key
    &&& forall|i: int, j: int|
        0 <= i < j < entries.len() ==> (#[trigger] entries[i]).0@ != (#[trigger] entries[j]).0@
}

proof fn lemma_model_matches(entries: Seq<(ResourceKey, Fingerprint)>)
    requires
        keys_distinct(entries),
    ensures
        entries_match(entries, model_of(entries)),
{
    let model = model_of(entries);
    assert forall|i: int| 0 <= i < entries.len() implies model.contains_key((#[trigger] entries[i]).0@)
        && model[entries[i].0@] == entries[i].1@ by {
        let key = entries[i].0@;
        assert(holds_key(entries, key));
        let w = choose|w: int| 0 <= w < entries.len() && (#[trigger] entries[w]).0@ == key;
        if w < i {
            assert(entries[w].0@ != entries[i].0@);
        }
        if i < w {
            assert(entries[i].0@ != entries[w].0@);
        }
    }
}

proof fn lemma_model_is_matched(entries: Seq<(ResourceKey, Fingerprint)>, model: ManifestModel)
    requires
        entries_match(entries, model),
    ensures
        model_of(entries) == model,
{
    lemma_model_matches(entries);
    let derived = model_of(entries);
    assert forall|key: ResourceKeyModel| derived.contains_key(key) == model.contains_key(key) by {
        if derived.contains_key(key) {
            let w = choose|w: int| 0 <= w < entries.len() && (#[trigger] entries[w]).0@ == key;
            assert(model.contains_key(entries[w].0@));
        }
    }
    assert forall|key: ResourceKeyModel| derived.contains_key(key) implies derived[key] == model[key] by {
        let w = choose|w: int| 0 <= w < entries.len() && (#[trigger] entries[w]).0@ == key;
        assert(model[entries[w].0@] == entries[w].1@);
        assert(derived[entries[w].0@] == entries[w].1@);
    }
    assert(derived =~= model);
}

fn position_in(entries: &Vec<(ResourceKey, Fingerprint)>, model: Ghost<ManifestModel>, key: &ResourceKey) -> (found:
    Option<usize>)
    requires
        entries_match(entries@, model@),
    ensures
        found is Some <==> model@.contains_key(key@),
        found matches Some(index) ==> index < entries@.len() && entries@[index as int].0@ == key@,
{
    let mut i: usize = 0;
    while i < entries.len()
        invariant
            i <= entries@.len(),
            entries_match(entries@, model@),
            forall|j: int| 0 <= j < i ==> (#[trigger] entries@[j]).0@ != key@,
        decreases entries@.len() - i,
    {
        if entries[i].0.matches(key) {
            return Some(i);
        }
        i += 1;
    }
    None
}

fn record_into(
    entries: &mut Vec<(ResourceKey, Fingerprint)>,
    model: &mut Ghost<ManifestModel>,
    key: ResourceKey,
    fingerprint: Fingerprint,
) -> (recorded: bool)
    requires
        entries_match(old(entries)@, old(model)@),
    ensures
        entries_match(final(entries)@, final(model)@),
        recorded == !old(model)@.contains_key(key@),
        recorded ==> final(model)@ == old(model)@.insert(key@, fingerprint@),
        !recorded ==> final(model)@ == old(model)@,
{
    if position_in(entries, *model, &key).is_some() {
        return false;
    }
    let ghost stored_before = entries@;
    let ghost before = model@;
    let ghost after = before.insert(key@, fingerprint@);
    let ghost key_model = key@;
    entries.push((key, fingerprint));
    *model = Ghost(after);
    proof {
        let last = stored_before.len() as int;
        assert(entries@[last].0@ == key_model);
        assert forall|j: int| 0 <= j < last implies (#[trigger] entries@[j]) == stored_before[j] by {}
        assert forall|k: ResourceKeyModel| #[trigger] after.contains_key(k) implies exists|i: int|
            0 <= i < entries@.len() && (#[trigger] entries@[i]).0@ == k by {
            if k == key_model {
                assert(entries@[last].0@ == k);
            } else {
                let w = choose|w: int| 0 <= w < stored_before.len() && (#[trigger] stored_before[w]).0@ == k;
                assert(entries@[w].0@ == k);
            }
        }
    }
    true
}

impl Manifest {
    #[verifier::type_invariant]
    spec fn no_key_twice(&self) -> bool {
        keys_distinct(self.entries@)
    }

    /// A manifest without entries.
    pub fn new() -> (manifest: Self)
        ensures
            manifest@ == Map::<ResourceKeyModel, FingerprintModel>::empty(),
    {
        let manifest = Manifest { entries: Vec::new() };
        assert(manifest@ =~= Map::<ResourceKeyModel, FingerprintModel>::empty());
        manifest
    }

    /// Records `fingerprint` for `key`, unless the manifest holds the key
    /// already. Says whether it was recorded.
    pub fn record(&mut self, key: ResourceKey, fingerprint: Fingerprint) -> (recorded: bool)
        ensures
            recorded == !old(self)@.contains_key(key@),
            recorded ==> final(self)@ == old(self)@.insert(key@, fingerprint@),
            !recorded ==> final(self)@ == old(self)@,
    {
        proof {
            use_type_invariant(&*self);
            lemma_model_matches(self.entries@);
        }
        let mut model: Ghost<ManifestModel> = Ghost(self@);
        let mut entries: Vec<(ResourceKey, Fingerprint)> = Vec::new();
        std::mem::swap(&mut entries, &mut self.entries);
        let recorded = record_into(&mut entries, &mut model, key, fingerprint);
        proof {
            lemma_model_is_matched(entries@, model@);
        }
        self.entries = entries;
        recorded
    }

    /// What the manifest holds for `key`.
    pub fn baseline_for(&self, key: &ResourceKey) -> (baseline: Baseline)
        ensures
            baseline@ == baseline_in(self@, key@),
    {
        proof {
            use_type_invariant(self);
            lemma_model_matches(self.entries@);
        }
        match position_in(&self.entries, Ghost(self@), key) {
            Some(index) => Baseline::Found(self.entries[index].1.clone()),
            None => Baseline::Absent,
        }
    }
}

proof fn lemma_first_file_is_chosen(scan_info: ScanInfo, path: Seq<char>, index: int)
    requires
        first_file_at(scan_info, path, index),
    ensures
        fingerprint_in(scan_info, ResourceKeyModel::File(path)) == FingerprintModel::Hashed(
            scan_info.found_files@[index].hash@,
        ),
{
    let chosen = choose|i: int| first_file_at(scan_info, path, i);
    assert(first_file_at(scan_info, path, chosen));
    if chosen < index {
        assert(scan_info.found_files@[chosen].path@ != path);
    }
    if index < chosen {
        assert(scan_info.found_files@[index].path@ != path);
    }
}

impl Manifest {
    /// The manifest of everything that `scan_info` found.
    pub fn of_scan(scan_info: &ScanInfo) -> (manifest: Self)
        ensures
            manifest@ == manifest_of(*scan_info),
    {
        let mut manifest = Manifest::new();
        proof {
            assert(manifest@ =~= manifest_upto(*scan_info, resources_upto(*scan_info, 0, 0, 0)));
        }
        let mut i: usize = 0;
        while i < scan_info.found_files.len()
            invariant
                i <= scan_info.found_files@.len(),
                manifest@ == manifest_upto(*scan_info, resources_upto(*scan_info, i as int, 0, 0)),
            decreases scan_info.found_files@.len() - i,
        {
            let file = &scan_info.found_files[i];
            let ghost held = resources_upto(*scan_info, i as int, 0, 0);
            let key = ResourceKey::File(file.path.clone());
            proof {
                lemma_resources_next_file(*scan_info, i as int);
                if !held.contains(key@) {
                    assert forall|j: int| 0 <= j < i implies (#[trigger] scan_info.found_files@[j]).path@
                        != file.path@ by {
                        if scan_info.found_files@[j].path@ == file.path@ {
                            assert(held.contains(ResourceKeyModel::File(file.path@)));
                        }
                    }
                    lemma_first_file_is_chosen(*scan_info, file.path@, i as int);
                }
            }
            manifest.record(key, Fingerprint::Hashed(file.hash.clone()));
            proof {
                assert(manifest@ =~= manifest_upto(*scan_info, resources_upto(*scan_info, i + 1, 0, 0)));
            }
            i += 1;
        }
        let ghost files = scan_info.found_files@.len() as int;
        let mut k: usize = 0;
        while k < scan_info.found_registry_keys.len()
            invariant
                k <= scan_info.found_registry_keys@.len(),
                files == scan_info.found_files@.len(),
                manifest@ == manifest_upto(*scan_info, resources_upto(*scan_info, files, k as int, 0)),
            decreases scan_info.found_registry_keys@.len() - k,
        {
            let holder = &scan_info.found_registry_keys[k];
            let mut v: usize = 0;
            while v < holder.values.len()
                invariant
                    k < scan_info.found_registry_keys@.len(),
                    *holder == scan_info.found_registry_keys@[k as int],
                    v <= holder.values@.len(),
                        manifest@ == manifest_upto(
                        *scan_info,
                        resources_upto(*scan_info, files, k as int, v as int),
                    ),
                decreases holder.values@.len() - v,
            {
                let key = ResourceKey::RegistryValue(holder.path.clone(), holder.values[v].0.clone());
                proof {
                    lemma_resources_next_value(*scan_info, files, k as int, v as int);
                }
                manifest.record(key, Fingerprint::Present);
                proof {
                    assert(manifest@ =~= manifest_upto(
                        *scan_info,
                        resources_upto(*scan_info, files, k as int, v + 1),
                    ));
                }
                v += 1;
            }
            let key = ResourceKey::Registry(holder.path.clone());
            proof {
                lemma_resources_next_key(*scan_info, files, k as int);
            }
            manifest.record(key, Fingerprint::Present);
            proof {
                assert(manifest@ =~= manifest_upto(*scan_info, resources_upto(*scan_info, files, k + 1, 0)));
            }
            k += 1;
        }
        proof {
            lemma_resources_all(*scan_info);
        }
        manifest
    }
}

/// `file` with its classification against `manifest`.
pub open spec fn file_tagged(file: ScannedFile, manifest: Option<ManifestModel>) -> ScannedFile {
    ScannedFile {
        change: classification(
            FingerprintModel::Hashed(file.hash@),
            baseline_of(manifest, ResourceKeyModel::File(file.path@)),
        ),
        ..file
    }
}

/// Classifying a file again against the same baseline changes nothing:
/// the classification depends on the file's path and hash alone, which
/// classifying leaves as they are.
pub proof fn lemma_tagging_is_idempotent(file: ScannedFile, manifest: Option<ManifestModel>)
    ensures
        file_tagged(file_tagged(file, manifest), manifest) == file_tagged(file, manifest),
        file_tagged(file, manifest).path == file.path,
        file_tagged(file, manifest).hash == file.hash,
{
}

/// Whether `after` is `before` with the key and each of its values
/// classified against `manifest`, and nothing else changed.
pub open spec fn registry_tagged(before: ScannedRegistry, after: ScannedRegistry, manifest: Option<ManifestModel>) -> bool {
    &&& after.path == before.path
    &&& after.ignored == before.ignored
    &&& after.change == classification(
        FingerprintModel::Present,
        baseline_of(manifest, ResourceKeyModel::Registry(before.path@)),
    )
    &&& after.values@.len() == before.values@.len()
    &&& forall|v: int|
        0 <= v < before.values@.len() ==> {
            &&& (#[trigger] after.values@[v]).0 == before.values@[v].0
            &&& after.values@[v].1.ignored == before.values@[v].1.ignored
            &&& after.values@[v].1.change == classification(
                FingerprintModel::Present,
                baseline_of(
                    manifest,
                    ResourceKeyModel::RegistryValue(before.path@, before.values@[v].0@),
                ),
            )
        }
}

/// The view of an optional manifest.
pub open spec fn manifest_view(manifest: Option<&Manifest>) -> Option<ManifestModel> {
    match manifest {
        Some(held) => Some(held@),
        None => None,
    }
}

fn baseline_from(manifest: Option<&Manifest>, key: &ResourceKey) -> (baseline: Baseline)
    ensures
        baseline@ == baseline_of(manifest_view(manifest), key@),
{
    match manifest {
        Some(held) => held.baseline_for(key),
        None => Baseline::Unavailable,
    }
}

/// Classifies every entry of `scan_info` against `manifest`, the baseline:
/// each file by its hash, each registry key and value by its presence.
/// Without a manifest every entry becomes `Unknown`.
pub fn tag_changes(scan_info: &mut ScanInfo, manifest: Option<&Manifest>)
    ensures
        final(scan_info).game_name == old(scan_info).game_name,
        final(scan_info).found_files@.len() == old(scan_info).found_files@.len(),
        forall|i: int|
            0 <= i < old(scan_info).found_files@.len() ==> (#[trigger] final(scan_info).found_files@[i])
                == file_tagged(old(scan_info).found_files@[i], manifest_view(manifest)),
        final(scan_info).found_registry_keys@.len() == old(scan_info).found_registry_keys@.len(),
        forall|k: int|
            0 <= k < old(scan_info).found_registry_keys@.len() ==> registry_tagged(
                old(scan_info).found_registry_keys@[k],
                #[trigger] final(scan_info).found_registry_keys@[k],
                manifest_view(manifest),
            ),
{
    let ghost held = manifest_view(manifest);
    let mut i: usize = 0;
    while i < scan_info.found_files.len()
        invariant
            i <= scan_info.found_files@.len(),
            held == manifest_view(manifest),
            scan_info.game_name == old(scan_info).game_name,
            scan_info.found_registry_keys == old(scan_info).found_registry_keys,
            scan_info.found_files@.len() == old(scan_info).found_files@.len(),
            forall|j: int|
                0 <= j < i ==> (#[trigger] scan_info.found_files@[j]) == file_tagged(
                    old(scan_info).found_files@[j],
                    held,
                ),
            forall|j: int|
                i <= j < scan_info.found_files@.len() ==> (#[trigger] scan_info.found_files@[j]) == old(
                    scan_info,
                ).found_files@[j],
        decreases scan_info.found_files@.len() - i,
    {
        let key = ResourceKey::File(scan_info.found_files[i].path.clone());
        let current = Fingerprint::Hashed(scan_info.found_files[i].hash.clone());
        let baseline = baseline_from(manifest, &key);
        let change = classify(&current, &baseline);
        scan_info.found_files[i].change = change;
        i += 1;
    }
    let mut k: usize = 0;
    while k < scan_info.found_registry_keys.len()
        invariant
            k <= scan_info.found_registry_keys@.len(),
            held == manifest_view(manifest),
            scan_info.game_name == old(scan_info).game_name,
            scan_info.found_files@.len() == old(scan_info).found_files@.len(),
            forall|j: int|
                0 <= j < old(scan_info).found_files@.len() ==> (#[trigger] scan_info.found_files@[j])
                    == file_tagged(old(scan_info).found_files@[j], held),
            scan_info.found_registry_keys@.len() == old(scan_info).found_registry_keys@.len(),
            forall|j: int|
                0 <= j < k ==> registry_tagged(
                    old(scan_info).found_registry_keys@[j],
                    #[trigger] scan_info.found_registry_keys@[j],
                    held,
                ),
            forall|j: int|
                k <= j < scan_info.found_registry_keys@.len() ==> (
                #[trigger] scan_info.found_registry_keys@[j]) == old(scan_info).found_registry_keys@[j],
        decreases scan_info.found_registry_keys@.len() - k,
    {
        let ghost before = scan_info.found_registry_keys@[k as int];
        let mut v: usize = 0;
        while v < scan_info.found_registry_keys[k].values.len()
            invariant
                k < scan_info.found_registry_keys@.len(),
                before == old(scan_info).found_registry_keys@[k as int],
                    held == manifest_view(manifest),
                scan_info.game_name == old(scan_info).game_name,
                scan_info.found_files@.len() == old(scan_info).found_files@.len(),
                forall|j: int|
                    0 <= j < old(scan_info).found_files@.len() ==> (#[trigger] scan_info.found_files@[j])
                        == file_tagged(old(scan_info).found_files@[j], held),
                scan_info.found_registry_keys@.len() == old(scan_info).found_registry_keys@.len(),
                forall|j: int|
                    0 <= j < k ==> registry_tagged(
                        old(scan_info).found_registry_keys@[j],
                        #[trigger] scan_info.found_registry_keys@[j],
                        held,
                    ),
                forall|j: int|
                    k < j < scan_info.found_registry_keys@.len() ==> (
                    #[trigger] scan_info.found_registry_keys@[j]) == old(scan_info).found_registry_keys@[j],
                scan_info.found_registry_keys@[k as int].path == before.path,
                scan_info.found_registry_keys@[k as int].ignored == before.ignored,
                scan_info.found_registry_keys@[k as int].change == before.change,
                scan_info.found_registry_keys@[k as int].values@.len() == before.values@.len(),
                v <= before.values@.len(),
                forall|w: int|
                    0 <= w < v ==> {
                        &&& (#[trigger] scan_info.found_registry_keys@[k as int].values@[w]).0
                            == before.values@[w].0
                        &&& scan_info.found_registry_keys@[k as int].values@[w].1.ignored
                            == before.values@[w].1.ignored
                        &&& scan_info.found_registry_keys@[k as int].values@[w].1.change == classification(
                            FingerprintModel::Present,
                            baseline_of(
                                held,
                                ResourceKeyModel::RegistryValue(before.path@, before.values@[w].0@),
                            ),
                        )
                    },
                forall|w: int|
                    v <= w < before.values@.len() ==> (
                    #[trigger] scan_info.found_registry_keys@[k as int].values@[w]) == before.values@[w],
            decreases before.values@.len() - v,
        {
            let key = ResourceKey::RegistryValue(
                scan_info.found_registry_keys[k].path.clone(),
                scan_info.found_registry_keys[k].values[v].0.clone(),
            );
            let baseline = baseline_from(manifest, &key);
            let change = classify(&Fingerprint::Present, &baseline);
            scan_info.found_registry_keys[k].values[v].1.change = change;
            v += 1;
        }
        let key = ResourceKey::Registry(scan_info.found_registry_keys[k].path.clone());
        let baseline = baseline_from(manifest, &key);
        let change = classify(&Fingerprint::Present, &baseline);
        scan_info.found_registry_keys[k].change = change;
        k += 1;
    }
}

} // verus!
