//! The duplicate index: which applications claim which physical resource.
//!
//! Every application is registered first; only then is the index asked
//! whether a resource is shared, since a claim registered later can turn
//! a resource registered earlier into a duplicate.

use vstd::prelude::*;

use crate::scan::{ScanInfo, ScannedFile};
use crate::text::same_text;

verus! {

/// A physical resource that applications can claim.
#[derive(Debug)]
pub enum ResourceKey {
    /// A file, by its path.
    File(String),
    /// A registry key, by its path.
    Registry(String),
    /// A value under a registry key, by the key's path and the value's name.
    RegistryValue(String, String),
}

/// Mathematical value of a [`ResourceKey`].
pub enum ResourceKeyModel {
    File(Seq<char>),
    Registry(Seq<char>),
    RegistryValue(Seq<char>, Seq<char>),
}

impl View for ResourceKey {
    type V = ResourceKeyModel;

    open spec fn view(&self) -> ResourceKeyModel {
        match self {
            ResourceKey::File(path) => ResourceKeyModel::File(path@),
            ResourceKey::Registry(path) => ResourceKeyModel::Registry(path@),
            ResourceKey::RegistryValue(path, name) => ResourceKeyModel::RegistryValue(path@, name@),
        }
    }
}

impl Clone for ResourceKey {
    fn clone(&self) -> (copy: Self)
        ensures
            copy == *self,
    {
        match self {
            ResourceKey::File(path) => ResourceKey::File(path.clone()),
            ResourceKey::Registry(path) => ResourceKey::Registry(path.clone()),
            ResourceKey::RegistryValue(path, name) => ResourceKey::RegistryValue(path.clone(), name.clone()),
        }
    }
}

impl ResourceKey {
    /// Whether two keys name the same resource.
    pub fn matches(&self, other: &ResourceKey) -> (same: bool)
        ensures
            same == (self@ == other@),
    {
        match (self, other) {
            (ResourceKey::File(a), ResourceKey::File(b)) => same_text(a.as_str(), b.as_str()),
            (ResourceKey::Registry(a), ResourceKey::Registry(b)) => same_text(a.as_str(), b.as_str()),
            (ResourceKey::RegistryValue(a, m), ResourceKey::RegistryValue(b, n)) => same_text(
                a.as_str(),
                b.as_str(),
            ) && same_text(m.as_str(), n.as_str()),
            _ => false,
        }
    }
}

/// The claims on one resource: each claiming application's name, with
/// whether that application is enabled.
pub type Claimants = Map<Seq<char>, bool>;

/// The index as a mathematical value: the claims on each resource that has any.
pub type ClaimIndex = Map<ResourceKeyModel, Claimants>;

/// The claims that `index` holds on `key`; none where the key is unknown.
pub open spec fn claimants_of(index: ClaimIndex, key: ResourceKeyModel) -> Claimants {
    if index.contains_key(key) {
        index[key]
    } else {
        Map::empty()
    }
}

/// Whether two different enabled applications are among `claimants`.
pub open spec fn contested(claimants: Claimants) -> bool {
    exists|a: Seq<char>, b: Seq<char>|
        a != b && #[trigger] claimants.contains_key(a) && claimants[a] && #[trigger] claimants.contains_key(
            b,
        ) && claimants[b]
}

/// `index` after `game` has claimed `key`.
pub open spec fn with_claim(index: ClaimIndex, key: ResourceKeyModel, game: Seq<char>, enabled: bool) -> ClaimIndex {
    index.insert(key, claimants_of(index, key).insert(game, enabled))
}

/// `index` after `game` has claimed every resource in `keys`: on each of
/// them `game` is entered with `enabled`, replacing an earlier entry of the
/// same name; all other claims stay as they are.
pub open spec fn with_claims(index: ClaimIndex, keys: Set<ResourceKeyModel>, game: Seq<char>, enabled: bool) -> ClaimIndex {
    Map::new(
        |key: ResourceKeyModel| index.contains_key(key) || keys.contains(key),
        |key: ResourceKeyModel|
            if keys.contains(key) {
                claimants_of(index, key).insert(game, enabled)
            } else {
                index[key]
            },
    )
}

/// Whether a resource is shared between applications.
#[derive(Clone, Copy, Debug, PartialEq, Eq, Structural)]
pub enum Duplication {
    /// At most one enabled application claims the resource.
    Resolved,
    /// Two or more enabled applications claim the resource.
    Unresolved,
}

impl Duplication {
    pub open spec fn spec_resolved(&self) -> bool {
        *self == Duplication::Resolved
    }

    /// Whether this is `Resolved`.
    #[verifier::when_used_as_spec(spec_resolved)]
    pub fn resolved(&self) -> (resolved: bool)
        ensures
            resolved == self.spec_resolved(),
    {
        match self {
            Duplication::Resolved => true,
            Duplication::Unresolved => false,
        }
    }
}

/// Whether a resource with the given claims is shared.
pub open spec fn duplication_of(claimants: Claimants) -> Duplication {
    if contested(claimants) {
        Duplication::Unresolved
    } else {
        Duplication::Resolved
    }
}

/// The resources that a scan's entries stand for: each file, each registry
/// key, and each value under each registry key.
pub open spec fn resources_of(scan_info: ScanInfo) -> Set<ResourceKeyModel> {
    Set::new(
        |key: ResourceKeyModel|
            match key {
                ResourceKeyModel::File(path) => scan_info.has_file(path),
                ResourceKeyModel::Registry(path) => scan_info.has_registry(path),
                ResourceKeyModel::RegistryValue(path, name) => scan_info.has_registry_value(path, name),
            },
    )
}

/// Whether `game` has a claim, in `index`, on a resource that is contested.
pub open spec fn game_contested(index: ClaimIndex, game: Seq<char>) -> bool {
    exists|key: ResourceKeyModel|
        #[trigger] index.contains_key(key) && index[key].contains_key(game) && contested(index[key])
}

struct Claim {
    key: ResourceKey,
    game: String,
    enabled: bool,
}

/// The index of claims for one operation.
pub struct DuplicateDetector {
    claims: Vec<Claim>,
}

/// Whether `game`'s claim on `key` is stored.
spec fn stored(claims: Seq<Claim>, key: ResourceKeyModel, game: Seq<char>) -> bool {
    exists|i: int| 0 <= i < claims.len() && (#[trigger] claims[i]).key@ == key && claims[i].game@ == game
}

/// Whether some claim on `key` is stored.
spec fn claimed(claims: Seq<Claim>, key: ResourceKeyModel) -> bool {
    exists|i: int| 0 <= i < claims.len() && (#[trigger] claims[i]).key@ == key
}

/// Whether no application is stored twice for one resource.
spec fn claims_distinct(claims: Seq<Claim>) -> bool {
    forall|i: int, j: int|
        0 <= i < j < claims.len() ==> !((#[trigger] claims[i]).key@ == (#[trigger] claims[j]).key@
            && claims[i].game@ == claims[j].game@)
}

/// Whether the stored claims and the index say the same: every stored
/// claim is in the index, every resource and every claim in the index is
/// stored, and no application is stored twice for one resource.
spec fn claims_match(claims: Seq<Claim>, index: ClaimIndex) -> bool {
    &&& forall|i: int|
        0 <= i < claims.len() ==> {
            let claim = #[trigger] claims[i];
            &&& index.contains_key(claim.key@)
            &&& index[claim.key@].contains_key(claim.game@)
            &&& index[claim.key@][claim.game@] == claim.enabled
        }
    &&& forall|key: ResourceKeyModel, game: Seq<char>|
        index.contains_key(key) && #[trigger] index[key].contains_key(game) ==> stored(claims, key, game)
    &&& forall|key: ResourceKeyModel| #[trigger] index.contains_key(key) ==> claimed(claims, key)
    &&& claims_distinct(claims)
}

/// What the stored claims hold, as an index.
spec fn index_of(claims: Seq<Claim>) -> ClaimIndex {
    Map::new(
        |key: ResourceKeyModel| claimed(claims, key),
        |key: ResourceKeyModel|
            Map::new(
                |game: Seq<char>| stored(claims, key, game),
                |game: Seq<char>|
                    claims[choose|i: int|
                        0 <= i < claims.len() && (#[trigger] claims[i]).key@ == key && claims[i].game@
                            == game].enabled,
            ),
    )
}

proof fn lemma_index_matches(claims: Seq<Claim>)
    requires
        claims_distinct(claims),
    ensures
        claims_match(claims, index_of(claims)),
{
    let index = index_of(claims);
    assert forall|i: int| 0 <= i < claims.len() implies {
        let claim = #[trigger] claims[i];
        &&& index.contains_key(claim.key@)
        &&& index[claim.key@].contains_key(claim.game@)
        &&& index[claim.key@][claim.game@] == claim.enabled
    } by {
        let claim = claims[i];
        assert(claimed(claims, claim.key@));
        assert(stored(claims, claim.key@, claim.game@));
        let w = choose|w: int|
            0 <= w < claims.len() && (#[trigger] claims[w]).key@ == claim.key@ && claims[w].game@
                == claim.game@;
        if w < i {
            assert(!(claims[w].key@ == claims[i].key@ && claims[w].game@ == claims[i].game@));
        }
        if i < w {
            assert(!(claims[i].key@ == claims[w].key@ && claims[i].game@ == claims[w].game@));
        }
    }
}

proof fn lemma_index_is_matched(claims: Seq<Claim>, index: ClaimIndex)
    requires
        claims_match(claims, index),
    ensures
        index_of(claims) == index,
{
    lemma_index_matches(claims);
    let derived = index_of(claims);
    assert forall|key: ResourceKeyModel| derived.contains_key(key) == index.contains_key(key) by {
        if derived.contains_key(key) {
            let w = choose|w: int| 0 <= w < claims.len() && (#[trigger] claims[w]).key@ == key;
            assert(index.contains_key(claims[w].key@));
        }
    }
    assert forall|key: ResourceKeyModel| derived.contains_key(key) implies derived[key] =~= index[key] by {
        assert forall|game: Seq<char>| derived[key].contains_key(game) == index[key].contains_key(game) by {
            if derived[key].contains_key(game) {
                let w = choose|w: int|
                    0 <= w < claims.len() && (#[trigger] claims[w]).key@ == key && claims[w].game@ == game;
                assert(index[claims[w].key@].contains_key(claims[w].game@));
            }
        }
        assert forall|game: Seq<char>| derived[key].contains_key(game) implies derived[key][game]
            == index[key][game] by {
            let w = choose|w: int|
                0 <= w < claims.len() && (#[trigger] claims[w]).key@ == key && claims[w].game@ == game;
            assert(index[claims[w].key@][claims[w].game@] == claims[w].enabled);
            assert(derived[claims[w].key@][claims[w].game@] == claims[w].enabled);
        }
    }
    assert(derived =~= index);
}

impl View for DuplicateDetector {
    type V = ClaimIndex;

    closed spec fn view(&self) -> ClaimIndex {
        index_of(self.claims@)
    }
}

impl Default for DuplicateDetector {
    fn default() -> (detector: Self)
        ensures
            detector@ == Map::<ResourceKeyModel, Claimants>::empty(),
    {
        DuplicateDetector::new()
    }
}

impl DuplicateDetector {
    #[verifier::type_invariant]
    spec fn no_claim_twice(&self) -> bool {
        claims_distinct(self.claims@)
    }

    /// An index without claims.
    pub fn new() -> (detector: Self)
        ensures
            detector@ == Map::<ResourceKeyModel, Claimants>::empty(),
    {
        let detector = DuplicateDetector { claims: Vec::new() };
        assert(detector@ =~= Map::<ResourceKeyModel, Claimants>::empty());
        detector
    }
}

/// Enters `game`'s claim on `key`, replacing an earlier claim of the
/// same application on the same resource.
fn claim_into(claims: &mut Vec<Claim>, index: &mut Ghost<ClaimIndex>, key: ResourceKey, game: &str, enabled: bool)
    requires
        claims_match(old(claims)@, old(index)@),
    ensures
        claims_match(final(claims)@, final(index)@),
        final(index)@ == with_claim(old(index)@, key@, game@, enabled),
{
    let ghost before = index@;
    let ghost after = with_claim(before, key@, game@, enabled);
    let mut i: usize = 0;
    while i < claims.len()
        invariant
            i <= claims@.len(),
            claims_match(claims@, index@),
            *claims == *old(claims),
            *index == *old(index),
            before == index@,
            after == with_claim(before, key@, game@, enabled),
            forall|j: int|
                0 <= j < i ==> !((#[trigger] claims@[j]).key@ == key@ && claims@[j].game@
                    == game@),
        decreases claims@.len() - i,
    {
        if claims[i].key.matches(&key) && same_text(claims[i].game.as_str(), game) {
            let ghost stored_before = claims@;
            claims[i].enabled = enabled;
            *index = Ghost(after);
            proof {
                assert(claims@.len() == stored_before.len());
                assert forall|j: int| 0 <= j < claims@.len() implies (#[trigger] claims@[j]).key
                    == stored_before[j].key && claims@[j].game == stored_before[j].game && (j
                    != i ==> claims@[j].enabled == stored_before[j].enabled) by {}
                assert(claims@[i as int].enabled == enabled);
                assert forall|k: ResourceKeyModel| #[trigger] after.contains_key(k) implies claimed(claims@, k) by {
                    if k == key@ {
                        assert(claims@[i as int].key@ == k);
                    } else {
                        assert(before.contains_key(k));
                        let w = choose|w: int| 0 <= w < stored_before.len() && (#[trigger] stored_before[w]).key@ == k;
                        assert(claims@[w].key@ == k);
                    }
                }
                assert forall|k: ResourceKeyModel, g: Seq<char>|
                    after.contains_key(k) && #[trigger] after[k].contains_key(g) implies stored(claims@, k,
                    g,
                ) by {
                    if k == key@ && g == game@ {
                        assert(claims@[i as int].key@ == k);
                    } else {
                        assert(before.contains_key(k) && before[k].contains_key(g));
                        let w = choose|w: int|
                            0 <= w < stored_before.len() && (#[trigger] stored_before[w]).key@ == k
                                && stored_before[w].game@ == g;
                        assert(claims@[w].key@ == k);
                    }
                }
                assert forall|j: int| 0 <= j < claims@.len() implies {
                    let claim = #[trigger] claims@[j];
                    &&& after.contains_key(claim.key@)
                    &&& after[claim.key@].contains_key(claim.game@)
                    &&& after[claim.key@][claim.game@] == claim.enabled
                } by {
                    let earlier = stored_before[j];
                    assert(before.contains_key(earlier.key@));
                    if j != i {
                        if j < i {
                            assert(!(stored_before[j].key@ == stored_before[i as int].key@
                                && stored_before[j].game@ == stored_before[i as int].game@));
                        } else {
                            assert(!(stored_before[i as int].key@ == stored_before[j].key@
                                && stored_before[i as int].game@ == stored_before[j].game@));
                        }
                    }
                }
                assert forall|a: int, b: int| 0 <= a < b < claims@.len() implies !((
                #[trigger] claims@[a]).key@ == (#[trigger] claims@[b]).key@
                    && claims@[a].game@ == claims@[b].game@) by {
                    assert(!(stored_before[a].key@ == stored_before[b].key@ && stored_before[a].game@
                        == stored_before[b].game@));
                }
            }
            return ;
        }
        i += 1;
    }
    let ghost stored_before = claims@;
    let ghost key_model = key@;
    claims.push(Claim { key, game: game.to_owned(), enabled });
    *index = Ghost(after);
    proof {
        let last = stored_before.len() as int;
        assert(claims@.len() == last + 1);
        assert(claims@[last].key@ == key_model && claims@[last].game@ == game@);
        assert forall|j: int| 0 <= j < last implies (#[trigger] claims@[j]) == stored_before[j] by {}
        assert forall|k: ResourceKeyModel| #[trigger] after.contains_key(k) implies claimed(claims@, k) by {
            if k == key_model {
                assert(claims@[last].key@ == k);
            } else {
                assert(before.contains_key(k));
                let w = choose|w: int| 0 <= w < stored_before.len() && (#[trigger] stored_before[w]).key@ == k;
                assert(claims@[w].key@ == k);
            }
        }
        assert forall|k: ResourceKeyModel, g: Seq<char>|
            after.contains_key(k) && #[trigger] after[k].contains_key(g) implies stored(claims@, k, g) by {
            if k == key_model && g == game@ {
                assert(claims@[last].key@ == k);
            } else {
                assert(before.contains_key(k) && before[k].contains_key(g));
                let w = choose|w: int|
                    0 <= w < stored_before.len() && (#[trigger] stored_before[w]).key@ == k
                        && stored_before[w].game@ == g;
                assert(claims@[w].key@ == k);
            }
        }
        assert forall|j: int| 0 <= j < claims@.len() implies {
            let claim = #[trigger] claims@[j];
            &&& after.contains_key(claim.key@)
            &&& after[claim.key@].contains_key(claim.game@)
            &&& after[claim.key@][claim.game@] == claim.enabled
        } by {
            if j < last {
                let earlier = stored_before[j];
                assert(before.contains_key(earlier.key@));
            }
        }
        assert forall|a: int, b: int| 0 <= a < b < claims@.len() implies !((
        #[trigger] claims@[a]).key@ == (#[trigger] claims@[b]).key@ && claims@[a].game@
            == claims@[b].game@) by {
            if b < last {
                assert(!(stored_before[a].key@ == stored_before[b].key@ && stored_before[a].game@
                    == stored_before[b].game@));
            } else {
                assert(claims@[a] == stored_before[a]);
            }
        }
    }
}

/// The resources of the first `files` files of a scan, of its first `keys`
/// registry keys with all their values, and of the first `values` values
/// of the registry key that comes next.
pub(crate) open spec fn resources_upto(scan_info: ScanInfo, files: int, keys: int, values: int) -> Set<ResourceKeyModel> {
    Set::new(
        |key: ResourceKeyModel|
            match key {
                ResourceKeyModel::File(path) => exists|i: int|
                    0 <= i < files && (#[trigger] scan_info.found_files@[i]).path@ == path,
                ResourceKeyModel::Registry(path) => exists|k: int|
                    0 <= k < keys && (#[trigger] scan_info.found_registry_keys@[k]).path@ == path,
                ResourceKeyModel::RegistryValue(path, name) => (exists|k: int|
                    0 <= k < keys && (#[trigger] scan_info.found_registry_keys@[k]).path@ == path
                        && scan_info.found_registry_keys@[k].has_value(name)) || (exists|v: int|
                    0 <= v < values && scan_info.found_registry_keys@[keys].path@ == path && (
                    #[trigger] scan_info.found_registry_keys@[keys].values@[v]).0@ == name),
            },
    )
}

proof fn lemma_resources_none(scan_info: ScanInfo, index: ClaimIndex, game: Seq<char>, enabled: bool)
    ensures
        with_claims(index, resources_upto(scan_info, 0, 0, 0), game, enabled) == index,
{
    assert(with_claims(index, resources_upto(scan_info, 0, 0, 0), game, enabled) =~= index);
}

pub(crate) proof fn lemma_resources_next_file(scan_info: ScanInfo, i: int)
    requires
        0 <= i < scan_info.found_files@.len(),
    ensures
        resources_upto(scan_info, i + 1, 0, 0) == resources_upto(scan_info, i, 0, 0).insert(
            ResourceKeyModel::File(scan_info.found_files@[i].path@),
        ),
{
    let next = resources_upto(scan_info, i + 1, 0, 0);
    let grown = resources_upto(scan_info, i, 0, 0).insert(
        ResourceKeyModel::File(scan_info.found_files@[i].path@),
    );
    assert forall|key: ResourceKeyModel| next.contains(key) == grown.contains(key) by {
        if let ResourceKeyModel::File(path) = key {
            if next.contains(key) {
                let w = choose|w: int|
                    0 <= w < i + 1 && (#[trigger] scan_info.found_files@[w]).path@ == path;
                if w < i {
                    assert(resources_upto(scan_info, i, 0, 0).contains(key));
                }
            }
            if grown.contains(key) {
                if scan_info.found_files@[i].path@ == path {
                } else {
                    let w = choose|w: int|
                        0 <= w < i && (#[trigger] scan_info.found_files@[w]).path@ == path;
                    assert(scan_info.found_files@[w].path@ == path);
                }
            }
        }
    }
    assert(next =~= grown);
}

pub(crate) proof fn lemma_resources_next_value(scan_info: ScanInfo, files: int, k: int, v: int)
    requires
        0 <= k < scan_info.found_registry_keys@.len(),
        0 <= v < scan_info.found_registry_keys@[k].values@.len(),
    ensures
        resources_upto(scan_info, files, k, v + 1) == resources_upto(scan_info, files, k, v).insert(
            ResourceKeyModel::RegistryValue(
                scan_info.found_registry_keys@[k].path@,
                scan_info.found_registry_keys@[k].values@[v].0@,
            ),
        ),
{
    let holder = scan_info.found_registry_keys@[k];
    let next = resources_upto(scan_info, files, k, v + 1);
    let grown = resources_upto(scan_info, files, k, v).insert(
        ResourceKeyModel::RegistryValue(holder.path@, holder.values@[v].0@),
    );
    assert forall|key: ResourceKeyModel| next.contains(key) == grown.contains(key) by {
        if let ResourceKeyModel::RegistryValue(path, name) = key {
            let whole = exists|j: int|
                0 <= j < k && (#[trigger] scan_info.found_registry_keys@[j]).path@ == path
                    && scan_info.found_registry_keys@[j].has_value(name);
            if next.contains(key) && !whole {
                let w = choose|w: int|
                    0 <= w < v + 1 && holder.path@ == path && (#[trigger] holder.values@[w]).0@ == name;
                if w < v {
                    assert(resources_upto(scan_info, files, k, v).contains(key));
                }
            }
            if grown.contains(key) && !whole {
                if holder.path@ == path && holder.values@[v].0@ == name {
                } else {
                    let w = choose|w: int|
                        0 <= w < v && holder.path@ == path && (#[trigger] holder.values@[w]).0@ == name;
                    assert(holder.values@[w].0@ == name);
                }
            }
        }
    }
    assert(next =~= grown);
}

pub(crate) proof fn lemma_resources_next_key(scan_info: ScanInfo, files: int, k: int)
    requires
        0 <= k < scan_info.found_registry_keys@.len(),
    ensures
        resources_upto(scan_info, files, k + 1, 0) == resources_upto(
            scan_info,
            files,
            k,
            scan_info.found_registry_keys@[k].values@.len() as int,
        ).insert(ResourceKeyModel::Registry(scan_info.found_registry_keys@[k].path@)),
{
    let holder = scan_info.found_registry_keys@[k];
    let count = holder.values@.len() as int;
    let next = resources_upto(scan_info, files, k + 1, 0);
    let grown = resources_upto(scan_info, files, k, count).insert(ResourceKeyModel::Registry(holder.path@));
    assert forall|key: ResourceKeyModel| next.contains(key) == grown.contains(key) by {
        match key {
            ResourceKeyModel::File(path) => {},
            ResourceKeyModel::Registry(path) => {
                if next.contains(key) {
                    let w = choose|w: int|
                        0 <= w < k + 1 && (#[trigger] scan_info.found_registry_keys@[w]).path@ == path;
                    if w < k {
                        assert(resources_upto(scan_info, files, k, count).contains(key));
                    }
                }
                if grown.contains(key) {
                    if holder.path@ == path {
                    } else {
                        let w = choose|w: int|
                            0 <= w < k && (#[trigger] scan_info.found_registry_keys@[w]).path@ == path;
                        assert(scan_info.found_registry_keys@[w].path@ == path);
                    }
                }
            },
            ResourceKeyModel::RegistryValue(path, name) => {
                if next.contains(key) {
                    let w = choose|w: int|
                        0 <= w < k + 1 && (#[trigger] scan_info.found_registry_keys@[w]).path@ == path
                            && scan_info.found_registry_keys@[w].has_value(name);
                    if w < k {
                        assert(grown.contains(key));
                    } else {
                        let v = choose|v: int|
                            0 <= v < holder.values@.len() && (#[trigger] holder.values@[v]).0@ == name;
                        assert(holder.values@[v].0@ == name);
                        assert(grown.contains(key));
                    }
                }
                if grown.contains(key) {
                    let whole = exists|j: int|
                        0 <= j < k && (#[trigger] scan_info.found_registry_keys@[j]).path@ == path
                            && scan_info.found_registry_keys@[j].has_value(name);
                    if whole {
                        let w = choose|j: int|
                            0 <= j < k && (#[trigger] scan_info.found_registry_keys@[j]).path@ == path
                                && scan_info.found_registry_keys@[j].has_value(name);
                        assert(scan_info.found_registry_keys@[w].has_value(name));
                        assert(next.contains(key));
                    } else {
                        let v = choose|v: int|
                            0 <= v < count && holder.path@ == path && (#[trigger] holder.values@[v]).0@
                                == name;
                        assert(holder.has_value(name));
                        assert(scan_info.found_registry_keys@[k].has_value(name));
                        assert(next.contains(key));
                    }
                }
            },
        }
    }
    assert(next =~= grown);
}

pub(crate) proof fn lemma_resources_all(scan_info: ScanInfo)
    ensures
        resources_upto(
            scan_info,
            scan_info.found_files@.len() as int,
            scan_info.found_registry_keys@.len() as int,
            0,
        ) == resources_of(scan_info),
{
    let upto = resources_upto(
        scan_info,
        scan_info.found_files@.len() as int,
        scan_info.found_registry_keys@.len() as int,
        0,
    );
    assert(upto =~= resources_of(scan_info));
}

/// Entering one more claim of `game` after its claims on `keys` gives its
/// claims on `keys` with that resource added.
proof fn lemma_with_claims_grows(
    index: ClaimIndex,
    keys: Set<ResourceKeyModel>,
    key: ResourceKeyModel,
    game: Seq<char>,
    enabled: bool,
)
    ensures
        with_claim(with_claims(index, keys, game, enabled), key, game, enabled) == with_claims(
            index,
            keys.insert(key),
            game,
            enabled,
        ),
{
    let one = with_claim(with_claims(index, keys, game, enabled), key, game, enabled);
    let all = with_claims(index, keys.insert(key), game, enabled);
    assert forall|k: ResourceKeyModel| one.contains_key(k) == all.contains_key(k) by {}
    assert forall|k: ResourceKeyModel| #[trigger] one.contains_key(k) implies one[k] =~= all[k] by {}
    assert(one =~= all);
}

impl DuplicateDetector {
    /// Registers everything that `scan_info` found under the application's
    /// name, tagged with whether the application is enabled.
    ///
    /// A disabled application still occupies the index; it does not count
    /// when the index is asked whether a resource is contested.
    pub fn add_game(&mut self, scan_info: &ScanInfo, game_enabled: bool)
        ensures
            final(self)@ == with_claims(
                old(self)@,
                resources_of(*scan_info),
                scan_info.game_name@,
                game_enabled,
            ),
    {
        let ghost before = self@;
        let ghost game = scan_info.game_name@;
        proof {
            use_type_invariant(&*self);
            lemma_index_matches(self.claims@);
            lemma_resources_none(*scan_info, before, game, game_enabled);
        }
        let mut index: Ghost<ClaimIndex> = Ghost(before);
        let mut claims: Vec<Claim> = Vec::new();
        std::mem::swap(&mut claims, &mut self.claims);
        let mut i: usize = 0;
        while i < scan_info.found_files.len()
            invariant
                i <= scan_info.found_files@.len(),
                claims_match(claims@, index@),
                game == scan_info.game_name@,
                index@ == with_claims(before, resources_upto(*scan_info, i as int, 0, 0), game, game_enabled),
            decreases scan_info.found_files@.len() - i,
        {
            let ghost held = resources_upto(*scan_info, i as int, 0, 0);
            let key = ResourceKey::File(scan_info.found_files[i].path.clone());
            proof {
                lemma_resources_next_file(*scan_info, i as int);
                lemma_with_claims_grows(before, held, key@, game, game_enabled);
            }
            claim_into(&mut claims, &mut index, key, scan_info.game_name.as_str(), game_enabled);
            i += 1;
        }
        let ghost files = scan_info.found_files@.len() as int;
        let mut k: usize = 0;
        while k < scan_info.found_registry_keys.len()
            invariant
                k <= scan_info.found_registry_keys@.len(),
                files == scan_info.found_files@.len(),
                claims_match(claims@, index@),
                game == scan_info.game_name@,
                index@ == with_claims(before, resources_upto(*scan_info, files, k as int, 0), game, game_enabled),
            decreases scan_info.found_registry_keys@.len() - k,
        {
            let holder = &scan_info.found_registry_keys[k];
            let mut v: usize = 0;
            while v < holder.values.len()
                invariant
                    k < scan_info.found_registry_keys@.len(),
                    *holder == scan_info.found_registry_keys@[k as int],
                    v <= holder.values@.len(),
                    claims_match(claims@, index@),
                    game == scan_info.game_name@,
                    index@ == with_claims(
                        before,
                        resources_upto(*scan_info, files, k as int, v as int),
                        game,
                        game_enabled,
                    ),
                decreases holder.values@.len() - v,
            {
                let ghost held = resources_upto(*scan_info, files, k as int, v as int);
                let key = ResourceKey::RegistryValue(holder.path.clone(), holder.values[v].0.clone());
                proof {
                    lemma_resources_next_value(*scan_info, files, k as int, v as int);
                    lemma_with_claims_grows(before, held, key@, game, game_enabled);
                }
                claim_into(&mut claims, &mut index, key, scan_info.game_name.as_str(), game_enabled);
                v += 1;
            }
            let ghost held = resources_upto(*scan_info, files, k as int, v as int);
            let key = ResourceKey::Registry(holder.path.clone());
            proof {
                lemma_resources_next_key(*scan_info, files, k as int);
                lemma_with_claims_grows(before, held, key@, game, game_enabled);
            }
            claim_into(&mut claims, &mut index, key, scan_info.game_name.as_str(), game_enabled);
            k += 1;
        }
        proof {
            lemma_resources_all(*scan_info);
            lemma_index_is_matched(claims@, index@);
        }
        self.claims = claims;
    }
}

/// Whether `entries` lists exactly the claims in `claimants`, each
/// application once.
pub open spec fn lists_claimants(entries: Seq<(String, bool)>, claimants: Claimants) -> bool {
    &&& forall|i: int|
        0 <= i < entries.len() ==> claimants.contains_key((#[trigger] entries[i]).0@)
            && claimants[entries[i].0@] == entries[i].1
    &&& forall|game: Seq<char>| #[trigger]
        claimants.contains_key(game) ==> exists|i: int|
            0 <= i < entries.len() && (#[trigger] entries[i]).0@ == game
    &&& forall|i: int, j: int|
        0 <= i < j < entries.len() ==> (#[trigger] entries[i]).0@ != (#[trigger] entries[j]).0@
}

/// Whether two or more enabled applications claim `key`.
fn resolution_in(claims: &Vec<Claim>, index: Ghost<ClaimIndex>, key: &ResourceKey) -> (answer: Duplication)
    requires
        claims_match(claims@, index@),
    ensures
        answer == duplication_of(claimants_of(index@, key@)),
{
    let mut first: Option<usize> = None;
    let mut i: usize = 0;
    while i < claims.len()
        invariant
            i <= claims@.len(),
            claims_match(claims@, index@),
            first matches Some(f) ==> f < i && claims@[f as int].key@ == key@
                && claims@[f as int].enabled,
            forall|j: int|
                0 <= j < i && (#[trigger] claims@[j]).key@ == key@ && claims@[j].enabled
                    ==> first == Some(j as usize),
        decreases claims@.len() - i,
    {
        if claims[i].enabled && claims[i].key.matches(key) {
            match first {
                Some(f) => {
                    proof {
                        let a = claims@[f as int].game@;
                        let b = claims@[i as int].game@;
                        let held = claimants_of(index@, key@);
                        assert(held.contains_key(a) && held[a]);
                        assert(held.contains_key(b) && held[b]);
                        assert(a != b);
                    }
                    return Duplication::Unresolved;
                },
                None => {
                    first = Some(i);
                },
            }
        }
        i += 1;
    }
    proof {
        let held = claimants_of(index@, key@);
        if contested(held) {
            let (a, b) = choose|a: Seq<char>, b: Seq<char>|
                a != b && #[trigger] held.contains_key(a) && held[a] && #[trigger] held.contains_key(b)
                    && held[b];
            assert(stored(claims@, key@, a));
            assert(stored(claims@, key@, b));
            let wa = choose|w: int|
                0 <= w < claims@.len() && (#[trigger] claims@[w]).key@ == key@
                    && claims@[w].game@ == a;
            let wb = choose|w: int|
                0 <= w < claims@.len() && (#[trigger] claims@[w]).key@ == key@
                    && claims@[w].game@ == b;
            assert(claims@[wa].enabled);
            assert(claims@[wb].enabled);
            assert(first == Some(wa as usize));
            assert(first == Some(wb as usize));
        }
    }
    Duplication::Resolved
}

/// Every application that claims `key`, each with whether it is enabled.
fn claimants_in(claims: &Vec<Claim>, index: Ghost<ClaimIndex>, key: &ResourceKey) -> (entries: Vec<(String, bool)>)
    requires
        claims_match(claims@, index@),
    ensures
        lists_claimants(entries@, claimants_of(index@, key@)),
{
    let ghost held = claimants_of(index@, key@);
    let mut entries: Vec<(String, bool)> = Vec::new();
    let ghost mut origin: Seq<int> = Seq::empty();
    let mut i: usize = 0;
    while i < claims.len()
        invariant
            i <= claims@.len(),
            claims_match(claims@, index@),
            held == claimants_of(index@, key@),
            origin.len() == entries@.len(),
            forall|e: int|
                0 <= e < entries@.len() ==> 0 <= (#[trigger] origin[e]) < i && claims@[origin[e]].key@
                    == key@ && claims@[origin[e]].game@ == entries@[e].0@
                    && claims@[origin[e]].enabled == entries@[e].1,
            forall|e: int, f: int| 0 <= e < f < entries@.len() ==> (#[trigger] origin[e]) < (#[trigger] origin[f]),
            forall|j: int|
                0 <= j < i && (#[trigger] claims@[j]).key@ == key@ ==> exists|e: int|
                    0 <= e < entries@.len() && (#[trigger] entries@[e]).0@ == claims@[j].game@,
        decreases claims@.len() - i,
    {
        if claims[i].key.matches(key) {
            let ghost earlier = entries@;
            entries.push((claims[i].game.clone(), claims[i].enabled));
            proof {
                origin = origin.push(i as int);
                let last = earlier.len() as int;
                assert(entries@[last].0@ == claims@[i as int].game@);
                assert forall|j: int|
                    0 <= j < i + 1 && (#[trigger] claims@[j]).key@ == key@ implies exists|e: int|
                    0 <= e < entries@.len() && (#[trigger] entries@[e]).0@ == claims@[j].game@ by {
                    if j < i {
                        let e = choose|e: int|
                            0 <= e < earlier.len() && (#[trigger] earlier[e]).0@ == claims@[j].game@;
                        assert(entries@[e].0@ == claims@[j].game@);
                    } else {
                        assert(entries@[last].0@ == claims@[j].game@);
                    }
                }
            }
        }
        i += 1;
    }
    proof {
        assert forall|e: int| 0 <= e < entries@.len() implies held.contains_key(
            (#[trigger] entries@[e]).0@,
        ) && held[entries@[e].0@] == entries@[e].1 by {
            let claim = claims@[origin[e]];
            assert(index@.contains_key(claim.key@));
        }
        assert forall|game: Seq<char>| #[trigger] held.contains_key(game) implies exists|e: int|
            0 <= e < entries@.len() && (#[trigger] entries@[e]).0@ == game by {
            assert(stored(claims@, key@, game));
            let w = choose|w: int|
                0 <= w < claims@.len() && (#[trigger] claims@[w]).key@ == key@
                    && claims@[w].game@ == game;
            assert(claims@[w].key@ == key@);
        }
        assert forall|e: int, f: int| 0 <= e < f < entries@.len() implies (#[trigger] entries@[e]).0@ != (
        #[trigger] entries@[f]).0@ by {
            assert(origin[e] < origin[f]);
            assert(!(claims@[origin[e]].key@ == claims@[origin[f]].key@
                && claims@[origin[e]].game@ == claims@[origin[f]].game@));
        }
    }
    entries
}



/// Whether `game` has a claim on a resource that two or more enabled
/// applications claim.
fn game_resolution_in(claims: &Vec<Claim>, index: Ghost<ClaimIndex>, game: &str) -> (answer: Duplication)
    requires
        claims_match(claims@, index@),
    ensures
        answer == (if game_contested(index@, game@) {
            Duplication::Unresolved
        } else {
            Duplication::Resolved
        }),
{
    let mut i: usize = 0;
    while i < claims.len()
        invariant
            i <= claims@.len(),
            claims_match(claims@, index@),
            forall|j: int|
                0 <= j < i && (#[trigger] claims@[j]).game@ == game@ ==> !contested(
                    claimants_of(index@, claims@[j].key@),
                ),
        decreases claims@.len() - i,
    {
        if same_text(claims[i].game.as_str(), game) {
            if !resolution_in(claims, index, &claims[i].key).resolved() {
                proof {
                    let key = claims@[i as int].key@;
                    assert(index@.contains_key(key) && index@[key].contains_key(game@));
                }
                return Duplication::Unresolved;
            }
        }
        i += 1;
    }
    proof {
        if game_contested(index@, game@) {
            let key = choose|key: ResourceKeyModel|
                #[trigger] index@.contains_key(key) && index@[key].contains_key(game@) && contested(
                    index@[key],
                );
            assert(stored(claims@, key, game@));
            let w = choose|w: int|
                0 <= w < claims@.len() && (#[trigger] claims@[w]).key@ == key
                    && claims@[w].game@ == game@;
            assert(!contested(claimants_of(index@, claims@[w].key@)));
        }
    }
    Duplication::Resolved
}

impl DuplicateDetector {
    /// Whether two or more enabled applications claim `key`.
    pub fn resolution(&self, key: &ResourceKey) -> (answer: Duplication)
        ensures
            answer == duplication_of(claimants_of(self@, key@)),
    {
        proof {
            use_type_invariant(self);
            lemma_index_matches(self.claims@);
        }
        resolution_in(&self.claims, Ghost(self@), key)
    }

    /// Every application that claims `key`, each with whether it is enabled.
    pub fn claimants(&self, key: &ResourceKey) -> (entries: Vec<(String, bool)>)
        ensures
            lists_claimants(entries@, claimants_of(self@, key@)),
    {
        proof {
            use_type_invariant(self);
            lemma_index_matches(self.claims@);
        }
        claimants_in(&self.claims, Ghost(self@), key)
    }

    /// Whether two or more enabled applications claim the file.
    pub fn is_file_duplicated(&self, file: &ScannedFile) -> (answer: Duplication)
        ensures
            answer == duplication_of(claimants_of(self@, ResourceKeyModel::File(file.path@))),
    {
        self.resolution(&ResourceKey::File(file.path.clone()))
    }

    /// Every application that claims the file.
    pub fn file(&self, file: &ScannedFile) -> (entries: Vec<(String, bool)>)
        ensures
            lists_claimants(entries@, claimants_of(self@, ResourceKeyModel::File(file.path@))),
    {
        self.claimants(&ResourceKey::File(file.path.clone()))
    }

    /// Whether two or more enabled applications claim the registry key at `path`.
    pub fn is_registry_duplicated(&self, path: &str) -> (answer: Duplication)
        ensures
            answer == duplication_of(claimants_of(self@, ResourceKeyModel::Registry(path@))),
    {
        self.resolution(&ResourceKey::Registry(path.to_owned()))
    }

    /// Every application that claims the registry key at `path`.
    pub fn registry(&self, path: &str) -> (entries: Vec<(String, bool)>)
        ensures
            lists_claimants(entries@, claimants_of(self@, ResourceKeyModel::Registry(path@))),
    {
        self.claimants(&ResourceKey::Registry(path.to_owned()))
    }

    /// Whether two or more enabled applications claim the value `name`
    /// under the registry key at `path`.
    pub fn is_registry_value_duplicated(&self, path: &str, name: &str) -> (answer: Duplication)
        ensures
            answer == duplication_of(claimants_of(self@, ResourceKeyModel::RegistryValue(path@, name@))),
    {
        self.resolution(&ResourceKey::RegistryValue(path.to_owned(), name.to_owned()))
    }

    /// Every application that claims the value `name` under the registry
    /// key at `path`.
    pub fn registry_value(&self, path: &str, name: &str) -> (entries: Vec<(String, bool)>)
        ensures
            lists_claimants(entries@, claimants_of(self@, ResourceKeyModel::RegistryValue(path@, name@))),
    {
        self.claimants(&ResourceKey::RegistryValue(path.to_owned(), name.to_owned()))
    }

    /// Whether `game` has a claim on a resource that two or more enabled
    /// applications claim.
    pub fn is_game_duplicated(&self, game: &str) -> (answer: Duplication)
        ensures
            answer == (if game_contested(self@, game@) {
                Duplication::Unresolved
            } else {
                Duplication::Resolved
            }),
    {
        proof {
            use_type_invariant(self);
            lemma_index_matches(self.claims@);
        }
        game_resolution_in(&self.claims, Ghost(self@), game)
    }
}

/// The applications other than `game` among `claimants`.
pub open spec fn others_claiming(claimants: Claimants, game: Seq<char>) -> Set<Seq<char>> {
    claimants.dom().remove(game)
}

/// Two enabled applications of different names that both hold a resource:
/// once both are registered, in either order of the two, the resource is
/// `Unresolved`, and each of the two sees as the others the applications
/// that claimed the resource before, and the other one of the two.
pub proof fn lemma_shared_resource_is_unresolved(
    index: ClaimIndex,
    first: ScanInfo,
    second: ScanInfo,
    key: ResourceKeyModel,
)
    requires
        resources_of(first).contains(key),
        resources_of(second).contains(key),
        first.game_name@ != second.game_name@,
    ensures
        ({
            let a = first.game_name@;
            let b = second.game_name@;
            let after = with_claims(with_claims(index, resources_of(first), a, true), resources_of(second), b, true);
            let before = claimants_of(index, key);
            let held = claimants_of(after, key);
            &&& duplication_of(held) == Duplication::Unresolved
            &&& others_claiming(held, a) == others_claiming(before, a).insert(b)
            &&& others_claiming(held, b) == others_claiming(before, b).insert(a)
        }),
{
    let a = first.game_name@;
    let b = second.game_name@;
    let middle = with_claims(index, resources_of(first), a, true);
    let after = with_claims(middle, resources_of(second), b, true);
    let before = claimants_of(index, key);
    let held = claimants_of(after, key);
    assert(middle.contains_key(key));
    assert(held == before.insert(a, true).insert(b, true));
    assert(held.contains_key(a) && held[a]);
    assert(held.contains_key(b) && held[b]);
    assert(others_claiming(held, a) =~= others_claiming(before, a).insert(b));
    assert(others_claiming(held, b) =~= others_claiming(before, b).insert(a));
}

/// Two enabled applications of different names that share a file, with
/// nobody registered before them: the file is `Unresolved`, and each of
/// the two sees exactly the other one.
pub proof fn lemma_shared_file_is_unresolved(first: ScanInfo, second: ScanInfo, path: Seq<char>)
    requires
        first.has_file(path),
        second.has_file(path),
        first.game_name@ != second.game_name@,
    ensures
        ({
            let a = first.game_name@;
            let b = second.game_name@;
            let after = with_claims(
                with_claims(Map::empty(), resources_of(first), a, true),
                resources_of(second),
                b,
                true,
            );
            let held = claimants_of(after, ResourceKeyModel::File(path));
            &&& duplication_of(held) == Duplication::Unresolved
            &&& others_claiming(held, a) == set![b]
            &&& others_claiming(held, b) == set![a]
        }),
{
    let key = ResourceKeyModel::File(path);
    let none = Map::<ResourceKeyModel, Claimants>::empty();
    lemma_shared_resource_is_unresolved(none, first, second, key);
    let before = claimants_of(none, key);
    assert(others_claiming(before, first.game_name@).insert(second.game_name@) =~= set![second.game_name@]);
    assert(others_claiming(before, second.game_name@).insert(first.game_name@) =~= set![first.game_name@]);
}

/// The order in which two applications of different names are registered
/// makes no difference to the index.
pub proof fn lemma_registration_order_is_free(
    index: ClaimIndex,
    first: ScanInfo,
    first_enabled: bool,
    second: ScanInfo,
    second_enabled: bool,
)
    requires
        first.game_name@ != second.game_name@,
    ensures
        with_claims(
            with_claims(index, resources_of(first), first.game_name@, first_enabled),
            resources_of(second),
            second.game_name@,
            second_enabled,
        ) == with_claims(
            with_claims(index, resources_of(second), second.game_name@, second_enabled),
            resources_of(first),
            first.game_name@,
            first_enabled,
        ),
{
    let a = first.game_name@;
    let b = second.game_name@;
    let one = with_claims(
        with_claims(index, resources_of(first), a, first_enabled),
        resources_of(second),
        b,
        second_enabled,
    );
    let other = with_claims(
        with_claims(index, resources_of(second), b, second_enabled),
        resources_of(first),
        a,
        first_enabled,
    );
    assert forall|key: ResourceKeyModel| one.contains_key(key) == other.contains_key(key) by {}
    assert forall|key: ResourceKeyModel| #[trigger] one.contains_key(key) implies one[key] =~= other[key] by {}
    assert(one =~= other);
}

/// A disabled application occupies the index without counting: where only
/// one of the claimants of a resource is enabled, the resource is `Resolved`.
pub proof fn lemma_disabled_claims_do_not_count(claimants: Claimants, game: Seq<char>)
    requires
        forall|other: Seq<char>| #[trigger] claimants.contains_key(other) && other != game ==> !claimants[other],
    ensures
        duplication_of(claimants) == Duplication::Resolved,
{
}

} // verus!
