//! Lists of named items, looked up by name. Where a name occurs more than
//! once, the first occurrence counts.

use vstd::prelude::*;

use crate::text::same_text;

verus! {

/// Whether `entries` has an item called `name`.
pub open spec fn has_name<T>(entries: Seq<(String, T)>, name: Seq<char>) -> bool {
    exists|i: int| 0 <= i < entries.len() && (#[trigger] entries[i]).0@ == name
}

/// Whether `index` is the first place at which `entries` has an item
/// called `name`.
pub open spec fn first_named<T>(entries: Seq<(String, T)>, name: Seq<char>, index: int) -> bool {
    &&& 0 <= index < entries.len()
    &&& entries[index].0@ == name
    &&& forall|j: int| 0 <= j < index ==> (#[trigger] entries[j]).0@ != name
}

/// The first place at which `entries` has an item called `name`.
pub open spec fn place_of<T>(entries: Seq<(String, T)>, name: Seq<char>) -> int {
    choose|i: int| first_named(entries, name, i)
}

/// There is one first place only.
pub proof fn lemma_place_of<T>(entries: Seq<(String, T)>, name: Seq<char>, index: int)
    requires
        first_named(entries, name, index),
    ensures
        place_of(entries, name) == index,
{
    let chosen = place_of(entries, name);
    assert(first_named(entries, name, chosen));
    if chosen < index {
        assert(entries[chosen].0@ != name);
    }
    if index < chosen {
        assert(entries[index].0@ != name);
    }
}

proof fn lemma_first_upto<T>(entries: Seq<(String, T)>, name: Seq<char>, bound: int)
    requires
        0 <= bound < entries.len(),
        entries[bound].0@ == name,
    ensures
        exists|i: int| first_named(entries, name, i),
    decreases bound,
{
    if exists|j: int| 0 <= j < bound && (#[trigger] entries[j]).0@ == name {
        let j = choose|j: int| 0 <= j < bound && (#[trigger] entries[j]).0@ == name;
        lemma_first_upto(entries, name, j);
    } else {
        assert(first_named(entries, name, bound));
    }
}

/// Where a list has an item of a name, the name has a first place.
pub proof fn lemma_first_place<T>(entries: Seq<(String, T)>, name: Seq<char>)
    requires
        has_name(entries, name),
    ensures
        first_named(entries, name, place_of(entries, name)),
{
    let w = choose|w: int| 0 <= w < entries.len() && (#[trigger] entries[w]).0@ == name;
    lemma_first_upto(entries, name, w);
}

/// The first place at which `entries` has an item called `name`, if any.
pub fn find_named<T>(entries: &Vec<(String, T)>, name: &str) -> (found: Option<usize>)
    ensures
        found is Some <==> has_name(entries@, name@),
        found matches Some(index) ==> first_named(entries@, name@, index as int) && index == place_of(
            entries@,
            name@,
        ),
{
    let mut i: usize = 0;
    while i < entries.len()
        invariant
            i <= entries@.len(),
            forall|j: int| 0 <= j < i ==> (#[trigger] entries@[j]).0@ != name@,
        decreases entries@.len() - i,
    {
        if same_text(entries[i].0.as_str(), name) {
            proof {
                lemma_place_of(entries@, name@, i as int);
            }
            return Some(i);
        }
        i += 1;
    }
    None
}

/// Whether `after` is `before` with `item` entered under `name`: in the
/// place of the first item of that name, where there is one, and else at
/// the end. Everything else stays as it is.
pub open spec fn entered<T>(before: Seq<(String, T)>, after: Seq<(String, T)>, name: Seq<char>, item: T) -> bool {
    if has_name(before, name) {
        &&& after.len() == before.len()
        &&& after[place_of(before, name)].0@ == name
        &&& after[place_of(before, name)].1 == item
        &&& forall|j: int|
            0 <= j < before.len() && j != place_of(before, name) ==> (#[trigger] after[j]) == before[j]
    } else {
        &&& after.len() == before.len() + 1
        &&& after.last().0@ == name
        &&& after.last().1 == item
        &&& forall|j: int| 0 <= j < before.len() ==> (#[trigger] after[j]) == before[j]
    }
}

/// Whether no two items of `entries` have the same name.
pub open spec fn distinct<T>(entries: Seq<(String, T)>) -> bool {
    forall|i: int, j: int| 0 <= i < j < entries.len() ==> (#[trigger] entries[i]).0@ != (#[trigger] entries[j]).0@
}

/// Enters `item` under `name`, in the place of an item of that name if
/// there is one.
pub fn put<T>(entries: &mut Vec<(String, T)>, name: String, item: T)
    ensures
        entered(old(entries)@, final(entries)@, name@, item),
        distinct(old(entries)@) ==> distinct(final(entries)@),
        has_name(final(entries)@, name@),
        place_of(final(entries)@, name@) == (if has_name(old(entries)@, name@) {
            place_of(old(entries)@, name@)
        } else {
            old(entries)@.len() as int
        }),
        forall|other: Seq<char>| has_name(old(entries)@, other) ==> has_name(final(entries)@, other),
        forall|other: Seq<char>|
            other != name@ && #[trigger] has_name(old(entries)@, other) ==> place_of(final(entries)@, other)
                == place_of(old(entries)@, other) && final(entries)@[place_of(old(entries)@, other)] == old(
                entries,
            )@[place_of(old(entries)@, other)],
        forall|other: Seq<char>| has_name(final(entries)@, other) ==> other == name@ || has_name(old(entries)@, other),
{
    let ghost before = entries@;
    match find_named(entries, name.as_str()) {
        Some(index) => {
            let ghost text = name@;
            entries.set(index, (name, item));
            proof {
                assert(entries@[index as int].0@ == text);
                assert forall|j: int| 0 <= j < index implies (#[trigger] entries@[j]).0@ != text by {
                    assert(before[j].0@ != text);
                }
                lemma_place_of(entries@, text, index as int);
                assert forall|other: Seq<char>| other != text && #[trigger] has_name(before, other) implies place_of(
                    entries@,
                    other,
                ) == place_of(before, other) && entries@[place_of(before, other)] == before[place_of(
                    before,
                    other,
                )] by {
                    lemma_first_place(before, other);
                    let w = place_of(before, other);
                    assert(entries@[w] == before[w]);
                    assert forall|z: int| 0 <= z < w implies (#[trigger] entries@[z]).0@ != other by {
                        if z != index {
                            assert(entries@[z] == before[z]);
                        }
                    }
                    lemma_place_of(entries@, other, w);
                }
                assert forall|other: Seq<char>| has_name(before, other) implies has_name(entries@, other) by {
                    let w = choose|w: int| 0 <= w < before.len() && (#[trigger] before[w]).0@ == other;
                    assert(entries@[w].0@ == other);
                }
                assert forall|other: Seq<char>| has_name(entries@, other) implies other == text || has_name(
                    before,
                    other,
                ) by {
                    let w = choose|w: int| 0 <= w < entries@.len() && (#[trigger] entries@[w]).0@ == other;
                    if w != index {
                        assert(before[w].0@ == other);
                    }
                }
                if distinct(before) {
                    assert forall|i: int, j: int| 0 <= i < j < entries@.len() implies (#[trigger] entries@[i]).0@
                        != (#[trigger] entries@[j]).0@ by {
                        assert(before[i].0@ != before[j].0@);
                    }
                }
            }
        },
        None => {
            let ghost text = name@;
            entries.push((name, item));
            proof {
                let last = before.len() as int;
                assert(entries@[last].0@ == text);
                assert forall|j: int| 0 <= j < last implies (#[trigger] entries@[j]).0@ != text by {
                    assert(before[j].0@ != text);
                }
                lemma_place_of(entries@, text, last);
                assert forall|other: Seq<char>| other != text && #[trigger] has_name(before, other) implies place_of(
                    entries@,
                    other,
                ) == place_of(before, other) && entries@[place_of(before, other)] == before[place_of(
                    before,
                    other,
                )] by {
                    lemma_first_place(before, other);
                    let w = place_of(before, other);
                    assert(entries@[w] == before[w]);
                    assert forall|z: int| 0 <= z < w implies (#[trigger] entries@[z]).0@ != other by {
                        assert(entries@[z] == before[z]);
                    }
                    lemma_place_of(entries@, other, w);
                }
                assert forall|other: Seq<char>| has_name(before, other) implies has_name(entries@, other) by {
                    let w = choose|w: int| 0 <= w < before.len() && (#[trigger] before[w]).0@ == other;
                    assert(entries@[w].0@ == other);
                }
                assert forall|other: Seq<char>| has_name(entries@, other) implies other == text || has_name(
                    before,
                    other,
                ) by {
                    let w = choose|w: int| 0 <= w < entries@.len() && (#[trigger] entries@[w]).0@ == other;
                    if w != last {
                        assert(before[w].0@ == other);
                    }
                }
                if distinct(before) {
                    assert forall|i: int, j: int| 0 <= i < j < entries@.len() implies (#[trigger] entries@[i]).0@
                        != (#[trigger] entries@[j]).0@ by {
                        if j < last {
                            assert(before[i].0@ != before[j].0@);
                        } else {
                            assert(before[i].0@ != text);
                        }
                    }
                }
            }
        },
    }
}

} // verus!
