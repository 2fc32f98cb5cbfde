//! Texts: comparison, numbers and sizes written out, lines joined.

use vstd::prelude::*;

verus! {

/// Whether two texts are equal, by `==` of `str`.
///
/// Trusted: `==` of `str` holds exactly when both hold the same characters.
#[verifier::external_body]
pub(crate) fn same_text(a: &str, b: &str) -> (same: bool)
    ensures
        same == (a@ == b@),
{
    a == b
}

/// The texts of a list of strings.
pub open spec fn texts_of(names: Seq<String>) -> Seq<Seq<char>> {
    Seq::new(names.len(), |i: int| names[i]@)
}

/// The character that stands for a digit.
pub open spec fn digit_char(digit: nat) -> char {
    if digit == 0 {
        '0'
    } else if digit == 1 {
        '1'
    } else if digit == 2 {
        '2'
    } else if digit == 3 {
        '3'
    } else if digit == 4 {
        '4'
    } else if digit == 5 {
        '5'
    } else if digit == 6 {
        '6'
    } else if digit == 7 {
        '7'
    } else if digit == 8 {
        '8'
    } else {
        '9'
    }
}

/// A number written in decimal, without leading zeros.
pub open spec fn decimal(number: nat) -> Seq<char>
    decreases number,
{
    if number < 10 {
        seq![digit_char(number)]
    } else {
        decimal(number / 10).push(digit_char(number % 10))
    }
}

fn digit_text(digit: u64) -> (text: &'static str)
    requires
        digit < 10,
    ensures
        text@ == seq![digit_char(digit as nat)],
{
    proof {
        reveal_strlit("0");
        reveal_strlit("1");
        reveal_strlit("2");
        reveal_strlit("3");
        reveal_strlit("4");
        reveal_strlit("5");
        reveal_strlit("6");
        reveal_strlit("7");
        reveal_strlit("8");
        reveal_strlit("9");
    }
    let text = if digit == 0 {
        "0"
    } else if digit == 1 {
        "1"
    } else if digit == 2 {
        "2"
    } else if digit == 3 {
        "3"
    } else if digit == 4 {
        "4"
    } else if digit == 5 {
        "5"
    } else if digit == 6 {
        "6"
    } else if digit == 7 {
        "7"
    } else if digit == 8 {
        "8"
    } else {
        "9"
    };
    assert(text@ =~= seq![digit_char(digit as nat)]);
    text
}

/// Writes `number` in decimal.
pub fn decimal_text(number: u64) -> (text: String)
    ensures
        text@ == decimal(number as nat),
    decreases number,
{
    if number < 10 {
        digit_text(number).to_owned()
    } else {
        let mut text = decimal_text(number / 10);
        text.append(digit_text(number % 10));
        text
    }
}

/// How many bytes one unit of the given rank holds: 1024 to the rank's power.
pub open spec fn unit_size(rank: nat) -> nat {
    if rank == 0 {
        1
    } else if rank == 1 {
        0x400
    } else if rank == 2 {
        0x10_0000
    } else if rank == 3 {
        0x4000_0000
    } else if rank == 4 {
        0x100_0000_0000
    } else if rank == 5 {
        0x4_0000_0000_0000
    } else {
        0x1000_0000_0000_0000
    }
}

/// The rank of the largest unit that `bytes` fills at least once.
pub open spec fn unit_rank(bytes: nat) -> nat {
    if bytes < unit_size(1) {
        0
    } else if bytes < unit_size(2) {
        1
    } else if bytes < unit_size(3) {
        2
    } else if bytes < unit_size(4) {
        3
    } else if bytes < unit_size(5) {
        4
    } else if bytes < unit_size(6) {
        5
    } else {
        6
    }
}

/// The name of the unit of the given rank.
pub open spec fn unit_label(rank: nat) -> Seq<char> {
    if rank == 0 {
        "B"@
    } else if rank == 1 {
        "KiB"@
    } else if rank == 2 {
        "MiB"@
    } else if rank == 3 {
        "GiB"@
    } else if rank == 4 {
        "TiB"@
    } else if rank == 5 {
        "PiB"@
    } else {
        "EiB"@
    }
}

/// `bytes` in hundredths of its unit, rounded to the nearest, halves up.
pub open spec fn hundredths(bytes: nat) -> nat {
    (bytes * 100 + unit_size(unit_rank(bytes)) / 2) / unit_size(unit_rank(bytes))
}

/// A size as shown to the user: below 1024 the bytes themselves, as in
/// `512 B`; from there on two decimals of the largest binary unit that the
/// size fills, as in `100.00 KiB`.
pub open spec fn size_text(bytes: nat) -> Seq<char> {
    if unit_rank(bytes) == 0 {
        decimal(bytes) + " "@ + unit_label(0)
    } else {
        decimal(hundredths(bytes) / 100) + "."@ + seq![
            digit_char(hundredths(bytes) % 100 / 10),
            digit_char(hundredths(bytes) % 10),
        ] + " "@ + unit_label(unit_rank(bytes))
    }
}

/// Writes a size as shown to the user.
pub fn adjusted_size(bytes: u64) -> (text: String)
    ensures
        text@ == size_text(bytes as nat),
{
    let rank: u64 = if bytes < 0x400 {
        0
    } else if bytes < 0x10_0000 {
        1
    } else if bytes < 0x4000_0000 {
        2
    } else if bytes < 0x100_0000_0000 {
        3
    } else if bytes < 0x4_0000_0000_0000 {
        4
    } else if bytes < 0x1000_0000_0000_0000 {
        5
    } else {
        6
    };
    let label = if rank == 0 {
        "B"
    } else if rank == 1 {
        "KiB"
    } else if rank == 2 {
        "MiB"
    } else if rank == 3 {
        "GiB"
    } else if rank == 4 {
        "TiB"
    } else if rank == 5 {
        "PiB"
    } else {
        "EiB"
    };
    assert(rank == unit_rank(bytes as nat));
    assert(label@ == unit_label(rank as nat));
    if rank == 0 {
        let mut text = decimal_text(bytes);
        text.append(" ");
        text.append(label);
        text
    } else {
        let unit: u128 = if rank == 1 {
            0x400
        } else if rank == 2 {
            0x10_0000
        } else if rank == 3 {
            0x4000_0000
        } else if rank == 4 {
            0x100_0000_0000
        } else if rank == 5 {
            0x4_0000_0000_0000
        } else {
            0x1000_0000_0000_0000
        };
        assert(unit == unit_size(rank as nat));
        let scaled: u128 = ((bytes as u128) * 100 + unit / 2) / unit;
        assert(scaled == hundredths(bytes as nat));
        assert(scaled <= 102_400) by {
            let top = bytes as int * 100 + unit as int / 2;
            assert(bytes as int <= 1024 * unit as int);
            assert(top < unit as int * 102_401) by (nonlinear_arith)
                requires
                    top == bytes as int * 100 + unit as int / 2,
                    bytes as int <= 1024 * unit as int,
                    unit as int >= 1024,
            ;
            vstd::arithmetic::div_mod::lemma_multiply_divide_lt(top, unit as int, 102_401);
        }
        let whole: u64 = (scaled / 100) as u64;
        let rest: u64 = (scaled % 100) as u64;
        let mut text = decimal_text(whole);
        text.append(".");
        text.append(digit_text(rest / 10));
        text.append(digit_text(rest % 10));
        text.append(" ");
        text.append(label);
        proof {
            assert(rest % 10 == hundredths(bytes as nat) % 10);
            assert(text@ =~= size_text(bytes as nat));
        }
        text
    }
}

/// The lines joined into one text, with `gap` between each two.
pub open spec fn joined(lines: Seq<Seq<char>>, gap: Seq<char>) -> Seq<char>
    decreases lines.len(),
{
    if lines.len() == 0 {
        Seq::empty()
    } else if lines.len() == 1 {
        lines[0]
    } else {
        joined(lines.drop_last(), gap) + gap + lines.last()
    }
}

/// Joins the lines into one text, with `gap` between each two.
pub fn join(lines: &Vec<String>, gap: &str) -> (text: String)
    ensures
        text@ == joined(texts_of(lines@), gap@),
{
    let mut text = String::new();
    let mut i: usize = 0;
    proof {
        assert(texts_of(lines@).take(0) =~= Seq::<Seq<char>>::empty());
    }
    while i < lines.len()
        invariant
            i <= lines@.len(),
            text@ == joined(texts_of(lines@).take(i as int), gap@),
        decreases lines@.len() - i,
    {
        proof {
            let longer = texts_of(lines@).take(i + 1);
            assert(longer.drop_last() =~= texts_of(lines@).take(i as int));
            assert(longer.last() == lines@[i as int]@);
            if i == 0 {
                assert(text@ + lines@[i as int]@ =~= lines@[i as int]@);
            }
        }
        if i > 0 {
            text.append(gap);
        }
        text.append(lines[i].as_str());
        i += 1;
    }
    proof {
        assert(texts_of(lines@).take(i as int) =~= texts_of(lines@));
    }
    text
}

/// Whether text `a` comes strictly before text `b`: at the first place
/// where they differ `a` has the character of the lower code, or `a` ends
/// there and `b` goes on.
pub open spec fn text_before(a: Seq<char>, b: Seq<char>) -> bool
    decreases a.len(),
{
    if b.len() == 0 {
        false
    } else if a.len() == 0 {
        true
    } else if a[0] != b[0] {
        (a[0] as u32) < (b[0] as u32)
    } else {
        text_before(a.drop_first(), b.drop_first())
    }
}

/// Whether the key `a` comes strictly before the key `b`: by its text,
/// and between equal texts by its number.
pub open spec fn key_before(a: (Seq<char>, usize), b: (Seq<char>, usize)) -> bool {
    text_before(a.0, b.0) || (a.0 == b.0 && a.1 < b.1)
}

/// The keys as mathematical values.
pub open spec fn keys_of(items: Seq<(String, usize)>) -> Seq<(Seq<char>, usize)> {
    Seq::new(items.len(), |i: int| (items[i].0@, items[i].1))
}

/// Whether no key comes before one that stands earlier.
pub open spec fn ascending(keys: Seq<(Seq<char>, usize)>) -> bool {
    forall|i: int, j: int| 0 <= i < j < keys.len() ==> !key_before(#[trigger] keys[j], #[trigger] keys[i])
}

/// Whether `sorted` holds the keys of `keys`, each as often, in ascending order.
pub open spec fn sorts(sorted: Seq<(Seq<char>, usize)>, keys: Seq<(Seq<char>, usize)>) -> bool {
    sorted.to_multiset() == keys.to_multiset() && ascending(sorted)
}

/// The keys in ascending order.
pub open spec fn sorted_order(keys: Seq<(Seq<char>, usize)>) -> Seq<(Seq<char>, usize)> {
    choose|sorted: Seq<(Seq<char>, usize)>| sorts(sorted, keys)
}

/// Of two different texts, one comes before the other.
pub proof fn lemma_text_order_is_total(a: Seq<char>, b: Seq<char>)
    ensures
        a == b || text_before(a, b) || text_before(b, a),
    decreases a.len(),
{
    if a.len() == 0 || b.len() == 0 {
        if a.len() == 0 && b.len() == 0 {
            assert(a =~= b);
        }
    } else if a[0] == b[0] {
        lemma_text_order_is_total(a.drop_first(), b.drop_first());
        if a.drop_first() == b.drop_first() {
            assert(a =~= seq![a[0]] + a.drop_first());
            assert(b =~= seq![b[0]] + b.drop_first());
        }
    } else {
        assert(a[0] as u32 != b[0] as u32) by {
            vstd::utf8::char_u32_cast(a[0], a[0] as u32);
            vstd::utf8::char_u32_cast(b[0], b[0] as u32);
        }
    }
}

/// There is one ascending order of the same keys only.
pub proof fn lemma_sorted_order_is_unique(one: Seq<(Seq<char>, usize)>, other: Seq<(Seq<char>, usize)>)
    requires
        one.to_multiset() == other.to_multiset(),
        ascending(one),
        ascending(other),
    ensures
        one == other,
    decreases one.len(),
{
    broadcast use vstd::seq_lib::to_multiset_len, vstd::seq_lib::to_multiset_contains;

    assert(one.len() == one.to_multiset().len());
    assert(other.len() == other.to_multiset().len());
    if one.len() == 0 {
        assert(one =~= other);
    } else {
        let x = one[0];
        let y = other[0];
        assert(x == y) by {
            assert(one.contains(x));
            assert(one.to_multiset().count(x) > 0);
            assert(other.contains(x));
            let j = choose|j: int| 0 <= j < other.len() && other[j] == x;
            assert(other.contains(y));
            assert(other.to_multiset().count(y) > 0);
            assert(one.contains(y));
            let k = choose|k: int| 0 <= k < one.len() && one[k] == y;
            if j > 0 {
                assert(!key_before(other[j], other[0]));
            }
            if k > 0 {
                assert(!key_before(one[k], one[0]));
            }
            lemma_text_order_is_total(x.0, y.0);
        }
        let rest = one.remove(0);
        let other_rest = other.remove(0);
        vstd::seq_lib::to_multiset_remove(one, 0);
        vstd::seq_lib::to_multiset_remove(other, 0);
        assert forall|i: int, j: int| 0 <= i < j < rest.len() implies !key_before(
            #[trigger] rest[j],
            #[trigger] rest[i],
        ) by {
            assert(!key_before(one[j + 1], one[i + 1]));
        }
        assert forall|i: int, j: int| 0 <= i < j < other_rest.len() implies !key_before(
            #[trigger] other_rest[j],
            #[trigger] other_rest[i],
        ) by {
            assert(!key_before(other[j + 1], other[i + 1]));
        }
        lemma_sorted_order_is_unique(rest, other_rest);
        assert(one =~= seq![x] + rest);
        assert(other =~= seq![y] + other_rest);
    }
}

/// Sorts keys of a text and a number.
///
/// Trusted: calls itertools' `sorted`, which collects the items and sorts
/// them with `sort` of slices, by the order of tuples: by the string first,
/// which `String` orders by its bytes and so by the codes of its
/// characters, then by the number. The result holds the same keys, each
/// as often as before, in ascending order.
#[verifier::external_body]
fn sorted_by_itertools(items: Vec<(String, usize)>) -> (sorted: Vec<(String, usize)>)
    ensures
        sorts(keys_of(sorted@), keys_of(items@)),
{
    itertools::sorted(items).collect()
}

/// Sorts keys of a text and a number.
pub fn sorted_keys(items: Vec<(String, usize)>) -> (sorted: Vec<(String, usize)>)
    ensures
        keys_of(sorted@) == sorted_order(keys_of(items@)),
        sorts(keys_of(sorted@), keys_of(items@)),
{
    let ghost keys = keys_of(items@);
    let sorted = sorted_by_itertools(items);
    proof {
        lemma_sorted_order_is_unique(keys_of(sorted@), sorted_order(keys));
    }
    sorted
}

/// Each text with its place.
pub open spec fn placed(names: Seq<Seq<char>>) -> Seq<(Seq<char>, usize)> {
    Seq::new(names.len(), |i: int| (names[i], i as usize))
}

/// The places of `names` in the order of their texts.
pub open spec fn text_ranking(names: Seq<Seq<char>>) -> Seq<usize> {
    Seq::new(sorted_order(placed(names)).len(), |i: int| sorted_order(placed(names))[i].1)
}

/// Whether `order` lists every place of `names` once, ascending by the
/// text at the place and, between equal texts, by the place.
pub open spec fn ranks(order: Seq<usize>, names: Seq<Seq<char>>) -> bool {
    &&& order.len() == names.len()
    &&& forall|i: int| 0 <= i < order.len() ==> (#[trigger] order[i]) < names.len()
    &&& forall|i: int, j: int| 0 <= i < j < order.len() ==> (#[trigger] order[i]) != (#[trigger] order[j])
    &&& forall|place: int| 0 <= place < names.len() ==> #[trigger] order.contains(place as usize)
    &&& forall|i: int, j: int|
        0 <= i < j < order.len() ==> !key_before(
            (names[(#[trigger] order[j]) as int], order[j]),
            (names[(#[trigger] order[i]) as int], order[i]),
        )
}

/// The places of `names` in the order of their texts.
pub fn rank_by_text(names: &Vec<String>) -> (order: Vec<usize>)
    ensures
        order@ == text_ranking(texts_of(names@)),
        ranks(order@, texts_of(names@)),
{
    let mut items: Vec<(String, usize)> = Vec::new();
    let mut i: usize = 0;
    while i < names.len()
        invariant
            i <= names@.len(),
            items@.len() == i,
            forall|j: int| 0 <= j < i ==> (#[trigger] items@[j]).0@ == names@[j]@ && items@[j].1 == j,
        decreases names@.len() - i,
    {
        items.push((names[i].clone(), i));
        i += 1;
    }
    let ghost given = keys_of(items@);
    assert(given =~= placed(texts_of(names@)));
    let sorted = sorted_keys(items);
    let ghost keys = keys_of(sorted@);
    proof {
        broadcast use vstd::seq_lib::to_multiset_len, vstd::seq_lib::to_multiset_contains;

        assert(given.len() == given.to_multiset().len());
        assert(keys.len() == keys.to_multiset().len());
        assert forall|a: int, b: int| 0 <= a < given.len() && 0 <= b < given.len() && a != b implies given[a]
            != given[b] by {
            assert(given[a].1 == a && given[b].1 == b);
        }
        assert(given.no_duplicates());
        given.lemma_multiset_has_no_duplicates();
        keys.lemma_multiset_has_no_duplicates_conv();
        assert forall|e: int| 0 <= e < keys.len() implies (#[trigger] keys[e]).1 < names@.len() && keys[e].0
            == names@[keys[e].1 as int]@ by {
            assert(keys.contains(keys[e]));
            assert(keys.to_multiset().count(keys[e]) > 0);
            assert(given.contains(keys[e]));
            let w = choose|w: int| 0 <= w < given.len() && given[w] == keys[e];
            assert(given[w].1 == w);
        }
    }
    let mut order: Vec<usize> = Vec::new();
    let mut e: usize = 0;
    while e < sorted.len()
        invariant
            e <= sorted@.len(),
            order@.len() == e,
            forall|j: int| 0 <= j < e ==> (#[trigger] order@[j]) == sorted@[j].1,
        decreases sorted@.len() - e,
    {
        order.push(sorted[e].1);
        e += 1;
    }
    proof {
        let texts = texts_of(names@);
        assert(order@ =~= text_ranking(texts));
        assert forall|a: int| 0 <= a < order@.len() implies (#[trigger] order@[a]) < texts.len() by {
            assert(keys[a].1 < names@.len());
        }
        assert forall|a: int, b: int| 0 <= a < b < order@.len() implies (#[trigger] order@[a]) != (
        #[trigger] order@[b]) by {
            assert(keys[a].1 < names@.len() && keys[b].1 < names@.len());
            assert(keys[a] != keys[b]);
        }
        assert forall|place: int| 0 <= place < texts.len() implies #[trigger] order@.contains(
            place as usize,
        ) by {
            broadcast use vstd::seq_lib::to_multiset_contains;

            assert(given[place] == (texts[place], place as usize));
            assert(given.contains(given[place]));
            assert(given.to_multiset().count(given[place]) > 0);
            assert(keys.contains(given[place]));
            let w = choose|w: int| 0 <= w < keys.len() && keys[w] == given[place];
            assert(order@[w] == place as usize);
        }
        assert forall|a: int, b: int| 0 <= a < b < order@.len() implies !key_before(
            (texts[(#[trigger] order@[b]) as int], order@[b]),
            (texts[(#[trigger] order@[a]) as int], order@[a]),
        ) by {
            assert(keys[a].1 < names@.len() && keys[b].1 < names@.len());
            assert(!key_before(keys[b], keys[a]));
        }
    }
    order
}

} // verus!
