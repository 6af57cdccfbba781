//! The meaning of a list of key/value pairs as a mapping, and what follows
//! from it.

use crate::decimal::{decimal, lemma_decimal_injective};
use vstd::prelude::*;

verus! {

/// The mapping that results from entering the pairs one after the other
/// into an empty mapping: where a key occurs more than once, the value of
/// its last occurrence stands.
pub open spec fn pairs_to_map(pairs: Seq<(Seq<char>, Seq<char>)>) -> Map<Seq<char>, Seq<char>>
    decreases pairs.len(),
{
    if pairs.len() == 0 {
        Map::empty()
    } else {
        pairs_to_map(pairs.drop_last()).insert(pairs.last().0, pairs.last().1)
    }
}

/// The pairs that a list of rows spells, the first element of a row being
/// the key and the second the value.
pub open spec fn rows_to_pairs(rows: Seq<Seq<Seq<char>>>) -> Seq<(Seq<char>, Seq<char>)> {
    Seq::new(rows.len(), |i: int| (rows[i][0], rows[i][1]))
}

/// The pairs that a list of values spells when each value is filed under
/// the numeral of its place in the list, counted from zero.
pub open spec fn positional_pairs(values: Seq<Seq<char>>) -> Seq<(Seq<char>, Seq<char>)> {
    Seq::new(values.len(), |i: int| (decimal(i as nat), values[i]))
}

/// Some pair of the list has the key `key`.
pub open spec fn has_key(pairs: Seq<(Seq<char>, Seq<char>)>, key: Seq<char>) -> bool {
    exists|i: int| 0 <= i < pairs.len() && (#[trigger] pairs[i]).0 == key
}

/// No key occurs in two pairs of the list.
pub open spec fn distinct_keys(pairs: Seq<(Seq<char>, Seq<char>)>) -> bool {
    forall|i: int, j: int|
        0 <= i < j < pairs.len() ==> (#[trigger] pairs[i]).0 != (#[trigger] pairs[j]).0
}

/// The mapping of a list is finite, and its keys are the keys of the pairs.
pub proof fn lemma_pairs_keys(pairs: Seq<(Seq<char>, Seq<char>)>)
    ensures
        pairs_to_map(pairs).dom().finite(),
        forall|key: Seq<char>| #[trigger]
            pairs_to_map(pairs).contains_key(key) <==> has_key(pairs, key),
    decreases pairs.len(),
{
    if pairs.len() > 0 {
        let front = pairs.drop_last();
        lemma_pairs_keys(front);
        assert forall|key: Seq<char>| #[trigger]
            pairs_to_map(pairs).contains_key(key) <==> has_key(pairs, key) by {
            if has_key(front, key) {
                let i = choose|i: int| 0 <= i < front.len() && (#[trigger] front[i]).0 == key;
                assert(pairs[i].0 == key);
            }
            if key == pairs.last().0 {
                assert(pairs[pairs.len() - 1].0 == key);
            }
            if has_key(pairs, key) && key != pairs.last().0 {
                let i = choose|i: int| 0 <= i < pairs.len() && (#[trigger] pairs[i]).0 == key;
                assert(front[i].0 == key);
            }
        }
    }
}

/// Last write wins: a pair whose key does not occur again further down the
/// list gives the value of its key.
pub proof fn lemma_last_pair_wins(pairs: Seq<(Seq<char>, Seq<char>)>, i: int)
    requires
        0 <= i < pairs.len(),
        forall|j: int| i < j < pairs.len() ==> (#[trigger] pairs[j]).0 != pairs[i].0,
    ensures
        pairs_to_map(pairs).contains_key(pairs[i].0),
        pairs_to_map(pairs)[pairs[i].0] == pairs[i].1,
    decreases pairs.len(),
{
    if i < pairs.len() - 1 {
        let front = pairs.drop_last();
        assert forall|j: int| i < j < front.len() implies (#[trigger] front[j]).0 != front[i].0 by {
            assert(pairs[j].0 != pairs[i].0);
        }
        lemma_last_pair_wins(front, i);
    }
}

/// What is left of a list without a repeated key when its last pair is
/// taken away has no repeated key either, and does not have the key of
/// that pair.
proof fn lemma_distinct_keys_front(pairs: Seq<(Seq<char>, Seq<char>)>)
    requires
        distinct_keys(pairs),
        pairs.len() > 0,
    ensures
        distinct_keys(pairs.drop_last()),
        !has_key(pairs.drop_last(), pairs.last().0),
{
    let front = pairs.drop_last();
    assert forall|i: int, j: int| 0 <= i < j < front.len() implies (#[trigger] front[i]).0 != (
    #[trigger] front[j]).0 by {
        assert(pairs[i].0 != pairs[j].0);
    }
    if has_key(front, pairs.last().0) {
        let i = choose|i: int| 0 <= i < front.len() && (#[trigger] front[i]).0 == pairs.last().0;
        assert(pairs[i].0 != pairs[pairs.len() - 1].0);
    }
}

/// A list without a repeated key has as many pairs as its mapping has
/// keys.
pub proof fn lemma_distinct_keys_len(pairs: Seq<(Seq<char>, Seq<char>)>)
    requires
        distinct_keys(pairs),
    ensures
        pairs_to_map(pairs).len() == pairs.len(),
    decreases pairs.len(),
{
    if pairs.len() > 0 {
        let front = pairs.drop_last();
        lemma_distinct_keys_front(pairs);
        lemma_distinct_keys_len(front);
        lemma_pairs_keys(front);
        assert(!pairs_to_map(front).contains_key(pairs.last().0));
    }
}

/// In a list without a repeated key, putting a new value in the place of
/// the value of pair `i` enters that value under the pair's key.
pub proof fn lemma_replace_value(pairs: Seq<(Seq<char>, Seq<char>)>, i: int, value: Seq<char>)
    requires
        distinct_keys(pairs),
        0 <= i < pairs.len(),
    ensures
        distinct_keys(pairs.update(i, (pairs[i].0, value))),
        pairs_to_map(pairs.update(i, (pairs[i].0, value))) == pairs_to_map(pairs).insert(
            pairs[i].0,
            value,
        ),
{
    let key = pairs[i].0;
    let changed = pairs.update(i, (key, value));
    let lhs = pairs_to_map(changed);
    let rhs = pairs_to_map(pairs).insert(key, value);
    // The keys stand where they stood.
    assert forall|a: int| 0 <= a < pairs.len() implies (#[trigger] changed[a]).0 == pairs[a].0 by {}
    assert(distinct_keys(changed)) by {
        assert forall|a: int, b: int| 0 <= a < b < changed.len() implies (#[trigger] changed[a]).0
            != (#[trigger] changed[b]).0 by {
            assert(pairs[a].0 != pairs[b].0);
        }
    }
    lemma_pairs_keys(pairs);
    lemma_pairs_keys(changed);
    assert forall|k: Seq<char>| lhs.contains_key(k) <==> rhs.contains_key(k) by {
        if has_key(changed, k) {
            let j = choose|j: int| 0 <= j < changed.len() && (#[trigger] changed[j]).0 == k;
            assert(pairs[j].0 == k);
        }
        if has_key(pairs, k) {
            let j = choose|j: int| 0 <= j < pairs.len() && (#[trigger] pairs[j]).0 == k;
            assert(changed[j].0 == k);
        }
    }
    // Each key occurs once, so its one pair gives its value on both sides.
    assert forall|k: Seq<char>| lhs.contains_key(k) implies lhs[k] == rhs[k] by {
        let j = choose|j: int| 0 <= j < changed.len() && (#[trigger] changed[j]).0 == k;
        lemma_last_pair_wins(changed, j);
        lemma_last_pair_wins(pairs, j);
    }
    assert(lhs =~= rhs);
}

/// One key and one value give the same mapping however they are entered:
/// as a list of one row, by an insertion into the empty mapping, or as a
/// mapping of one entry.
pub proof fn lemma_one_entry_converges(key: Seq<char>, value: Seq<char>)
    ensures
        pairs_to_map(rows_to_pairs(seq![seq![key, value]])) == Map::<
            Seq<char>,
            Seq<char>,
        >::empty().insert(key, value),
        map![key => value] == Map::<Seq<char>, Seq<char>>::empty().insert(key, value),
{
    let pairs = rows_to_pairs(seq![seq![key, value]]);
    assert(pairs.last() == (key, value));
    assert(pairs_to_map(pairs.drop_last()) == Map::<Seq<char>, Seq<char>>::empty());
}

/// A list of values filed by place has one entry for each value: the value
/// at place `i` stands under the numeral of `i`, and nothing stands under
/// any other key.
pub proof fn lemma_positional_entries(values: Seq<Seq<char>>)
    ensures
        distinct_keys(positional_pairs(values)),
        pairs_to_map(positional_pairs(values)).len() == values.len(),
        forall|i: nat|
            i < values.len() ==> pairs_to_map(positional_pairs(values)).contains_key(
                #[trigger] decimal(i),
            ) && pairs_to_map(positional_pairs(values))[decimal(i)] == values[i as int],
        forall|key: Seq<char>| #[trigger]
            pairs_to_map(positional_pairs(values)).contains_key(key) ==> exists|i: nat|
                i < values.len() && key == #[trigger] decimal(i),
{
    let pairs = positional_pairs(values);
    assert forall|i: int, j: int| 0 <= i < j < pairs.len() implies (#[trigger] pairs[i]).0 != (
    #[trigger] pairs[j]).0 by {
        if decimal(i as nat) == decimal(j as nat) {
            lemma_decimal_injective(i as nat, j as nat);
        }
    }
    lemma_distinct_keys_len(pairs);
    lemma_pairs_keys(pairs);
    assert forall|i: nat| i < values.len() implies pairs_to_map(pairs).contains_key(
        #[trigger] decimal(i),
    ) && pairs_to_map(pairs)[decimal(i)] == values[i as int] by {
        lemma_last_pair_wins(pairs, i as int);
    }
    assert forall|key: Seq<char>| #[trigger]
        pairs_to_map(pairs).contains_key(key) implies exists|i: nat|
        i < values.len() && key == #[trigger] decimal(i) by {
        let i = choose|i: int| 0 <= i < pairs.len() && (#[trigger] pairs[i]).0 == key;
        assert(key == decimal(i as nat));
    }
}

/// What entering a value under the numeral of the size does to a finite
/// mapping. Where nothing stands under that numeral, the mapping grows by
/// one entry. Where something does, its value is replaced and the mapping
/// keeps its keys and its size.
pub proof fn lemma_insert_at_size(meta: Map<Seq<char>, Seq<char>>, value: Seq<char>)
    requires
        meta.dom().finite(),
    ensures
        ({
            let key = decimal(meta.len());
            let after = meta.insert(key, value);
            &&& after[key] == value
            &&& forall|other: Seq<char>|
                other != key ==> after.contains_key(other) == meta.contains_key(other)
                    && after[other] == meta[other]
            &&& !meta.contains_key(key) ==> after.len() == meta.len() + 1
            &&& meta.contains_key(key) ==> after.dom() == meta.dom() && after.len() == meta.len()
        }),
{
    let key = decimal(meta.len());
    if meta.contains_key(key) {
        assert(meta.insert(key, value).dom() =~= meta.dom());
    }
}

} // verus!
