//! Metadata: the key/value set attached to a record.

use crate::decimal::{decimal, decimal_string};
use crate::pairs::{
    distinct_keys, has_key, lemma_distinct_keys_len, lemma_last_pair_wins, lemma_pairs_keys,
    lemma_replace_value, pairs_to_map, positional_pairs, rows_to_pairs,
};
use std::collections::HashMap;
use vstd::prelude::*;
use vstd::std_specs::cmp::PartialEqSpecImpl;
use vstd::std_specs::convert::FromSpecImpl;
use vstd::string::StringExecFns;

verus! {

/// A set of key/value pairs in which every key occurs once. Entering a key
/// that is already there replaces its value; the order in which the keys
/// were entered does not show.
///
/// Its view is the mapping from each key to its value.
#[derive(Debug)]
pub struct Meta {
    entries: Vec<(String, String)>,
}

impl View for Meta {
    type V = Map<Seq<char>, Seq<char>>;

    closed spec fn view(&self) -> Map<Seq<char>, Seq<char>> {
        pairs_to_map(self.entries.deep_view())
    }
}

impl Meta {
    #[verifier::type_invariant]
    spec fn each_key_once(&self) -> bool {
        distinct_keys(self.entries.deep_view())
    }

    /// A set has finitely many entries.
    pub proof fn lemma_finite(self)
        ensures
            self@.dom().finite(),
    {
        lemma_pairs_keys(self.entries.deep_view());
    }

    /// A set without entries.
    pub fn new() -> (meta: Self)
        ensures
            meta@ == Map::<Seq<char>, Seq<char>>::empty(),
    {
        Meta { entries: Vec::new() }
    }

    /// The place of `key` among the entries, if it has one.
    fn position(&self, key: &String) -> (place: Option<usize>)
        ensures
            match place {
                Some(i) => i < self.entries.len() && self.entries[i as int].0@ == key@,
                None => !self@.contains_key(key@),
            },
    {
        let mut i: usize = 0;
        while i < self.entries.len()
            invariant
                i <= self.entries.len(),
                forall|j: int| 0 <= j < i ==> (#[trigger] self.entries[j]).0@ != key@,
            decreases self.entries.len() - i,
        {
            if self.entries[i].0 == *key {
                return Some(i);
            }
            i += 1;
        }
        proof {
            let pairs = self.entries.deep_view();
            lemma_pairs_keys(pairs);
            if has_key(pairs, key@) {
                let j = choose|j: int| 0 <= j < pairs.len() && (#[trigger] pairs[j]).0 == key@;
                assert(self.entries[j].0@ != key@);
            }
        }
        None
    }

    /// Enters `v` under the key `k`. A value that stood under `k` before is
    /// replaced.
    pub fn insert(&mut self, k: &str, v: &str)
        ensures
            final(self)@ == old(self)@.insert(k@, v@),
    {
        proof {
            use_type_invariant(&*self);
        }
        let key = String::from_str(k);
        let value = String::from_str(v);
        let place = self.position(&key);
        let ghost before = self.entries.deep_view();
        let mut entries: Vec<(String, String)> = Vec::new();
        core::mem::swap(&mut self.entries, &mut entries);
        match place {
            Some(i) => {
                entries.set(i, (key, value));
                proof {
                    lemma_replace_value(before, i as int, v@);
                    assert(entries.deep_view() =~= before.update(i as int, (k@, v@)));
                }
            },
            None => {
                entries.push((key, value));
                proof {
                    let after = entries.deep_view();
                    assert(after.drop_last() =~= before);
                    assert(after.last() == (k@, v@));
                    lemma_pairs_keys(before);
                    assert forall|i: int, j: int| 0 <= i < j < after.len() implies (
                    #[trigger] after[i]).0 != (#[trigger] after[j]).0 by {
                        if j == after.len() - 1 {
                            assert(before[i].0 != k@);
                        } else {
                            assert(before[i].0 != before[j].0);
                        }
                    }
                }
            },
        }
        self.entries = entries;
    }

    /// Enters `value` under the numeral of the number of entries: `"0"` in
    /// an empty set, `"1"` in a set of one entry, and so on.
    ///
    /// The key is chosen by counting, not by looking: where the set already
    /// has an entry under that numeral, the entry's value is replaced and
    /// the set does not grow.
    pub fn push(&mut self, value: &str)
        ensures
            final(self)@ == old(self)@.insert(decimal(old(self)@.len()), value@),
    {
        let key = decimal_string(self.len());
        self.insert(key.as_str(), value);
    }

    /// The number of entries.
    pub fn len(&self) -> (n: usize)
        ensures
            n == self@.len(),
    {
        proof {
            use_type_invariant(self);
            lemma_distinct_keys_len(self.entries.deep_view());
        }
        self.entries.len()
    }

    /// Whether the set has no entry.
    pub fn is_empty(&self) -> (empty: bool)
        ensures
            empty == (self@ == Map::<Seq<char>, Seq<char>>::empty()),
    {
        let n = self.len();
        proof {
            self.lemma_finite();
            if n == 0 {
                assert(self@ =~= Map::<Seq<char>, Seq<char>>::empty());
            }
        }
        n == 0
    }

    /// The value that stands under the key `k`, if there is one.
    pub fn get(&self, k: &str) -> (found: Option<&str>)
        ensures
            match found {
                Some(v) => self@.contains_key(k@) && v@ == self@[k@],
                None => !self@.contains_key(k@),
            },
    {
        let key = String::from_str(k);
        match self.position(&key) {
            Some(i) => {
                proof {
                    use_type_invariant(self);
                    lemma_last_pair_wins(self.entries.deep_view(), i as int);
                }
                Some(self.entries[i].1.as_str())
            },
            None => None,
        }
    }

    /// The entries as a list of pairs, each key once, in no particular
    /// order.
    pub fn entries(&self) -> (list: Vec<(String, String)>)
        ensures
            distinct_keys(list.deep_view()),
            pairs_to_map(list.deep_view()) == self@,
    {
        proof {
            use_type_invariant(self);
        }
        self.copy_entries()
    }

    fn copy_entries(&self) -> (copy: Vec<(String, String)>)
        ensures
            copy.deep_view() == self.entries.deep_view(),
    {
        let mut copy: Vec<(String, String)> = Vec::new();
        let mut i: usize = 0;
        while i < self.entries.len()
            invariant
                i <= self.entries.len(),
                copy@ == self.entries@.take(i as int),
            decreases self.entries.len() - i,
        {
            let key = self.entries[i].0.clone();
            let value = self.entries[i].1.clone();
            copy.push((key, value));
            i += 1;
        }
        copy
    }

    /// The set that results from entering the rows one after the other, the
    /// second element of a row under the first. Where a key occurs in
    /// several rows, the last of them gives its value.
    pub fn from_pairs(items: Vec<[&str; 2]>) -> (meta: Self)
        ensures
            meta@ == pairs_to_map(rows_to_pairs(items.deep_view())),
    {
        let ghost rows = items.deep_view();
        let mut meta = Meta::new();
        let mut i: usize = 0;
        while i < items.len()
            invariant
                i <= items.len(),
                rows == items.deep_view(),
                meta@ == pairs_to_map(rows_to_pairs(rows.take(i as int))),
            decreases items.len() - i,
        {
            let item = items[i];
            meta.insert(item[0], item[1]);
            proof {
                let done = rows_to_pairs(rows.take(i + 1));
                assert(done.drop_last() =~= rows_to_pairs(rows.take(i as int)));
            }
            i += 1;
        }
        assert(rows.take(i as int) =~= rows);
        meta
    }

    /// The set that files each value under the numeral of its place in the
    /// list: the first under `"0"`, the second under `"1"`, and so on.
    pub fn from_positional(items: Vec<&str>) -> (meta: Self)
        ensures
            meta@ == pairs_to_map(positional_pairs(items.deep_view())),
    {
        let ghost values = items.deep_view();
        let mut meta = Meta::new();
        let mut i: usize = 0;
        while i < items.len()
            invariant
                i <= items.len(),
                values == items.deep_view(),
                meta@ == pairs_to_map(positional_pairs(values.take(i as int))),
            decreases items.len() - i,
        {
            let key = decimal_string(i);
            meta.insert(key.as_str(), items[i]);
            proof {
                let done = positional_pairs(values.take(i + 1));
                assert(done.drop_last() =~= positional_pairs(values.take(i as int)));
            }
            i += 1;
        }
        assert(values.take(i as int) =~= values);
        meta
    }

    /// The set that holds what `mapping` holds, key for key.
    pub fn from_mapping(mapping: HashMap<String, String>) -> (meta: Self)
        ensures
            meta@ == mapping.deep_view(),
    {
        Meta { entries: mapping_entries(mapping) }
    }
}

/// `Vec::from_iter` on a `HashMap<String, String>` moves every entry of the
/// map into the list, in an order that the map chooses. Trusted: no key
/// comes out twice, and the pairs that come out are what the map held.
#[verifier::external_body]
fn mapping_entries(mapping: HashMap<String, String>) -> (entries: Vec<(String, String)>)
    ensures
        distinct_keys(entries.deep_view()),
        pairs_to_map(entries.deep_view()) == mapping.deep_view(),
{
    Vec::from_iter(mapping)
}

/// `HashMap::from_iter` on a list of pairs enters every pair of the list
/// into a new map. Trusted, for a list in which no key occurs twice: the
/// map holds the pairs of the list and nothing else.
#[verifier::external_body]
fn entries_mapping(entries: Vec<(String, String)>) -> (mapping: HashMap<String, String>)
    requires
        distinct_keys(entries.deep_view()),
    ensures
        mapping.deep_view() == pairs_to_map(entries.deep_view()),
{
    HashMap::from_iter(entries)
}

impl Clone for Meta {
    fn clone(&self) -> (copy: Self)
        ensures
            copy@ == self@,
    {
        proof {
            use_type_invariant(self);
        }
        Meta { entries: self.copy_entries() }
    }
}

impl Default for Meta {
    fn default() -> (meta: Self)
        ensures
            meta@ == Map::<Seq<char>, Seq<char>>::empty(),
    {
        Meta::new()
    }
}

impl PartialEq for Meta {
    fn eq(&self, other: &Self) -> (same: bool) {
        proof {
            use_type_invariant(self);
            use_type_invariant(other);
            lemma_distinct_keys_len(self.entries.deep_view());
            lemma_distinct_keys_len(other.entries.deep_view());
            lemma_pairs_keys(self.entries.deep_view());
            lemma_pairs_keys(other.entries.deep_view());
        }
        if self.entries.len() != other.entries.len() {
            return false;
        }
        let mut i: usize = 0;
        while i < self.entries.len()
            invariant
                i <= self.entries.len(),
                distinct_keys(self.entries.deep_view()),
                distinct_keys(other.entries.deep_view()),
                forall|j: int|
                    0 <= j < i ==> other@.contains_key((#[trigger] self.entries[j]).0@)
                        && other@[self.entries[j].0@] == self.entries[j].1@,
            decreases self.entries.len() - i,
        {
            proof {
                lemma_last_pair_wins(self.entries.deep_view(), i as int);
            }
            match other.position(&self.entries[i].0) {
                Some(j) => {
                    proof {
                        lemma_last_pair_wins(other.entries.deep_view(), j as int);
                    }
                    if !(other.entries[j].1 == self.entries[i].1) {
                        return false;
                    }
                },
                None => {
                    return false;
                },
            }
            i += 1;
        }
        proof {
            let mine = self.entries.deep_view();
            assert forall|k: Seq<char>| self@.contains_key(k) implies other@.contains_key(k)
                && other@[k] == self@[k] by {
                let j = choose|j: int| 0 <= j < mine.len() && (#[trigger] mine[j]).0 == k;
                lemma_last_pair_wins(mine, j);
                assert(self.entries[j].0@ == k);
            }
            // As many keys on either side, and each of mine is one of theirs.
            vstd::set_lib::lemma_subset_equality(self@.dom(), other@.dom());
            assert(self@ =~= other@);
        }
        true
    }
}

impl Eq for Meta {}

impl PartialEqSpecImpl for Meta {
    open spec fn obeys_eq_spec() -> bool {
        true
    }

    open spec fn eq_spec(&self, other: &Self) -> bool {
        self@ == other@
    }
}

impl<'a> From<Vec<&'a str>> for Meta {
    /// As [`Meta::from_positional`].
    fn from(items: Vec<&'a str>) -> (meta: Self)
        ensures
            meta@ == pairs_to_map(positional_pairs(items.deep_view())),
    {
        Meta::from_positional(items)
    }
}

/// The contract of `from` is its own `ensures`, which fixes the view of the
/// result. It does not fix which of the values with that view comes back,
/// so no `from_spec` is promised.
impl<'a> FromSpecImpl<Vec<&'a str>> for Meta {
    open spec fn obeys_from_spec() -> bool {
        false
    }

    open spec fn from_spec(items: Vec<&'a str>) -> Self {
        choose|meta: Meta| meta@ == pairs_to_map(positional_pairs(items.deep_view()))
    }
}

impl<'a> From<Vec<[&'a str; 2]>> for Meta {
    /// As [`Meta::from_pairs`].
    fn from(items: Vec<[&'a str; 2]>) -> (meta: Self)
        ensures
            meta@ == pairs_to_map(rows_to_pairs(items.deep_view())),
    {
        Meta::from_pairs(items)
    }
}

/// As for the list of values: the view of the result is fixed, the value
/// is not.
impl<'a> FromSpecImpl<Vec<[&'a str; 2]>> for Meta {
    open spec fn obeys_from_spec() -> bool {
        false
    }

    open spec fn from_spec(items: Vec<[&'a str; 2]>) -> Self {
        choose|meta: Meta| meta@ == pairs_to_map(rows_to_pairs(items.deep_view()))
    }
}

impl From<HashMap<String, String>> for Meta {
    /// As [`Meta::from_mapping`].
    fn from(mapping: HashMap<String, String>) -> (meta: Self)
        ensures
            meta@ == mapping.deep_view(),
    {
        Meta::from_mapping(mapping)
    }
}

/// As for the list of values: the view of the result is fixed, the value
/// is not.
impl FromSpecImpl<HashMap<String, String>> for Meta {
    open spec fn obeys_from_spec() -> bool {
        false
    }

    open spec fn from_spec(mapping: HashMap<String, String>) -> Self {
        choose|meta: Meta| meta@ == mapping.deep_view()
    }
}

impl From<Meta> for HashMap<String, String> {
    /// The mapping that holds what `meta` holds, key for key.
    fn from(meta: Meta) -> (mapping: HashMap<String, String>)
        ensures
            mapping.deep_view() == meta@,
    {
        proof {
            use_type_invariant(&meta);
        }
        entries_mapping(meta.entries)
    }
}

/// The view of the mapping is fixed; which of the maps with that view comes
/// back is not.
impl FromSpecImpl<Meta> for HashMap<String, String> {
    open spec fn obeys_from_spec() -> bool {
        false
    }

    open spec fn from_spec(meta: Meta) -> Self {
        choose|mapping: HashMap<String, String>| mapping.deep_view() == meta@
    }
}

} // verus!
