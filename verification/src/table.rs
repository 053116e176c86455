//! A table of entries kept in the order of their keys.

use vstd::prelude::*;
use crate::text::{
    chars_of, comes_before, lemma_precedes_irreflexive, lemma_precedes_total,
    lemma_precedes_transitive, precedes, same_chars,
};

verus! {

/// A key with what the table holds for it.
#[derive(Debug)]
pub struct Entry<V> {
    pub key: String,
    pub value: V,
}

/// Entries in the order of their keys, one for each key.
#[derive(Debug)]
pub struct Table<V> {
    pub entries: Vec<Entry<V>>,
}

/// The first position at or after `from` whose key does not come before
/// `key`; the number of keys where every key does.
pub open spec fn rank_from(keys: Seq<Seq<char>>, key: Seq<char>, from: int) -> int
    decreases keys.len() - from,
{
    if from >= keys.len() {
        keys.len() as int
    } else if !precedes(keys[from], key) {
        from
    } else {
        rank_from(keys, key, from + 1)
    }
}

/// The position at which `key` stands or would be placed.
pub open spec fn rank(keys: Seq<Seq<char>>, key: Seq<char>) -> int {
    rank_from(keys, key, 0)
}

/// Whether `key` stands at its position.
pub open spec fn holds(keys: Seq<Seq<char>>, key: Seq<char>) -> bool {
    rank(keys, key) < keys.len() && keys[rank(keys, key)] == key
}

/// The items after `item` has been placed under `key`: in the place of the
/// item that `key` had, or else at the position that keeps the keys in order.
pub open spec fn placed<T>(items: Seq<T>, keys: Seq<Seq<char>>, key: Seq<char>, item: T) -> Seq<T> {
    if holds(keys, key) {
        items.update(rank(keys, key), item)
    } else {
        items.insert(rank(keys, key), item)
    }
}

/// Placing an item and then describing every item is the same as
/// describing every item and then placing the description.
pub proof fn lemma_placed_map<T, U>(
    items: Seq<T>,
    keys: Seq<Seq<char>>,
    key: Seq<char>,
    item: T,
    describe: spec_fn(T) -> U,
)
    requires
        keys.len() == items.len(),
    ensures
        placed(items, keys, key, item).map_values(describe) == placed(
            items.map_values(describe),
            keys,
            key,
            describe(item),
        ),
{
    lemma_rank_from(keys, key, 0);
    assert(placed(items, keys, key, item).map_values(describe) =~= placed(
        items.map_values(describe),
        keys,
        key,
        describe(item),
    ));
}

/// What holds of every item and of the item placed holds of every item
/// afterwards.
pub proof fn lemma_placed_keeps<T>(
    items: Seq<T>,
    keys: Seq<Seq<char>>,
    key: Seq<char>,
    item: T,
    property: spec_fn(T) -> bool,
)
    requires
        keys.len() == items.len(),
        forall|i: int| 0 <= i < items.len() ==> property(#[trigger] items[i]),
        property(item),
    ensures
        forall|i: int|
            0 <= i < placed(items, keys, key, item).len() ==> property(
                #[trigger] placed(items, keys, key, item)[i],
            ),
{
    lemma_rank_from(keys, key, 0);
}

/// Whether each key comes before the next, so that no key occurs twice.
pub open spec fn ordered(keys: Seq<Seq<char>>) -> bool {
    forall|i: int, j: int| 0 <= i < j < keys.len() ==> precedes(#[trigger] keys[i], #[trigger] keys[j])
}

/// Every key before a rank comes before the key that was ranked, and the
/// key at the rank does not.
pub proof fn lemma_rank_from(keys: Seq<Seq<char>>, key: Seq<char>, from: int)
    requires
        0 <= from <= keys.len(),
    ensures
        from <= rank_from(keys, key, from) <= keys.len(),
        forall|j: int| from <= j < rank_from(keys, key, from) ==> precedes(#[trigger] keys[j], key),
        rank_from(keys, key, from) < keys.len() ==> !precedes(
            keys[rank_from(keys, key, from)],
            key,
        ),
    decreases keys.len() - from,
{
    if from < keys.len() && precedes(keys[from], key) {
        lemma_rank_from(keys, key, from + 1);
    }
}

/// Among ordered keys, a rank parts those that come before the key from
/// those that do not.
pub proof fn lemma_rank_parts(keys: Seq<Seq<char>>, key: Seq<char>)
    requires
        ordered(keys),
    ensures
        0 <= rank(keys, key) <= keys.len(),
        forall|j: int| 0 <= j < rank(keys, key) ==> precedes(#[trigger] keys[j], key),
        forall|j: int| rank(keys, key) <= j < keys.len() ==> !precedes(#[trigger] keys[j], key),
        forall|j: int|
            rank(keys, key) <= j < keys.len() && keys[j] != key ==> precedes(key, #[trigger] keys[j]),
{
    lemma_rank_from(keys, key, 0);
    let at = rank(keys, key);
    assert forall|j: int| at <= j < keys.len() implies !precedes(#[trigger] keys[j], key) by {
        if j > at && precedes(keys[j], key) {
            lemma_precedes_transitive(keys[at], keys[j], key, 0);
        }
    }
    assert forall|j: int| at <= j < keys.len() && keys[j] != key implies precedes(
        key,
        #[trigger] keys[j],
    ) by {
        if !precedes(key, keys[j]) {
            lemma_precedes_total(key, keys[j], 0);
        }
    }
}

/// Among ordered keys, a key stands at its rank exactly when it is one of
/// the keys.
pub proof fn lemma_holds_iff_present(keys: Seq<Seq<char>>, key: Seq<char>)
    requires
        ordered(keys),
    ensures
        holds(keys, key) <==> exists|i: int| 0 <= i < keys.len() && keys[i] == key,
{
    lemma_rank_parts(keys, key);
    lemma_precedes_irreflexive(key, 0);
    if exists|i: int| 0 <= i < keys.len() && keys[i] == key {
        let i = choose|i: int| 0 <= i < keys.len() && keys[i] == key;
        let at = rank(keys, key);
        if i > at {
            assert(precedes(keys[at], keys[i]));
        }
        assert(i == at);
    }
}

/// Placing a key among ordered keys keeps them ordered. Afterwards the key
/// stands at the rank it had, and every other key is present exactly when
/// it was before.
pub proof fn lemma_placed_ordered(keys: Seq<Seq<char>>, key: Seq<char>)
    requires
        ordered(keys),
    ensures
        ordered(placed(keys, keys, key, key)),
        holds(placed(keys, keys, key, key), key),
        rank(placed(keys, keys, key, key), key) == rank(keys, key),
        forall|other: Seq<char>|
            other != key ==> (#[trigger] holds(placed(keys, keys, key, key), other) <==> holds(
                keys,
                other,
            )),
{
    lemma_rank_parts(keys, key);
    lemma_precedes_irreflexive(key, 0);
    let at = rank(keys, key);
    let after = placed(keys, keys, key, key);
    if holds(keys, key) {
        assert(after =~= keys);
    } else {
        assert forall|i: int, j: int| 0 <= i < j < after.len() implies precedes(
            #[trigger] after[i],
            #[trigger] after[j],
        ) by {
            let a = if i < at { i } else { i - 1 };
            let b = if j < at { j } else { j - 1 };
            if i == at {
                assert(after[j] == keys[b]);
            } else if j == at {
                assert(after[i] == keys[a]);
            } else {
                assert(after[i] == keys[a] && after[j] == keys[b]);
            }
        }
    }
    assert(after[at] == key);
    lemma_holds_iff_present(after, key);
    lemma_rank_parts(after, key);
    assert(rank(after, key) == at) by {
        let r = rank(after, key);
        if r < at {
            assert(precedes(after[r], after[at]));
        } else if r > at {
            assert(precedes(after[at], key));
        }
    }
    assert forall|other: Seq<char>| other != key implies (#[trigger] holds(after, other) <==> holds(
        keys,
        other,
    )) by {
        lemma_holds_iff_present(after, other);
        lemma_holds_iff_present(keys, other);
        if holds(keys, other) {
            let i = choose|i: int| 0 <= i < keys.len() && keys[i] == other;
            let k = if holds(keys, key) || i < at { i } else { i + 1 };
            assert(after[k] == other);
        }
        if holds(after, other) {
            let k = choose|k: int| 0 <= k < after.len() && after[k] == other;
            let i = if holds(keys, key) || k < at { k } else { k - 1 };
            assert(keys[i] == other);
        }
    }
}

/// The item that stands under `key`, if one does.
pub open spec fn item_at<T>(items: Seq<T>, keys: Seq<Seq<char>>, key: Seq<char>) -> Option<T> {
    if holds(keys, key) {
        Some(items[rank(keys, key)])
    } else {
        None
    }
}

/// After an item was placed under a key among ordered keys, the item stands
/// under that key, and under every other key stands what stood there
/// before.
pub proof fn lemma_placed_item<T>(
    items: Seq<T>,
    keys: Seq<Seq<char>>,
    key: Seq<char>,
    item: T,
    other: Seq<char>,
)
    requires
        ordered(keys),
        keys.len() == items.len(),
    ensures
        item_at(placed(items, keys, key, item), placed(keys, keys, key, key), other) == if other
            == key {
            Some(item)
        } else {
            item_at(items, keys, other)
        },
{
    let after = placed(keys, keys, key, key);
    let at = rank(keys, key);
    lemma_placed_ordered(keys, key);
    lemma_rank_from(keys, key, 0);
    if other != key && holds(keys, other) {
        let i = rank(keys, other);
        let k = if holds(keys, key) || i < at { i } else { i + 1 };
        let r = rank(after, other);
        lemma_rank_from(keys, other, 0);
        lemma_rank_from(after, other, 0);
        lemma_precedes_irreflexive(other, 0);
        assert(after[k] == other);
        assert(after[r] == other);
        if r < k {
            assert(precedes(after[r], after[k]));
        } else if k < r {
            assert(precedes(after[k], after[r]));
        }
    }
}

impl<V> Table<V> {
    /// The keys, in the table's order.
    pub open spec fn keys(&self) -> Seq<Seq<char>> {
        self.entries@.map_values(|e: Entry<V>| e.key@)
    }

    /// Whether the keys are in order, each key once. A table that is
    /// filled through `insert` alone is.
    pub open spec fn well_formed(&self) -> bool {
        ordered(self.keys())
    }

    /// The value that the table holds for `key`, if it holds one.
    pub open spec fn lookup(&self, key: Seq<char>) -> Option<V> {
        match item_at(self.entries@, self.keys(), key) {
            Some(entry) => Some(entry.value),
            None => None,
        }
    }

    /// A table without entries.
    pub fn new() -> (table: Self)
        ensures
            table.entries@ == Seq::<Entry<V>>::empty(),
            table.well_formed(),
    {
        Table { entries: Vec::new() }
    }

    /// The number of entries.
    pub fn len(&self) -> (n: usize)
        ensures
            n == self.entries@.len(),
    {
        self.entries.len()
    }

    /// Finds the position at which `key` stands or would be placed, and
    /// whether it stands there.
    fn locate(&self, key: &Vec<char>) -> (found: (usize, bool))
        ensures
            found.0 == rank(self.keys(), key@),
            found.0 <= self.entries@.len(),
            found.1 == holds(self.keys(), key@),
    {
        let mut i: usize = 0;
        while i < self.entries.len()
            invariant
                i <= self.entries@.len(),
                rank(self.keys(), key@) == rank_from(self.keys(), key@, i as int),
            decreases self.entries@.len() - i,
        {
            let here = chars_of(self.entries[i].key.as_str());
            assert(self.keys()[i as int] == here@);
            if !comes_before(&here, key) {
                return (i, same_chars(&here, key));
            }
            i = i + 1;
        }
        (i, false)
    }

    /// The position of the entry for `key`, if there is one.
    pub fn find(&self, key: &str) -> (at: Option<usize>)
        ensures
            at is Some == holds(self.keys(), key@),
            at is Some ==> at->0 == rank(self.keys(), key@) && at->0 < self.entries@.len(),
            self.well_formed() ==> (at is Some <==> self.keys().contains(key@)),
    {
        proof {
            if self.well_formed() {
                lemma_holds_iff_present(self.keys(), key@);
            }
        }
        let probe = chars_of(key);
        let (at, found) = self.locate(&probe);
        if found {
            Some(at)
        } else {
            None
        }
    }

    /// The value that the table holds for `key`, if it holds one.
    pub fn get(&self, key: &str) -> (value: Option<&V>)
        ensures
            match value {
                Some(v) => self.lookup(key@) == Some(*v),
                None => self.lookup(key@) is None,
            },
            self.well_formed() ==> (value is Some <==> self.keys().contains(key@)),
    {
        match self.find(key) {
            Some(at) => Some(&self.entries[at].value),
            None => None,
        }
    }

    /// Places `value` under `key`, in the place of the value that `key` had
    /// if it had one.
    pub fn insert(&mut self, key: String, value: V)
        ensures
            final(self).entries@ == placed(
                old(self).entries@,
                old(self).keys(),
                key@,
                (Entry { key, value }),
            ),
            final(self).keys() == placed(old(self).keys(), old(self).keys(), key@, key@),
            old(self).well_formed() ==> final(self).well_formed(),
            old(self).well_formed() ==> forall|other: Seq<char>|
                #[trigger] final(self).lookup(other) == if other == key@ {
                    Some(value)
                } else {
                    old(self).lookup(other)
                },
    {
        proof {
            let keys = self.keys();
            let entry = Entry { key, value };
            lemma_placed_map(self.entries@, keys, key@, entry, |e: Entry<V>| e.key@);
            if ordered(keys) {
                lemma_placed_ordered(keys, key@);
                assert forall|other: Seq<char>|
                    item_at(
                        placed(self.entries@, keys, key@, entry),
                        placed(keys, keys, key@, key@),
                        other,
                    ) == if other == key@ {
                        Some(entry)
                    } else {
                        item_at(self.entries@, keys, other)
                    } by {
                    lemma_placed_item(self.entries@, keys, key@, entry, other);
                }
            }
        }
        let probe = chars_of(key.as_str());
        let (at, found) = self.locate(&probe);
        if found {
            self.entries.set(at, Entry { key, value });
        } else {
            self.entries.insert(at, Entry { key, value });
        }
    }
}

} // verus!
