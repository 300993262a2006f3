//! A map from string keys to values that is walked in the order of its keys.
//!
//! vstd specifies the ordered map of the standard library only for keys
//! whose order it knows, and that of strings is not among them. This map
//! holds its pairs in a vector instead and keeps them in the order of
//! [`crate::keys`], which is the order of the standard library's strings.

use crate::keys::key_lt;
use crate::keys::lemma_key_lt_asymmetric;
use crate::keys::lemma_key_lt_total;
use crate::keys::lemma_key_lt_transitive;
use crate::keys::rank_chars;
use crate::keys::Rank;
use crate::text::chars_of;
use vstd::prelude::*;

verus! {

/// The keys of `listing` grow strictly from each position to the next.
pub open spec fn increasing<V>(listing: Seq<(Seq<char>, V)>) -> bool {
    forall|i: int, j: int|
        0 <= i < j < listing.len() ==> key_lt((#[trigger] listing[i]).0, (#[trigger] listing[j]).0)
}

/// The map that holds the pairs of `listing`; of two pairs with one key the
/// later one counts.
pub open spec fn map_of<V>(listing: Seq<(Seq<char>, V)>) -> Map<Seq<char>, V>
    decreases listing.len(),
{
    if listing.len() == 0 {
        Map::empty()
    } else {
        map_of(listing.drop_last()).insert(listing.last().0, listing.last().1)
    }
}

/// A key is in the map of a listing exactly if a pair of the listing has it.
pub proof fn lemma_map_of_dom<V>(listing: Seq<(Seq<char>, V)>, key: Seq<char>)
    ensures
        map_of(listing).contains_key(key) <==> exists|i: int|
            0 <= i < listing.len() && (#[trigger] listing[i]).0 == key,
    decreases listing.len(),
{
    if listing.len() > 0 {
        let init = listing.drop_last();
        lemma_map_of_dom(init, key);
        if map_of(listing).contains_key(key) {
            if listing.last().0 == key {
                assert(listing[listing.len() - 1].0 == key);
            } else {
                let i = choose|i: int| 0 <= i < init.len() && (#[trigger] init[i]).0 == key;
                assert(listing[i].0 == key);
            }
        }
        if exists|i: int| 0 <= i < listing.len() && (#[trigger] listing[i]).0 == key {
            let i = choose|i: int| 0 <= i < listing.len() && (#[trigger] listing[i]).0 == key;
            if i < init.len() {
                assert(init[i].0 == key);
            }
        }
    }
}

/// In a listing with growing keys, the map gives each key the value that
/// stands beside it.
pub proof fn lemma_map_of_value<V>(listing: Seq<(Seq<char>, V)>, at: int)
    requires
        increasing(listing),
        0 <= at < listing.len(),
    ensures
        map_of(listing).contains_key(listing[at].0),
        map_of(listing)[listing[at].0] == listing[at].1,
    decreases listing.len(),
{
    let init = listing.drop_last();
    if at < listing.len() - 1 {
        assert(forall|i: int| 0 <= i < init.len() ==> init[i] == listing[i]);
        lemma_map_of_value(init, at);
        lemma_key_lt_asymmetric(listing[at].0, listing[listing.len() - 1].0);
    }
}

/// Listings with growing keys that hold the same map are the same listing:
/// the order of a valid map is settled by what it holds.
pub proof fn lemma_listing_determined<V>(a: Seq<(Seq<char>, V)>, b: Seq<(Seq<char>, V)>)
    requires
        increasing(a),
        increasing(b),
        map_of(a) == map_of(b),
    ensures
        a == b,
    decreases a.len(),
{
    if a.len() == 0 {
        if b.len() > 0 {
            lemma_map_of_value(b, 0);
        }
        assert(a =~= b);
    } else {
        let last = a.len() - 1;
        lemma_map_of_value(a, last);
        lemma_map_of_dom(b, a[last].0);
        let at = choose|i: int| 0 <= i < b.len() && (#[trigger] b[i]).0 == a[last].0;
        lemma_map_of_value(b, at);
        if at < b.len() - 1 {
            let top = b.len() - 1;
            lemma_map_of_value(b, top);
            lemma_map_of_dom(a, b[top].0);
            let back = choose|i: int| 0 <= i < a.len() && (#[trigger] a[i]).0 == b[top].0;
            lemma_key_lt_asymmetric(b[at].0, b[top].0);
            if back < last {
                lemma_key_lt_asymmetric(a[back].0, a[last].0);
            }
        }
        lemma_remove(a, last);
        lemma_remove(b, at);
        assert(a.remove(last) =~= a.drop_last());
        assert(b.remove(at) =~= b.drop_last());
        lemma_listing_determined(a.drop_last(), b.drop_last());
        assert(a =~= a.drop_last().push(a[last]));
        assert(b =~= b.drop_last().push(b[at]));
    }
}

/// One pair of a sorted map.
#[derive(Debug)]
struct Slot<V> {
    key: String,
    value: V,
}

/// A map from string keys to values, held in the order of its keys.
#[derive(Debug)]
pub struct SortedMap<V> {
    slots: Vec<Slot<V>>,
}

impl<V> SortedMap<V> {
    /// The pairs of the map, in the order in which they are held.
    pub closed spec fn listing(&self) -> Seq<(Seq<char>, V)> {
        Seq::new(self.slots@.len(), |i: int| (self.slots@[i].key@, self.slots@[i].value))
    }

    /// The keys of the map, in order.
    pub open spec fn keys(&self) -> Seq<Seq<char>> {
        Seq::new(self.listing().len(), |i: int| self.listing()[i].0)
    }

    /// The values of the map, in the order of their keys.
    pub open spec fn values(&self) -> Seq<V> {
        Seq::new(self.listing().len(), |i: int| self.listing()[i].1)
    }

    /// The map is valid: its keys grow strictly, so none occurs twice.
    pub open spec fn wf(&self) -> bool {
        increasing(self.listing())
    }

    /// The map as a mathematical map.
    pub open spec fn view(&self) -> Map<Seq<char>, V> {
        map_of(self.listing())
    }

    /// The map without any pair.
    pub fn new() -> (map: Self)
        ensures
            map.wf(),
            map.listing() == Seq::<(Seq<char>, V)>::empty(),
            map@ == Map::<Seq<char>, V>::empty(),
    {
        let map = SortedMap { slots: Vec::new() };
        assert(map.listing() =~= Seq::<(Seq<char>, V)>::empty());
        map
    }

    /// The number of pairs.
    pub fn len(&self) -> (n: usize)
        ensures
            n == self.listing().len(),
    {
        self.slots.len()
    }

    /// The key at position `at` of the order.
    pub fn key_at(&self, at: usize) -> (key: &String)
        requires
            at < self.listing().len(),
        ensures
            key@ == self.listing()[at as int].0,
    {
        &self.slots[at].key
    }

    /// The value at position `at` of the order.
    pub fn value_at(&self, at: usize) -> (value: &V)
        requires
            at < self.listing().len(),
        ensures
            *value == self.listing()[at as int].1,
    {
        &self.slots[at].value
    }

    /// Where `key` stands, or would have to stand: every key before that
    /// position is smaller, and the key at it, if any, is `key` itself where
    /// `found` says so and greater otherwise.
    fn locate(&self, key: &str) -> (place: (usize, bool))
        requires
            self.wf(),
        ensures
            place.0 <= self.listing().len(),
            forall|i: int| 0 <= i < place.0 ==> key_lt((#[trigger] self.listing()[i]).0, key@),
            place.1 ==> place.0 < self.listing().len() && self.listing()[place.0 as int].0 == key@,
            !place.1 ==> forall|i: int|
                place.0 <= i < self.listing().len() ==> key_lt(
                    key@,
                    (#[trigger] self.listing()[i]).0,
                ),
    {
        let wanted = chars_of(key);
        let mut low: usize = 0;
        let mut high: usize = self.slots.len();
        while low < high
            invariant
                self.wf(),
                wanted@ == key@,
                low <= high <= self.listing().len(),
                self.listing().len() == self.slots@.len(),
                forall|i: int| 0 <= i < low ==> key_lt((#[trigger] self.listing()[i]).0, key@),
                forall|i: int|
                    high <= i < self.listing().len() ==> key_lt(
                        key@,
                        (#[trigger] self.listing()[i]).0,
                    ),
            decreases high - low,
        {
            let middle = low + (high - low) / 2;
            let ghost pivot = self.listing()[middle as int].0;
            let held = chars_of(self.slots[middle].key.as_str());
            match rank_chars(&held, &wanted) {
                Rank::Same => {
                    return (middle, true);
                },
                Rank::Before => {
                    assert forall|i: int| 0 <= i < middle + 1 implies key_lt(
                        (#[trigger] self.listing()[i]).0,
                        key@,
                    ) by {
                        if i < middle {
                            lemma_key_lt_transitive(self.listing()[i].0, pivot, key@);
                        }
                    }
                    low = middle + 1;
                },
                Rank::After => {
                    assert forall|i: int| middle <= i < self.listing().len() implies key_lt(
                        key@,
                        (#[trigger] self.listing()[i]).0,
                    ) by {
                        lemma_key_lt_total(pivot, key@);
                        if middle < i {
                            lemma_key_lt_transitive(key@, pivot, self.listing()[i].0);
                        }
                    }
                    high = middle;
                },
            }
        }
        (low, false)
    }

    /// The value under `key`, if the map has that key.
    pub fn get(&self, key: &str) -> (found: Option<&V>)
        requires
            self.wf(),
        ensures
            found is Some <==> self@.contains_key(key@),
            found matches Some(value) ==> *value == self@[key@],
    {
        let (at, found) = self.locate(key);
        proof {
            lemma_map_of_dom(self.listing(), key@);
            if found {
                lemma_map_of_value(self.listing(), at as int);
            } else {
                self.lemma_absent(at as int, key@);
            }
        }
        if found {
            Some(&self.slots[at].value)
        } else {
            None
        }
    }

    /// Whether the map has `key`.
    pub fn contains_key(&self, key: &str) -> (found: bool)
        requires
            self.wf(),
        ensures
            found == self@.contains_key(key@),
    {
        self.get(key).is_some()
    }

    /// A key that stands between the keys before `at` and those from `at` on
    /// is not in the map.
    proof fn lemma_absent(&self, at: int, key: Seq<char>)
        requires
            0 <= at <= self.listing().len(),
            forall|i: int| 0 <= i < at ==> key_lt((#[trigger] self.listing()[i]).0, key),
            forall|i: int|
                at <= i < self.listing().len() ==> key_lt(key, (#[trigger] self.listing()[i]).0),
        ensures
            forall|i: int| 0 <= i < self.listing().len() ==> (#[trigger] self.listing()[i]).0 != key,
            !self@.contains_key(key),
    {
        assert forall|i: int| 0 <= i < self.listing().len() implies (#[trigger] self.listing()[i]).0
            != key by {
            if i < at {
                lemma_key_lt_asymmetric(self.listing()[i].0, key);
            } else {
                lemma_key_lt_asymmetric(key, self.listing()[i].0);
            }
        }
        lemma_map_of_dom(self.listing(), key);
    }

    /// Puts `value` under `key` and hands back the value that was there.
    pub fn insert(&mut self, key: String, value: V) -> (previous: Option<V>)
        requires
            old(self).wf(),
        ensures
            final(self).wf(),
            final(self)@ == old(self)@.insert(key@, value),
            previous == (if old(self)@.contains_key(key@) {
                Some(old(self)@[key@])
            } else {
                None::<V>
            }),
    {
        let (at, found) = self.locate(key.as_str());
        let ghost before = self.listing();
        if found {
            let slot = self.slots.remove(at);
            self.slots.insert(at, Slot { key, value });
            proof {
                assert(self.listing() =~= before.update(at as int, (key@, value)));
                lemma_update(before, at as int, value);
                lemma_map_of_dom(before, key@);
                lemma_map_of_value(before, at as int);
            }
            Some(slot.value)
        } else {
            self.slots.insert(at, Slot { key, value });
            proof {
                old(self).lemma_absent(at as int, key@);
                assert(self.listing() =~= before.insert(at as int, (key@, value)));
                lemma_insert(before, at as int, key@, value);
            }
            None
        }
    }

    /// Takes `key` out of the map and hands back the value that was under it.
    pub fn remove(&mut self, key: &str) -> (previous: Option<V>)
        requires
            old(self).wf(),
        ensures
            final(self).wf(),
            final(self)@ == old(self)@.remove(key@),
            previous == (if old(self)@.contains_key(key@) {
                Some(old(self)@[key@])
            } else {
                None::<V>
            }),
    {
        let (at, found) = self.locate(key);
        let ghost before = self.listing();
        if found {
            let slot = self.slots.remove(at);
            proof {
                assert(self.listing() =~= before.remove(at as int));
                lemma_remove(before, at as int);
                lemma_map_of_dom(before, key@);
                lemma_map_of_value(before, at as int);
            }
            Some(slot.value)
        } else {
            proof {
                old(self).lemma_absent(at as int, key@);
                assert(self@ =~= old(self)@.remove(key@));
            }
            None
        }
    }
}

/// Replacing the value of a pair keeps the order and changes the map at that
/// key alone.
proof fn lemma_update<V>(listing: Seq<(Seq<char>, V)>, at: int, value: V)
    requires
        increasing(listing),
        0 <= at < listing.len(),
    ensures
        increasing(listing.update(at, (listing[at].0, value))),
        map_of(listing.update(at, (listing[at].0, value))) == map_of(listing).insert(
            listing[at].0,
            value,
        ),
{
    let key = listing[at].0;
    let after = listing.update(at, (key, value));
    assert forall|i: int, j: int| 0 <= i < j < after.len() implies key_lt(
        (#[trigger] after[i]).0,
        (#[trigger] after[j]).0,
    ) by {
        assert(after[i].0 == listing[i].0);
        assert(after[j].0 == listing[j].0);
    }
    assert forall|k: Seq<char>|
        map_of(after).contains_key(k) == map_of(listing).insert(key, value).contains_key(
            k,
        ) by {
        lemma_map_of_dom(after, k);
        lemma_map_of_dom(listing, k);
        if map_of(after).contains_key(k) {
            let i = choose|i: int| 0 <= i < after.len() && (#[trigger] after[i]).0 == k;
            assert(listing[i].0 == k);
        }
        if map_of(listing).contains_key(k) {
            let i = choose|i: int| 0 <= i < listing.len() && (#[trigger] listing[i]).0 == k;
            assert(after[i].0 == k);
        }
        if k == key {
            assert(after[at].0 == k);
        }
    }
    assert forall|k: Seq<char>| map_of(after).contains_key(k) implies map_of(after)[k] == map_of(
        listing,
    ).insert(key, value)[k] by {
        lemma_map_of_dom(after, k);
        let i = choose|i: int| 0 <= i < after.len() && (#[trigger] after[i]).0 == k;
        lemma_map_of_value(after, i);
        if i != at {
            assert(after[i] == listing[i]);
            lemma_map_of_value(listing, i);
            if i < at {
                lemma_key_lt_asymmetric(listing[i].0, listing[at].0);
            } else {
                lemma_key_lt_asymmetric(listing[at].0, listing[i].0);
            }
        }
    }
    assert(map_of(after) =~= map_of(listing).insert(key, value));
}

/// Putting a new pair where its key belongs keeps the order and adds the pair
/// to the map.
proof fn lemma_insert<V>(listing: Seq<(Seq<char>, V)>, at: int, key: Seq<char>, value: V)
    requires
        increasing(listing),
        0 <= at <= listing.len(),
        forall|i: int| 0 <= i < at ==> key_lt((#[trigger] listing[i]).0, key),
        forall|i: int| at <= i < listing.len() ==> key_lt(key, (#[trigger] listing[i]).0),
    ensures
        increasing(listing.insert(at, (key, value))),
        map_of(listing.insert(at, (key, value))) == map_of(listing).insert(key, value),
{
    let after = listing.insert(at, (key, value));
    assert forall|i: int, j: int| 0 <= i < j < after.len() implies key_lt(
        (#[trigger] after[i]).0,
        (#[trigger] after[j]).0,
    ) by {
        if j < at {
            assert(after[i] == listing[i] && after[j] == listing[j]);
        } else if j == at {
            assert(after[i] == listing[i]);
        } else if i < at {
            assert(after[i] == listing[i] && after[j] == listing[j - 1]);
        } else if i == at {
            assert(after[j] == listing[j - 1]);
        } else {
            assert(after[i] == listing[i - 1] && after[j] == listing[j - 1]);
        }
    }
    assert forall|k: Seq<char>|
        map_of(after).contains_key(k) == map_of(listing).insert(key, value).contains_key(
            k,
        ) by {
        lemma_map_of_dom(after, k);
        lemma_map_of_dom(listing, k);
        if map_of(after).contains_key(k) {
            let i = choose|i: int| 0 <= i < after.len() && (#[trigger] after[i]).0 == k;
            if i < at {
                assert(listing[i].0 == k);
            } else if i > at {
                assert(listing[i - 1].0 == k);
            }
        }
        if map_of(listing).contains_key(k) {
            let i = choose|i: int| 0 <= i < listing.len() && (#[trigger] listing[i]).0 == k;
            if i < at {
                assert(after[i].0 == k);
            } else {
                assert(after[i + 1].0 == k);
            }
        }
        if k == key {
            assert(after[at].0 == k);
        }
    }
    assert forall|k: Seq<char>| map_of(after).contains_key(k) implies map_of(after)[k] == map_of(
        listing,
    ).insert(key, value)[k] by {
        lemma_map_of_dom(after, k);
        let i = choose|i: int| 0 <= i < after.len() && (#[trigger] after[i]).0 == k;
        lemma_map_of_value(after, i);
        if i < at {
            assert(after[i] == listing[i]);
            lemma_map_of_value(listing, i);
            lemma_key_lt_asymmetric(listing[i].0, key);
        } else if i > at {
            assert(after[i] == listing[i - 1]);
            lemma_map_of_value(listing, i - 1);
            lemma_key_lt_asymmetric(key, listing[i - 1].0);
        }
    }
    assert(map_of(after) =~= map_of(listing).insert(key, value));
}

/// Taking a pair out keeps the order and takes its key out of the map.
proof fn lemma_remove<V>(listing: Seq<(Seq<char>, V)>, at: int)
    requires
        increasing(listing),
        0 <= at < listing.len(),
    ensures
        increasing(listing.remove(at)),
        map_of(listing.remove(at)) == map_of(listing).remove(listing[at].0),
{
    let key = listing[at].0;
    let after = listing.remove(at);
    assert forall|i: int, j: int| 0 <= i < j < after.len() implies key_lt(
        (#[trigger] after[i]).0,
        (#[trigger] after[j]).0,
    ) by {
        if j < at {
            assert(after[i] == listing[i] && after[j] == listing[j]);
        } else if i < at {
            assert(after[i] == listing[i] && after[j] == listing[j + 1]);
        } else {
            assert(after[i] == listing[i + 1] && after[j] == listing[j + 1]);
        }
    }
    assert forall|k: Seq<char>|
        map_of(after).contains_key(k) == map_of(listing).remove(key).contains_key(k) by {
        lemma_map_of_dom(after, k);
        lemma_map_of_dom(listing, k);
        if map_of(after).contains_key(k) {
            let i = choose|i: int| 0 <= i < after.len() && (#[trigger] after[i]).0 == k;
            if i < at {
                assert(listing[i].0 == k);
                lemma_key_lt_asymmetric(listing[i].0, key);
            } else {
                assert(listing[i + 1].0 == k);
                lemma_key_lt_asymmetric(key, listing[i + 1].0);
            }
        }
        if map_of(listing).contains_key(k) && k != key {
            let i = choose|i: int| 0 <= i < listing.len() && (#[trigger] listing[i]).0 == k;
            if i < at {
                assert(after[i].0 == k);
            } else {
                assert(after[i - 1].0 == k);
            }
        }
    }
    assert forall|k: Seq<char>| map_of(after).contains_key(k) implies map_of(after)[k] == map_of(
        listing,
    ).remove(key)[k] by {
        lemma_map_of_dom(after, k);
        let i = choose|i: int| 0 <= i < after.len() && (#[trigger] after[i]).0 == k;
        lemma_map_of_value(after, i);
        if i < at {
            assert(after[i] == listing[i]);
            lemma_map_of_value(listing, i);
        } else {
            assert(after[i] == listing[i + 1]);
            lemma_map_of_value(listing, i + 1);
        }
    }
    assert(map_of(after) =~= map_of(listing).remove(key));
}

} // verus!
