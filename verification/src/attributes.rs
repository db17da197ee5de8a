//! The additional attributes of a disk: a mapping from key to value.
//!
//! The mapping is kept as a list of entries in the order of their keys, each
//! key once. So two mappings that hold the same are held the same way, and a
//! listing comes out sorted.

use vstd::prelude::*;
use vstd::std_specs::cmp::PartialEqSpecImpl;
use crate::text::{
    comes_before, lemma_precedes_irreflexive, lemma_precedes_total, lemma_precedes_transitive,
    precedes, same_text,
};

verus! {

/// Whether the keys of `entries` stand in rising order.
pub open spec fn ascending(entries: Seq<(String, String)>) -> bool {
    forall|i: int, j: int|
        0 <= i < j < entries.len() ==> precedes(
            (#[trigger] entries[i]).0@,
            (#[trigger] entries[j]).0@,
        )
}

/// Whether no two of `entries` have the same key.
pub open spec fn unique_keys(entries: Seq<(String, String)>) -> bool {
    forall|i: int, j: int|
        0 <= i < entries.len() && 0 <= j < entries.len() && i != j ==> (#[trigger] entries[i]).0@
            != (#[trigger] entries[j]).0@
}

/// Whether one of `entries` has the key `key`.
pub open spec fn has_key(entries: Seq<(String, String)>, key: Seq<char>) -> bool {
    exists|i: int| 0 <= i < entries.len() && (#[trigger] entries[i]).0@ == key
}

/// The index of an entry with the key `key`.
pub open spec fn key_index(entries: Seq<(String, String)>, key: Seq<char>) -> int {
    choose|i: int| 0 <= i < entries.len() && (#[trigger] entries[i]).0@ == key
}

/// The mapping that `entries` stand for: each key with the value beside it.
pub open spec fn map_of(entries: Seq<(String, String)>) -> Map<Seq<char>, Seq<char>> {
    Map::new(
        |key: Seq<char>| has_key(entries, key),
        |key: Seq<char>| entries[key_index(entries, key)].1@,
    )
}

/// Keys in rising order are unique.
pub proof fn lemma_ascending_unique(entries: Seq<(String, String)>)
    requires
        ascending(entries),
    ensures
        unique_keys(entries),
{
    assert forall|i: int, j: int|
        0 <= i < entries.len() && 0 <= j < entries.len() && i != j implies (
    #[trigger] entries[i]).0@ != (#[trigger] entries[j]).0@ by {
        lemma_precedes_irreflexive(entries[i].0@);
        if i < j {
            assert(precedes(entries[i].0@, entries[j].0@));
        } else {
            assert(precedes(entries[j].0@, entries[i].0@));
        }
    }
}

/// With unique keys, the entry at `i` is the one its key is mapped by.
pub proof fn lemma_map_of_entry(entries: Seq<(String, String)>, i: int)
    requires
        unique_keys(entries),
        0 <= i < entries.len(),
    ensures
        map_of(entries).contains_key(entries[i].0@),
        map_of(entries)[entries[i].0@] == entries[i].1@,
        key_index(entries, entries[i].0@) == i,
{
    let key = entries[i].0@;
    assert(has_key(entries, key));
    let j = key_index(entries, key);
    assert(0 <= j < entries.len() && entries[j].0@ == key);
}

/// An entry with a new key, put anywhere among entries with unique keys,
/// adds its key and value to the mapping.
pub proof fn lemma_map_of_insert(
    entries: Seq<(String, String)>,
    at: int,
    entry: (String, String),
)
    requires
        unique_keys(entries),
        !has_key(entries, entry.0@),
        0 <= at <= entries.len(),
    ensures
        unique_keys(entries.insert(at, entry)),
        map_of(entries.insert(at, entry)) == map_of(entries).insert(entry.0@, entry.1@),
{
    let after = entries.insert(at, entry);
    let back = |k: int| if k < at { k } else { k - 1 };
    assert forall|k: int| 0 <= k < after.len() && k != at implies #[trigger] after[k]
        == entries[back(k)] by {}
    assert forall|a: int, b: int|
        0 <= a < after.len() && 0 <= b < after.len() && a != b implies (#[trigger] after[a]).0@ != (
    #[trigger] after[b]).0@ by {
        if a != at && b != at {
            assert(after[a] == entries[back(a)]);
            assert(after[b] == entries[back(b)]);
        } else if a == at {
            assert(after[b] == entries[back(b)]);
        } else {
            assert(after[a] == entries[back(a)]);
        }
    }
    assert forall|k: Seq<char>| has_key(after, k) == (has_key(entries, k) || k == entry.0@) by {
        if has_key(after, k) {
            let j = key_index(after, k);
            if j != at {
                assert(after[j] == entries[back(j)]);
            }
        }
        if has_key(entries, k) {
            let j = key_index(entries, k);
            let up = if j < at { j } else { j + 1 };
            assert(after[up] == entries[j]);
        }
        if k == entry.0@ {
            assert(after[at].0@ == k);
        }
    }
    assert forall|k: Seq<char>| has_key(after, k) implies #[trigger] map_of(after)[k] == map_of(
        entries,
    ).insert(entry.0@, entry.1@)[k] by {
        let j = key_index(after, k);
        lemma_map_of_entry(after, j);
        if j != at {
            assert(after[j] == entries[back(j)]);
            lemma_map_of_entry(entries, back(j));
        }
    }
    assert(map_of(after) =~= map_of(entries).insert(entry.0@, entry.1@));
}

/// An entry put in the place of one with the same key, among entries with
/// unique keys, maps that key to its own value.
pub proof fn lemma_map_of_update(
    entries: Seq<(String, String)>,
    at: int,
    entry: (String, String),
)
    requires
        unique_keys(entries),
        0 <= at < entries.len(),
        entries[at].0@ == entry.0@,
    ensures
        unique_keys(entries.update(at, entry)),
        map_of(entries.update(at, entry)) == map_of(entries).insert(entry.0@, entry.1@),
{
    let after = entries.update(at, entry);
    assert forall|a: int, b: int|
        0 <= a < after.len() && 0 <= b < after.len() && a != b implies (#[trigger] after[a]).0@ != (
    #[trigger] after[b]).0@ by {
        assert(after[a].0@ == entries[a].0@);
        assert(after[b].0@ == entries[b].0@);
    }
    assert forall|k: Seq<char>| has_key(after, k) == (has_key(entries, k) || k == entry.0@) by {
        if has_key(after, k) {
            let j = key_index(after, k);
            assert(entries[j].0@ == k);
        }
        if has_key(entries, k) {
            let j = key_index(entries, k);
            assert(after[j].0@ == k);
        }
        if k == entry.0@ {
            assert(after[at].0@ == k);
        }
    }
    assert forall|k: Seq<char>| has_key(after, k) implies #[trigger] map_of(after)[k] == map_of(
        entries,
    ).insert(entry.0@, entry.1@)[k] by {
        let j = key_index(after, k);
        lemma_map_of_entry(after, j);
        if j != at {
            assert(entries[j].0@ == k);
            lemma_map_of_entry(entries, j);
        }
    }
    assert(map_of(after) =~= map_of(entries).insert(entry.0@, entry.1@));
}

/// With unique keys, there are as many keys as entries.
pub proof fn lemma_map_of_len(entries: Seq<(String, String)>)
    requires
        unique_keys(entries),
    ensures
        map_of(entries).dom().finite(),
        map_of(entries).dom().len() == entries.len(),
    decreases entries.len(),
{
    if entries.len() == 0 {
        assert(map_of(entries).dom() =~= Set::<Seq<char>>::empty());
    } else {
        let head = entries.drop_last();
        let last = entries.last();
        assert(unique_keys(head)) by {
            assert forall|i: int, j: int|
                0 <= i < head.len() && 0 <= j < head.len() && i != j implies (#[trigger] head[i]).0@
                != (#[trigger] head[j]).0@ by {
                assert(head[i] == entries[i]);
                assert(head[j] == entries[j]);
            }
        }
        lemma_map_of_len(head);
        assert(!has_key(head, last.0@)) by {
            if has_key(head, last.0@) {
                let i = key_index(head, last.0@);
                assert(entries[i] == head[i]);
                assert(entries[entries.len() - 1] == last);
            }
        }
        lemma_map_of_insert(head, head.len() as int, last);
        assert(head.insert(head.len() as int, last) =~= entries);
    }
}

/// Without its first entry, a list of entries with unique keys stands for
/// the mapping without the key of that entry.
pub proof fn lemma_map_of_rest(entries: Seq<(String, String)>)
    requires
        unique_keys(entries),
        entries.len() > 0,
    ensures
        unique_keys(entries.skip(1)),
        map_of(entries.skip(1)) == map_of(entries).remove(entries[0].0@),
{
    let rest = entries.skip(1);
    assert forall|a: int, b: int|
        0 <= a < rest.len() && 0 <= b < rest.len() && a != b implies (#[trigger] rest[a]).0@ != (
    #[trigger] rest[b]).0@ by {
        assert(rest[a] == entries[a + 1]);
        assert(rest[b] == entries[b + 1]);
    }
    assert forall|k: Seq<char>| has_key(rest, k) == (has_key(entries, k) && k
        != entries[0].0@) by {
        if has_key(rest, k) {
            let j = key_index(rest, k);
            assert(rest[j] == entries[j + 1]);
            assert(entries[j + 1].0@ != entries[0].0@);
        }
        if has_key(entries, k) && k != entries[0].0@ {
            let j = key_index(entries, k);
            assert(rest[j - 1] == entries[j]);
        }
    }
    assert forall|k: Seq<char>| has_key(rest, k) implies #[trigger] map_of(rest)[k] == map_of(
        entries,
    )[k] by {
        let j = key_index(rest, k);
        lemma_map_of_entry(rest, j);
        assert(rest[j] == entries[j + 1]);
        lemma_map_of_entry(entries, j + 1);
    }
    assert(map_of(rest) =~= map_of(entries).remove(entries[0].0@));
}

/// A mapping has one listing in the order of its keys: two lists of entries
/// in rising order that stand for the same mapping hold the same texts at each
/// place.
pub proof fn lemma_listing_is_unique(a: Seq<(String, String)>, b: Seq<(String, String)>)
    requires
        ascending(a),
        ascending(b),
        map_of(a) == map_of(b),
    ensures
        a.len() == b.len(),
        forall|i: int| 0 <= i < a.len() ==> (#[trigger] a[i]).0@ == b[i].0@ && a[i].1@ == b[i].1@,
    decreases a.len(),
{
    lemma_ascending_unique(a);
    lemma_ascending_unique(b);
    lemma_map_of_len(a);
    lemma_map_of_len(b);
    if a.len() > 0 {
        lemma_map_of_entry(a, 0);
        lemma_map_of_entry(b, 0);
        let x = a[0].0@;
        let y = b[0].0@;
        if x != y {
            let j = key_index(b, x);
            let i = key_index(a, y);
            assert(has_key(b, x));
            assert(has_key(a, y));
            assert(precedes(y, b[j].0@));
            assert(precedes(x, a[i].0@));
            lemma_precedes_transitive(x, y, x);
            lemma_precedes_irreflexive(x);
        }
        lemma_map_of_rest(a);
        lemma_map_of_rest(b);
        let ra = a.skip(1);
        let rb = b.skip(1);
        assert(ascending(ra)) by {
            assert forall|i: int, j: int| 0 <= i < j < ra.len() implies precedes(
                (#[trigger] ra[i]).0@,
                (#[trigger] ra[j]).0@,
            ) by {
                assert(ra[i] == a[i + 1]);
                assert(ra[j] == a[j + 1]);
            }
        }
        assert(ascending(rb)) by {
            assert forall|i: int, j: int| 0 <= i < j < rb.len() implies precedes(
                (#[trigger] rb[i]).0@,
                (#[trigger] rb[j]).0@,
            ) by {
                assert(rb[i] == b[i + 1]);
                assert(rb[j] == b[j + 1]);
            }
        }
        lemma_listing_is_unique(ra, rb);
        assert forall|i: int| 0 <= i < a.len() implies (#[trigger] a[i]).0@ == b[i].0@ && a[i].1@
            == b[i].1@ by {
            if i > 0 {
                assert(ra[i - 1] == a[i]);
                assert(rb[i - 1] == b[i]);
            }
        }
    }
}

/// The mapping that comes of mapping each key of `pairs` to the value beside
/// it, in their order: where a key stands more than once, its last value stays.
pub open spec fn inserted_all(pairs: Seq<(String, String)>) -> Map<Seq<char>, Seq<char>>
    decreases pairs.len(),
{
    if pairs.len() == 0 {
        Map::empty()
    } else {
        inserted_all(pairs.drop_last()).insert(pairs.last().0@, pairs.last().1@)
    }
}

/// A mapping is rebuilt from its listing: to map each key of a list with
/// unique keys to the value beside it gives the mapping that the list stands
/// for.
pub proof fn lemma_rebuilt_from_listing(entries: Seq<(String, String)>)
    requires
        unique_keys(entries),
    ensures
        inserted_all(entries) == map_of(entries),
    decreases entries.len(),
{
    if entries.len() == 0 {
        assert(map_of(entries) =~= Map::<Seq<char>, Seq<char>>::empty());
    } else {
        let head = entries.drop_last();
        let last = entries.last();
        assert(unique_keys(head)) by {
            assert forall|i: int, j: int|
                0 <= i < head.len() && 0 <= j < head.len() && i != j implies (#[trigger] head[i]).0@
                != (#[trigger] head[j]).0@ by {
                assert(head[i] == entries[i]);
                assert(head[j] == entries[j]);
            }
        }
        lemma_rebuilt_from_listing(head);
        assert(!has_key(head, last.0@)) by {
            if has_key(head, last.0@) {
                let i = key_index(head, last.0@);
                assert(entries[i] == head[i]);
                assert(entries[entries.len() - 1] == last);
            }
        }
        lemma_map_of_insert(head, head.len() as int, last);
        assert(head.insert(head.len() as int, last) =~= entries);
    }
}

/// A mapping from key to value in which each key stands once and a later
/// value replaces an earlier one.
#[derive(Debug)]
pub struct Attributes {
    entries: Vec<(String, String)>,
}

impl View for Attributes {
    type V = Map<Seq<char>, Seq<char>>;

    closed spec fn view(&self) -> Map<Seq<char>, Seq<char>> {
        map_of(self.entries@)
    }
}

impl PartialEq for Attributes {
    fn eq(&self, other: &Self) -> (r: bool) {
        self.same_as(other)
    }
}

impl PartialEqSpecImpl for Attributes {
    open spec fn obeys_eq_spec() -> bool {
        true
    }

    open spec fn eq_spec(&self, other: &Self) -> bool {
        self@ == other@
    }
}

impl Attributes {
    #[verifier::type_invariant]
    spec fn well_formed(&self) -> bool {
        ascending(self.entries@)
    }

    /// The empty mapping.
    pub fn new() -> (r: Self)
        ensures
            r@ == Map::<Seq<char>, Seq<char>>::empty(),
    {
        let r = Attributes { entries: Vec::new() };
        assert(r@ =~= Map::<Seq<char>, Seq<char>>::empty());
        r
    }

    /// The mapping that comes of mapping each key of `pairs` to the value
    /// beside it, in their order.
    pub fn from_entries(pairs: Vec<(String, String)>) -> (r: Self)
        ensures
            r@ == inserted_all(pairs@),
            unique_keys(pairs@) ==> r@ == map_of(pairs@),
    {
        let mut r = Attributes::new();
        let mut i: usize = 0;
        assert(pairs@.take(0) == Seq::<(String, String)>::empty());
        while i < pairs.len()
            invariant
                i <= pairs.len(),
                r@ == inserted_all(pairs@.take(i as int)),
            decreases pairs.len() - i,
        {
            proof {
                let next = pairs@.take(i + 1);
                assert(next.drop_last() == pairs@.take(i as int));
                assert(next.last() == pairs@[i as int]);
            }
            r.insert(pairs[i].0.clone(), pairs[i].1.clone());
            i += 1;
        }
        proof {
            assert(pairs@.take(pairs.len() as int) == pairs@);
            if unique_keys(pairs@) {
                lemma_rebuilt_from_listing(pairs@);
            }
        }
        r
    }

    /// The entries of the mapping, in the order of their keys.
    pub fn entries(&self) -> (r: &Vec<(String, String)>)
        ensures
            ascending(r@),
            map_of(r@) == self@,
    {
        proof {
            use_type_invariant(self);
        }
        &self.entries
    }

    /// The number of keys.
    pub fn len(&self) -> (n: usize)
        ensures
            self@.dom().finite(),
            n == self@.dom().len(),
    {
        proof {
            use_type_invariant(self);
            lemma_ascending_unique(self.entries@);
            lemma_map_of_len(self.entries@);
        }
        self.entries.len()
    }

    /// Whether no key is mapped.
    pub fn is_empty(&self) -> (r: bool)
        ensures
            r == (self@ == Map::<Seq<char>, Seq<char>>::empty()),
    {
        proof {
            use_type_invariant(self);
            lemma_ascending_unique(self.entries@);
            if self.entries.len() > 0 {
                lemma_map_of_entry(self.entries@, 0);
            } else {
                assert(self@ =~= Map::<Seq<char>, Seq<char>>::empty());
            }
        }
        self.entries.len() == 0
    }

    /// Whether each key of `self` is mapped by `other` to the same value.
    fn is_within(&self, other: &Attributes) -> (r: bool)
        ensures
            r == self@.submap_of(other@),
    {
        proof {
            use_type_invariant(self);
            lemma_ascending_unique(self.entries@);
        }
        let mut i: usize = 0;
        while i < self.entries.len()
            invariant
                i <= self.entries.len(),
                unique_keys(self.entries@),
                forall|k: int|
                    0 <= k < i ==> other@.contains_key((#[trigger] self.entries[k]).0@)
                        && other@[self.entries[k].0@] == self.entries[k].1@,
            decreases self.entries.len() - i,
        {
            proof {
                lemma_map_of_entry(self.entries@, i as int);
            }
            match other.get(self.entries[i].0.as_str()) {
                Some(value) => {
                    if !same_text(value.as_str(), self.entries[i].1.as_str()) {
                        return false;
                    }
                },
                None => {
                    return false;
                },
            }
            i += 1;
        }
        proof {
            assert forall|key: Seq<char>| #[trigger]
                self@.contains_key(key) implies other@.contains_key(key) && self@[key]
                == other@[key] by {
                let k = key_index(self.entries@, key);
                lemma_map_of_entry(self.entries@, k);
            }
        }
        true
    }

    /// Whether `self` and `other` map the same keys to the same values.
    pub fn same_as(&self, other: &Attributes) -> (r: bool)
        ensures
            r == (self@ == other@),
    {
        let r = self.is_within(other) && other.is_within(self);
        proof {
            if r {
                assert(self@ =~= other@);
            }
        }
        r
    }

    /// The position of `key` among the entries.
    fn position(&self, key: &str) -> (r: Option<usize>)
        ensures
            match r {
                Some(i) => i < self.entries.len() && self.entries[i as int].0@ == key@,
                None => !has_key(self.entries@, key@),
            },
    {
        let mut i: usize = 0;
        while i < self.entries.len()
            invariant
                i <= self.entries.len(),
                forall|k: int| 0 <= k < i ==> (#[trigger] self.entries[k]).0@ != key@,
            decreases self.entries.len() - i,
        {
            if same_text(self.entries[i].0.as_str(), key) {
                return Some(i);
            }
            i += 1;
        }
        None
    }

    /// The value that `key` is mapped to, if it is mapped at all.
    pub fn get(&self, key: &str) -> (r: Option<&String>)
        ensures
            match r {
                Some(value) => self@.contains_key(key@) && self@[key@] == value@,
                None => !self@.contains_key(key@),
            },
    {
        proof {
            use_type_invariant(self);
            lemma_ascending_unique(self.entries@);
        }
        match self.position(key) {
            Some(i) => {
                proof {
                    lemma_map_of_entry(self.entries@, i as int);
                }
                Some(&self.entries[i].1)
            },
            None => None,
        }
    }

    /// Whether `key` is mapped.
    pub fn contains_key(&self, key: &str) -> (r: bool)
        ensures
            r == self@.contains_key(key@),
    {
        self.get(key).is_some()
    }

    /// Maps `key` to `value`, in place of any value that `key` had.
    pub fn insert(&mut self, key: String, value: String)
        ensures
            final(self)@ == old(self)@.insert(key@, value@),
    {
        proof {
            use_type_invariant(&*self);
            lemma_ascending_unique(self.entries@);
        }
        let ghost before = self.entries@;
        let mut at: usize = 0;
        while at < self.entries.len() && comes_before(self.entries[at].0.as_str(), key.as_str())
            invariant
                at <= self.entries.len(),
                self.entries@ == before,
                forall|k: int| 0 <= k < at ==> precedes((#[trigger] before[k]).0@, key@),
            decreases self.entries.len() - at,
        {
            at += 1;
        }
        let replace = at < self.entries.len() && same_text(
            self.entries[at].0.as_str(),
            key.as_str(),
        );
        let mut entries: Vec<(String, String)> = Vec::new();
        std::mem::swap(&mut self.entries, &mut entries);
        if replace {
            proof {
                lemma_map_of_update(before, at as int, (key, value));
            }
            entries.set(at, (key, value));
            proof {
                let after = entries@;
                assert forall|i: int, j: int| 0 <= i < j < after.len() implies precedes(
                    (#[trigger] after[i]).0@,
                    (#[trigger] after[j]).0@,
                ) by {
                    assert(after[i].0@ == before[i].0@);
                    assert(after[j].0@ == before[j].0@);
                }
            }
        } else {
            proof {
                assert forall|k: int| at <= k < before.len() implies precedes(
                    key@,
                    (#[trigger] before[k]).0@,
                ) by {
                    lemma_precedes_total(before[at as int].0@, key@);
                    if k > at {
                        assert(precedes(before[at as int].0@, before[k].0@));
                        lemma_precedes_transitive(key@, before[at as int].0@, before[k].0@);
                    }
                }
                assert(!has_key(before, key@)) by {
                    if has_key(before, key@) {
                        let k = key_index(before, key@);
                        lemma_precedes_irreflexive(key@);
                        if k < at {
                            assert(precedes(before[k].0@, key@));
                        } else {
                            assert(precedes(key@, before[k].0@));
                        }
                    }
                }
                lemma_map_of_insert(before, at as int, (key, value));
            }
            entries.insert(at, (key, value));
            proof {
                let after = entries@;
                assert forall|i: int, j: int| 0 <= i < j < after.len() implies precedes(
                    (#[trigger] after[i]).0@,
                    (#[trigger] after[j]).0@,
                ) by {
                    let a = if i < at { i } else { i - 1 };
                    let b = if j < at { j } else { j - 1 };
                    if i != at {
                        assert(after[i] == before[a]);
                    }
                    if j != at {
                        assert(after[j] == before[b]);
                    }
                    if i != at && j != at {
                        assert(precedes(before[a].0@, before[b].0@));
                    }
                }
            }
        }
        std::mem::swap(&mut self.entries, &mut entries);
    }
}

} // verus!
