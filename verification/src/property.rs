//! Block and element property values, and the property maps that carry them.
use vstd::prelude::*;

use crate::text::str_eq;

verus! {

/// A property value of a block or element.
///
/// A floating-point value is carried as its IEEE-754 bit pattern
/// (`f64::to_bits`), so that the library only ever handles integers.
#[derive(Clone, Debug)]
pub enum PropertyValue {
    String(String),
    Int(i64),
    UInt(u64),
    Float(u64),
    Bool(bool),
}

/// The mathematical value of a [`PropertyValue`].
pub enum PropVal {
    Str(Seq<char>),
    Int(i64),
    UInt(u64),
    Float(u64),
    Bool(bool),
}

impl View for PropertyValue {
    type V = PropVal;

    open spec fn view(&self) -> PropVal {
        match self {
            PropertyValue::String(s) => PropVal::Str(s@),
            PropertyValue::Int(i) => PropVal::Int(*i),
            PropertyValue::UInt(u) => PropVal::UInt(*u),
            PropertyValue::Float(f) => PropVal::Float(*f),
            PropertyValue::Bool(b) => PropVal::Bool(*b),
        }
    }
}

/// The bit pattern of the `f64` value `0.0`.
pub const FLOAT_ZERO_BITS: u64 = 0u64;

/// The bit pattern of the `f64` value `1.0`.
pub const FLOAT_ONE_BITS: u64 = 0x3FF0_0000_0000_0000u64;

impl PropertyValue {
    /// A copy of this value with the same view.
    pub fn duplicate(&self) -> (r: PropertyValue)
        ensures
            r@ == self@,
    {
        match self {
            PropertyValue::String(s) => PropertyValue::String(s.clone()),
            PropertyValue::Int(i) => PropertyValue::Int(*i),
            PropertyValue::UInt(u) => PropertyValue::UInt(*u),
            PropertyValue::Float(f) => PropertyValue::Float(*f),
            PropertyValue::Bool(b) => PropertyValue::Bool(*b),
        }
    }
}

/// A map from string keys to values, viewed as a `Map` from the keys'
/// characters to the values' views.
pub struct StrMap<V: View> {
    entries: Vec<(String, V)>,
}

/// A block instance's or an element's properties.
pub type Properties = StrMap<PropertyValue>;

/// No two entries of `e` share a key.
pub open spec fn keys_unique<V: View>(e: Seq<(String, V)>) -> bool {
    forall|i: int, j: int|
        0 <= i < e.len() && 0 <= j < e.len() && i != j ==> #[trigger] e[i].0@ != #[trigger] e[j].0@
}

/// Some entry of `e` has key `k`.
pub open spec fn has_key<V: View>(e: Seq<(String, V)>, k: Seq<char>) -> bool {
    exists|i: int| 0 <= i < e.len() && #[trigger] e[i].0@ == k
}

/// The index of an entry of `e` with key `k`.
pub open spec fn key_index<V: View>(e: Seq<(String, V)>, k: Seq<char>) -> int {
    choose|i: int| 0 <= i < e.len() && #[trigger] e[i].0@ == k
}

/// The map that the entries `e` stand for.
pub open spec fn entries_map<V: View>(e: Seq<(String, V)>) -> Map<Seq<char>, V::V> {
    Map::new(|k: Seq<char>| has_key(e, k), |k: Seq<char>| e[key_index(e, k)].1@)
}

/// With unique keys, the entry at `i` is the one the map reports for its key.
pub proof fn lemma_entry_in_map<V: View>(e: Seq<(String, V)>, i: int)
    requires
        keys_unique(e),
        0 <= i < e.len(),
    ensures
        entries_map(e).contains_key(e[i].0@),
        entries_map(e)[e[i].0@] == e[i].1@,
{
    assert(has_key(e, e[i].0@));
    let j = key_index(e, e[i].0@);
    assert(j == i);
}

impl<V: View> View for StrMap<V> {
    type V = Map<Seq<char>, V::V>;

    closed spec fn view(&self) -> Map<Seq<char>, V::V> {
        entries_map(self.entries@)
    }
}

impl<V: View> StrMap<V> {
    #[verifier::type_invariant]
    closed spec fn inv(self) -> bool {
        keys_unique(self.entries@)
    }

    /// An empty property map.
    pub fn new() -> (r: StrMap<V>)
        ensures
            r@ == Map::<Seq<char>, V::V>::empty(),
    {
        let r = StrMap { entries: Vec::new() };
        assert(r@ =~= Map::<Seq<char>, V::V>::empty());
        r
    }

    /// The index of the entry whose key is `key`, if any.
    fn find(&self, key: &str) -> (r: Option<usize>)
        ensures
            match r {
                Some(i) => i < self.entries@.len() && self.entries@[i as int].0@ == key@,
                None => !has_key(self.entries@, key@),
            },
    {
        let mut i: usize = 0;
        while i < self.entries.len()
            invariant
                i <= self.entries@.len(),
                forall|j: int| 0 <= j < i ==> self.entries@[j].0@ != key@,
            decreases self.entries.len() - i,
        {
            if str_eq(self.entries[i].0.as_str(), key) {
                return Some(i);
            }
            i = i + 1;
        }
        None
    }

    /// Whether the map has a value for `key`.
    pub fn contains_key(&self, key: &str) -> (r: bool)
        ensures
            r == self@.contains_key(key@),
    {
        self.find(key).is_some()
    }

    /// The value stored under `key` (`HashMap::get`).
    pub fn get(&self, key: &str) -> (r: Option<&V>)
        ensures
            match r {
                Some(v) => self@.contains_key(key@) && self@[key@] == v@,
                None => !self@.contains_key(key@),
            },
    {
        proof {
            use_type_invariant(self);
        }
        match self.find(key) {
            Some(i) => {
                proof {
                    lemma_entry_in_map(self.entries@, i as int);
                }
                Some(&self.entries[i].1)
            },
            None => None,
        }
    }

    /// Stores `value` under `key`, replacing any earlier value
    /// (`HashMap::insert`).
    pub fn insert(&mut self, key: String, value: V)
        ensures
            final(self)@ == old(self)@.insert(key@, value@),
    {
        proof {
            use_type_invariant(&*self);
        }
        let ghost old_e = self.entries@;
        let ghost k = key@;
        let ghost val = value@;
        match self.find(key.as_str()) {
            Some(i) => {
                let mut e: Vec<(String, V)> = Vec::new();
                std::mem::swap(&mut e, &mut self.entries);
                e.set(i, (key, value));
                proof {
                    let e = e@;
                    assert(e == old_e.update(i as int, e[i as int]));
                    assert(keys_unique(e));
                    assert(entries_map(e) =~= entries_map(old_e).insert(k, val)) by {
                        assert forall|kk: Seq<char>| #[trigger]
                            entries_map(e).contains_key(kk) == entries_map(old_e).insert(
                                k,
                                val,
                            ).contains_key(kk) by {
                            if has_key(old_e, kk) {
                                let j = key_index(old_e, kk);
                                assert(e[j].0@ == kk);
                            }
                            if has_key(e, kk) {
                                let j = key_index(e, kk);
                                if j != i {
                                    assert(old_e[j].0@ == kk);
                                }
                            }
                        }
                        assert forall|kk: Seq<char>|
                            #[trigger] entries_map(e).contains_key(kk) implies entries_map(e)[kk]
                            == entries_map(old_e).insert(k, val)[kk] by {
                            let j = key_index(e, kk);
                            lemma_entry_in_map(e, j);
                            if kk != k {
                                assert(j != i);
                                assert(old_e[j] == e[j]);
                                lemma_entry_in_map(old_e, j);
                            } else {
                                lemma_entry_in_map(e, i as int);
                            }
                        }
                    }
                }
                self.entries = e;
            },
            None => {
                let mut e: Vec<(String, V)> = Vec::new();
                std::mem::swap(&mut e, &mut self.entries);
                e.push((key, value));
                proof {
                    let e = e@;
                    assert(e == old_e.push(e[e.len() - 1]));
                    assert(keys_unique(e)) by {
                        assert forall|a: int, b: int|
                            0 <= a < e.len() && 0 <= b < e.len() && a != b implies #[trigger] e[a].0@
                            != #[trigger] e[b].0@ by {
                            if a < old_e.len() && b < old_e.len() {
                                assert(old_e[a] == e[a] && old_e[b] == e[b]);
                            } else if a < old_e.len() {
                                assert(old_e[a] == e[a]);
                            } else if b < old_e.len() {
                                assert(old_e[b] == e[b]);
                            }
                        }
                    }
                    assert(entries_map(e) =~= entries_map(old_e).insert(k, val)) by {
                        assert forall|kk: Seq<char>| #[trigger]
                            entries_map(e).contains_key(kk) == entries_map(old_e).insert(
                                k,
                                val,
                            ).contains_key(kk) by {
                            if has_key(old_e, kk) {
                                let j = key_index(old_e, kk);
                                assert(e[j].0@ == kk);
                            }
                            if kk == k {
                                assert(e[e.len() - 1].0@ == kk);
                            }
                            if has_key(e, kk) {
                                let j = key_index(e, kk);
                                if j < old_e.len() {
                                    assert(old_e[j].0@ == kk);
                                }
                            }
                        }
                        assert forall|kk: Seq<char>|
                            #[trigger] entries_map(e).contains_key(kk) implies entries_map(e)[kk]
                            == entries_map(old_e).insert(k, val)[kk] by {
                            let j = key_index(e, kk);
                            lemma_entry_in_map(e, j);
                            if j < old_e.len() {
                                assert(old_e[j] == e[j]);
                                lemma_entry_in_map(old_e, j);
                            }
                        }
                    }
                }
                self.entries = e;
            },
        }
    }

    /// Removes the value stored under `key`, telling whether there was one
    /// (`HashMap::remove(..).is_some()`).
    pub fn remove(&mut self, key: &str) -> (r: bool)
        ensures
            r == old(self)@.contains_key(key@),
            final(self)@ == old(self)@.remove(key@),
    {
        proof {
            use_type_invariant(&*self);
        }
        let ghost old_e = self.entries@;
        let ghost k = key@;
        match self.find(key) {
            Some(i) => {
                let mut e: Vec<(String, V)> = Vec::new();
                std::mem::swap(&mut e, &mut self.entries);
                let _removed = e.remove(i);
                proof {
                    let e = e@;
                    assert(e == old_e.remove(i as int));
                    assert(keys_unique(e)) by {
                        assert forall|a: int, b: int|
                            0 <= a < e.len() && 0 <= b < e.len() && a != b implies #[trigger] e[a].0@
                            != #[trigger] e[b].0@ by {
                            let oa = if a < i { a } else { a + 1 };
                            let ob = if b < i { b } else { b + 1 };
                            assert(e[a] == old_e[oa] && e[b] == old_e[ob]);
                        }
                    }
                    assert(has_key(old_e, k));
                    assert(entries_map(e) =~= entries_map(old_e).remove(k)) by {
                        assert forall|kk: Seq<char>| #[trigger]
                            entries_map(e).contains_key(kk) == entries_map(old_e).remove(k).contains_key(kk) by {
                            if has_key(e, kk) {
                                let j = key_index(e, kk);
                                let oj = if j < i { j } else { j + 1 };
                                assert(old_e[oj] == e[j]);
                                assert(old_e[oj].0@ == kk);
                                assert(oj != i);
                            }
                            if has_key(old_e, kk) && kk != k {
                                let j = key_index(old_e, kk);
                                assert(j != i);
                                let ej = if j < i { j } else { j - 1 };
                                assert(e[ej] == old_e[j]);
                            }
                        }
                        assert forall|kk: Seq<char>|
                            #[trigger] entries_map(e).contains_key(kk) implies entries_map(e)[kk]
                            == entries_map(old_e).remove(k)[kk] by {
                            let j = key_index(e, kk);
                            lemma_entry_in_map(e, j);
                            let oj = if j < i { j } else { j + 1 };
                            assert(old_e[oj] == e[j]);
                            lemma_entry_in_map(old_e, oj);
                        }
                    }
                }
                self.entries = e;
                true
            },
            None => {
                assert(entries_map(old_e).remove(k) =~= entries_map(old_e));
                false
            },
        }
    }

    /// The number of properties.
    pub fn len(&self) -> (r: usize)
        ensures
            r == self@.len(),
    {
        proof {
            use_type_invariant(self);
            lemma_entries_map_len(self.entries@);
        }
        self.entries.len()
    }

    /// The names of all properties, in storage order.
    pub fn keys(&self) -> (r: Vec<String>)
        ensures
            r@.len() == self@.len(),
            forall|i: int| 0 <= i < r@.len() ==> self@.contains_key(#[trigger] r@[i]@),
            forall|k: Seq<char>|
                self@.contains_key(k) ==> exists|i: int| 0 <= i < r@.len() && #[trigger] r@[i]@ == k,
            forall|i: int, j: int| 0 <= i < j < r@.len() ==> r@[i]@ != r@[j]@,
    {
        proof {
            use_type_invariant(self);
            lemma_entries_map_len(self.entries@);
        }
        let mut r: Vec<String> = Vec::new();
        let mut i: usize = 0;
        while i < self.entries.len()
            invariant
                i <= self.entries@.len(),
                r@.len() == i,
                forall|j: int| 0 <= j < i ==> #[trigger] r@[j]@ == self.entries@[j].0@,
            decreases self.entries.len() - i,
        {
            r.push(self.entries[i].0.clone());
            i = i + 1;
        }
        proof {
            assert forall|j: int| 0 <= j < r@.len() implies self@.contains_key(#[trigger] r@[j]@) by {
                assert(has_key(self.entries@, self.entries@[j].0@));
            }
            assert forall|k: Seq<char>| self@.contains_key(k) implies exists|j: int|
                0 <= j < r@.len() && #[trigger] r@[j]@ == k by {
                let j = key_index(self.entries@, k);
                assert(r@[j]@ == k);
            }
        }
        r
    }
}

/// A map built from entries with unique keys has one key per entry.
pub proof fn lemma_entries_map_len<V: View>(e: Seq<(String, V)>)
    requires
        keys_unique(e),
    ensures
        entries_map(e).dom().finite(),
        entries_map(e).len() == e.len(),
    decreases e.len(),
{
    if e.len() == 0 {
        assert(entries_map(e).dom() =~= Set::<Seq<char>>::empty());
    } else {
        let f = e.drop_last();
        assert(keys_unique(f)) by {
            assert forall|a: int, b: int|
                0 <= a < f.len() && 0 <= b < f.len() && a != b implies #[trigger] f[a].0@
                != #[trigger] f[b].0@ by {
                assert(f[a] == e[a] && f[b] == e[b]);
            }
        }
        lemma_entries_map_len(f);
        let k = e[e.len() - 1].0@;
        assert(!entries_map(f).dom().contains(k)) by {
            if has_key(f, k) {
                let j = key_index(f, k);
                assert(e[j].0@ == k);
            }
        }
        assert(entries_map(e).dom() =~= entries_map(f).dom().insert(k)) by {
            assert forall|kk: Seq<char>| #[trigger] entries_map(e).dom().contains(kk)
                == entries_map(f).dom().insert(k).contains(kk) by {
                if has_key(e, kk) {
                    let j = key_index(e, kk);
                    if j < f.len() {
                        assert(f[j].0@ == kk);
                    }
                }
                if has_key(f, kk) {
                    let j = key_index(f, kk);
                    assert(e[j].0@ == kk);
                }
                if kk == k {
                    assert(e[e.len() - 1].0@ == kk);
                }
            }
        }
    }
}

impl StrMap<String> {
    /// A copy of this map.
    pub fn duplicate(&self) -> (r: StrMap<String>)
        ensures
            r@ == self@,
    {
        proof {
            use_type_invariant(self);
        }
        let mut e: Vec<(String, String)> = Vec::new();
        let mut i: usize = 0;
        while i < self.entries.len()
            invariant
                i <= self.entries@.len(),
                e@.len() == i,
                forall|j: int| 0 <= j < i ==> #[trigger] e@[j] == self.entries@[j],
            decreases self.entries.len() - i,
        {
            let k = self.entries[i].0.clone();
            let v = self.entries[i].1.clone();
            e.push((k, v));
            i = i + 1;
        }
        assert(e@ =~= self.entries@);
        StrMap { entries: e }
    }
}

impl StrMap<PropertyValue> {
    /// A copy of this map.
    pub fn duplicate(&self) -> (r: StrMap<PropertyValue>)
        ensures
            r@ == self@,
    {
        proof {
            use_type_invariant(self);
        }
        let mut e: Vec<(String, PropertyValue)> = Vec::new();
        let mut i: usize = 0;
        while i < self.entries.len()
            invariant
                i <= self.entries@.len(),
                e@.len() == i,
                forall|j: int|
                    0 <= j < i ==> #[trigger] e@[j].0@ == self.entries@[j].0@ && e@[j].1@
                        == self.entries@[j].1@,
            decreases self.entries.len() - i,
        {
            let k = self.entries[i].0.clone();
            let v = self.entries[i].1.duplicate();
            e.push((k, v));
            i = i + 1;
        }
        proof {
            assert(keys_unique(e@)) by {
                assert forall|a: int, b: int|
                    0 <= a < e@.len() && 0 <= b < e@.len() && a != b implies #[trigger] e@[a].0@
                    != #[trigger] e@[b].0@ by {
                    assert(self.entries@[a].0@ != self.entries@[b].0@);
                }
            }
            assert(entries_map(e@) =~= entries_map(self.entries@)) by {
                assert forall|kk: Seq<char>| #[trigger]
                    entries_map(e@).contains_key(kk) == entries_map(self.entries@).contains_key(kk) by {
                    if has_key(e@, kk) {
                        let j = key_index(e@, kk);
                        assert(self.entries@[j].0@ == kk);
                    }
                    if has_key(self.entries@, kk) {
                        let j = key_index(self.entries@, kk);
                        assert(e@[j].0@ == kk);
                    }
                }
                assert forall|kk: Seq<char>| #[trigger] entries_map(e@).contains_key(kk) implies entries_map(e@)[kk]
                    == entries_map(self.entries@)[kk] by {
                    let j = key_index(e@, kk);
                    lemma_entry_in_map(e@, j);
                    lemma_entry_in_map(self.entries@, j);
                }
            }
        }
        StrMap { entries: e }
    }
}

} // verus!
