//! The NBT value model every converter reads and writes.
//!
//! A compound is a list of `(key, value)` entries whose keys are pairwise
//! distinct (the type invariant). Its mathematical model is the map from key
//! text to value. Floating-point tags hold their raw IEEE-754 bit patterns.

use vstd::prelude::*;
use crate::text::str_eq;
use crate::float::{f32_equal, f32_eq, f32_to_f64_bits, f64_equal, f64_eq, i64_to_f64_bits, int_converts_to, widens_to, nan64, nan32, inf32, lemma_bits64, lemma_mag64_injective};

verus! {

/// One NBT tag.
pub enum NbtValue {
    Byte(i8),
    Short(i16),
    Int(i32),
    Long(i64),
    /// IEEE-754 binary32 bit pattern.
    Float(u32),
    /// IEEE-754 binary64 bit pattern.
    Double(u64),
    ByteArray(Vec<i8>),
    String(String),
    List(Vec<NbtValue>),
    Compound(NbtMap),
    IntArray(Vec<i32>),
    LongArray(Vec<i64>),
}

/// An NBT compound: distinct keys, each with one value.
pub struct NbtMap {
    entries: Vec<(String, NbtValue)>,
}

/// The keys of `s` are pairwise distinct.
pub open spec fn keys_unique(s: Seq<(String, NbtValue)>) -> bool {
    forall|i: int, j: int|
        0 <= i < s.len() && 0 <= j < s.len() && i != j ==> (#[trigger] s[i]).0@ != (#[trigger] s[j]).0@
}

/// `k` is the key of some entry of `s`.
pub open spec fn has_entry_key(s: Seq<(String, NbtValue)>, k: Seq<char>) -> bool {
    exists|i: int| 0 <= i < s.len() && (#[trigger] s[i]).0@ == k
}

/// The index of the entry of `s` keyed `k`.
pub open spec fn entry_index(s: Seq<(String, NbtValue)>, k: Seq<char>) -> int {
    choose|i: int| 0 <= i < s.len() && (#[trigger] s[i]).0@ == k
}

/// The map an entry list stands for.
pub open spec fn entries_map(s: Seq<(String, NbtValue)>) -> Map<Seq<char>, NbtValue> {
    Map::new(|k: Seq<char>| has_entry_key(s, k), |k: Seq<char>| s[entry_index(s, k)].1)
}

/// With distinct keys, the entry at `i` is what the map holds for its key.
pub proof fn lemma_entries_map_at(s: Seq<(String, NbtValue)>, i: int)
    requires
        keys_unique(s),
        0 <= i < s.len(),
    ensures
        entries_map(s).dom().contains(s[i].0@),
        entries_map(s)[s[i].0@] == s[i].1,
{
    let k = s[i].0@;
    assert(has_entry_key(s, k));
    let j = entry_index(s, k);
    assert(s[j].0@ == k);
    assert(j == i);
}

/// The value a map holds at `k`, if any.
pub open spec fn lookup(m: Map<Seq<char>, NbtValue>, k: Seq<char>) -> Option<NbtValue> {
    if m.dom().contains(k) {
        Some(m[k])
    } else {
        None
    }
}

/// The text held at `k`, if `k` holds a string tag.
pub open spec fn str_of(m: Map<Seq<char>, NbtValue>, k: Seq<char>) -> Option<Seq<char>> {
    match lookup(m, k) {
        Some(NbtValue::String(s)) => Some(s@),
        _ => None,
    }
}

/// The compound held at `k`, if `k` holds a compound tag.
pub open spec fn map_of(m: Map<Seq<char>, NbtValue>, k: Seq<char>) -> Option<NbtMap> {
    match lookup(m, k) {
        Some(NbtValue::Compound(c)) => Some(c),
        _ => None,
    }
}

/// The list held at `k`, if `k` holds a list tag.
pub open spec fn list_of(m: Map<Seq<char>, NbtValue>, k: Seq<char>) -> Option<Seq<NbtValue>> {
    match lookup(m, k) {
        Some(NbtValue::List(l)) => Some(l@),
        _ => None,
    }
}

/// Reading an integral tag as an `i32`, the way NBT readers widen or
/// truncate: byte, short and int widen, long keeps its low 32 bits.
pub open spec fn int_value(v: NbtValue) -> Option<i32> {
    match v {
        NbtValue::Byte(b) => Some(b as i32),
        NbtValue::Short(s) => Some(s as i32),
        NbtValue::Int(i) => Some(i),
        NbtValue::Long(l) => Some(l as i32),
        _ => None,
    }
}

/// Reading an integral tag as an `i64`.
pub open spec fn long_value(v: NbtValue) -> Option<i64> {
    match v {
        NbtValue::Byte(b) => Some(b as i64),
        NbtValue::Short(s) => Some(s as i64),
        NbtValue::Int(i) => Some(i as i64),
        NbtValue::Long(l) => Some(l),
        _ => None,
    }
}

/// Reading an integral tag as a boolean: nonzero is true.
pub open spec fn bool_value(v: NbtValue) -> Option<bool> {
    match long_value(v) {
        Some(x) => Some(x != 0),
        None => None,
    }
}

/// The `i32` reading of the tag at `k`.
pub open spec fn int_of(m: Map<Seq<char>, NbtValue>, k: Seq<char>) -> Option<i32> {
    match lookup(m, k) {
        Some(v) => int_value(v),
        None => None,
    }
}

/// The `i64` reading of the tag at `k`.
pub open spec fn long_of(m: Map<Seq<char>, NbtValue>, k: Seq<char>) -> Option<i64> {
    match lookup(m, k) {
        Some(v) => long_value(v),
        None => None,
    }
}

/// The boolean reading of the tag at `k`.
pub open spec fn bool_of(m: Map<Seq<char>, NbtValue>, k: Seq<char>) -> Option<bool> {
    match lookup(m, k) {
        Some(v) => bool_value(v),
        None => None,
    }
}

/// `m` with `k` renamed to `to` when present (a present `to` is overwritten).
pub open spec fn renamed(m: Map<Seq<char>, NbtValue>, k: Seq<char>, to: Seq<char>) -> Map<Seq<char>, NbtValue> {
    if m.dom().contains(k) {
        m.remove(k).insert(to, m[k])
    } else {
        m
    }
}

/// `new` differs from `old` only in the compound held at `k`, which is a
/// compound in both.
pub open spec fn edits_map(old: Map<Seq<char>, NbtValue>, new: Map<Seq<char>, NbtValue>, k: Seq<char>) -> bool {
    &&& new.dom() == old.dom()
    &&& new.remove(k) == old.remove(k)
    &&& map_of(old, k).is_some()
    &&& map_of(new, k).is_some()
}

/// `after` is `before` with the compound at `k` changed as `rel` relates
/// the compound's old and new contents; without a compound at `k`, `after`
/// is `before`.
pub open spec fn within(
    before: Map<Seq<char>, NbtValue>,
    after: Map<Seq<char>, NbtValue>,
    k: Seq<char>,
    rel: spec_fn(Map<Seq<char>, NbtValue>, Map<Seq<char>, NbtValue>) -> bool,
) -> bool {
    match map_of(before, k) {
        Some(c) => map_of(after, k) matches Some(c2) && rel(c@, c2@) && after.remove(k) == before.remove(k)
            && after.dom() == before.dom(),
        None => after == before,
    }
}

/// `v` is a compound tag with no entries.
pub open spec fn is_empty_compound(v: NbtValue) -> bool {
    v matches NbtValue::Compound(e) && e@ == Map::<Seq<char>, NbtValue>::empty()
}

/// `v` is a list tag with no elements.
pub open spec fn is_empty_list(v: NbtValue) -> bool {
    v matches NbtValue::List(e) && e@.len() == 0
}

/// `v` is a string tag holding `s`.
pub open spec fn is_str(v: NbtValue, s: Seq<char>) -> bool {
    v matches NbtValue::String(x) && x@ == s
}

impl View for NbtMap {
    type V = Map<Seq<char>, NbtValue>;

    closed spec fn view(&self) -> Map<Seq<char>, NbtValue> {
        entries_map(self.entries@)
    }
}

impl NbtMap {
    #[verifier::type_invariant]
    spec fn wf(self) -> bool {
        keys_unique(self.entries@)
    }

    /// The entries, in order.
    pub closed spec fn entry_seq(self) -> Seq<(String, NbtValue)> {
        self.entries@
    }

    /// The entry list has distinct keys and stands for the map.
    pub proof fn lemma_entry_seq(self)
        requires
            keys_unique(self.entry_seq()),
        ensures
            self@ == entries_map(self.entry_seq()),
            self@.dom().finite(),
            self@.dom().len() == self.entry_seq().len(),
    {
        lemma_entries_dom(self.entries@);
    }

    /// An empty compound.
    pub fn new() -> (r: NbtMap)
        ensures
            r@ == Map::<Seq<char>, NbtValue>::empty(),
            r.entry_seq().len() == 0,
    {
        let r = NbtMap { entries: Vec::new() };
        assert(r@ =~= Map::<Seq<char>, NbtValue>::empty());
        r
    }

    fn find(&self, key: &str) -> (r: Option<usize>)
        ensures
            match r {
                Some(i) => i < self.entries@.len() && self.entries@[i as int].0@ == key@,
                None => !has_entry_key(self.entries@, key@),
            },
    {
        let mut i: usize = 0;
        while i < self.entries.len()
            invariant
                i <= self.entries@.len(),
                forall|j: int| 0 <= j < i ==> (#[trigger] self.entries@[j]).0@ != key@,
            decreases self.entries@.len() - i,
        {
            if str_eq(self.entries[i].0.as_str(), key) {
                return Some(i);
            }
            i = i + 1;
        }
        None
    }

    /// Number of entries.
    pub fn len(&self) -> (n: usize)
        ensures
            n == self@.dom().len(),
            self@.dom().finite(),
    {
        proof {
            use_type_invariant(self);
            lemma_entries_dom(self.entries@);
        }
        self.entries.len()
    }

    /// Does the compound hold no entries?
    pub fn is_empty(&self) -> (b: bool)
        ensures
            b == (self@.dom().len() == 0),
            b == (self@ == Map::<Seq<char>, NbtValue>::empty()),
    {
        proof {
            use_type_invariant(self);
            lemma_entries_dom(self.entries@);
            if self@.dom().len() == 0 {
                assert(self@.dom() =~= Set::<Seq<char>>::empty());
                assert(self@ =~= Map::<Seq<char>, NbtValue>::empty());
            }
        }
        self.entries.len() == 0
    }

    /// Is `key` present?
    pub fn has_key(&self, key: &str) -> (b: bool)
        ensures
            b == self@.dom().contains(key@),
    {
        self.find(key).is_some()
    }

    /// The value at `key`.
    pub fn get(&self, key: &str) -> (r: Option<&NbtValue>)
        ensures
            match r {
                Some(v) => self@.dom().contains(key@) && *v == self@[key@],
                None => !self@.dom().contains(key@),
            },
    {
        proof {
            use_type_invariant(self);
        }
        match self.find(key) {
            Some(i) => {
                proof {
                    lemma_entries_map_at(self.entries@, i as int);
                }
                Some(&self.entries[i].1)
            },
            None => None,
        }
    }

    /// The text at `key`, when it holds a string tag.
    pub fn get_string(&self, key: &str) -> (r: Option<&str>)
        ensures
            match r {
                Some(s) => str_of(self@, key@) == Some(s@),
                None => str_of(self@, key@).is_none(),
            },
    {
        match self.get(key) {
            Some(NbtValue::String(s)) => Some(s.as_str()),
            _ => None,
        }
    }

    /// The compound at `key`, when it holds one.
    pub fn get_map(&self, key: &str) -> (r: Option<&NbtMap>)
        ensures
            match r {
                Some(m) => map_of(self@, key@) == Some(*m),
                None => map_of(self@, key@).is_none(),
            },
    {
        match self.get(key) {
            Some(NbtValue::Compound(m)) => Some(m),
            _ => None,
        }
    }

    /// The list at `key`, when it holds one.
    pub fn get_list(&self, key: &str) -> (r: Option<&Vec<NbtValue>>)
        ensures
            match r {
                Some(l) => list_of(self@, key@) == Some(l@),
                None => list_of(self@, key@).is_none(),
            },
    {
        match self.get(key) {
            Some(NbtValue::List(l)) => Some(l),
            _ => None,
        }
    }

    /// The `i32` reading of an integral tag at `key`.
    pub fn get_i32(&self, key: &str) -> (r: Option<i32>)
        ensures
            r == int_of(self@, key@),
    {
        match self.get(key) {
            Some(v) => value_as_i32(v),
            None => None,
        }
    }

    /// The number at `key` read as binary64 bits.
    pub fn get_f64(&self, key: &str) -> (r: Option<u64>)
        ensures
            match r {
                Some(x) => self@.dom().contains(key@) && is_number(self@[key@]) && reads_f64(self@[key@], x),
                None => !self@.dom().contains(key@) || !is_number(self@[key@]),
            },
    {
        match self.get(key) {
            Some(v) => value_as_f64(v),
            None => None,
        }
    }

    /// The `i64` reading of an integral tag at `key`.
    pub fn get_i64(&self, key: &str) -> (r: Option<i64>)
        ensures
            r == long_of(self@, key@),
    {
        match self.get(key) {
            Some(v) => value_as_i64(v),
            None => None,
        }
    }

    /// The boolean reading of an integral tag at `key`.
    pub fn get_bool(&self, key: &str) -> (r: Option<bool>)
        ensures
            r == bool_of(self@, key@),
    {
        match self.get(key) {
            Some(v) => match value_as_i64(v) {
                Some(x) => Some(x != 0),
                None => None,
            },
            None => None,
        }
    }

    /// Remove `key`, handing back what it held.
    pub fn take(&mut self, key: &str) -> (r: Option<NbtValue>)
        ensures
            final(self)@ == old(self)@.remove(key@),
            r == lookup(old(self)@, key@),
    {
        proof {
            use_type_invariant(&*self);
        }
        match self.find(key) {
            Some(i) => {
                proof {
                    lemma_entries_map_at(self.entries@, i as int);
                }
                let ghost old_s = self.entries@;
                let mut es: Vec<(String, NbtValue)> = Vec::new();
                std::mem::swap(&mut es, &mut self.entries);
                let (_k, v) = es.remove(i);
                proof {
                    lemma_remove_entry(old_s, i as int);
                }
                self.entries = es;
                Some(v)
            },
            None => {
                proof {
                    assert(entries_map(self.entries@) =~= entries_map(self.entries@).remove(key@));
                }
                None
            },
        }
    }

    /// Set `key` to `value`, in place when the key is already there.
    pub fn set(&mut self, key: &str, value: NbtValue)
        ensures
            final(self)@ == old(self)@.insert(key@, value),
    {
        proof {
            use_type_invariant(&*self);
        }
        let ghost old_s = self.entries@;
        match self.find(key) {
            Some(i) => {
                let mut es: Vec<(String, NbtValue)> = Vec::new();
                std::mem::swap(&mut es, &mut self.entries);
                let (k, _old) = es.remove(i);
                es.insert(i, (k, value));
                proof {
                    lemma_replace_entry(old_s, i as int, es@);
                }
                self.entries = es;
            },
            None => {
                let k = key.to_owned();
                let mut es: Vec<(String, NbtValue)> = Vec::new();
                std::mem::swap(&mut es, &mut self.entries);
                es.push((k, value));
                proof {
                    lemma_push_entry(old_s, es@);
                }
                self.entries = es;
            },
        }
    }

    /// Set `key` to a string tag.
    pub fn set_string(&mut self, key: &str, value: &str)
        ensures
            final(self)@ == old(self)@.insert(key@, final(self)@[key@]),
            final(self)@.remove(key@) == old(self)@.remove(key@),
            final(self)@.dom().contains(key@),
            is_str(final(self)@[key@], value@),
            str_of(final(self)@, key@) == Some(value@),
    {
        let s = value.to_owned();
        self.set(key, NbtValue::String(s));
        proof {
            assert(final(self)@.remove(key@) =~= old(self)@.remove(key@));
        }
    }

    /// Set `key` to an int tag.
    pub fn set_i32(&mut self, key: &str, value: i32)
        ensures
            final(self)@ == old(self)@.insert(key@, NbtValue::Int(value)),
    {
        self.set(key, NbtValue::Int(value));
    }

    /// Set `key` to a long tag.
    pub fn set_i64(&mut self, key: &str, value: i64)
        ensures
            final(self)@ == old(self)@.insert(key@, NbtValue::Long(value)),
    {
        self.set(key, NbtValue::Long(value));
    }

    /// Set `key` to a byte tag.
    pub fn set_byte(&mut self, key: &str, value: i8)
        ensures
            final(self)@ == old(self)@.insert(key@, NbtValue::Byte(value)),
    {
        self.set(key, NbtValue::Byte(value));
    }

    /// Set `key` to a short tag.
    pub fn set_short(&mut self, key: &str, value: i16)
        ensures
            final(self)@ == old(self)@.insert(key@, NbtValue::Short(value)),
    {
        self.set(key, NbtValue::Short(value));
    }

    /// Set `key` to a boolean, stored as the byte 1 or 0.
    pub fn set_bool(&mut self, key: &str, value: bool)
        ensures
            final(self)@ == old(self)@.insert(key@, NbtValue::Byte(if value { 1i8 } else { 0i8 })),
    {
        self.set(key, NbtValue::Byte(if value { 1 } else { 0 }));
    }

    /// Set `key` to a float tag given by its bit pattern.
    pub fn set_f32_bits(&mut self, key: &str, bits: u32)
        ensures
            final(self)@ == old(self)@.insert(key@, NbtValue::Float(bits)),
    {
        self.set(key, NbtValue::Float(bits));
    }

    /// Set `key` to a double tag given by its bit pattern.
    pub fn set_f64_bits(&mut self, key: &str, bits: u64)
        ensures
            final(self)@ == old(self)@.insert(key@, NbtValue::Double(bits)),
    {
        self.set(key, NbtValue::Double(bits));
    }

    /// Set `key` to a compound tag.
    pub fn set_map(&mut self, key: &str, value: NbtMap)
        ensures
            final(self)@ == old(self)@.insert(key@, NbtValue::Compound(value)),
    {
        self.set(key, NbtValue::Compound(value));
    }

    /// Set `key` to a list tag.
    pub fn set_list(&mut self, key: &str, value: Vec<NbtValue>)
        ensures
            final(self)@ == old(self)@.insert(key@, NbtValue::List(value)),
    {
        self.set(key, NbtValue::List(value));
    }

    /// Move the value at `from` to `to` (overwriting `to`); nothing happens
    /// when `from` is absent.
    pub fn rename_key(&mut self, from: &str, to: &str)
        ensures
            final(self)@ == renamed(old(self)@, from@, to@),
    {
        match self.take(from) {
            Some(v) => {
                self.set(to, v);
            },
            None => {
                proof {
                    assert(old(self)@.remove(from@) =~= old(self)@);
                }
            },
        }
    }

    /// Lift the compound at `key` out for editing, leaving an empty compound
    /// in its place (so the entry keeps its position); `None` and no change
    /// when `key` does not hold a compound.
    pub fn take_map(&mut self, key: &str) -> (r: Option<NbtMap>)
        ensures
            match r {
                Some(m) => map_of(old(self)@, key@) == Some(m) && final(self)@.dom() == old(self)@.dom()
                    && final(self)@.remove(key@) == old(self)@.remove(key@)
                    && is_empty_compound(final(self)@[key@]),
                None => map_of(old(self)@, key@).is_none() && final(self)@ == old(self)@,
            },
    {
        if self.get_map(key).is_none() {
            return None;
        }
        match self.take(key) {
            Some(NbtValue::Compound(m)) => {
                let e = NbtMap::new();
                self.set_map(key, e);
                proof {
                    assert(final(self)@.remove(key@) =~= old(self)@.remove(key@));
                    assert(final(self)@.dom() =~= old(self)@.dom());
                }
                Some(m)
            },
            Some(other) => {
                self.set(key, other);
                None
            },
            None => None,
        }
    }

    /// Lift the list at `key` out for editing, leaving an empty list in its
    /// place; `None` and no change when `key` does not hold a list.
    pub fn take_list(&mut self, key: &str) -> (r: Option<Vec<NbtValue>>)
        ensures
            match r {
                Some(l) => list_of(old(self)@, key@) == Some(l@) && final(self)@.dom() == old(self)@.dom()
                    && final(self)@.remove(key@) == old(self)@.remove(key@)
                    && is_empty_list(final(self)@[key@])
                    && old(self)@[key@] == NbtValue::List(l),
                None => list_of(old(self)@, key@).is_none() && final(self)@ == old(self)@,
            },
    {
        if self.get_list(key).is_none() {
            return None;
        }
        match self.take(key) {
            Some(NbtValue::List(l)) => {
                let e: Vec<NbtValue> = Vec::new();
                self.set_list(key, e);
                proof {
                    assert(final(self)@.remove(key@) =~= old(self)@.remove(key@));
                    assert(final(self)@.dom() =~= old(self)@.dom());
                }
                Some(l)
            },
            Some(other) => {
                self.set(key, other);
                None
            },
            None => None,
        }
    }

    /// Put every entry of `other` into this compound, replacing entries under
    /// the same keys.
    pub fn absorb(&mut self, other: NbtMap)
        ensures
            final(self)@ == old(self)@.union_prefer_right(other@),
    {
        proof {
            use_type_invariant(&other);
        }
        let ghost base = self@;
        let mut rest = other.entries;
        let ghost all = rest@;
        let ghost n = all.len();
        proof {
            assert(all.take(0) =~= Seq::<(String, NbtValue)>::empty());
            assert(entries_map(all.take(0)) =~= Map::<Seq<char>, NbtValue>::empty());
            assert(base.union_prefer_right(entries_map(all.take(0))) =~= base);
        }
        while rest.len() > 0
            invariant
                keys_unique(all),
                n == all.len(),
                rest.len() <= n,
                rest@ == all.subrange(n - rest.len(), n as int),
                self@ == base.union_prefer_right(entries_map(all.take(n - rest.len()))),
            decreases rest.len(),
        {
            let ghost i = n - rest.len();
            let (k, v) = rest.remove(0);
            assert(all[i] == (k, v));
            proof {
                let pre = all.take(i);
                let post = all.take(i + 1);
                assert(keys_unique(pre)) by {
                    assert forall|a: int, b: int| 0 <= a < pre.len() && 0 <= b < pre.len() && a != b implies
                        (#[trigger] pre[a]).0@ != (#[trigger] pre[b]).0@ by {
                        assert(pre[a] == all[a] && pre[b] == all[b]);
                    }
                }
                assert(!has_entry_key(pre, k@)) by {
                    if has_entry_key(pre, k@) {
                        let a = choose|a: int| 0 <= a < pre.len() && (#[trigger] pre[a]).0@ == k@;
                        assert(pre[a] == all[a]);
                    }
                }
                lemma_push_entry(pre, post);
            }
            let ghost prev = self@;
            self.set(k.as_str(), v);
            proof {
                let pre = all.take(i);
                assert(self@ =~= base.union_prefer_right(entries_map(pre).insert(k@, v)));
                assert(rest@ =~= all.subrange(n - rest.len(), n as int));
            }
        }
        proof {
            assert(all.take(n as int) =~= all);
        }
    }

    /// Hand over every entry, in order; the keys are distinct and the entries
    /// stand for the map.
    pub fn into_entries(self) -> (r: Vec<(String, NbtValue)>)
        ensures
            keys_unique(r@),
            entries_map(r@) == self@,
    {
        proof {
            use_type_invariant(&self);
        }
        self.entries
    }
}

/// Putting a value back under a key that was lifted out keeps every other
/// entry and the key set.
pub proof fn lemma_put_back(old: Map<Seq<char>, NbtValue>, mid: Map<Seq<char>, NbtValue>, k: Seq<char>, v: NbtValue)
    requires
        mid.dom() == old.dom(),
        mid.remove(k) == old.remove(k),
        old.dom().contains(k),
    ensures
        mid.insert(k, v).dom() == old.dom(),
        mid.insert(k, v).remove(k) == old.remove(k),
        mid.insert(k, v) == old.insert(k, v),
{
    assert(mid.insert(k, v).dom() =~= old.dom());
    assert(mid.insert(k, v).remove(k) =~= old.remove(k));
    assert forall|x: Seq<char>| #[trigger] mid.insert(k, v).dom().contains(x) implies mid.insert(k, v)[x] == old.insert(k, v)[x] by {
        if x != k {
            assert(mid.dom().contains(x));
            assert(old.dom().contains(x));
            assert(mid.remove(k).dom().contains(x));
            assert(mid.remove(k)[x] == mid[x]);
            assert(old.remove(k)[x] == old[x]);
            assert(mid.insert(k, v)[x] == mid[x]);
            assert(old.insert(k, v)[x] == old[x]);
        }
    }
    assert(mid.insert(k, v) =~= old.insert(k, v));
}

/// The `i32` reading of an integral tag.
pub fn value_as_i32(v: &NbtValue) -> (r: Option<i32>)
    ensures
        r == int_value(*v),
{
    match v {
        NbtValue::Byte(b) => Some(*b as i32),
        NbtValue::Short(s) => Some(*s as i32),
        NbtValue::Int(i) => Some(*i),
        NbtValue::Long(l) => Some(*l as i32),
        _ => None,
    }
}

/// `v` is a numeric tag whose value is zero (a float zero of either sign).
pub open spec fn is_zero_number(v: NbtValue) -> bool {
    match v {
        NbtValue::Byte(x) => x == 0,
        NbtValue::Short(x) => x == 0,
        NbtValue::Int(x) => x == 0,
        NbtValue::Long(x) => x == 0,
        NbtValue::Float(b) => b == 0 || b == 0x8000_0000,
        NbtValue::Double(b) => b == 0 || b == 0x8000_0000_0000_0000,
        _ => false,
    }
}

/// `v` is a numeric tag whose value is exactly one quarter.
pub open spec fn is_quarter_number(v: NbtValue) -> bool {
    match v {
        NbtValue::Float(b) => b == 0x3E80_0000,
        NbtValue::Double(b) => b == 0x3FD0_0000_0000_0000,
        _ => false,
    }
}

/// Whether `v` is a numeric zero.
pub fn value_is_zero(v: &NbtValue) -> (b: bool)
    ensures
        b == is_zero_number(*v),
{
    match v {
        NbtValue::Byte(x) => *x == 0,
        NbtValue::Short(x) => *x == 0,
        NbtValue::Int(x) => *x == 0,
        NbtValue::Long(x) => *x == 0,
        NbtValue::Float(b) => *b == 0 || *b == 0x8000_0000,
        NbtValue::Double(b) => *b == 0 || *b == 0x8000_0000_0000_0000,
        _ => false,
    }
}

/// Whether `v` is the number one quarter.
pub fn value_is_quarter(v: &NbtValue) -> (b: bool)
    ensures
        b == is_quarter_number(*v),
{
    match v {
        NbtValue::Float(b) => *b == 0x3E80_0000,
        NbtValue::Double(b) => *b == 0x3FD0_0000_0000_0000,
        _ => false,
    }
}

/// The `i64` reading of an integral tag.
pub fn value_as_i64(v: &NbtValue) -> (r: Option<i64>)
    ensures
        r == long_value(*v),
{
    match v {
        NbtValue::Byte(b) => Some(*b as i64),
        NbtValue::Short(s) => Some(*s as i64),
        NbtValue::Int(i) => Some(*i as i64),
        NbtValue::Long(l) => Some(*l),
        _ => None,
    }
}


/// `x` is a number tag read as binary64 bits: an integral tag converted,
/// a float widened, a double as it is.
pub open spec fn reads_f64(v: NbtValue, x: u64) -> bool {
    match v {
        NbtValue::Byte(b) => int_converts_to(b as int, x),
        NbtValue::Short(s) => int_converts_to(s as int, x),
        NbtValue::Int(i) => int_converts_to(i as int, x),
        NbtValue::Long(l) => int_converts_to(l as int, x),
        NbtValue::Float(f) => widens_to(f, x),
        NbtValue::Double(d) => x == d,
        _ => false,
    }
}

/// `v` is a number tag.
pub open spec fn is_number(v: NbtValue) -> bool {
    match v {
        NbtValue::Byte(_) | NbtValue::Short(_) | NbtValue::Int(_) | NbtValue::Long(_) | NbtValue::Float(_)
        | NbtValue::Double(_) => true,
        _ => false,
    }
}


/// Two readings of one number tag are the same bits, or both NaNs.
pub proof fn lemma_reads_f64_unique(v: NbtValue, x: u64, y: u64)
    requires
        reads_f64(v, x),
        reads_f64(v, y),
    ensures
        x == y || (nan64(x) && nan64(y)),
{
    lemma_bits64(x);
    lemma_bits64(y);
    match v {
        NbtValue::Float(f) => {
            if !nan32(f) && !inf32(f) {
                lemma_mag64_injective(x, y);
            }
        },
        NbtValue::Double(_) => {},
        _ => {
            lemma_mag64_injective(x, y);
        },
    }
}

/// A number tag read as binary64 bits.
pub fn value_as_f64(v: &NbtValue) -> (r: Option<u64>)
    ensures
        match r {
            Some(x) => is_number(*v) && reads_f64(*v, x),
            None => !is_number(*v),
        },
{
    match v {
        NbtValue::Byte(b) => Some(i64_to_f64_bits(*b as i64)),
        NbtValue::Short(s) => Some(i64_to_f64_bits(*s as i64)),
        NbtValue::Int(i) => Some(i64_to_f64_bits(*i as i64)),
        NbtValue::Long(l) => Some(i64_to_f64_bits(*l)),
        NbtValue::Float(f) => Some(f32_to_f64_bits(*f)),
        NbtValue::Double(d) => Some(*d),
        _ => None,
    }
}

pub proof fn lemma_entries_dom(s: Seq<(String, NbtValue)>)
    requires
        keys_unique(s),
    ensures
        entries_map(s).dom().finite(),
        entries_map(s).dom().len() == s.len(),
    decreases s.len(),
{
    let d = entries_map(s).dom();
    if s.len() == 0 {
        assert(d =~= Set::<Seq<char>>::empty());
    } else {
        let t = s.drop_last();
        assert(keys_unique(t));
        lemma_entries_dom(t);
        let k = s.last().0@;
        assert(!has_entry_key(t, k)) by {
            if has_entry_key(t, k) {
                let j = entry_index(t, k);
                assert(t[j] == s[j]);
                assert(s[s.len() - 1] == s.last());
            }
        }
        assert forall|x: Seq<char>| d.contains(x) <==> entries_map(t).dom().insert(k).contains(x) by {
            if d.contains(x) {
                let i = entry_index(s, x);
                if i < s.len() - 1 {
                    assert(t[i] == s[i]);
                    assert(has_entry_key(t, x));
                }
            }
            if entries_map(t).dom().contains(x) && x != k {
                let i = entry_index(t, x);
                assert(s[i] == t[i]);
                assert(has_entry_key(s, x));
            }
            if x == k {
                assert(s[s.len() - 1] == s.last());
                assert(has_entry_key(s, x));
            }
        }
        assert(d =~= entries_map(t).dom().insert(k));
    }
}

proof fn lemma_remove_entry(s: Seq<(String, NbtValue)>, i: int)
    requires
        keys_unique(s),
        0 <= i < s.len(),
    ensures
        keys_unique(s.remove(i)),
        entries_map(s.remove(i)) == entries_map(s).remove(s[i].0@),
{
    let t = s.remove(i);
    let k = s[i].0@;
    assert forall|a: int, b: int| 0 <= a < t.len() && 0 <= b < t.len() && a != b implies (#[trigger] t[a]).0@
        != (#[trigger] t[b]).0@ by {
        let a2 = if a < i { a } else { a + 1 };
        let b2 = if b < i { b } else { b + 1 };
        assert(t[a] == s[a2]);
        assert(t[b] == s[b2]);
    }
    let m1 = entries_map(t);
    let m2 = entries_map(s).remove(k);
    assert forall|x: Seq<char>| m1.dom().contains(x) <==> m2.dom().contains(x) by {
        if m1.dom().contains(x) {
            let a = entry_index(t, x);
            let a2 = if a < i { a } else { a + 1 };
            assert(t[a] == s[a2]);
            assert(has_entry_key(s, x));
            assert(x != k);
        }
        if m2.dom().contains(x) {
            let a = entry_index(s, x);
            assert(a != i);
            let a1 = if a < i { a } else { a - 1 };
            assert(t[a1] == s[a]);
            assert(has_entry_key(t, x));
        }
    }
    assert forall|x: Seq<char>| m1.dom().contains(x) implies m1[x] == m2[x] by {
        let a = entry_index(t, x);
        let a2 = if a < i { a } else { a + 1 };
        assert(t[a] == s[a2]);
        lemma_entries_map_at(s, a2);
        lemma_entries_map_at(t, a);
    }
    assert(m1 =~= m2);
}

proof fn lemma_replace_entry(s: Seq<(String, NbtValue)>, i: int, t: Seq<(String, NbtValue)>)
    requires
        keys_unique(s),
        0 <= i < s.len(),
        t.len() == s.len(),
        t[i].0@ == s[i].0@,
        forall|j: int| 0 <= j < s.len() && j != i ==> t[j] == s[j],
    ensures
        keys_unique(t),
        entries_map(t) == entries_map(s).insert(s[i].0@, t[i].1),
{
    assert forall|a: int, b: int| 0 <= a < t.len() && 0 <= b < t.len() && a != b implies (#[trigger] t[a]).0@
        != (#[trigger] t[b]).0@ by {
        assert(t[a].0@ == s[a].0@);
        assert(t[b].0@ == s[b].0@);
    }
    let k = s[i].0@;
    let m1 = entries_map(t);
    let m2 = entries_map(s).insert(k, t[i].1);
    assert forall|x: Seq<char>| m1.dom().contains(x) <==> m2.dom().contains(x) by {
        if m1.dom().contains(x) {
            let a = entry_index(t, x);
            assert(t[a].0@ == s[a].0@);
            assert(has_entry_key(s, x));
        }
        if m2.dom().contains(x) && x != k {
            let a = entry_index(s, x);
            assert(t[a].0@ == s[a].0@);
            assert(has_entry_key(t, x));
        }
        if x == k {
            assert(has_entry_key(t, x));
        }
    }
    assert forall|x: Seq<char>| m1.dom().contains(x) implies m1[x] == m2[x] by {
        let a = entry_index(t, x);
        lemma_entries_map_at(t, a);
        if a != i {
            assert(t[a] == s[a]);
            lemma_entries_map_at(s, a);
        }
    }
    assert(m1 =~= m2);
}

proof fn lemma_push_entry(s: Seq<(String, NbtValue)>, t: Seq<(String, NbtValue)>)
    requires
        keys_unique(s),
        t.len() == s.len() + 1,
        forall|j: int| 0 <= j < s.len() ==> t[j] == s[j],
        !has_entry_key(s, t[s.len() as int].0@),
    ensures
        keys_unique(t),
        entries_map(t) == entries_map(s).insert(t[s.len() as int].0@, t[s.len() as int].1),
{
    let n = s.len() as int;
    let k = t[n].0@;
    assert forall|a: int, b: int| 0 <= a < t.len() && 0 <= b < t.len() && a != b implies (#[trigger] t[a]).0@
        != (#[trigger] t[b]).0@ by {
        if a < n && b < n {
            assert(t[a] == s[a]);
            assert(t[b] == s[b]);
        } else if a < n {
            assert(t[a] == s[a]);
        } else {
            assert(t[b] == s[b]);
        }
    }
    let m1 = entries_map(t);
    let m2 = entries_map(s).insert(k, t[n].1);
    assert forall|x: Seq<char>| m1.dom().contains(x) <==> m2.dom().contains(x) by {
        if m1.dom().contains(x) && x != k {
            let a = entry_index(t, x);
            assert(a != n);
            assert(t[a] == s[a]);
            assert(has_entry_key(s, x));
        }
        if m2.dom().contains(x) && x != k {
            let a = entry_index(s, x);
            assert(t[a] == s[a]);
            assert(has_entry_key(t, x));
        }
        if x == k {
            assert(has_entry_key(t, x));
        }
    }
    assert forall|x: Seq<char>| m1.dom().contains(x) implies m1[x] == m2[x] by {
        let a = entry_index(t, x);
        lemma_entries_map_at(t, a);
        if a != n {
            assert(t[a] == s[a]);
            lemma_entries_map_at(s, a);
        }
    }
    assert(m1 =~= m2);
}

} // verus!

verus! {

/// `b` is a copy of `a`: the same kind of tag with the same contents, bit
/// for bit, compounds keeping their entry order.
pub open spec fn tag_same(a: NbtValue, b: NbtValue) -> bool
    decreases a,
{
    match a {
        NbtValue::List(x) => match b {
            NbtValue::List(y) => tags_same(x@, y@),
            _ => false,
        },
        NbtValue::Compound(x) => match b {
            NbtValue::Compound(y) => entries_same(x.entry_seq(), y.entry_seq()),
            _ => false,
        },
        NbtValue::ByteArray(x) => match b {
            NbtValue::ByteArray(y) => x@ == y@,
            _ => false,
        },
        NbtValue::String(x) => match b {
            NbtValue::String(y) => x@ == y@,
            _ => false,
        },
        NbtValue::IntArray(x) => match b {
            NbtValue::IntArray(y) => x@ == y@,
            _ => false,
        },
        NbtValue::LongArray(x) => match b {
            NbtValue::LongArray(y) => x@ == y@,
            _ => false,
        },
        _ => a == b,
    }
}

/// Element-wise [`tag_same`].
pub open spec fn tags_same(x: Seq<NbtValue>, y: Seq<NbtValue>) -> bool
    decreases x,
{
    if x.len() == 0 {
        y.len() == 0
    } else {
        y.len() > 0 && tag_same(x[0], y[0]) && tags_same(x.drop_first(), y.drop_first())
    }
}

/// Entry-wise [`tag_same`]: the same keys in the same order.
pub open spec fn entries_same(x: Seq<(String, NbtValue)>, y: Seq<(String, NbtValue)>) -> bool
    decreases x,
{
    if x.len() == 0 {
        y.len() == 0
    } else {
        y.len() > 0 && x[0].0@ == y[0].0@ && tag_same(x[0].1, y[0].1) && entries_same(
            x.drop_first(),
            y.drop_first(),
        )
    }
}

/// Tag equality as NBT tags compare: the same kind of tag with equal
/// contents, where floating tags compare as IEEE numbers (no NaN equals
/// anything, the two zeros are equal) and compounds compare key by key.
pub open spec fn tag_eq(a: NbtValue, b: NbtValue) -> bool
    decreases a,
{
    match a {
        NbtValue::Float(x) => match b {
            NbtValue::Float(y) => f32_equal(x, y),
            _ => false,
        },
        NbtValue::Double(x) => match b {
            NbtValue::Double(y) => f64_equal(x, y),
            _ => false,
        },
        NbtValue::List(x) => match b {
            NbtValue::List(y) => tags_eq(x@, y@),
            _ => false,
        },
        NbtValue::Compound(x) => match b {
            NbtValue::Compound(y) => x.entry_seq().len() == y.entry_seq().len() && entries_in(x.entry_seq(), y@),
            _ => false,
        },
        _ => tag_same(a, b),
    }
}

/// Element-wise [`tag_eq`].
pub open spec fn tags_eq(x: Seq<NbtValue>, y: Seq<NbtValue>) -> bool
    decreases x,
{
    if x.len() == 0 {
        y.len() == 0
    } else {
        y.len() > 0 && tag_eq(x[0], y[0]) && tags_eq(x.drop_first(), y.drop_first())
    }
}

/// Every entry of `x` has its key in `m`, with a [`tag_eq`] value.
pub open spec fn entries_in(x: Seq<(String, NbtValue)>, m: Map<Seq<char>, NbtValue>) -> bool
    decreases x,
{
    if x.len() == 0 {
        true
    } else {
        m.dom().contains(x[0].0@) && tag_eq(x[0].1, m[x[0].0@]) && entries_in(x.drop_first(), m)
    }
}

/// A copy of a tag.
pub fn copy_tag(v: &NbtValue) -> (r: NbtValue)
    ensures
        tag_same(*v, r),
    decreases v,
{
    match v {
        NbtValue::Byte(x) => NbtValue::Byte(*x),
        NbtValue::Short(x) => NbtValue::Short(*x),
        NbtValue::Int(x) => NbtValue::Int(*x),
        NbtValue::Long(x) => NbtValue::Long(*x),
        NbtValue::Float(x) => NbtValue::Float(*x),
        NbtValue::Double(x) => NbtValue::Double(*x),
        NbtValue::ByteArray(x) => NbtValue::ByteArray(x.clone()),
        NbtValue::String(x) => NbtValue::String(x.clone()),
        NbtValue::IntArray(x) => NbtValue::IntArray(x.clone()),
        NbtValue::LongArray(x) => NbtValue::LongArray(x.clone()),
        NbtValue::List(x) => {
            let mut out: Vec<NbtValue> = Vec::new();
            let mut i: usize = 0;
            while i < x.len()
                invariant
                    *v == NbtValue::List(*x),
                    i <= x@.len(),
                    out@.len() == i,
                    forall|j: int| 0 <= j < i ==> tag_same(#[trigger] x@[j], out@[j]),
                decreases x@.len() - i,
            {
                proof {
                    assert(decreases_to!(*v => (*v)->List_0));
                    assert(decreases_to!(*x => x[i as int]));
                }
                let c = copy_tag(&x[i]);
                out.push(c);
                i = i + 1;
            }
            proof {
                lemma_tags_same_index(x@, out@);
            }
            NbtValue::List(out)
        },
        NbtValue::Compound(m) => {
            let c = m.copy_map_inner(Ghost(*v));
            NbtValue::Compound(c)
        },
    }
}

proof fn lemma_tags_same_index(x: Seq<NbtValue>, y: Seq<NbtValue>)
    requires
        x.len() == y.len(),
        forall|j: int| 0 <= j < x.len() ==> tag_same(#[trigger] x[j], y[j]),
    ensures
        tags_same(x, y),
    decreases x.len(),
{
    if x.len() > 0 {
        assert(tag_same(x[0], y[0]));
        assert forall|j: int| 0 <= j < x.drop_first().len() implies tag_same(
            #[trigger] x.drop_first()[j],
            y.drop_first()[j],
        ) by {
            assert(tag_same(x[j + 1], y[j + 1]));
        }
        lemma_tags_same_index(x.drop_first(), y.drop_first());
    }
}

proof fn lemma_entries_same_index(x: Seq<(String, NbtValue)>, y: Seq<(String, NbtValue)>)
    requires
        x.len() == y.len(),
        forall|j: int| 0 <= j < x.len() ==> (#[trigger] x[j]).0@ == y[j].0@ && tag_same(x[j].1, y[j].1),
    ensures
        entries_same(x, y),
    decreases x.len(),
{
    if x.len() > 0 {
        assert(x[0].0@ == y[0].0@ && tag_same(x[0].1, y[0].1));
        assert forall|j: int| 0 <= j < x.drop_first().len() implies (#[trigger] x.drop_first()[j]).0@
            == y.drop_first()[j].0@ && tag_same(x.drop_first()[j].1, y.drop_first()[j].1) by {
            assert(x[j + 1].0@ == y[j + 1].0@ && tag_same(x[j + 1].1, y[j + 1].1));
        }
        lemma_entries_same_index(x.drop_first(), y.drop_first());
    }
}

impl NbtMap {
    fn copy_map_inner(&self, Ghost(outer): Ghost<NbtValue>) -> (r: NbtMap)
        requires
            outer == NbtValue::Compound(*self),
        ensures
            entries_same(self.entries@, r.entries@),
        decreases outer, 0int,
    {
        proof {
            use_type_invariant(self);
        }
        let mut es: Vec<(String, NbtValue)> = Vec::new();
        let mut i: usize = 0;
        while i < self.entries.len()
            invariant
                outer == NbtValue::Compound(*self),
                keys_unique(self.entries@),
                i <= self.entries@.len(),
                es@.len() == i,
                forall|j: int|
                    0 <= j < i ==> (#[trigger] self.entries@[j]).0@ == es@[j].0@ && tag_same(
                        self.entries@[j].1,
                        es@[j].1,
                    ),
            decreases self.entries@.len() - i,
        {
            proof {
                assert(decreases_to!(outer => outer->Compound_0));
                assert(decreases_to!(*self => self.entries));
                assert(decreases_to!(self.entries => self.entries[i as int]));
                assert(decreases_to!(self.entries[i as int] => self.entries[i as int].1));
                assert(decreases_to!(outer => self.entries[i as int].1));
            }
            let k = self.entries[i].0.clone();
            let c = copy_tag(&self.entries[i].1);
            es.push((k, c));
            i = i + 1;
        }
        proof {
            lemma_entries_same_index(self.entries@, es@);
            assert(keys_unique(es@)) by {
                assert forall|a: int, b: int|
                    0 <= a < es@.len() && 0 <= b < es@.len() && a != b implies (#[trigger] es@[a]).0@
                    != (#[trigger] es@[b]).0@ by {
                    assert(self.entries@[a].0@ == es@[a].0@);
                    assert(self.entries@[b].0@ == es@[b].0@);
                }
            }
        }
        NbtMap { entries: es }
    }
}

/// Do two tags compare equal, as NBT tags compare?
pub fn tag_equal(a: &NbtValue, b: &NbtValue) -> (r: bool)
    ensures
        r == tag_eq(*a, *b),
    decreases a,
{
    match a {
        NbtValue::Byte(x) => match b {
            NbtValue::Byte(y) => *x == *y,
            _ => false,
        },
        NbtValue::Short(x) => match b {
            NbtValue::Short(y) => *x == *y,
            _ => false,
        },
        NbtValue::Int(x) => match b {
            NbtValue::Int(y) => *x == *y,
            _ => false,
        },
        NbtValue::Long(x) => match b {
            NbtValue::Long(y) => *x == *y,
            _ => false,
        },
        NbtValue::Float(x) => match b {
            NbtValue::Float(y) => f32_eq(*x, *y),
            _ => false,
        },
        NbtValue::Double(x) => match b {
            NbtValue::Double(y) => f64_eq(*x, *y),
            _ => false,
        },
        NbtValue::String(x) => match b {
            NbtValue::String(y) => str_eq(x.as_str(), y.as_str()),
            _ => false,
        },
        NbtValue::ByteArray(x) => match b {
            NbtValue::ByteArray(y) => slices_equal_i8(x.as_slice(), y.as_slice()),
            _ => false,
        },
        NbtValue::IntArray(x) => match b {
            NbtValue::IntArray(y) => slices_equal_i32(x.as_slice(), y.as_slice()),
            _ => false,
        },
        NbtValue::LongArray(x) => match b {
            NbtValue::LongArray(y) => slices_equal_i64(x.as_slice(), y.as_slice()),
            _ => false,
        },
        NbtValue::List(x) => match b {
            NbtValue::List(y) => {
                if x.len() != y.len() {
                    proof {
                        if tags_eq(x@, y@) {
                            lemma_tags_eq_len(x@, y@);
                        }
                    }
                    return false;
                }
                let mut i: usize = 0;
                while i < x.len()
                    invariant
                        *a == NbtValue::List(*x),
                        *b == NbtValue::List(*y),
                        x@.len() == y@.len(),
                        i <= x@.len(),
                        forall|j: int| 0 <= j < i ==> tag_eq(#[trigger] x@[j], y@[j]),
                    decreases x@.len() - i,
                {
                    proof {
                        assert(decreases_to!(*a => (*a)->List_0));
                        assert(decreases_to!(*x => x[i as int]));
                    }
                    if !tag_equal(&x[i], &y[i]) {
                        proof {
                            if tags_eq(x@, y@) {
                                lemma_tags_eq_index(x@, y@, i as int);
                            }
                        }
                        return false;
                    }
                    i = i + 1;
                }
                proof {
                    lemma_tags_eq_all(x@, y@);
                }
                true
            },
            _ => false,
        },
        NbtValue::Compound(x) => match b {
            NbtValue::Compound(y) => x.compound_equal(y, Ghost(*a)),
            _ => false,
        },
    }
}

proof fn lemma_tags_eq_len(x: Seq<NbtValue>, y: Seq<NbtValue>)
    requires
        tags_eq(x, y),
    ensures
        x.len() == y.len(),
    decreases x.len(),
{
    if x.len() > 0 {
        lemma_tags_eq_len(x.drop_first(), y.drop_first());
    }
}

proof fn lemma_tags_eq_index(x: Seq<NbtValue>, y: Seq<NbtValue>, i: int)
    requires
        tags_eq(x, y),
        0 <= i < x.len(),
    ensures
        tag_eq(x[i], y[i]),
    decreases i,
{
    lemma_tags_eq_len(x, y);
    if i > 0 {
        lemma_tags_eq_index(x.drop_first(), y.drop_first(), i - 1);
        assert(x.drop_first()[i - 1] == x[i]);
        assert(y.drop_first()[i - 1] == y[i]);
    }
}

proof fn lemma_tags_eq_all(x: Seq<NbtValue>, y: Seq<NbtValue>)
    requires
        x.len() == y.len(),
        forall|j: int| 0 <= j < x.len() ==> tag_eq(#[trigger] x[j], y[j]),
    ensures
        tags_eq(x, y),
    decreases x.len(),
{
    if x.len() > 0 {
        assert(tag_eq(x[0], y[0]));
        assert forall|j: int| 0 <= j < x.drop_first().len() implies tag_eq(#[trigger] x.drop_first()[j], y.drop_first()[j]) by {
            assert(tag_eq(x[j + 1], y[j + 1]));
        }
        lemma_tags_eq_all(x.drop_first(), y.drop_first());
    }
}

proof fn lemma_entries_in_index(x: Seq<(String, NbtValue)>, m: Map<Seq<char>, NbtValue>, i: int)
    requires
        entries_in(x, m),
        0 <= i < x.len(),
    ensures
        m.dom().contains(x[i].0@) && tag_eq(x[i].1, m[x[i].0@]),
    decreases i,
{
    if i > 0 {
        lemma_entries_in_index(x.drop_first(), m, i - 1);
        assert(x.drop_first()[i - 1] == x[i]);
    }
}

proof fn lemma_entries_in_all(x: Seq<(String, NbtValue)>, m: Map<Seq<char>, NbtValue>)
    requires
        forall|j: int| 0 <= j < x.len() ==> m.dom().contains((#[trigger] x[j]).0@) && tag_eq(x[j].1, m[x[j].0@]),
    ensures
        entries_in(x, m),
    decreases x.len(),
{
    if x.len() > 0 {
        assert(m.dom().contains(x[0].0@) && tag_eq(x[0].1, m[x[0].0@]));
        assert forall|j: int| 0 <= j < x.drop_first().len() implies m.dom().contains((#[trigger] x.drop_first()[j]).0@)
            && tag_eq(x.drop_first()[j].1, m[x.drop_first()[j].0@]) by {
            assert(m.dom().contains(x[j + 1].0@) && tag_eq(x[j + 1].1, m[x[j + 1].0@]));
        }
        lemma_entries_in_all(x.drop_first(), m);
    }
}

fn slices_equal_i8(x: &[i8], y: &[i8]) -> (r: bool)
    ensures
        r == (x@ == y@),
{
    if x.len() != y.len() {
        return false;
    }
    let mut i: usize = 0;
    while i < x.len()
        invariant
            x@.len() == y@.len(),
            i <= x@.len(),
            forall|j: int| 0 <= j < i ==> x@[j] == y@[j],
        decreases x@.len() - i,
    {
        if x[i] != y[i] {
            return false;
        }
        i = i + 1;
    }
    assert(x@ =~= y@);
    true
}

fn slices_equal_i32(x: &[i32], y: &[i32]) -> (r: bool)
    ensures
        r == (x@ == y@),
{
    if x.len() != y.len() {
        return false;
    }
    let mut i: usize = 0;
    while i < x.len()
        invariant
            x@.len() == y@.len(),
            i <= x@.len(),
            forall|j: int| 0 <= j < i ==> x@[j] == y@[j],
        decreases x@.len() - i,
    {
        if x[i] != y[i] {
            return false;
        }
        i = i + 1;
    }
    assert(x@ =~= y@);
    true
}

fn slices_equal_i64(x: &[i64], y: &[i64]) -> (r: bool)
    ensures
        r == (x@ == y@),
{
    if x.len() != y.len() {
        return false;
    }
    let mut i: usize = 0;
    while i < x.len()
        invariant
            x@.len() == y@.len(),
            i <= x@.len(),
            forall|j: int| 0 <= j < i ==> x@[j] == y@[j],
        decreases x@.len() - i,
    {
        if x[i] != y[i] {
            return false;
        }
        i = i + 1;
    }
    assert(x@ =~= y@);
    true
}

impl NbtMap {
    fn compound_equal(&self, other: &NbtMap, Ghost(outer): Ghost<NbtValue>) -> (r: bool)
        requires
            outer == NbtValue::Compound(*self),
        ensures
            r == (self.entries@.len() == other.entries@.len() && entries_in(self.entries@, other@)),
        decreases outer, 0int,
    {
        if self.entries.len() != other.entries.len() {
            return false;
        }
        let mut i: usize = 0;
        while i < self.entries.len()
            invariant
                outer == NbtValue::Compound(*self),
                self.entries@.len() == other.entries@.len(),
                i <= self.entries@.len(),
                forall|j: int|
                    0 <= j < i ==> other@.dom().contains((#[trigger] self.entries@[j]).0@) && tag_eq(
                        self.entries@[j].1,
                        other@[self.entries@[j].0@],
                    ),
            decreases self.entries@.len() - i,
        {
            proof {
                assert(decreases_to!(outer => outer->Compound_0));
                assert(decreases_to!(*self => self.entries));
                assert(decreases_to!(self.entries => self.entries[i as int]));
                assert(decreases_to!(self.entries[i as int] => self.entries[i as int].1));
            }
            match other.get(self.entries[i].0.as_str()) {
                Some(w) => {
                    if !tag_equal(&self.entries[i].1, w) {
                        proof {
                            if entries_in(self.entries@, other@) {
                                lemma_entries_in_index(self.entries@, other@, i as int);
                            }
                        }
                        return false;
                    }
                },
                None => {
                    proof {
                        if entries_in(self.entries@, other@) {
                            lemma_entries_in_index(self.entries@, other@, i as int);
                        }
                    }
                    return false;
                },
            }
            i = i + 1;
        }
        proof {
            lemma_entries_in_all(self.entries@, other@);
        }
        true
    }
}

} // verus!
