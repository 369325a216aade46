//! Small ordered and unordered collections of strings.

use crate::text::{law_order_is_total, law_order_is_transitive, less, str_eq, str_less, texts};
use vstd::prelude::*;

verus! {

/// A map from strings to strings, walked in the order of its keys.
#[derive(Debug)]
pub struct StrMap {
    entries: Vec<(String, String)>,
}

/// The map that a sequence of entries holds; a later entry wins.
pub open spec fn map_of(s: Seq<(String, String)>) -> Map<Seq<char>, Seq<char>>
    decreases s.len(),
{
    if s.len() == 0 {
        Map::empty()
    } else {
        map_of(s.drop_last()).insert(s.last().0@, s.last().1@)
    }
}

/// Whether the keys of a sequence of entries increase.
pub open spec fn keys_increase(s: Seq<(String, String)>) -> bool {
    forall|i: int, j: int| 0 <= i < j < s.len() ==> str_less(#[trigger] s[i].0@, #[trigger] s[j].0@)
}

/// In a sequence of entries with increasing keys each key is held once.
proof fn lemma_map_of(s: Seq<(String, String)>)
    requires
        keys_increase(s),
    ensures
        forall|i: int| 0 <= i < s.len() ==> #[trigger] map_of(s).contains_key(s[i].0@),
        forall|i: int| 0 <= i < s.len() ==> map_of(s)[#[trigger] s[i].0@] == s[i].1@,
        forall|k: Seq<char>| #[trigger]
            map_of(s).contains_key(k) ==> exists|i: int| 0 <= i < s.len() && s[i].0@ == k,
    decreases s.len(),
{
    if s.len() > 0 {
        let t = s.drop_last();
        lemma_map_of(t);
        assert forall|i: int| 0 <= i < s.len() implies #[trigger] map_of(s).contains_key(
            s[i].0@,
        ) && map_of(s)[s[i].0@] == s[i].1@ by {
            if i < t.len() {
                assert(t[i] == s[i]);
                assert(map_of(t).contains_key(t[i].0@));
                assert(map_of(t)[t[i].0@] == t[i].1@);
                assert(str_less(s[i].0@, s[s.len() - 1].0@));
                law_order_is_total(s[i].0@, s[i].0@);
            }
        }
        assert forall|i: int| 0 <= i < s.len() implies map_of(s)[#[trigger] s[i].0@] == s[i].1@ by {
            assert(map_of(s).contains_key(s[i].0@));
        }
        assert forall|k: Seq<char>| #[trigger] map_of(s).contains_key(k) implies exists|i: int|
            0 <= i < s.len() && s[i].0@ == k by {
            if k == s.last().0@ {
                assert(s[s.len() - 1].0@ == k);
            } else {
                assert(map_of(t).contains_key(k));
                let i = choose|i: int| 0 <= i < t.len() && t[i].0@ == k;
                assert(s[i].0@ == k);
            }
        }
    }
}

impl View for StrMap {
    type V = Map<Seq<char>, Seq<char>>;

    closed spec fn view(&self) -> Map<Seq<char>, Seq<char>> {
        map_of(self.entries@)
    }
}

impl StrMap {
    #[verifier::type_invariant]
    spec fn ordered(&self) -> bool {
        keys_increase(self.entries@)
    }

    /// A map without entries.
    pub fn new() -> (r: StrMap)
        ensures
            r@ == Map::<Seq<char>, Seq<char>>::empty(),
    {
        StrMap { entries: Vec::new() }
    }

    /// The entries in the order of their keys: each key once, with its value.
    pub fn entries(&self) -> (r: Vec<(String, String)>)
        ensures
            keys_increase(r@),
            map_of(r@) == self@,
    {
        proof {
            use_type_invariant(self);
        }
        let mut out: Vec<(String, String)> = Vec::new();
        for i in 0..self.entries.len()
            invariant
                out@ =~= self.entries@.take(i as int),
        {
            out.push((self.entries[i].0.clone(), self.entries[i].1.clone()));
        }
        assert(out@ =~= self.entries@);
        out
    }

    /// The value of a key.
    pub fn get(&self, key: &str) -> (r: Option<&String>)
        ensures
            match r {
                Some(v) => self@.contains_key(key@) && self@[key@] == v@,
                None => !self@.contains_key(key@),
            },
    {
        proof {
            use_type_invariant(self);
            lemma_map_of(self.entries@);
        }
        let mut i: usize = 0;
        while i < self.entries.len()
            invariant
                i <= self.entries@.len(),
                forall|j: int| 0 <= j < i ==> self.entries@[j].0@ != key@,
                keys_increase(self.entries@),
            decreases self.entries@.len() - i,
        {
            if str_eq(self.entries[i].0.as_str(), key) {
                proof {
                    lemma_map_of(self.entries@);
                    assert(map_of(self.entries@).contains_key(self.entries@[i as int].0@));
                }
                return Some(&self.entries[i].1);
            }
            i = i + 1;
        }
        None
    }

    /// The value of a key, or the empty text.
    pub fn get_or_empty(&self, key: &str) -> (r: String)
        ensures
            r@ == value_or_empty(self@, key@),
    {
        match self.get(key) {
            Some(v) => v.clone(),
            None => String::new(),
        }
    }

    /// Whether a key has a value.
    pub fn contains_key(&self, key: &str) -> (r: bool)
        ensures
            r == self@.contains_key(key@),
    {
        match self.get(key) {
            Some(_) => true,
            None => false,
        }
    }

    /// Sets the value of a key.
    pub fn insert(&mut self, key: String, value: String)
        ensures
            final(self)@ == old(self)@.insert(key@, value@),
    {
        proof {
            use_type_invariant(&*self);
        }
        let ghost before = self.entries@;
        let n: usize = self.entries.len();
        let mut i: usize = 0;
        let mut out: Vec<(String, String)> = Vec::new();
        while i < n && less(self.entries[i].0.as_str(), key.as_str())
            invariant
                i <= n == self.entries@.len(),
                self.entries@ == before,
                out@ =~= before.take(i as int),
                forall|j: int| 0 <= j < i ==> str_less(#[trigger] before[j].0@, key@),
            decreases n - i,
        {
            out.push((self.entries[i].0.clone(), self.entries[i].1.clone()));
            i = i + 1;
        }
        let at: usize = i;
        let present = i < n && str_eq(self.entries[i].0.as_str(), key.as_str());
        if present {
            i = i + 1;
        }
        let ghost rest_from = i as int;
        let ghost entry = (key, value);
        out.push((key, value));
        while i < n
            invariant
                rest_from <= i <= n == self.entries@.len(),
                0 <= at <= rest_from,
                self.entries@ == before,
                out@ =~= before.take(at as int).push(entry) + before.subrange(rest_from, i as int),
            decreases n - i,
        {
            out.push((self.entries[i].0.clone(), self.entries[i].1.clone()));
            i = i + 1;
        }
        proof {
            let after = out@;
            let shift = rest_from - at - 1;
            assert forall|j: int| at < j < after.len() implies #[trigger] after[j] == before[j
                + shift] by {}
            if !present && at < n {
                law_order_is_total(before[at as int].0@, entry.0@);
            }
            assert forall|j: int| rest_from <= j < n implies str_less(
                entry.0@,
                #[trigger] before[j].0@,
            ) by {
                if present {
                    assert(str_less(before[at as int].0@, before[j].0@));
                } else if j > at {
                    law_order_is_transitive(entry.0@, before[at as int].0@, before[j].0@);
                }
            }
            assert(keys_increase(after)) by {
                assert forall|a: int, b: int| 0 <= a < b < after.len() implies str_less(
                    #[trigger] after[a].0@,
                    #[trigger] after[b].0@,
                ) by {
                    if b < at {
                        assert(str_less(before[a].0@, before[b].0@));
                    } else if b == at {
                        assert(str_less(before[a].0@, entry.0@));
                    } else {
                        assert(after[b] == before[b + shift]);
                        if a < at {
                            assert(str_less(before[a].0@, before[b + shift].0@));
                        } else if a > at {
                            assert(after[a] == before[a + shift]);
                            assert(str_less(before[a + shift].0@, before[b + shift].0@));
                        }
                    }
                }
            }
            lemma_map_of(before);
            lemma_map_of(after);
            let m = map_of(before).insert(entry.0@, entry.1@);
            assert(after[at as int] == entry);
            assert forall|k: Seq<char>| #[trigger] map_of(after).contains_key(k) implies
                m.contains_key(k) && map_of(after)[k] == m[k] by {
                let j = choose|j: int| 0 <= j < after.len() && after[j].0@ == k;
                assert(map_of(after)[after[j].0@] == after[j].1@);
                if j < at {
                    assert(after[j] == before[j]);
                    assert(map_of(before).contains_key(before[j].0@));
                    assert(str_less(before[j].0@, entry.0@));
                    law_order_is_total(entry.0@, entry.0@);
                } else if j > at {
                    assert(after[j] == before[j + shift]);
                    assert(map_of(before).contains_key(before[j + shift].0@));
                    assert(str_less(entry.0@, before[j + shift].0@));
                    law_order_is_total(entry.0@, entry.0@);
                }
            }
            assert forall|k: Seq<char>| #[trigger] m.contains_key(k) implies map_of(
                after,
            ).contains_key(k) by {
                if k == entry.0@ {
                    assert(map_of(after).contains_key(after[at as int].0@));
                } else {
                    let j = choose|j: int| 0 <= j < before.len() && before[j].0@ == k;
                    if j < at {
                        assert(after[j] == before[j]);
                        assert(map_of(after).contains_key(after[j].0@));
                    } else {
                        assert(j >= rest_from);
                        let q = j - shift;
                        assert(after[q] == before[q + shift]);
                        assert(map_of(after).contains_key(after[q].0@));
                    }
                }
            }
            assert(map_of(after) =~= m);
        }
        self.entries = out;
    }

    /// Takes a key out of the map.
    pub fn remove(&mut self, key: &str)
        ensures
            final(self)@ == old(self)@.remove(key@),
    {
        proof {
            use_type_invariant(&*self);
        }
        let ghost before = self.entries@;
        let n: usize = self.entries.len();
        let mut out: Vec<(String, String)> = Vec::new();
        let mut i: usize = 0;
        assert(before.take(0) =~= Seq::empty());
        assert(Map::<Seq<char>, Seq<char>>::empty().remove(key@) =~= Map::empty());
        while i < n
            invariant
                i <= n == self.entries@.len(),
                self.entries@ == before,
                keys_increase(before),
                keys_increase(out@),
                map_of(out@) == map_of(before.take(i as int)).remove(key@),
                forall|j: int|
                    0 <= j < out@.len() ==> exists|p: int|
                        0 <= p < i && before[p].0@ == (#[trigger] out@[j]).0@,
            decreases n - i,
        {
            let ghost prev = out@;
            let ghost m = map_of(before.take(i as int));
            let ghost e = before[i as int];
            assert(before.take(i + 1).drop_last() =~= before.take(i as int));
            assert forall|j: int| 0 <= j < prev.len() implies str_less(
                (#[trigger] prev[j]).0@,
                e.0@,
            ) by {
                let p = choose|p: int| 0 <= p < i && before[p].0@ == prev[j].0@;
                assert(str_less(before[p].0@, before[i as int].0@));
            }
            if !str_eq(self.entries[i].0.as_str(), key) {
                out.push((self.entries[i].0.clone(), self.entries[i].1.clone()));
                assert(out@.drop_last() =~= prev);
                assert(m.remove(key@).insert(e.0@, e.1@) =~= m.insert(e.0@, e.1@).remove(key@));
                assert forall|j: int| 0 <= j < out@.len() implies exists|p: int|
                    0 <= p < i + 1 && before[p].0@ == (#[trigger] out@[j]).0@ by {
                    if j < prev.len() {
                        let p = choose|p: int| 0 <= p < i && before[p].0@ == prev[j].0@;
                        assert(before[p].0@ == out@[j].0@);
                    } else {
                        assert(before[i as int].0@ == out@[j].0@);
                    }
                }
            } else {
                assert(m.insert(e.0@, e.1@).remove(key@) =~= m.remove(key@));
                assert forall|j: int| 0 <= j < out@.len() implies exists|p: int|
                    0 <= p < i + 1 && before[p].0@ == (#[trigger] out@[j]).0@ by {
                    let p = choose|p: int| 0 <= p < i && before[p].0@ == prev[j].0@;
                    assert(before[p].0@ == out@[j].0@);
                }
            }
            i = i + 1;
        }
        assert(before.take(n as int) =~= before);
        self.entries = out;
    }

    /// Sets the value of a key that has none.
    pub fn insert_if_absent(&mut self, key: &str, value: &str)
        ensures
            final(self)@ == (if old(self)@.contains_key(key@) {
                old(self)@
            } else {
                old(self)@.insert(key@, value@)
            }),
    {
        if !self.contains_key(key) {
            self.insert(key.to_owned(), value.to_owned());
        }
    }

    /// A copy.
    pub fn copy(&self) -> (r: StrMap)
        ensures
            r@ == self@,
    {
        StrMap { entries: self.entries() }
    }
}

/// The value of a key, or the empty text.
pub open spec fn value_or_empty(m: Map<Seq<char>, Seq<char>>, key: Seq<char>) -> Seq<char> {
    if m.contains_key(key) {
        m[key]
    } else {
        Seq::empty()
    }
}

/// A set of strings.
#[derive(Debug)]
pub struct StrSet {
    items: Vec<String>,
}

impl View for StrSet {
    type V = Set<Seq<char>>;

    closed spec fn view(&self) -> Set<Seq<char>> {
        texts(self.items@).to_set()
    }
}

impl StrSet {
    /// The empty set.
    pub fn new() -> (r: StrSet)
        ensures
            r@ == Set::<Seq<char>>::empty(),
    {
        let r = StrSet { items: Vec::new() };
        assert(r@ =~= Set::<Seq<char>>::empty());
        r
    }

    /// Whether a string is in the set.
    pub fn contains(&self, key: &str) -> (r: bool)
        ensures
            r == self@.contains(key@),
    {
        let mut i: usize = 0;
        while i < self.items.len()
            invariant
                i <= self.items@.len(),
                forall|j: int| 0 <= j < i ==> self.items@[j]@ != key@,
            decreases self.items@.len() - i,
        {
            if str_eq(self.items[i].as_str(), key) {
                assert(texts(self.items@)[i as int] == key@);
                return true;
            }
            i = i + 1;
        }
        assert(!texts(self.items@).contains(key@)) by {
            if texts(self.items@).contains(key@) {
                let j = choose|j: int|
                    0 <= j < texts(self.items@).len() && texts(self.items@)[j] == key@;
                assert(self.items@[j]@ == key@);
            }
        }
        false
    }

    /// Puts a string into the set.
    pub fn insert(&mut self, key: String)
        ensures
            final(self)@ == old(self)@.insert(key@),
    {
        if !self.contains(key.as_str()) {
            let ghost before = self.items@;
            self.items.push(key);
            proof {
                let a = texts(before);
                let b = texts(self.items@);
                assert(b =~= a.push(key@));
                assert forall|k: Seq<char>| #[trigger]
                    b.to_set().contains(k) == a.to_set().insert(key@).contains(k) by {
                    if a.contains(k) {
                        let j = choose|j: int| 0 <= j < a.len() && a[j] == k;
                        assert(b[j] == k);
                    }
                    if k == key@ {
                        assert(b[b.len() - 1] == k);
                    }
                    if b.contains(k) {
                        let j = choose|j: int| 0 <= j < b.len() && b[j] == k;
                        if j < a.len() {
                            assert(a[j] == k);
                        }
                    }
                }
                assert(self@ =~= old(self)@.insert(key@));
            }
        } else {
            assert(self@ =~= old(self)@.insert(key@));
        }
    }

    /// Takes a string out of the set.
    pub fn remove(&mut self, key: &str)
        ensures
            final(self)@ == old(self)@.remove(key@),
    {
        let mut out: Vec<String> = Vec::new();
        let n: usize = self.items.len();
        let ghost all = texts(self.items@);
        let mut i: usize = 0;
        while i < n
            invariant
                i <= n == self.items@.len(),
                all == texts(self.items@),
                forall|k: Seq<char>| #[trigger]
                    texts(out@).contains(k) <==> all.take(i as int).contains(k) && k != key@,
            decreases n - i,
        {
            let ghost before = out@;
            let ghost part = all.take(i as int);
            assert(all.take(i + 1) =~= part.push(all[i as int]));
            if !str_eq(self.items[i].as_str(), key) {
                let c = self.items[i].clone();
                out.push(c);
                assert(texts(out@) =~= texts(before).push(all[i as int]));
            }
            assert forall|k: Seq<char>| #[trigger]
                texts(out@).contains(k) <==> all.take(i + 1).contains(k) && k != key@ by {
                lemma_push_contains(part, all[i as int], k);
                lemma_push_contains(texts(before), all[i as int], k);
            }
            i = i + 1;
        }
        assert(all.take(n as int) =~= all);
        self.items = out;
        assert(self@ =~= old(self)@.remove(key@));
    }
}

/// A sequence with one more element contains that element and what it held.
proof fn lemma_push_contains(s: Seq<Seq<char>>, x: Seq<char>, k: Seq<char>)
    ensures
        s.push(x).contains(k) <==> s.contains(k) || k == x,
{
    if s.contains(k) {
        let j = choose|j: int| 0 <= j < s.len() && s[j] == k;
        assert(s.push(x)[j] == k);
    }
    if k == x {
        assert(s.push(x)[s.len() as int] == k);
    }
    if s.push(x).contains(k) {
        let j = choose|j: int| 0 <= j < s.push(x).len() && s.push(x)[j] == k;
        if j < s.len() {
            assert(s[j] == k);
        }
    }
}

} // verus!
