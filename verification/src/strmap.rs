//! A small string-to-string map kept as a list of distinct keys, the store
//! behind the session tokens and the nicknames.
use crate::text::{chars_eq, chars_of, has_prefix, starts_with};
use vstd::prelude::*;

verus! {

/// The map that a list of key/value pairs stands for (a later pair for a key
/// overrides an earlier one).
pub open spec fn pairs_map(s: Seq<(String, String)>) -> Map<Seq<char>, Seq<char>>
    decreases s.len(),
{
    if s.len() == 0 {
        Map::empty()
    } else {
        pairs_map(s.drop_last()).insert(s.last().0@, s.last().1@)
    }
}

/// No key occurs twice.
pub open spec fn keys_distinct(s: Seq<(String, String)>) -> bool {
    forall|i: int, j: int| 0 <= i < j < s.len() ==> s[i].0@ != s[j].0@
}

/// What a list of distinct pairs maps: exactly its keys, each to its value.
pub proof fn lemma_pairs_map(s: Seq<(String, String)>)
    requires
        keys_distinct(s),
    ensures
        forall|k: Seq<char>|
            #![trigger pairs_map(s).contains_key(k)]
            pairs_map(s).contains_key(k) <==> exists|i: int| 0 <= i < s.len() && s[i].0@ == k,
        forall|i: int| 0 <= i < s.len() ==> #[trigger] pairs_map(s)[s[i].0@] == s[i].1@,
    decreases s.len(),
{
    if s.len() > 0 {
        let t = s.drop_last();
        assert(keys_distinct(t));
        lemma_pairs_map(t);
        assert forall|k: Seq<char>|
            #![trigger pairs_map(s).contains_key(k)]
            pairs_map(s).contains_key(k) <==> exists|i: int| 0 <= i < s.len() && s[i].0@ == k by {
            if pairs_map(s).contains_key(k) {
                if k == s.last().0@ {
                    assert(s[s.len() - 1].0@ == k);
                } else {
                    assert(pairs_map(t).contains_key(k));
                    let i = choose|i: int| 0 <= i < t.len() && t[i].0@ == k;
                    assert(s[i].0@ == k);
                }
            }
            if exists|i: int| 0 <= i < s.len() && s[i].0@ == k {
                let i = choose|i: int| 0 <= i < s.len() && s[i].0@ == k;
                if i < s.len() - 1 {
                    assert(t[i].0@ == k);
                    assert(pairs_map(t).contains_key(k));
                }
            }
        }
        assert forall|i: int| 0 <= i < s.len() implies #[trigger] pairs_map(s)[s[i].0@] == s[i].1@ by {
            if i < s.len() - 1 {
                assert(t[i] == s[i]);
                assert(s[i].0@ != s.last().0@);
                assert(pairs_map(t)[t[i].0@] == t[i].1@);
                assert(pairs_map(t).contains_key(t[i].0@));
            } else {
                assert(s[i] == s.last());
            }
        }
    }
}

/// A string-to-string map.
pub struct StrMap {
    entries: Vec<(String, String)>,
}

impl View for StrMap {
    type V = Map<Seq<char>, Seq<char>>;

    closed spec fn view(&self) -> Map<Seq<char>, Seq<char>> {
        pairs_map(self.entries@)
    }
}

impl StrMap {
    /// The map's internal consistency: no key is held twice.
    pub closed spec fn wf(&self) -> bool {
        keys_distinct(self.entries@)
    }

    /// The pairs of the map in their internal order.
    pub closed spec fn pairs(&self) -> Seq<(Seq<char>, Seq<char>)> {
        self.entries@.map_values(|e: (String, String)| (e.0@, e.1@))
    }

    proof fn lemma_view(&self)
        requires
            self.wf(),
        ensures
            forall|k: Seq<char>|
                #![trigger self@.contains_key(k)]
                self@.contains_key(k) <==> exists|i: int|
                    0 <= i < self.entries@.len() && self.entries@[i].0@ == k,
            forall|i: int|
                0 <= i < self.entries@.len() ==> #[trigger] self@[self.entries@[i].0@]
                    == self.entries@[i].1@,
    {
        lemma_pairs_map(self.entries@);
    }

    /// The pairs, in the map's internal order, are exactly the map's entries,
    /// each key once.
    pub proof fn lemma_pairs(&self)
        requires
            self.wf(),
        ensures
            self.pairs().len() == self@.len(),
            forall|i: int, j: int| 0 <= i < j < self.pairs().len() ==> self.pairs()[i].0 != self.pairs()[j].0,
            forall|i: int|
                0 <= i < self.pairs().len() ==> #[trigger] self@.contains_key(self.pairs()[i].0)
                    && self@[self.pairs()[i].0] == self.pairs()[i].1,
            forall|k: Seq<char>|
                #[trigger] self@.contains_key(k) ==> exists|i: int|
                    0 <= i < self.pairs().len() && self.pairs()[i].0 == k,
    {
        self.lemma_view();
        let ps = self.pairs();
        assert forall|i: int| 0 <= i < ps.len() implies #[trigger] self@.contains_key(ps[i].0)
            && self@[ps[i].0] == ps[i].1 by {
            assert(ps[i] == (self.entries@[i].0@, self.entries@[i].1@));
        }
        assert forall|k: Seq<char>| #[trigger] self@.contains_key(k) implies exists|i: int|
            0 <= i < ps.len() && ps[i].0 == k by {
            let i = choose|i: int| 0 <= i < self.entries@.len() && self.entries@[i].0@ == k;
            assert(ps[i].0 == k);
        }
        lemma_len_of_distinct_pairs(ps, self@);
    }

    pub fn new() -> (r: StrMap)
        ensures
            r.wf(),
            r@ == Map::<Seq<char>, Seq<char>>::empty(),
    {
        StrMap { entries: Vec::new() }
    }

    /// The index of `key`'s pair.
    fn find(&self, key: &[char]) -> (r: Option<usize>)
        requires
            self.wf(),
        ensures
            match r {
                Some(i) => i < self.entries@.len() && self.entries@[i as int].0@ == key@,
                None => !self@.contains_key(key@),
            },
    {
        proof {
            self.lemma_view();
        }
        let mut i: usize = 0;
        while i < self.entries.len()
            invariant
                i <= self.entries@.len(),
                forall|j: int| 0 <= j < i ==> self.entries@[j].0@ != key@,
            decreases self.entries@.len() - i,
        {
            let k = chars_of(self.entries[i].0.as_str());
            if chars_eq(&k, key) {
                return Some(i);
            }
            i = i + 1;
        }
        None
    }

    /// The value for `key`.
    pub fn get(&self, key: &str) -> (r: Option<&String>)
        requires
            self.wf(),
        ensures
            match r {
                Some(v) => self@.get(key@) == Some(v@),
                None => self@.get(key@) is None,
            },
    {
        proof {
            self.lemma_view();
        }
        match self.find(&chars_of(key)) {
            Some(i) => Some(&self.entries[i].1),
            None => None,
        }
    }

    /// Sets `key` to `value`.
    pub fn insert(&mut self, key: String, value: String)
        requires
            old(self).wf(),
        ensures
            final(self).wf(),
            final(self)@ == old(self)@.insert(key@, value@),
    {
        proof {
            self.lemma_view();
        }
        let ghost kv = key@;
        let ghost vv = value@;
        let ghost old_map = self@;
        match self.find(&chars_of(key.as_str())) {
            Some(i) => {
                let ghost old_entries = self.entries@;
                self.entries.set(i, (key, value));
                proof {
                    assert(self.entries@ == old_entries.update(i as int, self.entries@[i as int]));
                    assert(keys_distinct(self.entries@));
                    self.lemma_view();
                    assert forall|k: Seq<char>| #[trigger] self@.contains_key(k) == old_map.insert(kv, vv).contains_key(k) by {
                        if exists|j: int| 0 <= j < old_entries.len() && old_entries[j].0@ == k {
                            let j = choose|j: int| 0 <= j < old_entries.len() && old_entries[j].0@ == k;
                            if j == i {
                                assert(self.entries@[i as int].0@ == k);
                            } else {
                                assert(self.entries@[j].0@ == k);
                            }
                        }
                        if self@.contains_key(k) {
                            let j = choose|j: int| 0 <= j < self.entries@.len() && self.entries@[j].0@ == k;
                            if j != i {
                                assert(old_entries[j].0@ == k);
                            }
                        }
                    }
                    assert forall|k: Seq<char>| #[trigger] self@.contains_key(k) implies self@[k] == old_map.insert(kv, vv)[k] by {
                        let j = choose|j: int| 0 <= j < self.entries@.len() && self.entries@[j].0@ == k;
                        assert(self@[self.entries@[j].0@] == self.entries@[j].1@);
                        if j != i {
                            assert(old_entries[j] == self.entries@[j]);
                            assert(old_map[old_entries[j].0@] == old_entries[j].1@);
                        }
                    }
                    assert(self@ =~= old_map.insert(kv, vv));
                }
            },
            None => {
                let ghost old_entries = self.entries@;
                self.entries.push((key, value));
                proof {
                    assert(self.entries@.drop_last() == old_entries);
                    assert forall|a: int, b: int| 0 <= a < b < self.entries@.len() implies self.entries@[a].0@
                        != self.entries@[b].0@ by {
                        if b == self.entries@.len() - 1 {
                            assert(old_entries[a] == self.entries@[a]);
                            assert(old_map.contains_key(old_entries[a].0@));
                        }
                    }
                }
            },
        }
    }

    /// Removes every key that starts with `prefix`.
    pub fn remove_prefixed(&mut self, prefix: &[char])
        requires
            old(self).wf(),
        ensures
            final(self).wf(),
            final(self)@ == old(self)@.filter_keys(|k: Seq<char>| !starts_with(k, prefix@)),
    {
        let ghost all = self.entries@;
        let mut kept: Vec<(String, String)> = Vec::new();
        let mut i: usize = 0;
        while i < self.entries.len()
            invariant
                all == self.entries@,
                keys_distinct(all),
                i <= all.len(),
                kept_of(all, kept@, prefix@, i as int),
            decreases all.len() - i,
        {
            let kc = chars_of(self.entries[i].0.as_str());
            if !has_prefix(&kc, prefix) {
                let k = self.entries[i].0.clone();
                let v = self.entries[i].1.clone();
                let ghost before = kept@;
                kept.push((k, v));
                proof {
                    lemma_kept_push(all, before, kept@, prefix@, i as int);
                }
            } else {
                proof {
                    lemma_kept_skip(all, kept@, prefix@, i as int);
                }
            }
            i = i + 1;
        }
        proof {
            lemma_kept_map(all, kept@, prefix@);
        }
        self.entries = kept;
    }

    /// The pairs of the map, copied, in the map's internal order.
    pub fn to_pairs(&self) -> (r: Vec<(String, String)>)
        requires
            self.wf(),
        ensures
            r@.map_values(|e: (String, String)| (e.0@, e.1@)) == self.pairs(),
    {
        let mut r: Vec<(String, String)> = Vec::new();
        let mut i: usize = 0;
        while i < self.entries.len()
            invariant
                i <= self.entries@.len(),
                r@.map_values(|e: (String, String)| (e.0@, e.1@)) == self.pairs().take(i as int),
            decreases self.entries@.len() - i,
        {
            let k = self.entries[i].0.clone();
            let v = self.entries[i].1.clone();
            let ghost before = r@;
            r.push((k, v));
            proof {
                assert(r@ == before.push(self.entries@[i as int]));
                assert(r@.map_values(|e: (String, String)| (e.0@, e.1@)) =~= before.map_values(
                    |e: (String, String)| (e.0@, e.1@),
                ).push((self.entries@[i as int].0@, self.entries@[i as int].1@)));
                assert(self.pairs().take(i + 1) =~= self.pairs().take(i as int).push(self.pairs()[i as int]));
            }
            i = i + 1;
        }
        assert(self.pairs().take(i as int) =~= self.pairs());
        r
    }

    /// The number of keys.
    pub fn len(&self) -> (r: usize)
        requires
            self.wf(),
        ensures
            r == self@.len(),
    {
        proof {
            self.lemma_pairs();
        }
        self.entries.len()
    }

    /// Replaces the whole map by `pairs` (a later pair for a key overrides an
    /// earlier one).
    pub fn replace_all(&mut self, pairs: Vec<(String, String)>)
        ensures
            final(self).wf(),
            final(self)@ == pairs_map(pairs@),
    {
        let mut m = StrMap::new();
        let mut i: usize = 0;
        let mut pairs = pairs;
        let ghost all = pairs@;
        let total = pairs.len();
        assert(all.len() == total);
        while pairs.len() > 0
            invariant
                m.wf(),
                all.len() <= usize::MAX,
                pairs@ == all.skip(i as int),
                i <= all.len(),
                m@ == pairs_map(all.take(i as int)),
            decreases pairs@.len(),
        {
            let (k, v) = pairs.remove(0);
            proof {
                assert(all[i as int] == (k, v));
                assert(all.take(i + 1).drop_last() =~= all.take(i as int));
            }
            m.insert(k, v);
            i = i + 1;
            assert(pairs@ =~= all.skip(i as int));
        }
        assert(all.take(i as int) =~= all);
        *self = m;
    }
}

proof fn lemma_len_of_distinct_pairs(ps: Seq<(Seq<char>, Seq<char>)>, m: Map<Seq<char>, Seq<char>>)
    requires
        forall|i: int, j: int| 0 <= i < j < ps.len() ==> ps[i].0 != ps[j].0,
        forall|i: int| 0 <= i < ps.len() ==> #[trigger] m.contains_key(ps[i].0),
        forall|k: Seq<char>| #[trigger] m.contains_key(k) ==> exists|i: int| 0 <= i < ps.len() && ps[i].0 == k,
    ensures
        ps.len() == m.len(),
{
    let keys = ps.map_values(|p: (Seq<char>, Seq<char>)| p.0);
    assert(keys.no_duplicates());
    keys.unique_seq_to_set();
    assert(keys.to_set() =~= m.dom()) by {
        assert forall|k: Seq<char>| keys.to_set().contains(k) implies m.dom().contains(k) by {
            let i = choose|i: int| 0 <= i < keys.len() && keys[i] == k;
            assert(m.contains_key(ps[i].0));
        }
        assert forall|k: Seq<char>| m.dom().contains(k) implies keys.to_set().contains(k) by {
            assert(m.contains_key(k));
            let i = choose|i: int| 0 <= i < ps.len() && ps[i].0 == k;
            assert(keys[i] == k);
        }
    }
}

/// `kept` holds, in order and without repetition, the pairs among the first
/// `n` of `all` whose keys do not start with `prefix`.
spec fn kept_of(
    all: Seq<(String, String)>,
    kept: Seq<(String, String)>,
    prefix: Seq<char>,
    n: int,
) -> bool {
    &&& forall|a: int| 0 <= a < kept.len() ==> exists|b: int| 0 <= b < n && #[trigger] kept[a] == all[b]
    &&& forall|b: int|
        0 <= b < n && !starts_with(#[trigger] all[b].0@, prefix) ==> exists|a: int|
            0 <= a < kept.len() && kept[a] == all[b]
    &&& forall|a: int| 0 <= a < kept.len() ==> !starts_with(#[trigger] kept[a].0@, prefix)
    &&& keys_distinct(kept)
}

proof fn lemma_kept_push(
    all: Seq<(String, String)>,
    before: Seq<(String, String)>,
    kept: Seq<(String, String)>,
    prefix: Seq<char>,
    i: int,
)
    requires
        0 <= i < all.len(),
        keys_distinct(all),
        kept_of(all, before, prefix, i),
        kept == before.push(all[i]),
        !starts_with(all[i].0@, prefix),
    ensures
        kept_of(all, kept, prefix, i + 1),
{
    assert forall|a: int, b: int| 0 <= a < b < kept.len() implies kept[a].0@ != kept[b].0@ by {
        if b == kept.len() - 1 {
            let c = choose|c: int| 0 <= c < i && #[trigger] before[a] == all[c];
            assert(kept[a] == before[a]);
        } else {
            assert(kept[a] == before[a] && kept[b] == before[b]);
        }
    }
    assert forall|a: int| 0 <= a < kept.len() implies exists|b: int| 0 <= b < i + 1 && #[trigger] kept[a] == all[b] by {
        if a < before.len() {
            let c = choose|c: int| 0 <= c < i && #[trigger] before[a] == all[c];
            assert(kept[a] == all[c]);
        } else {
            assert(kept[a] == all[i]);
        }
    }
    assert forall|b: int| 0 <= b < i + 1 && !starts_with(#[trigger] all[b].0@, prefix) implies exists|a: int|
        0 <= a < kept.len() && kept[a] == all[b] by {
        if b < i {
            let a = choose|a: int| 0 <= a < before.len() && before[a] == all[b];
            assert(kept[a] == all[b]);
        } else {
            assert(kept[kept.len() - 1] == all[b]);
        }
    }
    assert forall|a: int| 0 <= a < kept.len() implies !starts_with(#[trigger] kept[a].0@, prefix) by {
        if a < before.len() {
            assert(kept[a] == before[a]);
        }
    }
}

proof fn lemma_kept_skip(all: Seq<(String, String)>, kept: Seq<(String, String)>, prefix: Seq<char>, i: int)
    requires
        0 <= i < all.len(),
        kept_of(all, kept, prefix, i),
        starts_with(all[i].0@, prefix),
    ensures
        kept_of(all, kept, prefix, i + 1),
{
    assert forall|a: int| 0 <= a < kept.len() implies exists|b: int| 0 <= b < i + 1 && #[trigger] kept[a] == all[b] by {
        let c = choose|c: int| 0 <= c < i && #[trigger] kept[a] == all[c];
    }
}

proof fn lemma_kept_map(all: Seq<(String, String)>, kept: Seq<(String, String)>, prefix: Seq<char>)
    requires
        keys_distinct(all),
        kept_of(all, kept, prefix, all.len() as int),
    ensures
        pairs_map(kept) == pairs_map(all).filter_keys(|k: Seq<char>| !starts_with(k, prefix)),
{
    lemma_pairs_map(all);
    lemma_pairs_map(kept);
    let old_map = pairs_map(all);
    let expected = old_map.filter_keys(|k: Seq<char>| !starts_with(k, prefix));
    let m = pairs_map(kept);
    assert forall|key: Seq<char>| #[trigger] m.contains_key(key) == expected.contains_key(key) by {
        if m.contains_key(key) {
            let a = choose|a: int| 0 <= a < kept.len() && kept[a].0@ == key;
            let b = choose|b: int| 0 <= b < all.len() && #[trigger] kept[a] == all[b];
            assert(old_map.contains_key(all[b].0@));
        }
        if expected.contains_key(key) {
            assert(old_map.contains_key(key));
            let b = choose|b: int| 0 <= b < all.len() && all[b].0@ == key;
            assert(!starts_with(all[b].0@, prefix));
            let a = choose|a: int| 0 <= a < kept.len() && kept[a] == all[b];
            assert(kept[a].0@ == key);
        }
    }
    assert forall|key: Seq<char>| #[trigger] m.contains_key(key) implies m[key] == expected[key] by {
        let a = choose|a: int| 0 <= a < kept.len() && kept[a].0@ == key;
        let b = choose|b: int| 0 <= b < all.len() && #[trigger] kept[a] == all[b];
        assert(m[kept[a].0@] == kept[a].1@);
        assert(old_map[all[b].0@] == all[b].1@);
    }
    assert(m =~= expected);
}

} // verus!

verus! {

/// The map that a list of keyed values stands for (a later value for a key
/// overrides an earlier one).
pub open spec fn keyed<V>(s: Seq<(String, V)>) -> Map<Seq<char>, V>
    decreases s.len(),
{
    if s.len() == 0 {
        Map::empty()
    } else {
        keyed(s.drop_last()).insert(s.last().0@, s.last().1)
    }
}

/// No key occurs twice.
pub open spec fn keyed_distinct<V>(s: Seq<(String, V)>) -> bool {
    forall|i: int, j: int| 0 <= i < j < s.len() ==> s[i].0@ != s[j].0@
}

/// What a list of distinct keyed values maps: exactly its keys, each to its value.
pub proof fn lemma_keyed<V>(s: Seq<(String, V)>)
    requires
        keyed_distinct(s),
    ensures
        forall|k: Seq<char>|
            #![trigger keyed(s).contains_key(k)]
            keyed(s).contains_key(k) <==> exists|i: int| 0 <= i < s.len() && s[i].0@ == k,
        forall|i: int| 0 <= i < s.len() ==> #[trigger] keyed(s)[s[i].0@] == s[i].1,
    decreases s.len(),
{
    if s.len() > 0 {
        let t = s.drop_last();
        assert(keyed_distinct(t));
        lemma_keyed(t);
        assert forall|k: Seq<char>|
            #![trigger keyed(s).contains_key(k)]
            keyed(s).contains_key(k) <==> exists|i: int| 0 <= i < s.len() && s[i].0@ == k by {
            if keyed(s).contains_key(k) {
                if k == s.last().0@ {
                    assert(s[s.len() - 1].0@ == k);
                } else {
                    assert(keyed(t).contains_key(k));
                    let i = choose|i: int| 0 <= i < t.len() && t[i].0@ == k;
                    assert(s[i].0@ == k);
                }
            }
            if exists|i: int| 0 <= i < s.len() && s[i].0@ == k {
                let i = choose|i: int| 0 <= i < s.len() && s[i].0@ == k;
                if i < s.len() - 1 {
                    assert(t[i].0@ == k);
                    assert(keyed(t).contains_key(k));
                }
            }
        }
        assert forall|i: int| 0 <= i < s.len() implies #[trigger] keyed(s)[s[i].0@] == s[i].1 by {
            if i < s.len() - 1 {
                assert(t[i] == s[i]);
                assert(s[i].0@ != s.last().0@);
                assert(keyed(t)[t[i].0@] == t[i].1);
                assert(keyed(t).contains_key(t[i].0@));
            } else {
                assert(s[i] == s.last());
            }
        }
    }
}

} // verus!

verus! {

/// Replacing the value at a key's position replaces that key's value.
pub proof fn lemma_keyed_update<V>(s: Seq<(String, V)>, i: int, e: (String, V))
    requires
        keyed_distinct(s),
        0 <= i < s.len(),
        e.0@ == s[i].0@,
    ensures
        keyed_distinct(s.update(i, e)),
        keyed(s.update(i, e)) == keyed(s).insert(e.0@, e.1),
{
    let t = s.update(i, e);
    assert forall|a: int, b: int| 0 <= a < b < t.len() implies t[a].0@ != t[b].0@ by {
        if a == i {
            assert(t[a].0@ == s[a].0@);
        }
        if b == i {
            assert(t[b].0@ == s[b].0@);
        }
    }
    lemma_keyed(s);
    lemma_keyed(t);
    let expected = keyed(s).insert(e.0@, e.1);
    assert forall|k: Seq<char>| #[trigger] keyed(t).contains_key(k) == expected.contains_key(k) by {
        if keyed(t).contains_key(k) {
            let j = choose|j: int| 0 <= j < t.len() && t[j].0@ == k;
            if j != i {
                assert(s[j].0@ == k);
            }
        }
        if keyed(s).contains_key(k) {
            let j = choose|j: int| 0 <= j < s.len() && s[j].0@ == k;
            if j != i {
                assert(t[j].0@ == k);
            } else {
                assert(t[i].0@ == k);
            }
        }
        if k == e.0@ {
            assert(t[i].0@ == k);
        }
    }
    assert forall|k: Seq<char>| #[trigger] keyed(t).contains_key(k) implies keyed(t)[k] == expected[k] by {
        let j = choose|j: int| 0 <= j < t.len() && t[j].0@ == k;
        assert(keyed(t)[t[j].0@] == t[j].1);
        if j != i {
            assert(t[j] == s[j]);
            assert(keyed(s)[s[j].0@] == s[j].1);
        }
    }
    assert(keyed(t) =~= expected);
}

/// Appending a pair for a new key adds that key.
pub proof fn lemma_keyed_push<V>(s: Seq<(String, V)>, e: (String, V))
    requires
        keyed_distinct(s),
        !keyed(s).contains_key(e.0@),
    ensures
        keyed_distinct(s.push(e)),
        keyed(s.push(e)) == keyed(s).insert(e.0@, e.1),
{
    lemma_keyed(s);
    let t = s.push(e);
    assert(t.drop_last() =~= s);
    assert forall|a: int, b: int| 0 <= a < b < t.len() implies t[a].0@ != t[b].0@ by {
        if b == s.len() {
            assert(t[a] == s[a]);
        }
    }
}

} // verus!
