//! The context-token store: the latest `context_token` of each user, per bot
//! account, which a reply to that user must carry; and the file layout and
//! JSON of what is kept for an account on disk.
use crate::json::{as_str, get, str_or_empty, Json, JsonValue};
use crate::strmap::{pairs_map, StrMap};
use crate::text::{
    after_char, after_char_chars, before_char, before_char_chars, chars_of, ends_with, has_prefix,
    has_suffix, slice_range, starts_with, string_from,
};
use vstd::prelude::*;

verus! {

/// The store key of a user under an account: `account_id:user_id`.
pub open spec fn token_key(account_id: Seq<char>, user_id: Seq<char>) -> Seq<char> {
    account_id + ":"@ + user_id
}

/// The users of `account_id` that have a token, each with their token.
pub open spec fn account_users(m: Map<Seq<char>, Seq<char>>, account_id: Seq<char>) -> Map<
    Seq<char>,
    Seq<char>,
> {
    Map::new(
        |u: Seq<char>| m.contains_key(token_key(account_id, u)),
        |u: Seq<char>| m[token_key(account_id, u)],
    )
}

/// The user part of a store key: what stands between its first and second
/// `:` (`key.split(':').nth(1)`).
pub open spec fn user_of_key(k: Seq<char>) -> Option<Seq<char>> {
    match after_char(k, ':') {
        Some(rest) => Some(before_char(rest, ':')),
        None => None,
    }
}

/// The users named by the keys of `m`.
pub open spec fn users_in(m: Map<Seq<char>, Seq<char>>) -> Set<Seq<char>> {
    Set::new(|u: Seq<char>| exists|k: Seq<char>| m.contains_key(k) && user_of_key(k) == Some(u))
}

/// Strict lexicographic order on character sequences (the order of `String`).
pub open spec fn seq_lt(a: Seq<char>, b: Seq<char>) -> bool
    decreases a.len(),
{
    if a.len() == 0 {
        b.len() > 0
    } else if b.len() == 0 {
        false
    } else if a[0] != b[0] {
        a[0] < b[0]
    } else {
        seq_lt(a.drop_first(), b.drop_first())
    }
}

pub proof fn lemma_seq_lt_trans(a: Seq<char>, b: Seq<char>, c: Seq<char>)
    requires
        seq_lt(a, b),
        seq_lt(b, c),
    ensures
        seq_lt(a, c),
    decreases a.len(),
{
    if a.len() > 0 && b.len() > 0 && c.len() > 0 && a[0] == b[0] && b[0] == c[0] {
        lemma_seq_lt_trans(a.drop_first(), b.drop_first(), c.drop_first());
    }
}

pub proof fn lemma_seq_lt_total(a: Seq<char>, b: Seq<char>)
    ensures
        a == b || seq_lt(a, b) || seq_lt(b, a),
        !(seq_lt(a, b) && seq_lt(b, a)),
        !seq_lt(a, a),
    decreases a.len(),
{
    if a.len() > 0 && b.len() > 0 {
        lemma_seq_lt_total(a.drop_first(), b.drop_first());
        if a[0] == b[0] && a.drop_first() == b.drop_first() {
            assert(a =~= seq![a[0]] + a.drop_first());
            assert(b =~= seq![b[0]] + b.drop_first());
        }
    } else if a.len() == 0 && b.len() == 0 {
        assert(a =~= b);
    }
    if a.len() > 0 {
        lemma_seq_lt_total(a.drop_first(), a.drop_first());
    }
}

/// `a < b` for character sequences.
pub fn chars_lt(a: &[char], b: &[char]) -> (r: bool)
    ensures
        r == seq_lt(a@, b@),
{
    let mut i: usize = 0;
    assert(a@.skip(0) =~= a@);
    assert(b@.skip(0) =~= b@);
    assert(a@.take(0) =~= b@.take(0));
    while i < a.len() && i < b.len() && a[i] == b[i]
        invariant
            i <= a@.len(),
            i <= b@.len(),
            a@.take(i as int) == b@.take(i as int),
            seq_lt(a@, b@) == seq_lt(a@.skip(i as int), b@.skip(i as int)),
        decreases a@.len() - i,
    {
        proof {
            let sa = a@.skip(i as int);
            let sb = b@.skip(i as int);
            assert(sa.drop_first() =~= a@.skip(i + 1));
            assert(sb.drop_first() =~= b@.skip(i + 1));
            assert(a@.take(i + 1) =~= a@.take(i as int).push(a@[i as int]));
            assert(b@.take(i + 1) =~= b@.take(i as int).push(b@[i as int]));
        }
        i = i + 1;
    }
    let sa = Ghost(a@.skip(i as int));
    let sb = Ghost(b@.skip(i as int));
    if i == a.len() {
        assert(sa@.len() == 0);
        i < b.len()
    } else if i == b.len() {
        false
    } else {
        assert(sa@[0] == a@[i as int] && sb@[0] == b@[i as int]);
        a[i] < b[i]
    }
}

/// The sequence is strictly increasing.
pub open spec fn strictly_sorted(s: Seq<Seq<char>>) -> bool {
    forall|i: int, j: int| 0 <= i < j < s.len() ==> seq_lt(s[i], s[j])
}

/// Inserts `x` into a strictly increasing list, unless it is already there.
fn insert_sorted(v: &mut Vec<Vec<char>>, x: Vec<char>)
    requires
        strictly_sorted(crate::text::views(old(v)@)),
    ensures
        strictly_sorted(crate::text::views(final(v)@)),
        crate::text::views(final(v)@).to_set() == crate::text::views(old(v)@).to_set().insert(x@),
{
    let ghost old_views = crate::text::views(v@);
    let mut p: usize = 0;
    while p < v.len() && chars_lt(&v[p], &x)
        invariant
            p <= v@.len(),
            v@ == old(v)@,
            forall|j: int| 0 <= j < p ==> seq_lt(#[trigger] v@[j]@, x@),
        decreases v@.len() - p,
    {
        p = p + 1;
    }
    if p < v.len() && crate::text::chars_eq(&v[p], &x) {
        assert(old_views[p as int] == x@);
        assert(old_views.to_set().insert(x@) =~= old_views.to_set());
        return;
    }
    proof {
        if p < v@.len() {
            lemma_seq_lt_total(v@[p as int]@, x@);
        }
    }
    v.insert(p, x);
    proof {
        let nv = crate::text::views(v@);
        assert(nv =~= old_views.subrange(0, p as int).push(x@) + old_views.subrange(p as int, old_views.len() as int));
        assert forall|i: int, j: int| 0 <= i < j < nv.len() implies seq_lt(nv[i], nv[j]) by {
            if j < p {
                assert(nv[i] == old_views[i] && nv[j] == old_views[j]);
            } else if j == p {
                assert(nv[i] == old_views[i]);
                assert(nv[j] == x@);
            } else if i < p {
                assert(nv[i] == old_views[i]);
                assert(nv[j] == old_views[j - 1]);
                assert(seq_lt(x@, old_views[p as int]));
                if j - 1 > p {
                    lemma_seq_lt_trans(x@, old_views[p as int], old_views[j - 1]);
                }
                lemma_seq_lt_trans(old_views[i], x@, old_views[j - 1]);
            } else if i == p {
                assert(nv[j] == old_views[j - 1]);
                if j - 1 > p {
                    lemma_seq_lt_trans(x@, old_views[p as int], old_views[j - 1]);
                }
            } else {
                assert(nv[i] == old_views[i - 1] && nv[j] == old_views[j - 1]);
            }
        }
        assert forall|y: Seq<char>| nv.to_set().contains(y) == old_views.to_set().insert(x@).contains(y) by {
            if nv.to_set().contains(y) {
                let i = choose|i: int| 0 <= i < nv.len() && nv[i] == y;
                if i < p {
                    assert(old_views[i] == y);
                } else if i > p {
                    assert(old_views[i - 1] == y);
                }
            }
            if old_views.to_set().contains(y) {
                let i = choose|i: int| 0 <= i < old_views.len() && old_views[i] == y;
                if i < p {
                    assert(nv[i] == y);
                } else {
                    assert(nv[i + 1] == y);
                }
            }
            if y == x@ {
                assert(nv[p as int] == y);
            }
        }
        assert(nv.to_set() =~= old_views.to_set().insert(x@));
    }
}

/// The store of context tokens.
pub struct ContextTokenStore {
    store: StrMap,
}

impl View for ContextTokenStore {
    type V = Map<Seq<char>, Seq<char>>;

    closed spec fn view(&self) -> Map<Seq<char>, Seq<char>> {
        self.store@
    }
}

/// `account_id:user_id` as a string.
fn make_key(account_id: &str, user_id: &str) -> (r: String)
    ensures
        r@ == token_key(account_id@, user_id@),
{
    let mut k = String::from_str(account_id);
    k.append(":");
    k.append(user_id);
    k
}

/// `account_id:`.
fn account_prefix(account_id: &str) -> (r: Vec<char>)
    ensures
        r@ == account_id@ + ":"@,
{
    let mut k = String::from_str(account_id);
    k.append(":");
    chars_of(k.as_str())
}

impl ContextTokenStore {
    /// The store's internal consistency.
    pub closed spec fn wf(&self) -> bool {
        self.store.wf()
    }

    pub fn new() -> (r: ContextTokenStore)
        ensures
            r.wf(),
            r@ == Map::<Seq<char>, Seq<char>>::empty(),
    {
        ContextTokenStore { store: StrMap::new() }
    }

    /// Records `token` as the latest context token of `user_id` under `account_id`.
    pub fn set(&mut self, account_id: &str, user_id: &str, token: &str)
        requires
            old(self).wf(),
        ensures
            final(self).wf(),
            final(self)@ == old(self)@.insert(token_key(account_id@, user_id@), token@),
    {
        let k = make_key(account_id, user_id);
        self.store.insert(k, String::from_str(token));
    }

    /// The latest context token of `user_id` under `account_id`.
    pub fn get(&self, account_id: &str, user_id: &str) -> (r: Option<String>)
        requires
            self.wf(),
        ensures
            match r {
                Some(t) => self@.get(token_key(account_id@, user_id@)) == Some(t@),
                None => self@.get(token_key(account_id@, user_id@)) is None,
            },
    {
        let k = make_key(account_id, user_id);
        match self.store.get(k.as_str()) {
            Some(t) => Some(t.clone()),
            None => None,
        }
    }
}

/// The views of a list of string pairs.
pub open spec fn pair_views(v: Seq<(String, String)>) -> Seq<(Seq<char>, Seq<char>)> {
    v.map_values(|e: (String, String)| (e.0@, e.1@))
}

/// The pairs among `ps` whose key starts with `prefix`, with the prefix cut off.
pub open spec fn strip_prefixed(ps: Seq<(Seq<char>, Seq<char>)>, prefix: Seq<char>) -> Seq<
    (Seq<char>, Seq<char>),
>
    decreases ps.len(),
{
    if ps.len() == 0 {
        Seq::empty()
    } else {
        let rest = strip_prefixed(ps.drop_last(), prefix);
        let e = ps.last();
        if starts_with(e.0, prefix) {
            rest.push((e.0.skip(prefix.len() as int), e.1))
        } else {
            rest
        }
    }
}

proof fn lemma_strip_prefixed(ps: Seq<(Seq<char>, Seq<char>)>, prefix: Seq<char>)
    requires
        forall|i: int, j: int| 0 <= i < j < ps.len() ==> ps[i].0 != ps[j].0,
    ensures
        forall|a: int|
            0 <= a < strip_prefixed(ps, prefix).len() ==> exists|i: int|
                0 <= i < ps.len() && ps[i].0 == prefix + (#[trigger] strip_prefixed(ps, prefix)[a]).0
                    && ps[i].1 == strip_prefixed(ps, prefix)[a].1,
        forall|i: int|
            0 <= i < ps.len() && starts_with(#[trigger] ps[i].0, prefix) ==> exists|a: int|
                0 <= a < strip_prefixed(ps, prefix).len() && strip_prefixed(ps, prefix)[a] == (
                ps[i].0.skip(prefix.len() as int), ps[i].1),
        forall|a: int, b: int|
            0 <= a < b < strip_prefixed(ps, prefix).len() ==> strip_prefixed(ps, prefix)[a].0
                != strip_prefixed(ps, prefix)[b].0,
    decreases ps.len(),
{
    if ps.len() > 0 {
        let t = ps.drop_last();
        lemma_strip_prefixed(t, prefix);
        let rest = strip_prefixed(t, prefix);
        let out = strip_prefixed(ps, prefix);
        let e = ps.last();
        assert forall|a: int| 0 <= a < out.len() implies exists|i: int|
            0 <= i < ps.len() && ps[i].0 == prefix + (#[trigger] out[a]).0 && ps[i].1 == out[a].1 by {
            if a < rest.len() {
                assert(out[a] == rest[a]);
                let i = choose|i: int| 0 <= i < t.len() && t[i].0 == prefix + (#[trigger] rest[a]).0 && t[i].1 == rest[a].1;
                assert(ps[i] == t[i]);
            } else {
                assert(out[a] == (e.0.skip(prefix.len() as int), e.1));
                assert(e.0 =~= prefix + e.0.skip(prefix.len() as int));
                assert(ps[ps.len() - 1] == e);
            }
        }
        assert forall|i: int| 0 <= i < ps.len() && starts_with(#[trigger] ps[i].0, prefix) implies exists|a: int|
            0 <= a < out.len() && out[a] == (ps[i].0.skip(prefix.len() as int), ps[i].1) by {
            if i < t.len() {
                assert(t[i] == ps[i]);
                let a = choose|a: int| 0 <= a < rest.len() && rest[a] == (t[i].0.skip(prefix.len() as int), t[i].1);
                assert(out[a] == rest[a]);
            } else {
                assert(out[out.len() - 1] == (e.0.skip(prefix.len() as int), e.1));
            }
        }
        assert forall|a: int, b: int| 0 <= a < b < out.len() implies out[a].0 != out[b].0 by {
            if b == rest.len() && starts_with(e.0, prefix) {
                assert(out[a] == rest[a]);
                let i = choose|i: int| 0 <= i < t.len() && t[i].0 == prefix + (#[trigger] rest[a]).0 && t[i].1 == rest[a].1;
                assert(e.0 =~= prefix + e.0.skip(prefix.len() as int));
                assert(ps[i] == t[i]);
                if out[a].0 == out[b].0 {
                    assert(ps[i].0 == e.0);
                    assert(ps[ps.len() - 1] == e);
                }
            } else {
                assert(out[a] == rest[a] && out[b] == rest[b]);
            }
        }
    }
}

/// What restoring a token file of `account_id` does to the store: each
/// non-empty token is recorded in turn, empty ones are skipped.
pub open spec fn restore_tokens(
    m: Map<Seq<char>, Seq<char>>,
    account_id: Seq<char>,
    tokens: Seq<(Seq<char>, Seq<char>)>,
) -> Map<Seq<char>, Seq<char>>
    decreases tokens.len(),
{
    if tokens.len() == 0 {
        m
    } else {
        let m2 = restore_tokens(m, account_id, tokens.drop_last());
        let e = tokens.last();
        if e.1.len() > 0 {
            m2.insert(token_key(account_id, e.0), e.1)
        } else {
            m2
        }
    }
}

/// The number of non-empty tokens.
pub open spec fn count_nonempty(tokens: Seq<(Seq<char>, Seq<char>)>) -> nat
    decreases tokens.len(),
{
    if tokens.len() == 0 {
        0
    } else {
        count_nonempty(tokens.drop_last()) + if tokens.last().1.len() > 0 {
            1nat
        } else {
            0nat
        }
    }
}

proof fn lemma_count_nonempty_le(tokens: Seq<(Seq<char>, Seq<char>)>)
    ensures
        count_nonempty(tokens) <= tokens.len(),
    decreases tokens.len(),
{
    if tokens.len() > 0 {
        lemma_count_nonempty_le(tokens.drop_last());
    }
}

/// The users named by the first `n` keys of `ps`.
spec fn users_upto(ps: Seq<(Seq<char>, Seq<char>)>, n: int) -> Set<Seq<char>> {
    users_upto_by(ps, n, |k: Seq<char>| user_of_key(k))
}

spec fn users_upto_by(
    ps: Seq<(Seq<char>, Seq<char>)>,
    n: int,
    f: spec_fn(Seq<char>) -> Option<Seq<char>>,
) -> Set<Seq<char>> {
    Set::new(|u: Seq<char>| exists|j: int| 0 <= j < n && f(ps[j].0) == Some(u))
}

proof fn lemma_users_upto_by_step(
    ps: Seq<(Seq<char>, Seq<char>)>,
    i: int,
    f: spec_fn(Seq<char>) -> Option<Seq<char>>,
)
    requires
        0 <= i,
    ensures
        users_upto_by(ps, i + 1, f) == match f(ps[i].0) {
            Some(u) => users_upto_by(ps, i, f).insert(u),
            None => users_upto_by(ps, i, f),
        },
{
    let next = match f(ps[i].0) {
        Some(u) => users_upto_by(ps, i, f).insert(u),
        None => users_upto_by(ps, i, f),
    };
    assert forall|w: Seq<char>| users_upto_by(ps, i + 1, f).contains(w) == next.contains(w) by {
        if users_upto_by(ps, i + 1, f).contains(w) {
            let j = choose|j: int| 0 <= j < i + 1 && f(ps[j].0) == Some(w);
            if j < i {
                assert(users_upto_by(ps, i, f).contains(w));
            }
        }
        if next.contains(w) {
            if users_upto_by(ps, i, f).contains(w) {
                let j = choose|j: int| 0 <= j < i && f(ps[j].0) == Some(w);
                assert(0 <= j < i + 1 && f(ps[j].0) == Some(w));
            } else {
                assert(f(ps[i].0) == Some(w));
            }
        }
    }
    assert(users_upto_by(ps, i + 1, f) =~= next);
}

proof fn lemma_users_upto_step(ps: Seq<(Seq<char>, Seq<char>)>, i: int)
    requires
        0 <= i,
    ensures
        users_upto(ps, i + 1) == match user_of_key(ps[i].0) {
            Some(u) => users_upto(ps, i).insert(u),
            None => users_upto(ps, i),
        },
{
    lemma_users_upto_by_step(ps, i, |k: Seq<char>| user_of_key(k));
}

impl ContextTokenStore {
    /// The users of `account_id` with their tokens (what the account's token
    /// file holds): each user once.
    pub fn get_all_users(&self, account_id: &str) -> (r: Vec<(String, String)>)
        requires
            self.wf(),
        ensures
            forall|a: int, b: int| 0 <= a < b < r@.len() ==> r@[a].0@ != r@[b].0@,
            forall|a: int|
                0 <= a < r@.len() ==> #[trigger] account_users(self@, account_id@).contains_key(r@[a].0@)
                    && account_users(self@, account_id@)[r@[a].0@] == r@[a].1@,
            forall|u: Seq<char>|
                #[trigger] account_users(self@, account_id@).contains_key(u) ==> exists|a: int|
                    0 <= a < r@.len() && r@[a].0@ == u,
    {
        let prefix = account_prefix(account_id);
        let pairs = self.store.to_pairs();
        let ghost ps = self.store.pairs();
        proof {
            self.store.lemma_pairs();
        }
        let mut out: Vec<(String, String)> = Vec::new();
        let mut i: usize = 0;
        while i < pairs.len()
            invariant
                i <= pairs@.len(),
                pair_views(pairs@) == ps,
                prefix@ == account_id@ + ":"@,
                pair_views(out@) == strip_prefixed(ps.take(i as int), prefix@),
            decreases pairs@.len() - i,
        {
            let kc = chars_of(pairs[i].0.as_str());
            proof {
                assert(ps.take(i + 1).drop_last() =~= ps.take(i as int));
                assert(ps[i as int] == (pairs@[i as int].0@, pairs@[i as int].1@));
            }
            if has_prefix(&kc, &prefix) {
                let u = slice_range(&kc, prefix.len(), kc.len());
                let ghost before = out@;
                out.push((string_from(&u), pairs[i].1.clone()));
                proof {
                    assert(pair_views(out@) =~= pair_views(before).push((u@, pairs@[i as int].1@)));
                }
            }
            i = i + 1;
        }
        proof {
            assert(ps.take(ps.len() as int) =~= ps);
            lemma_strip_prefixed(ps, prefix@);
            let m = account_users(self@, account_id@);
            let so = strip_prefixed(ps, prefix@);
            assert forall|a: int| 0 <= a < out@.len() implies #[trigger] m.contains_key(out@[a].0@)
                && m[out@[a].0@] == out@[a].1@ by {
                assert(so[a] == (out@[a].0@, out@[a].1@));
                let j = choose|j: int| 0 <= j < ps.len() && ps[j].0 == prefix@ + (#[trigger] so[a]).0 && ps[j].1 == so[a].1;
                assert(token_key(account_id@, out@[a].0@) =~= prefix@ + so[a].0);
            }
            assert forall|u: Seq<char>| #[trigger] m.contains_key(u) implies exists|a: int|
                0 <= a < out@.len() && out@[a].0@ == u by {
                let k = token_key(account_id@, u);
                assert(self.store@.contains_key(k));
                let j = choose|j: int| 0 <= j < ps.len() && ps[j].0 == k;
                assert(k =~= prefix@ + u);
                assert(starts_with(ps[j].0, prefix@)) by {
                    assert(ps[j].0.subrange(0, prefix@.len() as int) =~= prefix@);
                }
                let a = choose|a: int| 0 <= a < so.len() && so[a] == (ps[j].0.skip(prefix@.len() as int), ps[j].1);
                assert(ps[j].0.skip(prefix@.len() as int) =~= u);
                assert(so[a] == (out@[a].0@, out@[a].1@));
            }
            assert forall|a: int, b: int| 0 <= a < b < out@.len() implies out@[a].0@ != out@[b].0@ by {
                assert(so[a] == (out@[a].0@, out@[a].1@));
                assert(so[b] == (out@[b].0@, out@[b].1@));
            }
        }
        out
    }

    /// Every user that has a token under some account, each once, in
    /// increasing order.
    pub fn get_all_user_ids(&self) -> (r: Vec<String>)
        requires
            self.wf(),
        ensures
            forall|i: int, j: int| 0 <= i < j < r@.len() ==> seq_lt(r@[i]@, r@[j]@),
            r@.map_values(|s: String| s@).to_set() == users_in(self@),
    {
        let pairs = self.store.to_pairs();
        let ghost ps = self.store.pairs();
        proof {
            self.store.lemma_pairs();
        }
        let mut ids: Vec<Vec<char>> = Vec::new();
        let mut i: usize = 0;
        assert(crate::text::views(ids@).to_set() =~= users_upto(ps, 0));
        while i < pairs.len()
            invariant
                i <= pairs@.len(),
                pair_views(pairs@) == ps,
                strictly_sorted(crate::text::views(ids@)),
                crate::text::views(ids@).to_set() == users_upto(ps, i as int),
            decreases pairs@.len() - i,
        {
            let kc = chars_of(pairs[i].0.as_str());
            proof {
                assert(ps[i as int] == (pairs@[i as int].0@, pairs@[i as int].1@));
                lemma_users_upto_step(ps, i as int);
            }
            match after_char_chars(&kc, ':') {
                Some(rest) => {
                    let u = before_char_chars(&rest, ':');
                    insert_sorted(&mut ids, u);
                },
                None => {},
            }
            i = i + 1;
        }
        let mut r: Vec<String> = Vec::new();
        let mut k: usize = 0;
        while k < ids.len()
            invariant
                k <= ids@.len(),
                r@.map_values(|s: String| s@) == crate::text::views(ids@).take(k as int),
            decreases ids@.len() - k,
        {
            let ghost before = r@;
            r.push(string_from(&ids[k]));
            proof {
                assert(r@.map_values(|s: String| s@) =~= before.map_values(|s: String| s@).push(ids@[k as int]@));
                assert(crate::text::views(ids@).take(k + 1) =~= crate::text::views(ids@).take(k as int).push(
                    ids@[k as int]@,
                ));
            }
            k = k + 1;
        }
        proof {
            let vs = crate::text::views(ids@);
            assert(vs.take(vs.len() as int) =~= vs);
            assert forall|u: Seq<char>| vs.to_set().contains(u) == users_in(self@).contains(u) by {
                if vs.to_set().contains(u) {
                    assert(users_upto(ps, ps.len() as int).contains(u));
                    let j = choose|j: int| 0 <= j < ps.len() && user_of_key(ps[j].0) == Some(u);
                    assert(self@.contains_key(ps[j].0));
                }
                if users_in(self@).contains(u) {
                    let key = choose|key: Seq<char>| self@.contains_key(key) && user_of_key(key) == Some(u);
                    let j = choose|j: int| 0 <= j < ps.len() && ps[j].0 == key;
                    assert(user_of_key(ps[j].0) == Some(u));
                    assert(users_upto(ps, ps.len() as int).contains(u));
                }
            }
            assert(vs.to_set() =~= users_in(self@));
            assert forall|i: int, j: int| 0 <= i < j < r@.len() implies seq_lt(r@[i]@, r@[j]@) by {
                assert(r@.map_values(|s: String| s@)[i] == vs[i]);
                assert(r@.map_values(|s: String| s@)[j] == vs[j]);
            }
        }
        r
    }

    /// Forgets every token of `account_id`.
    pub fn clear_account(&mut self, account_id: &str)
        requires
            old(self).wf(),
        ensures
            final(self).wf(),
            final(self)@ == old(self)@.filter_keys(|k: Seq<char>| !starts_with(k, account_id@ + ":"@)),
    {
        let prefix = account_prefix(account_id);
        self.store.remove_prefixed(&prefix);
    }

    /// Records the tokens read back from `account_id`'s token file (user id,
    /// token), skipping empty tokens; returns how many were recorded.
    pub fn restore(&mut self, account_id: &str, tokens: &Vec<(String, String)>) -> (r: usize)
        requires
            old(self).wf(),
        ensures
            final(self).wf(),
            final(self)@ == restore_tokens(old(self)@, account_id@, pair_views(tokens@)),
            r == count_nonempty(pair_views(tokens@)),
    {
        let ghost ts = pair_views(tokens@);
        let mut count: usize = 0;
        let mut i: usize = 0;
        while i < tokens.len()
            invariant
                self.wf(),
                i <= tokens@.len(),
                ts == pair_views(tokens@),
                self@ == restore_tokens(old(self)@, account_id@, ts.take(i as int)),
                count == count_nonempty(ts.take(i as int)),
            decreases tokens@.len() - i,
        {
            proof {
                assert(ts.take(i + 1).drop_last() =~= ts.take(i as int));
                assert(ts[i as int] == (tokens@[i as int].0@, tokens@[i as int].1@));
                lemma_count_nonempty_le(ts.take(i as int));
            }
            if !tokens[i].1.as_str().is_empty() {
                self.set(account_id, tokens[i].0.as_str(), tokens[i].1.as_str());
                count = count + 1;
            }
            i = i + 1;
        }
        assert(ts.take(i as int) =~= ts);
        count
    }
}

/// Reading a user's token back after recording it gives that token, and
/// every other user's token is unchanged.
pub proof fn lemma_get_after_set(
    m: Map<Seq<char>, Seq<char>>,
    account_id: Seq<char>,
    user_id: Seq<char>,
    token: Seq<char>,
    other_account: Seq<char>,
    other_user: Seq<char>,
)
    requires
        token_key(other_account, other_user) != token_key(account_id, user_id),
    ensures
        m.insert(token_key(account_id, user_id), token).get(token_key(account_id, user_id)) == Some(token),
        m.insert(token_key(account_id, user_id), token).get(token_key(other_account, other_user)) == m.get(
            token_key(other_account, other_user),
        ),
{
}

/// `s` with every trailing `p` removed (`str::trim_end_matches`).
pub open spec fn strip_suffix_all(s: Seq<char>, p: Seq<char>) -> Seq<char>
    decreases s.len(),
{
    if p.len() > 0 && ends_with(s, p) {
        strip_suffix_all(s.take(s.len() - p.len()), p)
    } else {
        s
    }
}

/// The account whose credentials a state-directory file holds: a file named
/// `<account>.json` that is neither a sync-cursor nor a token file.
pub open spec fn credential_account(name: Seq<char>) -> Option<Seq<char>> {
    if ends_with(name, ".json"@) && !ends_with(name, ".sync.json"@) && !ends_with(
        name,
        ".context-tokens.json"@,
    ) {
        Some(strip_suffix_all(name, ".json"@))
    } else {
        None
    }
}

/// The account id of a credentials file, or `None` for any other file.
pub fn credential_account_id(file_name: &str) -> (r: Option<String>)
    ensures
        match r {
            Some(a) => credential_account(file_name@) == Some(a@),
            None => credential_account(file_name@) is None,
        },
{
    let name = chars_of(file_name);
    let json = chars_of(".json");
    if !has_suffix(&name, &json) || has_suffix(&name, &chars_of(".sync.json")) || has_suffix(
        &name,
        &chars_of(".context-tokens.json"),
    ) {
        return None;
    }
    proof {
        reveal_strlit(".json");
    }
    let mut cur = name;
    while has_suffix(&cur, &json)
        invariant
            json@ == ".json"@,
            json@.len() == 5,
            strip_suffix_all(name@, ".json"@) == strip_suffix_all(cur@, ".json"@),
        decreases cur@.len(),
    {
        let n = cur.len();
        cur = slice_range(&cur, 0, n - 5);
    }
    Some(string_from(&cur))
}

/// `<account>.context-tokens.json`: where an account's tokens are kept.
pub fn tokens_file_name(account_id: &str) -> (r: String)
    ensures
        r@ == account_id@ + ".context-tokens.json"@,
{
    let mut s = String::from_str(account_id);
    s.append(".context-tokens.json");
    s
}

/// `<account>.sync.json`: where an account's sync cursor is kept.
pub fn sync_file_name(account_id: &str) -> (r: String)
    ensures
        r@ == account_id@ + ".sync.json"@,
{
    let mut s = String::from_str(account_id);
    s.append(".sync.json");
    s
}

/// `<account>.json`: where an account's credentials are kept.
pub fn credentials_file_name(account_id: &str) -> (r: String)
    ensures
        r@ == account_id@ + ".json"@,
{
    let mut s = String::from_str(account_id);
    s.append(".json");
    s
}

/// The JSON of a saved sync cursor: `{"get_updates_buf": buf}`.
pub fn sync_buf_json(buf: &str) -> (r: JsonValue)
    ensures
        r@ == Json::Object(seq![("get_updates_buf"@, Json::Str(buf@))]),
{
    let es = vec![(String::from_str("get_updates_buf"), JsonValue::Str(String::from_str(buf)))];
    proof {
        crate::json::lemma_json_of_entries(es@);
        assert(crate::json::json_of_entries(es@) =~= seq![("get_updates_buf"@, Json::Str(buf@))]);
    }
    JsonValue::Object(es)
}

/// The sync cursor that a saved cursor file holds (`""` when there is none).
pub fn sync_buf_from_json(data: &JsonValue) -> (r: String)
    ensures
        r@ == str_or_empty(get(data@, "get_updates_buf"@)),
{
    data.str_field_or_empty("get_updates_buf")
}

/// The JSON of saved credentials.
pub fn credentials_json(account_id: &str, bot_token: &str, base_url: &str, user_id: &str) -> (r: JsonValue)
    ensures
        r@ == Json::Object(
            seq![
                ("bot_token"@, Json::Str(bot_token@)),
                ("base_url"@, Json::Str(base_url@)),
                ("user_id"@, Json::Str(user_id@)),
                ("account_id"@, Json::Str(account_id@)),
            ],
        ),
{
    let es = vec![
        (String::from_str("bot_token"), JsonValue::Str(String::from_str(bot_token))),
        (String::from_str("base_url"), JsonValue::Str(String::from_str(base_url))),
        (String::from_str("user_id"), JsonValue::Str(String::from_str(user_id))),
        (String::from_str("account_id"), JsonValue::Str(String::from_str(account_id))),
    ];
    proof {
        crate::json::lemma_json_of_entries(es@);
        assert(crate::json::json_of_entries(es@) =~= seq![
            ("bot_token"@, Json::Str(bot_token@)),
            ("base_url"@, Json::Str(base_url@)),
            ("user_id"@, Json::Str(user_id@)),
            ("account_id"@, Json::Str(account_id@)),
        ]);
    }
    JsonValue::Object(es)
}

/// Saved credentials: bot token, base URL, user id.
pub struct Credentials {
    pub bot_token: String,
    pub base_url: String,
    pub user_id: String,
}

/// The credentials that a saved credentials file holds: the bot token and the
/// base URL must be strings; a missing user id reads as `""`.
pub fn credentials_from_json(data: &JsonValue) -> (r: Option<Credentials>)
    ensures
        match r {
            Some(c) => as_str(get(data@, "bot_token"@)) == Some(c.bot_token@)
                && as_str(get(data@, "base_url"@)) == Some(c.base_url@)
                && c.user_id@ == str_or_empty(get(data@, "user_id"@)),
            None => as_str(get(data@, "bot_token"@)) is None || as_str(get(data@, "base_url"@)) is None,
        },
{
    let bot_token = match data.str_field("bot_token") {
        Some(t) => t,
        None => {
            return None;
        },
    };
    let base_url = match data.str_field("base_url") {
        Some(u) => u,
        None => {
            return None;
        },
    };
    let user_id = data.str_field_or_empty("user_id");
    Some(Credentials { bot_token, base_url, user_id })
}

} // verus!

verus! {

/// The saved cursor file gives back the cursor that was saved.
pub proof fn lemma_sync_buf_roundtrip(buf: Seq<char>)
    ensures
        str_or_empty(get(Json::Object(seq![("get_updates_buf"@, Json::Str(buf))]), "get_updates_buf"@)) == buf,
{
    let es = seq![("get_updates_buf"@, Json::Str(buf))];
    assert(es[0].0 == "get_updates_buf"@);
}

/// The saved credentials file gives back the token, base URL and user id
/// that were saved.
pub proof fn lemma_credentials_roundtrip(
    account_id: Seq<char>,
    bot_token: Seq<char>,
    base_url: Seq<char>,
    user_id: Seq<char>,
)
    ensures
        ({
            let saved = Json::Object(
                seq![
                    ("bot_token"@, Json::Str(bot_token)),
                    ("base_url"@, Json::Str(base_url)),
                    ("user_id"@, Json::Str(user_id)),
                    ("account_id"@, Json::Str(account_id)),
                ],
            );
            &&& as_str(get(saved, "bot_token"@)) == Some(bot_token)
            &&& as_str(get(saved, "base_url"@)) == Some(base_url)
            &&& str_or_empty(get(saved, "user_id"@)) == user_id
        }),
{
    reveal_strlit("bot_token");
    reveal_strlit("base_url");
    reveal_strlit("user_id");
    reveal_with_fuel(crate::json::lookup, 4);
    assert("bot_token"@.len() == 9);
    assert("base_url"@.len() == 8);
    assert("user_id"@.len() == 7);
}

} // verus!
