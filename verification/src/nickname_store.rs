//! User nicknames: who is called what, and how a user without a nickname is
//! shown.
use crate::strmap::{pairs_map, StrMap};
use crate::text::{before_char, before_char_chars, chars_eq, chars_of, slice_range, string_from};
use vstd::prelude::*;

verus! {

/// The part of a user id before its first `@`.
pub open spec fn local_part(user_id: Seq<char>) -> Seq<char> {
    before_char(user_id, '@')
}

/// The masked display form of a user id: `用户_` and the local part when it
/// has at most 8 characters, else `用户_`, its first 4 characters, `…`, its
/// last 4 characters.
pub open spec fn desensitized(user_id: Seq<char>) -> Seq<char> {
    let local = local_part(user_id);
    if local.len() <= 8 {
        "用户_"@ + local
    } else {
        "用户_"@ + local.subrange(0, 4) + "…"@ + local.subrange(local.len() - 4, local.len() as int)
    }
}

/// Masks a user id for display: the part before `@`, shown whole when it has
/// at most 8 characters, else as its first 4 and last 4 characters around
/// `…`, all after `用户_` (`abcdefgh1234@im.wechat` shows as `用户_abcd…1234`).
pub fn desensitize_id(user_id: &str) -> (r: String)
    ensures
        r@ == desensitized(user_id@),
{
    let local = before_char_chars(&chars_of(user_id), '@');
    let n = local.len();
    let mut out = String::from_str("用户_");
    if n <= 8 {
        out.append(string_from(&local).as_str());
        return out;
    }
    let head = string_from(&slice_range(&local, 0, 4));
    let tail = string_from(&slice_range(&local, n - 4, n));
    out.append(head.as_str());
    out.append("…");
    out.append(tail.as_str());
    out
}

/// The nickname store: user id to nickname.
pub struct NicknameStore {
    store: StrMap,
}

impl View for NicknameStore {
    type V = Map<Seq<char>, Seq<char>>;

    closed spec fn view(&self) -> Map<Seq<char>, Seq<char>> {
        self.store@
    }
}

/// How a user is shown: the nickname, else the masked id.
pub open spec fn display_name_of(m: Map<Seq<char>, Seq<char>>, user_id: Seq<char>) -> Seq<char> {
    if m.contains_key(user_id) {
        m[user_id]
    } else {
        desensitized(user_id)
    }
}

impl NicknameStore {
    /// The store's internal consistency.
    pub closed spec fn wf(&self) -> bool {
        self.store.wf()
    }

    pub fn new() -> (r: NicknameStore)
        ensures
            r.wf(),
            r@ == Map::<Seq<char>, Seq<char>>::empty(),
    {
        NicknameStore { store: StrMap::new() }
    }

    /// Sets `user_id`'s nickname.
    pub fn set(&mut self, user_id: &str, nickname: &str)
        requires
            old(self).wf(),
        ensures
            final(self).wf(),
            final(self)@ == old(self)@.insert(user_id@, nickname@),
    {
        self.store.insert(String::from_str(user_id), String::from_str(nickname));
    }

    /// `user_id`'s nickname.
    pub fn get(&self, user_id: &str) -> (r: Option<String>)
        requires
            self.wf(),
        ensures
            match r {
                Some(n) => self@.get(user_id@) == Some(n@),
                None => self@.get(user_id@) is None,
            },
    {
        match self.store.get(user_id) {
            Some(n) => Some(n.clone()),
            None => None,
        }
    }

    /// A user whose nickname is `nickname`, if any.
    pub fn find_by_nickname(&self, nickname: &str) -> (r: Option<String>)
        requires
            self.wf(),
        ensures
            match r {
                Some(u) => self@.contains_key(u@) && self@[u@] == nickname@,
                None => forall|u: Seq<char>| #[trigger] self@.contains_key(u) ==> self@[u] != nickname@,
            },
    {
        let pairs = self.store.to_pairs();
        let ghost ps = self.store.pairs();
        proof {
            self.store.lemma_pairs();
        }
        let target = chars_of(nickname);
        let mut i: usize = 0;
        while i < pairs.len()
            invariant
                i <= pairs@.len(),
                pairs@.map_values(|e: (String, String)| (e.0@, e.1@)) == ps,
                ps == self.store.pairs(),
                self.wf(),
                target@ == nickname@,
                forall|j: int| 0 <= j < i ==> #[trigger] ps[j].1 != nickname@,
            decreases pairs@.len() - i,
        {
            proof {
                assert(ps[i as int] == (pairs@[i as int].0@, pairs@[i as int].1@));
            }
            if chars_eq(&chars_of(pairs[i].1.as_str()), &target) {
                proof {
                    self.store.lemma_pairs();
                    assert(self@.contains_key(ps[i as int].0));
                }
                return Some(pairs[i].0.clone());
            }
            i = i + 1;
        }
        proof {
            assert forall|u: Seq<char>| #[trigger] self@.contains_key(u) implies self@[u] != nickname@ by {
                let j = choose|j: int| 0 <= j < ps.len() && ps[j].0 == u;
                assert(ps[j].1 != nickname@);
            }
        }
        None
    }

    /// Every user with a nickname, each once.
    pub fn get_all(&self) -> (r: Vec<(String, String)>)
        requires
            self.wf(),
        ensures
            forall|a: int, b: int| 0 <= a < b < r@.len() ==> r@[a].0@ != r@[b].0@,
            forall|a: int| 0 <= a < r@.len() ==> #[trigger] self@.contains_key(r@[a].0@) && self@[r@[a].0@] == r@[a].1@,
            forall|u: Seq<char>| #[trigger] self@.contains_key(u) ==> exists|a: int| 0 <= a < r@.len() && r@[a].0@ == u,
    {
        let pairs = self.store.to_pairs();
        proof {
            self.store.lemma_pairs();
            let ps = self.store.pairs();
            assert forall|a: int| 0 <= a < pairs@.len() implies ps[a] == (pairs@[a].0@, pairs@[a].1@) by {}
            assert forall|u: Seq<char>| #[trigger] self@.contains_key(u) implies exists|a: int| 0 <= a < pairs@.len() && pairs@[a].0@ == u by {
                let a = choose|a: int| 0 <= a < ps.len() && ps[a].0 == u;
                assert(ps[a] == (pairs@[a].0@, pairs@[a].1@));
            }
            assert forall|a: int, b: int| 0 <= a < b < pairs@.len() implies pairs@[a].0@ != pairs@[b].0@ by {
                assert(ps[a] == (pairs@[a].0@, pairs@[a].1@));
                assert(ps[b] == (pairs@[b].0@, pairs@[b].1@));
            }
            assert forall|a: int| 0 <= a < pairs@.len() implies #[trigger] self@.contains_key(pairs@[a].0@) && self@[pairs@[a].0@] == pairs@[a].1@ by {
                assert(ps[a] == (pairs@[a].0@, pairs@[a].1@));
                assert(self@.contains_key(ps[a].0));
            }
        }
        pairs
    }

    /// How `user_id` is shown: the nickname, else the masked id.
    pub fn display_name(&self, user_id: &str) -> (r: String)
        requires
            self.wf(),
        ensures
            r@ == display_name_of(self@, user_id@),
    {
        match self.get(user_id) {
            Some(n) => n,
            None => desensitize_id(user_id),
        }
    }

    /// Replaces the whole store by what the nickname file holds.
    pub fn restore(&mut self, data: Vec<(String, String)>)
        ensures
            final(self).wf(),
            final(self)@ == pairs_map(data@),
    {
        self.store.replace_all(data);
    }
}

} // verus!
