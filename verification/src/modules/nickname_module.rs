//! The nickname module: `叫我 <name>` sets a nickname, `我是谁` shows it, and
//! `用户列表` lists the connected users.
use crate::nickname_store::{desensitized, display_name_of, NicknameStore};
use crate::router::{MatchType, RouteRule, RouteRuleView};
use crate::session::{seq_lt, users_in, ContextTokenStore};
use crate::text::{
    chars_eq, chars_of, decimal, has_prefix, join, replace_first, replace_first_chars, starts_with,
    string_from, trim, trim_chars, u64_to_decimal,
};
use vstd::prelude::*;
use vstd::utf8::encode_utf8;

verus! {

/// Whether a user other than `user_id` goes by `nickname`.
pub open spec fn taken_by_other(m: Map<Seq<char>, Seq<char>>, user_id: Seq<char>, nickname: Seq<char>) -> bool {
    exists|u: Seq<char>| #[trigger] m.contains_key(u) && m[u] == nickname && u != user_id
}

/// Whether `user_id` already goes by `nickname`.
pub open spec fn has_nickname(m: Map<Seq<char>, Seq<char>>, user_id: Seq<char>, nickname: Seq<char>) -> bool {
    m.contains_key(user_id) && m[user_id] == nickname
}

/// Whether `叫我 <nickname>` from `user_id` sets the nickname, so that the
/// nickname file has to be written: it is non-empty, at most 60 bytes, and
/// no other user goes by it.
pub open spec fn nickname_written(m: Map<Seq<char>, Seq<char>>, user_id: Seq<char>, nickname: Seq<char>) -> bool {
    nickname.len() > 0 && encode_utf8(nickname).len() <= 60 && !taken_by_other(m, user_id, nickname)
}

pub open spec fn nickname_set_text(nickname: Seq<char>) -> Seq<char> {
    "✅ 好的，以后叫你「"@ + nickname + "」"@
}

pub open spec fn nickname_taken_text(nickname: Seq<char>) -> Seq<char> {
    "昵称「"@ + nickname + "」已被其他用户使用，请换一个"@
}

/// The answer to `我是谁`.
pub open spec fn whoami_text(m: Map<Seq<char>, Seq<char>>, user_id: Seq<char>) -> Seq<char> {
    if m.contains_key(user_id) {
        "你的昵称是「"@ + m[user_id] + "」\n\n发送「叫我 <新昵称>」可以修改"@
    } else {
        "你还没有设置昵称，当前显示为「"@ + desensitized(user_id) + "」\n\n发送「叫我 <昵称>」来设置"@
    }
}

/// The line of the user list for the `i`-th user (from 0).
pub open spec fn user_line(m: Map<Seq<char>, Seq<char>>, i: int, user_id: Seq<char>) -> Seq<char> {
    decimal((i + 1) as nat) + ". "@ + display_name_of(m, user_id) + if m.contains_key(user_id) {
        Seq::empty()
    } else {
        " (未设昵称)"@
    }
}

/// The answer to `用户列表` for the users `ids`, in that order.
pub open spec fn user_list_text(m: Map<Seq<char>, Seq<char>>, ids: Seq<Seq<char>>) -> Seq<char> {
    if ids.len() == 0 {
        "📭 当前没有已连接的用户"@
    } else {
        "👥 当前用户 ("@ + decimal(ids.len()) + "人):\n"@ + join(
            Seq::new(ids.len(), |i: int| user_line(m, i, ids[i])),
            "\n"@,
        )
    }
}

/// The command a message's trimmed text is.
pub enum NicknameCommand {
    WhoAmI,
    UserList,
    /// `叫我 …`, with the requested nickname.
    SetNickname(Seq<char>),
    /// Anything else, which the module leaves unanswered.
    Other,
}

pub open spec fn nickname_command(text: Seq<char>) -> NicknameCommand {
    let t = trim(text);
    if t == "我是谁"@ {
        NicknameCommand::WhoAmI
    } else if t == "用户列表"@ {
        NicknameCommand::UserList
    } else if starts_with(t, "叫我"@) {
        NicknameCommand::SetNickname(trim(replace_first(t, "叫我"@, Seq::empty())))
    } else {
        NicknameCommand::Other
    }
}

/// The kinds of `NicknameCommand`.
#[derive(Debug, Clone, Copy, PartialEq, Eq, Structural)]
pub enum NicknameCommandKind {
    WhoAmI,
    UserList,
    SetNickname,
    Other,
}

/// Handles `叫我`, `我是谁` and `用户列表`.
pub struct NicknameModule;

impl NicknameModule {
    pub fn new() -> (r: NicknameModule) {
        NicknameModule
    }

    pub fn name(&self) -> (r: &'static str)
        ensures
            r@ == "NicknameModule"@,
    {
        "NicknameModule"
    }

    /// Three rules: `叫我…`, exactly `我是谁`, exactly `用户列表`.
    pub fn routes(&self) -> (r: Vec<RouteRule>)
        ensures
            r@.len() == 3,
            r@[0]@ == (RouteRuleView { name: "nickname_call"@, pattern: "叫我"@, match_type: MatchType::Prefix }),
            r@[1]@ == (RouteRuleView { name: "nickname_whoami"@, pattern: "我是谁"@, match_type: MatchType::Exact }),
            r@[2]@ == (RouteRuleView { name: "nickname_users"@, pattern: "用户列表"@, match_type: MatchType::Exact }),
    {
        let mut v: Vec<RouteRule> = Vec::new();
        v.push(RouteRule::new("nickname_call", "叫我", MatchType::Prefix));
        v.push(RouteRule::new("nickname_whoami", "我是谁", MatchType::Exact));
        v.push(RouteRule::new("nickname_users", "用户列表", MatchType::Exact));
        v
    }

    /// The kind of command a message's text is.
    pub fn command(&self, text: &str) -> (r: NicknameCommandKind)
        ensures
            match nickname_command(text@) {
                NicknameCommand::WhoAmI => r == NicknameCommandKind::WhoAmI,
                NicknameCommand::UserList => r == NicknameCommandKind::UserList,
                NicknameCommand::SetNickname(_) => r == NicknameCommandKind::SetNickname,
                NicknameCommand::Other => r == NicknameCommandKind::Other,
            },
    {
        let t = trim_chars(&chars_of(text));
        if chars_eq(&t, &chars_of("我是谁")) {
            NicknameCommandKind::WhoAmI
        } else if chars_eq(&t, &chars_of("用户列表")) {
            NicknameCommandKind::UserList
        } else if has_prefix(&t, &chars_of("叫我")) {
            NicknameCommandKind::SetNickname
        } else {
            NicknameCommandKind::Other
        }
    }

    /// Sets `user_id`'s nickname when it is non-empty, at most 60 bytes long,
    /// and no other user goes by it; answers accordingly.
    pub fn set_nickname(&self, store: &mut NicknameStore, user_id: &str, nickname: &str) -> (r: String)
        requires
            old(store).wf(),
        ensures
            final(store).wf(),
            nickname@.len() == 0 ==> r@ == "请告诉我你的昵称，例如: 叫我大王"@ && final(store)@ == old(store)@,
            nickname@.len() > 0 && encode_utf8(nickname@).len() > 60 ==> r@ == "昵称太长了，请控制在 20 个字以内"@
                && final(store)@ == old(store)@,
            nickname@.len() > 0 && encode_utf8(nickname@).len() <= 60 ==> {
                &&& !taken_by_other(old(store)@, user_id@, nickname@) ==> r@ == nickname_set_text(nickname@)
                    && final(store)@ == old(store)@.insert(user_id@, nickname@)
                &&& taken_by_other(old(store)@, user_id@, nickname@) && !has_nickname(old(store)@, user_id@, nickname@)
                    ==> r@ == nickname_taken_text(nickname@) && final(store)@ == old(store)@
                &&& taken_by_other(old(store)@, user_id@, nickname@) && has_nickname(old(store)@, user_id@, nickname@)
                    ==> (r@ == nickname_taken_text(nickname@) || r@ == nickname_set_text(nickname@))
                    && final(store)@ == old(store)@
            },
    {
        self.set_nickname_reporting(store, user_id, nickname).0
    }

    fn set_nickname_reporting(&self, store: &mut NicknameStore, user_id: &str, nickname: &str) -> (r: (String, bool))
        requires
            old(store).wf(),
        ensures
            final(store).wf(),
            nickname@.len() == 0 ==> r.0@ == "请告诉我你的昵称，例如: 叫我大王"@ && final(store)@ == old(store)@,
            nickname@.len() > 0 && encode_utf8(nickname@).len() > 60 ==> r.0@ == "昵称太长了，请控制在 20 个字以内"@
                && final(store)@ == old(store)@,
            nickname@.len() > 0 && encode_utf8(nickname@).len() <= 60 ==> {
                &&& !taken_by_other(old(store)@, user_id@, nickname@) ==> r.0@ == nickname_set_text(nickname@)
                    && final(store)@ == old(store)@.insert(user_id@, nickname@)
                &&& taken_by_other(old(store)@, user_id@, nickname@) && !has_nickname(old(store)@, user_id@, nickname@)
                    ==> r.0@ == nickname_taken_text(nickname@) && final(store)@ == old(store)@
                &&& taken_by_other(old(store)@, user_id@, nickname@) && has_nickname(old(store)@, user_id@, nickname@)
                    ==> (r.0@ == nickname_taken_text(nickname@) || r.0@ == nickname_set_text(nickname@))
                    && final(store)@ == old(store)@
            },
            r.1 ==> final(store)@ == old(store)@.insert(user_id@, nickname@),
            !r.1 ==> final(store)@ == old(store)@,
            !(taken_by_other(old(store)@, user_id@, nickname@) && has_nickname(old(store)@, user_id@, nickname@))
                ==> r.1 == nickname_written(old(store)@, user_id@, nickname@),
    {
        if nickname.is_empty() {
            return (String::from_str("请告诉我你的昵称，例如: 叫我大王"), false);
        }
        if nickname.as_bytes().len() > 60 {
            return (String::from_str("昵称太长了，请控制在 20 个字以内"), false);
        }
        match store.find_by_nickname(nickname) {
            Some(existing) => {
                if !chars_eq(&chars_of(existing.as_str()), &chars_of(user_id)) {
                    let mut s = String::from_str("昵称「");
                    s.append(nickname);
                    s.append("」已被其他用户使用，请换一个");
                    return (s, false);
                }
                proof {
                    assert(old(store)@.insert(user_id@, nickname@) =~= old(store)@);
                }
            },
            None => {},
        }
        store.set(user_id, nickname);
        let mut s = String::from_str("✅ 好的，以后叫你「");
        s.append(nickname);
        s.append("」");
        (s, true)
    }

    /// The answer to `我是谁`.
    pub fn whoami(&self, store: &NicknameStore, user_id: &str) -> (r: String)
        requires
            store.wf(),
        ensures
            r@ == whoami_text(store@, user_id@),
    {
        let display = store.display_name(user_id);
        match store.get(user_id) {
            Some(nickname) => {
                let mut s = String::from_str("你的昵称是「");
                s.append(nickname.as_str());
                s.append("」\n\n发送「叫我 <新昵称>」可以修改");
                s
            },
            None => {
                let mut s = String::from_str("你还没有设置昵称，当前显示为「");
                s.append(display.as_str());
                s.append("」\n\n发送「叫我 <昵称>」来设置");
                s
            },
        }
    }

    /// The answer to `用户列表`: every user known to any account, once, in
    /// the order of their ids, with their display names.
    pub fn user_list(&self, store: &NicknameStore, ctx: &ContextTokenStore) -> (r: String)
        requires
            store.wf(),
            ctx.wf(),
        ensures
            exists|ids: Seq<Seq<char>>|
                {
                    &&& forall|i: int, j: int| 0 <= i < j < ids.len() ==> seq_lt(ids[i], ids[j])
                    &&& ids.to_set() == users_in(ctx@)
                    &&& r@ == user_list_text(store@, ids)
                },
    {
        let all = ctx.get_all_user_ids();
        let ghost ids = all@.map_values(|s: String| s@);
        if all.len() == 0 {
            assert(ids =~= Seq::<Seq<char>>::empty());
            return String::from_str("📭 当前没有已连接的用户");
        }
        let ghost lines_spec = Seq::new(ids.len(), |i: int| user_line(store@, i, ids[i]));
        let mut lines: Vec<Vec<char>> = Vec::new();
        let mut i: usize = 0;
        while i < all.len()
            invariant
                i <= all@.len(),
                store.wf(),
                ids == all@.map_values(|s: String| s@),
                ids.to_set() == users_in(ctx@),
                lines_spec == Seq::new(ids.len(), |i: int| user_line(store@, i, ids[i])),
                crate::text::views(lines@) == lines_spec.take(i as int),
            decreases all@.len() - i,
        {
            let uid = all[i].as_str();
            proof {
                assert(ids[i as int] == uid@);
                assert(ids.to_set().contains(uid@));
            }
            let display = store.display_name(uid);
            let named = store.get(uid).is_some();
            let mut line = u64_to_decimal((i + 1) as u64);
            crate::text::append_chars(&mut line, &chars_of(". "));
            crate::text::append_chars(&mut line, &chars_of(display.as_str()));
            if !named {
                crate::text::append_chars(&mut line, &chars_of(" (未设昵称)"));
            }
            proof {
                assert(line@ =~= user_line(store@, i as int, ids[i as int]));
            }
            let ghost before = lines@;
            lines.push(line);
            proof {
                assert(crate::text::views(lines@) =~= crate::text::views(before).push(lines_spec[i as int]));
                assert(lines_spec.take(i + 1) =~= lines_spec.take(i as int).push(lines_spec[i as int]));
            }
            i = i + 1;
        }
        assert(lines_spec.take(i as int) =~= lines_spec);
        let body = crate::text::join_chars(&lines, &chars_of("\n"));
        let mut s = String::from_str("👥 当前用户 (");
        s.append(string_from(&u64_to_decimal(all.len() as u64)).as_str());
        s.append("人):\n");
        s.append(string_from(&body).as_str());
        proof {
            assert(ids.len() == all@.len());
            assert(s@ == user_list_text(store@, ids));
        }
        s
    }

    /// The answer to a message from `user_id` with text `text`, if the
    /// module answers it.
    pub fn respond(&self, store: &mut NicknameStore, ctx: &ContextTokenStore, user_id: &str, text: &str) -> (r:
        Option<String>)
        requires
            old(store).wf(),
            ctx.wf(),
        ensures
            final(store).wf(),
            match nickname_command(text@) {
                NicknameCommand::WhoAmI => r matches Some(s) && s@ == whoami_text(old(store)@, user_id@)
                    && final(store)@ == old(store)@,
                NicknameCommand::UserList => r is Some && final(store)@ == old(store)@ && exists|ids: Seq<Seq<char>>|
                    {
                        &&& forall|i: int, j: int| 0 <= i < j < ids.len() ==> seq_lt(ids[i], ids[j])
                        &&& ids.to_set() == users_in(ctx@)
                        &&& r->0@ == user_list_text(old(store)@, ids)
                    },
                NicknameCommand::SetNickname(n) => r is Some && {
                    let m = old(store)@;
                    &&& n.len() == 0 ==> r->0@ == "请告诉我你的昵称，例如: 叫我大王"@ && final(store)@ == m
                    &&& n.len() > 0 && encode_utf8(n).len() > 60 ==> r->0@ == "昵称太长了，请控制在 20 个字以内"@
                        && final(store)@ == m
                    &&& n.len() > 0 && encode_utf8(n).len() <= 60 ==> {
                        &&& !taken_by_other(m, user_id@, n) ==> r->0@ == nickname_set_text(n) && final(store)@
                            == m.insert(user_id@, n)
                        &&& taken_by_other(m, user_id@, n) && !has_nickname(m, user_id@, n) ==> r->0@
                            == nickname_taken_text(n) && final(store)@ == m
                        &&& taken_by_other(m, user_id@, n) && has_nickname(m, user_id@, n) ==> (r->0@
                            == nickname_taken_text(n) || r->0@ == nickname_set_text(n)) && final(store)@ == m
                    }
                },
                NicknameCommand::Other => r is None && final(store)@ == old(store)@,
            },
    {
        self.respond_and_report(store, ctx, user_id, text).0
    }

    /// `respond`, and whether a nickname was set so that the nickname file
    /// has to be written.
    pub fn respond_and_report(
        &self,
        store: &mut NicknameStore,
        ctx: &ContextTokenStore,
        user_id: &str,
        text: &str,
    ) -> (r: (Option<String>, bool))
        requires
            old(store).wf(),
            ctx.wf(),
        ensures
            final(store).wf(),
            match nickname_command(text@) {
                NicknameCommand::WhoAmI => r.0 matches Some(s) && s@ == whoami_text(old(store)@, user_id@)
                    && final(store)@ == old(store)@,
                NicknameCommand::UserList => r.0 is Some && final(store)@ == old(store)@ && exists|ids: Seq<Seq<char>>|
                    {
                        &&& forall|i: int, j: int| 0 <= i < j < ids.len() ==> seq_lt(ids[i], ids[j])
                        &&& ids.to_set() == users_in(ctx@)
                        &&& r.0->0@ == user_list_text(old(store)@, ids)
                    },
                NicknameCommand::SetNickname(n) => r.0 is Some && {
                    let m = old(store)@;
                    &&& n.len() == 0 ==> r.0->0@ == "请告诉我你的昵称，例如: 叫我大王"@ && final(store)@ == m
                    &&& n.len() > 0 && encode_utf8(n).len() > 60 ==> r.0->0@ == "昵称太长了，请控制在 20 个字以内"@
                        && final(store)@ == m
                    &&& n.len() > 0 && encode_utf8(n).len() <= 60 ==> {
                        &&& !taken_by_other(m, user_id@, n) ==> r.0->0@ == nickname_set_text(n) && final(store)@
                            == m.insert(user_id@, n)
                        &&& taken_by_other(m, user_id@, n) && !has_nickname(m, user_id@, n) ==> r.0->0@
                            == nickname_taken_text(n) && final(store)@ == m
                        &&& taken_by_other(m, user_id@, n) && has_nickname(m, user_id@, n) ==> (r.0->0@
                            == nickname_taken_text(n) || r.0->0@ == nickname_set_text(n)) && final(store)@ == m
                    }
                },
                NicknameCommand::Other => r.0 is None && final(store)@ == old(store)@,
            },
            r.1 ==> nickname_command(text@) is SetNickname,
            match nickname_command(text@) {
                NicknameCommand::SetNickname(n) => {
                    &&& r.1 ==> final(store)@ == old(store)@.insert(user_id@, n)
                    &&& !(taken_by_other(old(store)@, user_id@, n) && has_nickname(old(store)@, user_id@, n))
                        ==> r.1 == nickname_written(old(store)@, user_id@, n)
                },
                _ => !r.1,
            },
    {
        let t = trim_chars(&chars_of(text));
        if chars_eq(&t, &chars_of("我是谁")) {
            return (Some(self.whoami(store, user_id)), false);
        }
        if chars_eq(&t, &chars_of("用户列表")) {
            return (Some(self.user_list(store, ctx)), false);
        }
        let prefix = chars_of("叫我");
        if has_prefix(&t, &prefix) {
            let empty: Vec<char> = Vec::new();
            assert(empty@ =~= Seq::<char>::empty());
            let nickname = string_from(&trim_chars(&replace_first_chars(&t, &prefix, &empty)));
            let (answer, written) = self.set_nickname_reporting(store, user_id, nickname.as_str());
            return (Some(answer), written);
        }
        (None, false)
    }
}

/// No two users go by the same nickname.
pub open spec fn nicknames_unique(m: Map<Seq<char>, Seq<char>>) -> bool {
    forall|u: Seq<char>, v: Seq<char>| #[trigger] m.contains_key(u) && #[trigger] m.contains_key(v) && u != v ==> m[u]
        != m[v]
}

/// Setting nicknames only through `叫我` keeps them unique: a nickname
/// another user goes by is refused, and otherwise the store gains or changes
/// just the sender's nickname.
pub proof fn lemma_set_nickname_keeps_unique(
    m: Map<Seq<char>, Seq<char>>,
    user_id: Seq<char>,
    nickname: Seq<char>,
)
    requires
        nicknames_unique(m),
    ensures
        !taken_by_other(m, user_id, nickname) ==> nicknames_unique(m.insert(user_id, nickname)),
        !(taken_by_other(m, user_id, nickname) && has_nickname(m, user_id, nickname)),
{
    let m2 = m.insert(user_id, nickname);
    if !taken_by_other(m, user_id, nickname) {
        assert forall|u: Seq<char>, v: Seq<char>| #[trigger] m2.contains_key(u) && #[trigger] m2.contains_key(v) && u
            != v implies m2[u] != m2[v] by {
            if u == user_id {
                assert(!(m.contains_key(v) && m[v] == nickname && v != user_id));
            } else if v == user_id {
                assert(!(m.contains_key(u) && m[u] == nickname && u != user_id));
            }
        }
    }
    if taken_by_other(m, user_id, nickname) && has_nickname(m, user_id, nickname) {
        let u = choose|u: Seq<char>| #[trigger] m.contains_key(u) && m[u] == nickname && u != user_id;
        assert(m.contains_key(user_id) && m.contains_key(u));
    }
}

} // verus!
