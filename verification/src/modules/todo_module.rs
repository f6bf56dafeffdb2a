//! The to-do module: add, list, complete, delete and clear to-do items.
//!
//! Commands: `待办 <text>` / `todo <text>` adds; `待办列表` / `todo list` lists
//! what is pending; `完成 <n>` / `done <n>` completes; `删除待办 <n>` deletes;
//! `所有待办` lists everything; `清空已完成` removes what is done.
use crate::router::{MatchType, RouteRule, RouteRuleView};
use crate::text::{
    append_chars, ascii_lower, ascii_lower_chars, chars_eq, chars_of, decimal, has_prefix, join, join_chars,
    parse_unsigned, parse_unsigned_chars, replace_first, replace_first_chars, slice_range, starts_with,
    string_from, trim, trim_chars, trim_start_char, trim_start_char_chars, u64_to_decimal, views,
};
use crate::todo_store::{
    add_effect, clear_done_effect, complete_effect, delete_effect, done_count, id_index, item_views, new_item,
    pending, pending_index, todos_of, ItemView, TodoItem, TodoStore, TodosView,
};
use vstd::prelude::*;
use vstd::utf8::encode_utf8;

verus! {

/// What a message asks of the to-do module.
pub enum TodoCommand {
    ListPending,
    ListAll,
    ClearDone,
    /// Complete the item with this number text.
    Complete(Seq<char>),
    /// Delete the item with this number text.
    Delete(Seq<char>),
    /// Add an item with this content.
    Add(Seq<char>),
    /// Anything else, which the module leaves unanswered.
    Other,
}

/// Reads a message's trimmed text as a to-do command; the commands are tried
/// in a fixed order.
pub open spec fn todo_command(text: Seq<char>) -> TodoCommand {
    let t = trim(text);
    if t == "待办列表"@ || ascii_lower(t) == "todo list"@ {
        TodoCommand::ListPending
    } else if t == "所有待办"@ {
        TodoCommand::ListAll
    } else if t == "清空已完成"@ {
        TodoCommand::ClearDone
    } else if starts_with(t, "完成"@) || starts_with(t, "done "@) {
        TodoCommand::Complete(trim(replace_first(replace_first(t, "完成"@, Seq::empty()), "done "@, Seq::empty())))
    } else if starts_with(t, "删除待办"@) {
        TodoCommand::Delete(trim(replace_first(t, "删除待办"@, Seq::empty())))
    } else if starts_with(t, "待办"@) {
        TodoCommand::Add(trim(replace_first(t, "待办"@, Seq::empty())))
    } else if starts_with(ascii_lower(t), "todo "@) {
        TodoCommand::Add(trim(t.skip(5)))
    } else {
        TodoCommand::Other
    }
}

/// The item number a command names: its text without leading `#`, as a `u32`.
pub open spec fn item_number(s: Seq<char>) -> Option<u32> {
    match parse_unsigned(trim_start_char(s, '#'), 0xFFFF_FFFF) {
        Some(n) => Some(n as u32),
        None => None,
    }
}

pub open spec fn no_todos_text() -> Seq<char> {
    "📋 你还没有任何待办\n\n发送「待办 <内容>」添加"@
}

pub open spec fn done_note(done: nat) -> Seq<char> {
    "\n\n✅ 已完成 "@ + decimal(done) + " 项（发送「所有待办」查看）"@
}

/// A pending item's line.
pub open spec fn pending_line(x: ItemView) -> Seq<char> {
    decimal(x.id as nat) + ". ⬜ "@ + x.content
}

/// An item's line in the full list.
pub open spec fn item_line(x: ItemView) -> Seq<char> {
    decimal(x.id as nat) + ". "@ + (if x.done {
        "✅"@
    } else {
        "⬜"@
    }) + " "@ + x.content
}

/// The answer to `待办列表` for a user's items.
pub open spec fn pending_text(items: Seq<ItemView>) -> Seq<char> {
    let p = pending(items);
    let d = done_count(items);
    if p.len() == 0 && d == 0 {
        no_todos_text()
    } else if p.len() == 0 {
        "📋 没有未完成的待办"@ + done_note(d)
    } else {
        "📋 你的待办 ("@ + decimal(p.len()) + "项):\n"@ + join(p.map_values(|x: ItemView| pending_line(x)), "\n"@)
            + if d > 0 {
            done_note(d)
        } else {
            Seq::empty()
        }
    }
}

/// `待办列表` says that there are no to-dos at all exactly when the user has
/// no item; a user whose items are all done is told that nothing is pending
/// and how many items are done.
pub proof fn lemma_pending_reply_when_nothing_pending(items: Seq<ItemView>)
    ensures
        items.len() == 0 ==> pending_text(items) == "📋 你还没有任何待办\n\n发送「待办 <内容>」添加"@,
        items.len() > 0 ==> pending_text(items) != "📋 你还没有任何待办\n\n发送「待办 <内容>」添加"@,
        items.len() > 0 && (forall|i: int| 0 <= i < items.len() ==> #[trigger] items[i].done) ==> pending_text(items)
            == "📋 没有未完成的待办\n\n✅ 已完成 "@ + decimal(items.len()) + " 项（发送「所有待办」查看）"@,
{
    crate::todo_store::lemma_pending_plus_done(items);
    reveal_strlit("📋 你还没有任何待办\n\n发送「待办 <内容>」添加");
    reveal_strlit("📋 没有未完成的待办");
    reveal_strlit("📋 你的待办 (");
    reveal_strlit("\n\n✅ 已完成 ");
    reveal_strlit(" 项（发送「所有待办」查看）");
    reveal_strlit("📋 没有未完成的待办\n\n✅ 已完成 ");
    if items.len() > 0 {
        let p = pending(items);
        let d = done_count(items);
        let none = "📋 你还没有任何待办\n\n发送「待办 <内容>」添加"@;
        if p.len() == 0 {
            let t = "📋 没有未完成的待办"@ + done_note(d);
            assert(t[2] != none[2]);
        } else {
            let t = "📋 你的待办 ("@ + decimal(p.len()) + "项):\n"@ + join(
                p.map_values(|x: ItemView| pending_line(x)),
                "\n"@,
            ) + if d > 0 {
                done_note(d)
            } else {
                Seq::empty()
            };
            assert(t[3] != none[3]);
        }
        if forall|i: int| 0 <= i < items.len() ==> #[trigger] items[i].done {
            lemma_all_done_none_pending(items);
            assert("📋 没有未完成的待办"@ + done_note(items.len()) =~= "📋 没有未完成的待办\n\n✅ 已完成 "@ + decimal(
                items.len(),
            ) + " 项（发送「所有待办」查看）"@);
        }
    }
}

proof fn lemma_all_done_none_pending(items: Seq<ItemView>)
    requires
        forall|i: int| 0 <= i < items.len() ==> #[trigger] items[i].done,
    ensures
        pending(items).len() == 0,
    decreases items.len(),
{
    if items.len() > 0 {
        let u = items.drop_last();
        assert forall|i: int| 0 <= i < u.len() implies #[trigger] u[i].done by {
            assert(u[i] == items[i]);
        }
        lemma_all_done_none_pending(u);
    }
}

/// The answer to `所有待办` for a user's items.
pub open spec fn all_text(items: Seq<ItemView>) -> Seq<char> {
    if items.len() == 0 {
        no_todos_text()
    } else {
        "📋 所有待办 ("@ + decimal(pending(items).len()) + "项未完成, "@ + decimal(done_count(items))
            + "项已完成):\n"@ + join(items.map_values(|x: ItemView| item_line(x)), "\n"@)
    }
}

pub open spec fn added_text(x: ItemView) -> Seq<char> {
    "✅ 待办已添加:\n#"@ + decimal(x.id as nat) + " "@ + x.content
}

pub open spec fn completed_text(x: ItemView) -> Seq<char> {
    "✅ 已完成: #"@ + decimal(x.id as nat) + " "@ + x.content
}

/// Completing `user`'s item `id` at time `now` turns the store `m` into
/// `m2`, answered with `reply`.
pub open spec fn completion_reply(
    m: Map<Seq<char>, TodosView>,
    user: Seq<char>,
    id: u32,
    now: i64,
    m2: Map<Seq<char>, TodosView>,
    reply: Seq<char>,
) -> bool {
    let (m3, x) = complete_effect(m, user, id, now);
    &&& m2 == m3
    &&& reply == match x {
        Some(x) => completed_text(x),
        None => "未找到编号 #"@ + decimal(id as nat) + " 的未完成待办"@,
    }
}

pub open spec fn deleted_text(x: ItemView) -> Seq<char> {
    "🗑️ 已删除: #"@ + decimal(x.id as nat) + " "@ + x.content
}

pub open spec fn cleared_text(n: nat) -> Seq<char> {
    if n == 0 {
        "没有已完成的待办需要清理"@
    } else {
        "🗑️ 已清空 "@ + decimal(n) + " 条已完成的待办"@
    }
}

/// Adding `content` to `user`'s list at time `now` turns the store `m` into
/// `m2`, answered with `reply`.
pub open spec fn addition_reply(
    m: Map<Seq<char>, TodosView>,
    user: Seq<char>,
    content: Seq<char>,
    now: i64,
    m2: Map<Seq<char>, TodosView>,
    reply: Seq<char>,
) -> bool {
    m2 == add_effect(m, user, content, now) && reply == added_text(new_item(todos_of(m, user), content, now))
}

/// What `待办 <content>` from `user` does: refuses empty or over-long
/// content, else adds it (at some time `now`).
pub open spec fn add_outcome(
    m: Map<Seq<char>, TodosView>,
    user: Seq<char>,
    content: Seq<char>,
    m2: Map<Seq<char>, TodosView>,
    reply: Seq<char>,
) -> bool {
    if content.len() == 0 {
        reply == "请输入待办内容，例如: 待办 明天下午3点开会"@ && m2 == m
    } else if encode_utf8(content).len() > 500 {
        reply == "待办内容太长了，请控制在 500 字以内"@ && m2 == m
    } else {
        exists|now: i64| #[trigger] addition_reply(m, user, content, now, m2, reply)
    }
}

/// What `完成 <num>` from `user` does.
pub open spec fn complete_outcome(
    m: Map<Seq<char>, TodosView>,
    user: Seq<char>,
    num: Seq<char>,
    m2: Map<Seq<char>, TodosView>,
    reply: Seq<char>,
) -> bool {
    match item_number(num) {
        None => reply == "请输入待办编号，例如: 完成 1"@ && m2 == m,
        Some(id) => exists|now: i64| #[trigger] completion_reply(m, user, id, now, m2, reply),
    }
}

/// What `删除待办 <num>` from `user` does.
pub open spec fn delete_outcome(
    m: Map<Seq<char>, TodosView>,
    user: Seq<char>,
    num: Seq<char>,
    m2: Map<Seq<char>, TodosView>,
    reply: Seq<char>,
) -> bool {
    match item_number(num) {
        None => reply == "请输入待办编号，例如: 删除待办 1"@ && m2 == m,
        Some(id) => {
            let (m3, x) = delete_effect(m, user, id);
            &&& m2 == m3
            &&& reply == match x {
                Some(x) => deleted_text(x),
                None => "未找到编号 #"@ + decimal(id as nat) + " 的待办"@,
            }
        },
    }
}

/// Whether adding `content` for `user` is accepted (non-empty, at most 500
/// bytes).
pub open spec fn add_accepted(content: Seq<char>) -> bool {
    content.len() > 0 && encode_utf8(content).len() <= 500
}

/// Whether a command from `user` changes the store `m`, so that `user`'s
/// file has to be written: an accepted addition, completing a pending item,
/// deleting an existing item, or clearing at least one done item.
pub open spec fn todo_store_written(m: Map<Seq<char>, TodosView>, user: Seq<char>, cmd: TodoCommand) -> bool {
    let items = todos_of(m, user).items;
    match cmd {
        TodoCommand::Add(c) => add_accepted(c),
        TodoCommand::Complete(n) => match item_number(n) {
            Some(id) => pending_index(items, id) is Some,
            None => false,
        },
        TodoCommand::Delete(n) => match item_number(n) {
            Some(id) => id_index(items, id) is Some,
            None => false,
        },
        TodoCommand::ClearDone => done_count(items) > 0,
        _ => false,
    }
}

fn push_str(out: &mut Vec<char>, s: &str)
    ensures
        final(out)@ == old(out)@ + s@,
{
    append_chars(out, &chars_of(s));
}

fn push_number(out: &mut Vec<char>, n: u64)
    ensures
        final(out)@ == old(out)@ + decimal(n as nat),
{
    crate::text::push_decimal(out, n);
}

/// The item number `num` names.
fn parse_item_number(num: &str) -> (r: Option<u32>)
    ensures
        r == item_number(num@),
{
    match parse_unsigned_chars(&trim_start_char_chars(&chars_of(num), '#'), 0xFFFF_FFFF) {
        Some(v) => Some(v as u32),
        None => None,
    }
}

/// `#<id> <content>` after `head`.
fn item_reply(head: &str, x: &TodoItem) -> (r: String)
    ensures
        r@ == head@ + decimal(x.id as nat) + " "@ + x.content@,
{
    let mut v = chars_of(head);
    push_number(&mut v, x.id as u64);
    push_str(&mut v, " ");
    push_str(&mut v, x.content.as_str());
    string_from(&v)
}

/// Handles the to-do commands.
pub struct TodoModule;

impl TodoModule {
    pub fn new() -> (r: TodoModule) {
        TodoModule
    }

    pub fn name(&self) -> (r: &'static str)
        ensures
            r@ == "TodoModule"@,
    {
        "TodoModule"
    }

    /// Seven rules, tried in this order.
    pub fn routes(&self) -> (r: Vec<RouteRule>)
        ensures
            r@.len() == 7,
            r@[0]@ == (RouteRuleView { name: "todo_add"@, pattern: "待办"@, match_type: MatchType::Prefix }),
            r@[1]@ == (RouteRuleView { name: "todo_add_en"@, pattern: "todo "@, match_type: MatchType::Prefix }),
            r@[2]@ == (RouteRuleView { name: "todo_complete"@, pattern: "完成"@, match_type: MatchType::Prefix }),
            r@[3]@ == (RouteRuleView { name: "todo_complete_en"@, pattern: "done "@, match_type: MatchType::Prefix }),
            r@[4]@ == (RouteRuleView { name: "todo_delete"@, pattern: "删除待办"@, match_type: MatchType::Prefix }),
            r@[5]@ == (RouteRuleView { name: "todo_all"@, pattern: "所有待办"@, match_type: MatchType::Exact }),
            r@[6]@ == (RouteRuleView { name: "todo_clear"@, pattern: "清空已完成"@, match_type: MatchType::Exact }),
    {
        let mut v: Vec<RouteRule> = Vec::new();
        v.push(RouteRule::new("todo_add", "待办", MatchType::Prefix));
        v.push(RouteRule::new("todo_add_en", "todo ", MatchType::Prefix));
        v.push(RouteRule::new("todo_complete", "完成", MatchType::Prefix));
        v.push(RouteRule::new("todo_complete_en", "done ", MatchType::Prefix));
        v.push(RouteRule::new("todo_delete", "删除待办", MatchType::Prefix));
        v.push(RouteRule::new("todo_all", "所有待办", MatchType::Exact));
        v.push(RouteRule::new("todo_clear", "清空已完成", MatchType::Exact));
        v
    }

    /// Reads the command a message's text is.
    pub fn command(&self, text: &str) -> (r: (TodoCommandKind, String))
        ensures
            match todo_command(text@) {
                TodoCommand::ListPending => r.0 == TodoCommandKind::ListPending,
                TodoCommand::ListAll => r.0 == TodoCommandKind::ListAll,
                TodoCommand::ClearDone => r.0 == TodoCommandKind::ClearDone,
                TodoCommand::Complete(s) => r.0 == TodoCommandKind::Complete && r.1@ == s,
                TodoCommand::Delete(s) => r.0 == TodoCommandKind::Delete && r.1@ == s,
                TodoCommand::Add(s) => r.0 == TodoCommandKind::Add && r.1@ == s,
                TodoCommand::Other => r.0 == TodoCommandKind::Other,
            },
    {
        let t = trim_chars(&chars_of(text));
        let lower = ascii_lower_chars(&t);
        let empty: Vec<char> = Vec::new();
        assert(empty@ =~= Seq::<char>::empty());
        if chars_eq(&t, &chars_of("待办列表")) || chars_eq(&lower, &chars_of("todo list")) {
            return (TodoCommandKind::ListPending, String::new());
        }
        if chars_eq(&t, &chars_of("所有待办")) {
            return (TodoCommandKind::ListAll, String::new());
        }
        if chars_eq(&t, &chars_of("清空已完成")) {
            return (TodoCommandKind::ClearDone, String::new());
        }
        let done_zh = chars_of("完成");
        let done_en = chars_of("done ");
        if has_prefix(&t, &done_zh) || has_prefix(&t, &done_en) {
            let a = replace_first_chars(&t, &done_zh, &empty);
            let b = replace_first_chars(&a, &done_en, &empty);
            return (TodoCommandKind::Complete, string_from(&trim_chars(&b)));
        }
        let del = chars_of("删除待办");
        if has_prefix(&t, &del) {
            return (TodoCommandKind::Delete, string_from(&trim_chars(&replace_first_chars(&t, &del, &empty))));
        }
        let add = chars_of("待办");
        if has_prefix(&t, &add) {
            return (TodoCommandKind::Add, string_from(&trim_chars(&replace_first_chars(&t, &add, &empty))));
        }
        if has_prefix(&lower, &chars_of("todo ")) {
            proof {
                reveal_strlit("todo ");
            }
            let rest = slice_range(&t, 5, t.len());
            assert(rest@ =~= t@.skip(5));
            return (TodoCommandKind::Add, string_from(&trim_chars(&rest)));
        }
        (TodoCommandKind::Other, String::new())
    }

    /// Adds `content` to `user`'s list when it is non-empty and at most 500
    /// bytes long; answers accordingly.
    pub fn add(&self, store: &mut TodoStore, user: &str, content: &str) -> (r: String)
        requires
            old(store).wf(),
            add_accepted(content@) ==> todos_of(old(store)@, user@).next_id < u32::MAX,
        ensures
            final(store).wf(),
            add_outcome(old(store)@, user@, content@, final(store)@, r@),
    {
        self.add_reporting(store, user, content).0
    }

    fn add_reporting(&self, store: &mut TodoStore, user: &str, content: &str) -> (r: (String, bool))
        requires
            old(store).wf(),
            add_accepted(content@) ==> todos_of(old(store)@, user@).next_id < u32::MAX,
        ensures
            final(store).wf(),
            add_outcome(old(store)@, user@, content@, final(store)@, r.0@),
            r.1 == add_accepted(content@),
    {
        if content.is_empty() {
            return (String::from_str("请输入待办内容，例如: 待办 明天下午3点开会"), false);
        }
        if content.as_bytes().len() > 500 {
            return (String::from_str("待办内容太长了，请控制在 500 字以内"), false);
        }
        let ghost before = store@;
        let item = store.add(user, content);
        let r = item_reply("✅ 待办已添加:\n#", &item);
        assert(addition_reply(before, user@, content@, item.created_at, store@, r@));
        (r, true)
    }

    /// The answer to `待办列表`.
    pub fn list_pending(&self, store: &TodoStore, user: &str) -> (r: String)
        requires
            store.wf(),
        ensures
            r@ == pending_text(todos_of(store@, user@).items),
    {
        let pend = store.list_pending(user);
        let done = store.count_done(user);
        let ghost items = todos_of(store@, user@).items;
        if pend.len() == 0 && done == 0 {
            return String::from_str("📋 你还没有任何待办\n\n发送「待办 <内容>」添加");
        }
        let mut v: Vec<char> = Vec::new();
        if pend.len() == 0 {
            push_str(&mut v, "📋 没有未完成的待办");
            push_str(&mut v, "\n\n✅ 已完成 ");
            push_number(&mut v, done as u64);
            push_str(&mut v, " 项（发送「所有待办」查看）");
            return string_from(&v);
        }
        let mut lines: Vec<Vec<char>> = Vec::new();
        let mut i: usize = 0;
        while i < pend.len()
            invariant
                i <= pend@.len(),
                views(lines@) == item_views(pend@).take(i as int).map_values(|x: ItemView| pending_line(x)),
            decreases pend@.len() - i,
        {
            let mut line: Vec<char> = Vec::new();
            push_number(&mut line, pend[i].id as u64);
            push_str(&mut line, ". ⬜ ");
            push_str(&mut line, pend[i].content.as_str());
            let ghost before = lines@;
            lines.push(line);
            proof {
                assert(item_views(pend@)[i as int] == pend@[i as int]@);
                assert(views(lines@) =~= views(before).push(pending_line(pend@[i as int]@)));
                assert(item_views(pend@).take(i + 1).map_values(|x: ItemView| pending_line(x)) =~= item_views(
                    pend@,
                ).take(i as int).map_values(|x: ItemView| pending_line(x)).push(pending_line(pend@[i as int]@)));
            }
            i = i + 1;
        }
        assert(item_views(pend@).take(i as int) =~= item_views(pend@));
        push_str(&mut v, "📋 你的待办 (");
        push_number(&mut v, pend.len() as u64);
        push_str(&mut v, "项):\n");
        append_chars(&mut v, &join_chars(&lines, &chars_of("\n")));
        if done > 0 {
            push_str(&mut v, "\n\n✅ 已完成 ");
            push_number(&mut v, done as u64);
            push_str(&mut v, " 项（发送「所有待办」查看）");
        } else {
            assert(v@ + Seq::<char>::empty() =~= v@);
        }
        proof {
            assert(item_views(pend@).len() == pend@.len());
        }
        string_from(&v)
    }

    /// The answer to `所有待办`.
    pub fn list_all(&self, store: &TodoStore, user: &str) -> (r: String)
        requires
            store.wf(),
        ensures
            r@ == all_text(todos_of(store@, user@).items),
    {
        let all = store.list_all(user);
        let ghost items = item_views(all@);
        if all.len() == 0 {
            return String::from_str("📋 你还没有任何待办\n\n发送「待办 <内容>」添加");
        }
        let mut lines: Vec<Vec<char>> = Vec::new();
        let mut pending_count: usize = 0;
        let mut i: usize = 0;
        while i < all.len()
            invariant
                i <= all@.len(),
                items == item_views(all@),
                views(lines@) == items.take(i as int).map_values(|x: ItemView| item_line(x)),
                pending_count == pending(items.take(i as int)).len(),
                pending_count <= i,
            decreases all@.len() - i,
        {
            let mut line: Vec<char> = Vec::new();
            push_number(&mut line, all[i].id as u64);
            push_str(&mut line, ". ");
            if all[i].done {
                push_str(&mut line, "✅");
            } else {
                push_str(&mut line, "⬜");
                pending_count = pending_count + 1;
            }
            push_str(&mut line, " ");
            push_str(&mut line, all[i].content.as_str());
            let ghost before = lines@;
            lines.push(line);
            proof {
                assert(items[i as int] == all@[i as int]@);
                assert(items.take(i + 1).drop_last() =~= items.take(i as int));
                assert(views(lines@) =~= views(before).push(item_line(items[i as int])));
                assert(items.take(i + 1).map_values(|x: ItemView| item_line(x)) =~= items.take(
                    i as int,
                ).map_values(|x: ItemView| item_line(x)).push(item_line(items[i as int])));
            }
            i = i + 1;
        }
        assert(items.take(i as int) =~= items);
        proof {
            crate::todo_store::lemma_pending_plus_done(items);
        }
        let done_count_now = all.len() - pending_count;
        let mut v: Vec<char> = Vec::new();
        push_str(&mut v, "📋 所有待办 (");
        push_number(&mut v, pending_count as u64);
        push_str(&mut v, "项未完成, ");
        push_number(&mut v, done_count_now as u64);
        push_str(&mut v, "项已完成):\n");
        append_chars(&mut v, &join_chars(&lines, &chars_of("\n")));
        string_from(&v)
    }

    /// Completes `user`'s pending item named by `num`; answers accordingly.
    pub fn complete(&self, store: &mut TodoStore, user: &str, num: &str) -> (r: String)
        requires
            old(store).wf(),
        ensures
            final(store).wf(),
            complete_outcome(old(store)@, user@, num@, final(store)@, r@),
    {
        self.complete_reporting(store, user, num).0
    }

    fn complete_reporting(&self, store: &mut TodoStore, user: &str, num: &str) -> (r: (String, bool))
        requires
            old(store).wf(),
        ensures
            final(store).wf(),
            complete_outcome(old(store)@, user@, num@, final(store)@, r.0@),
            r.1 == todo_store_written(old(store)@, user@, TodoCommand::Complete(num@)),
    {
        let id: u32 = match parse_item_number(num) {
            Some(v) => v,
            None => {
                return (String::from_str("请输入待办编号，例如: 完成 1"), false);
            },
        };
        match store.complete(user, id) {
            Some(item) => {
                let r = item_reply("✅ 已完成: #", &item);
                assert(completion_reply(old(store)@, user@, id, item.completed_at.unwrap(), store@, r@));
                (r, true)
            },
            None => {
                let mut v = chars_of("未找到编号 #");
                push_number(&mut v, id as u64);
                push_str(&mut v, " 的未完成待办");
                let r = string_from(&v);
                assert(completion_reply(old(store)@, user@, id, 0, store@, r@));
                (r, false)
            },
        }
    }

    /// Deletes `user`'s item named by `num`; answers accordingly.
    pub fn delete(&self, store: &mut TodoStore, user: &str, num: &str) -> (r: String)
        requires
            old(store).wf(),
        ensures
            final(store).wf(),
            delete_outcome(old(store)@, user@, num@, final(store)@, r@),
    {
        self.delete_reporting(store, user, num).0
    }

    fn delete_reporting(&self, store: &mut TodoStore, user: &str, num: &str) -> (r: (String, bool))
        requires
            old(store).wf(),
        ensures
            final(store).wf(),
            delete_outcome(old(store)@, user@, num@, final(store)@, r.0@),
            r.1 == todo_store_written(old(store)@, user@, TodoCommand::Delete(num@)),
    {
        let id: u32 = match parse_item_number(num) {
            Some(v) => v,
            None => {
                return (String::from_str("请输入待办编号，例如: 删除待办 1"), false);
            },
        };
        match store.delete(user, id) {
            Some(item) => (item_reply("🗑️ 已删除: #", &item), true),
            None => {
                let mut v = chars_of("未找到编号 #");
                push_number(&mut v, id as u64);
                push_str(&mut v, " 的待办");
                (string_from(&v), false)
            },
        }
    }

    /// Removes `user`'s done items; answers with how many went.
    pub fn clear_done(&self, store: &mut TodoStore, user: &str) -> (r: String)
        requires
            old(store).wf(),
        ensures
            final(store).wf(),
            final(store)@ == clear_done_effect(old(store)@, user@),
            r@ == cleared_text(done_count(todos_of(old(store)@, user@).items)),
    {
        self.clear_done_reporting(store, user).0
    }

    fn clear_done_reporting(&self, store: &mut TodoStore, user: &str) -> (r: (String, bool))
        requires
            old(store).wf(),
        ensures
            final(store).wf(),
            final(store)@ == clear_done_effect(old(store)@, user@),
            r.0@ == cleared_text(done_count(todos_of(old(store)@, user@).items)),
            r.1 == (done_count(todos_of(old(store)@, user@).items) > 0),
    {
        let removed = store.clear_done(user);
        if removed == 0 {
            (String::from_str("没有已完成的待办需要清理"), false)
        } else {
            let mut v = chars_of("🗑️ 已清空 ");
            push_number(&mut v, removed as u64);
            push_str(&mut v, " 条已完成的待办");
            (string_from(&v), true)
        }
    }
}

impl TodoModule {
    /// The answer to a message from `user` with text `text`, if the module
    /// answers it.
    pub fn respond(&self, store: &mut TodoStore, user: &str, text: &str) -> (r: Option<String>)
        requires
            old(store).wf(),
            todo_command(text@) matches TodoCommand::Add(c) && add_accepted(c) ==> todos_of(old(store)@, user@).next_id
                < u32::MAX,
        ensures
            final(store).wf(),
            match todo_command(text@) {
                TodoCommand::ListPending => r matches Some(s) && s@ == pending_text(todos_of(old(store)@, user@).items)
                    && final(store)@ == old(store)@,
                TodoCommand::ListAll => r matches Some(s) && s@ == all_text(todos_of(old(store)@, user@).items)
                    && final(store)@ == old(store)@,
                TodoCommand::ClearDone => r matches Some(s) && s@ == cleared_text(
                    done_count(todos_of(old(store)@, user@).items),
                ) && final(store)@ == clear_done_effect(old(store)@, user@),
                TodoCommand::Complete(n) => r matches Some(s) && complete_outcome(old(store)@, user@, n, final(store)@, s@),
                TodoCommand::Delete(n) => r matches Some(s) && delete_outcome(old(store)@, user@, n, final(store)@, s@),
                TodoCommand::Add(c) => r matches Some(s) && add_outcome(old(store)@, user@, c, final(store)@, s@),
                TodoCommand::Other => r is None && final(store)@ == old(store)@,
            },
    {
        self.respond_and_report(store, user, text).0
    }

    /// `respond`, and whether the store changed so that `user`'s file has to
    /// be written.
    pub fn respond_and_report(&self, store: &mut TodoStore, user: &str, text: &str) -> (r: (Option<String>, bool))
        requires
            old(store).wf(),
            todo_command(text@) matches TodoCommand::Add(c) && add_accepted(c) ==> todos_of(old(store)@, user@).next_id
                < u32::MAX,
        ensures
            final(store).wf(),
            match todo_command(text@) {
                TodoCommand::ListPending => r.0 matches Some(s) && s@ == pending_text(todos_of(old(store)@, user@).items)
                    && final(store)@ == old(store)@,
                TodoCommand::ListAll => r.0 matches Some(s) && s@ == all_text(todos_of(old(store)@, user@).items)
                    && final(store)@ == old(store)@,
                TodoCommand::ClearDone => r.0 matches Some(s) && s@ == cleared_text(
                    done_count(todos_of(old(store)@, user@).items),
                ) && final(store)@ == clear_done_effect(old(store)@, user@),
                TodoCommand::Complete(n) => r.0 matches Some(s) && complete_outcome(old(store)@, user@, n, final(store)@, s@),
                TodoCommand::Delete(n) => r.0 matches Some(s) && delete_outcome(old(store)@, user@, n, final(store)@, s@),
                TodoCommand::Add(c) => r.0 matches Some(s) && add_outcome(old(store)@, user@, c, final(store)@, s@),
                TodoCommand::Other => r.0 is None && final(store)@ == old(store)@,
            },
            r.1 == todo_store_written(old(store)@, user@, todo_command(text@)),
    {
        let (kind, arg) = self.command(text);
        match kind {
            TodoCommandKind::ListPending => (Some(self.list_pending(store, user)), false),
            TodoCommandKind::ListAll => (Some(self.list_all(store, user)), false),
            TodoCommandKind::ClearDone => {
                let (s, w) = self.clear_done_reporting(store, user);
                (Some(s), w)
            },
            TodoCommandKind::Complete => {
                let (s, w) = self.complete_reporting(store, user, arg.as_str());
                (Some(s), w)
            },
            TodoCommandKind::Delete => {
                let (s, w) = self.delete_reporting(store, user, arg.as_str());
                (Some(s), w)
            },
            TodoCommandKind::Add => {
                let (s, w) = self.add_reporting(store, user, arg.as_str());
                (Some(s), w)
            },
            TodoCommandKind::Other => (None, false),
        }
    }
}

/// The kinds of `TodoCommand`, as the module reads them.
#[derive(Debug, Clone, Copy, PartialEq, Eq, Structural)]
pub enum TodoCommandKind {
    ListPending,
    ListAll,
    ClearDone,
    Complete,
    Delete,
    Add,
    Other,
}

} // verus!
