//! Per-user to-do lists: items numbered from 1 in the order they are added,
//! completed or deleted by number.
use crate::strmap::{keyed, keyed_distinct, lemma_keyed, lemma_keyed_push, lemma_keyed_update};
use crate::text::{chars_eq, chars_of};
use vstd::utf8::encode_utf8;
use vstd::prelude::*;

verus! {

/// `chrono::Utc::now().timestamp_millis()`: the current time in milliseconds.
/// Nothing is promised of its value.
#[verifier::external_body]
fn now_millis() -> (r: i64) {
    chrono::Utc::now().timestamp_millis()
}

/// One to-do item.
#[derive(Debug, Clone)]
pub struct TodoItem {
    /// Number, from 1, in the order items were added.
    pub id: u32,
    pub content: String,
    pub done: bool,
    /// Creation time (milliseconds).
    pub created_at: i64,
    /// Completion time (milliseconds).
    pub completed_at: Option<i64>,
}

pub struct ItemView {
    pub id: u32,
    pub content: Seq<char>,
    pub done: bool,
    pub created_at: i64,
    pub completed_at: Option<i64>,
}

impl View for TodoItem {
    type V = ItemView;

    open spec fn view(&self) -> ItemView {
        ItemView {
            id: self.id,
            content: self.content@,
            done: self.done,
            created_at: self.created_at,
            completed_at: self.completed_at,
        }
    }
}

impl TodoItem {
    /// A copy of the item.
    pub fn copy_item(&self) -> (r: TodoItem)
        ensures
            r@ == self@,
    {
        TodoItem {
            id: self.id,
            content: self.content.clone(),
            done: self.done,
            created_at: self.created_at,
            completed_at: self.completed_at,
        }
    }
}

/// One user's to-do list.
#[derive(Debug, Clone)]
pub struct UserTodos {
    /// The number the last added item got (the next one gets one more).
    pub next_id: u32,
    pub items: Vec<TodoItem>,
}

pub struct TodosView {
    pub next_id: u32,
    pub items: Seq<ItemView>,
}

/// The views of a list of items.
pub open spec fn item_views(items: Seq<TodoItem>) -> Seq<ItemView> {
    items.map_values(|t: TodoItem| t@)
}

impl View for UserTodos {
    type V = TodosView;

    open spec fn view(&self) -> TodosView {
        TodosView { next_id: self.next_id, items: item_views(self.items@) }
    }
}

impl Default for UserTodos {
    fn default() -> (r: UserTodos)
        ensures
            r@ == empty_todos(),
    {
        let r = UserTodos { next_id: 0, items: Vec::new() };
        assert(item_views(r.items@) =~= Seq::<ItemView>::empty());
        r
    }
}

/// A list that nothing was ever added to.
pub open spec fn empty_todos() -> TodosView {
    TodosView { next_id: 0, items: Seq::empty() }
}

/// The index of the first element that satisfies `p`.
pub open spec fn first_index<T>(s: Seq<T>, p: spec_fn(T) -> bool) -> Option<int>
    decreases s.len(),
{
    if s.len() == 0 {
        None
    } else if p(s[0]) {
        Some(0)
    } else {
        match first_index(s.drop_first(), p) {
            Some(i) => Some(i + 1),
            None => None,
        }
    }
}

pub proof fn lemma_first_index<T>(s: Seq<T>, p: spec_fn(T) -> bool)
    ensures
        match first_index(s, p) {
            Some(i) => 0 <= i < s.len() && p(s[i]) && forall|j: int| 0 <= j < i ==> !p(#[trigger] s[j]),
            None => forall|j: int| 0 <= j < s.len() ==> !p(#[trigger] s[j]),
        },
    decreases s.len(),
{
    if s.len() > 0 {
        lemma_first_index(s.drop_first(), p);
        if !p(s[0]) {
            match first_index(s.drop_first(), p) {
                Some(i) => {
                    assert forall|j: int| 0 <= j < i + 1 implies !p(#[trigger] s[j]) by {
                        if j > 0 {
                            assert(s[j] == s.drop_first()[j - 1]);
                        }
                    }
                },
                None => {
                    assert forall|j: int| 0 <= j < s.len() implies !p(#[trigger] s[j]) by {
                        if j > 0 {
                            assert(s[j] == s.drop_first()[j - 1]);
                        }
                    }
                },
            }
        }
    }
}

/// The items not yet done, in order.
pub open spec fn pending(items: Seq<ItemView>) -> Seq<ItemView>
    decreases items.len(),
{
    if items.len() == 0 {
        Seq::empty()
    } else if items.last().done {
        pending(items.drop_last())
    } else {
        pending(items.drop_last()).push(items.last())
    }
}

/// How many items are done.
pub open spec fn done_count(items: Seq<ItemView>) -> nat
    decreases items.len(),
{
    if items.len() == 0 {
        0
    } else {
        done_count(items.drop_last()) + if items.last().done {
            1nat
        } else {
            0nat
        }
    }
}

/// A user's list, or the empty list for a user with none.
pub open spec fn todos_of(m: Map<Seq<char>, TodosView>, user: Seq<char>) -> TodosView {
    if m.contains_key(user) {
        m[user]
    } else {
        empty_todos()
    }
}

/// The item that adding `content` at time `now` creates.
pub open spec fn new_item(t: TodosView, content: Seq<char>, now: i64) -> ItemView {
    ItemView { id: (t.next_id + 1) as u32, content, done: false, created_at: now, completed_at: None }
}

/// The store after adding `content` to `user`'s list at time `now`.
pub open spec fn add_effect(m: Map<Seq<char>, TodosView>, user: Seq<char>, content: Seq<char>, now: i64) -> Map<
    Seq<char>,
    TodosView,
> {
    let t = todos_of(m, user);
    m.insert(
        user,
        TodosView { next_id: (t.next_id + 1) as u32, items: t.items.push(new_item(t, content, now)) },
    )
}

/// The position of the pending item numbered `id`.
pub open spec fn pending_index(items: Seq<ItemView>, id: u32) -> Option<int> {
    first_index(items, |x: ItemView| x.id == id && !x.done)
}

/// The position of the item numbered `id`.
pub open spec fn id_index(items: Seq<ItemView>, id: u32) -> Option<int> {
    first_index(items, |x: ItemView| x.id == id)
}

/// `x` marked done at time `now`.
pub open spec fn completed(x: ItemView, now: i64) -> ItemView {
    ItemView { done: true, completed_at: Some(now), ..x }
}

/// A user's items are numbered in strictly increasing order, none above the
/// last number given out.
pub open spec fn ids_ordered(t: TodosView) -> bool {
    &&& forall|i: int, j: int| 0 <= i < j < t.items.len() ==> t.items[i].id < t.items[j].id
    &&& forall|i: int| 0 <= i < t.items.len() ==> #[trigger] t.items[i].id <= t.next_id
}

/// The to-do store.
pub struct TodoStore {
    users: Vec<(String, UserTodos)>,
}

impl View for TodoStore {
    type V = Map<Seq<char>, TodosView>;

    closed spec fn view(&self) -> Map<Seq<char>, TodosView> {
        keyed(self.users@).map_values(|t: UserTodos| t@)
    }
}

pub proof fn lemma_first_index_is<T>(s: Seq<T>, p: spec_fn(T) -> bool, k: int)
    requires
        0 <= k < s.len(),
        p(s[k]),
        forall|j: int| 0 <= j < k ==> !p(#[trigger] s[j]),
    ensures
        first_index(s, p) == Some(k),
{
    lemma_first_index(s, p);
    match first_index(s, p) {
        Some(i) => {
            if i < k {
                assert(!p(s[i]));
            }
            if i > k {
                assert(!p(s[k]));
            }
        },
        None => {
            assert(!p(s[k]));
        },
    }
}

/// The position of the first item satisfying `p`, found by scanning.
fn find_item(items: &Vec<TodoItem>, id: u32, pending_only: bool) -> (r: Option<usize>)
    ensures
        r matches Some(k) ==> k < items@.len(),
        pending_only ==> match r {
            Some(k) => pending_index(item_views(items@), id) == Some(k as int),
            None => pending_index(item_views(items@), id) is None,
        },
        !pending_only ==> match r {
            Some(k) => id_index(item_views(items@), id) == Some(k as int),
            None => id_index(item_views(items@), id) is None,
        },
{
    let ghost vs = item_views(items@);
    let ghost p = if pending_only {
        |x: ItemView| x.id == id && !x.done
    } else {
        |x: ItemView| x.id == id
    };
    let mut i: usize = 0;
    while i < items.len()
        invariant
            i <= items@.len() == vs.len(),
            vs == item_views(items@),
            p == (if pending_only {
                |x: ItemView| x.id == id && !x.done
            } else {
                |x: ItemView| x.id == id
            }),
            forall|j: int| 0 <= j < i ==> !p(#[trigger] vs[j]),
        decreases items@.len() - i,
    {
        assert(vs[i as int] == items@[i as int]@);
        if items[i].id == id && (!pending_only || !items[i].done) {
            proof {
                lemma_first_index_is(vs, p, i as int);
            }
            return Some(i);
        }
        i = i + 1;
    }
    proof {
        lemma_first_index(vs, p);
    }
    None
}

impl TodoStore {
    /// The store's internal consistency: no user is held twice.
    pub closed spec fn wf(&self) -> bool {
        keyed_distinct(self.users@)
    }

    proof fn lemma_view(&self)
        requires
            self.wf(),
        ensures
            forall|k: Seq<char>|
                #![trigger self@.contains_key(k)]
                self@.contains_key(k) <==> exists|i: int| 0 <= i < self.users@.len() && self.users@[i].0@ == k,
            forall|i: int|
                0 <= i < self.users@.len() ==> #[trigger] self@[self.users@[i].0@] == self.users@[i].1@,
    {
        lemma_keyed(self.users@);
    }

    pub fn new() -> (r: TodoStore)
        ensures
            r.wf(),
            r@ == Map::<Seq<char>, TodosView>::empty(),
    {
        let r = TodoStore { users: Vec::new() };
        assert(r@ =~= Map::<Seq<char>, TodosView>::empty());
        r
    }

    /// The position of `user`'s list.
    fn find(&self, user: &str) -> (r: Option<usize>)
        requires
            self.wf(),
        ensures
            match r {
                Some(i) => i < self.users@.len() && self.users@[i as int].0@ == user@
                    && self@.contains_key(user@) && self@[user@] == self.users@[i as int].1@,
                None => !self@.contains_key(user@),
            },
    {
        proof {
            self.lemma_view();
        }
        let uc = chars_of(user);
        let mut i: usize = 0;
        while i < self.users.len()
            invariant
                self.wf(),
                i <= self.users@.len(),
                uc@ == user@,
                forall|j: int| 0 <= j < i ==> self.users@[j].0@ != user@,
            decreases self.users@.len() - i,
        {
            if chars_eq(&chars_of(self.users[i].0.as_str()), &uc) {
                proof {
                    self.lemma_view();
                }
                return Some(i);
            }
            i = i + 1;
        }
        None
    }

    /// Puts `todos` back at position `i`, under the same user.
    fn put_back(&mut self, i: usize, user: String, todos: UserTodos)
        requires
            old(self).wf(),
            i < old(self).users@.len(),
            old(self).users@[i as int].0@ == user@,
        ensures
            final(self).wf(),
            final(self)@ == old(self)@.insert(user@, todos@),
    {
        let ghost old_users = self.users@;
        let e = (user, todos);
        let ghost ev = e;
        self.users.set(i, e);
        proof {
            lemma_keyed_update(old_users, i as int, ev);
            assert(self.users@ == old_users.update(i as int, ev));
            assert(keyed(self.users@).map_values(|t: UserTodos| t@) =~= keyed(old_users).map_values(
                |t: UserTodos| t@,
            ).insert(ev.0@, ev.1@));
        }
    }

    /// Adds `content` to `user`'s list, stamped with the current time, and
    /// returns the new item.
    pub fn add(&mut self, user: &str, content: &str) -> (r: TodoItem)
        requires
            old(self).wf(),
            todos_of(old(self)@, user@).next_id < u32::MAX,
        ensures
            final(self).wf(),
            final(self)@ == add_effect(old(self)@, user@, content@, r.created_at),
            r@ == new_item(todos_of(old(self)@, user@), content@, r.created_at),
    {
        let now = now_millis();
        self.add_at(user, content, now)
    }

    /// Adds `content` to `user`'s list at time `now`: the item gets the number
    /// after the last one given out, and goes at the end.
    pub fn add_at(&mut self, user: &str, content: &str, now: i64) -> (r: TodoItem)
        requires
            old(self).wf(),
            todos_of(old(self)@, user@).next_id < u32::MAX,
        ensures
            final(self).wf(),
            final(self)@ == add_effect(old(self)@, user@, content@, now),
            r@ == new_item(todos_of(old(self)@, user@), content@, now),
    {
        let ghost old_map = self@;
        match self.find(user) {
            Some(i) => {
                let key = self.users[i].0.clone();
                let mut todos = self.users[i].1.clone_todos();
                todos.next_id = todos.next_id + 1;
                let item = TodoItem {
                    id: todos.next_id,
                    content: String::from_str(content),
                    done: false,
                    created_at: now,
                    completed_at: None,
                };
                let ghost before = todos.items@;
                todos.items.push(item.copy_item());
                assert(item_views(todos.items@) =~= item_views(before).push(item@));
                self.put_back(i, key, todos);
                item
            },
            None => {
                let item = TodoItem {
                    id: 1,
                    content: String::from_str(content),
                    done: false,
                    created_at: now,
                    completed_at: None,
                };
                let mut items: Vec<TodoItem> = Vec::new();
                items.push(item.copy_item());
                let todos = UserTodos { next_id: 1, items };
                assert(item_views(todos.items@) =~= seq![item@]);
                assert(Seq::<ItemView>::empty().push(item@) =~= seq![item@]);
                let ghost old_users = self.users@;
                let e = (String::from_str(user), todos);
                let ghost ev = e;
                self.users.push(e);
                proof {
                    lemma_keyed(old_users);
                    lemma_keyed_push(old_users, ev);
                    assert(self@ =~= old_map.insert(user@, ev.1@));
                }
                item
            },
        }
    }
}

impl UserTodos {
    /// A copy of the list.
    pub fn clone_todos(&self) -> (r: UserTodos)
        ensures
            r@ == self@,
    {
        let mut items: Vec<TodoItem> = Vec::new();
        let mut i: usize = 0;
        while i < self.items.len()
            invariant
                i <= self.items@.len(),
                item_views(items@) == item_views(self.items@).take(i as int),
            decreases self.items@.len() - i,
        {
            let ghost before = items@;
            items.push(self.items[i].copy_item());
            assert(item_views(items@) =~= item_views(before).push(self.items@[i as int]@));
            assert(item_views(self.items@).take(i + 1) =~= item_views(self.items@).take(i as int).push(
                self.items@[i as int]@,
            ));
            i = i + 1;
        }
        assert(item_views(self.items@).take(i as int) =~= item_views(self.items@));
        UserTodos { next_id: self.next_id, items }
    }
}

/// The items kept by a filter on "not done", copied.
fn pending_items(items: &Vec<TodoItem>) -> (r: Vec<TodoItem>)
    ensures
        item_views(r@) == pending(item_views(items@)),
{
    let ghost vs = item_views(items@);
    let mut r: Vec<TodoItem> = Vec::new();
    let mut i: usize = 0;
    while i < items.len()
        invariant
            i <= items@.len(),
            vs == item_views(items@),
            item_views(r@) == pending(vs.take(i as int)),
        decreases items@.len() - i,
    {
        proof {
            assert(vs.take(i + 1).drop_last() =~= vs.take(i as int));
            assert(vs.take(i + 1).last() == items@[i as int]@);
        }
        if !items[i].done {
            let ghost before = r@;
            r.push(items[i].copy_item());
            assert(item_views(r@) =~= item_views(before).push(items@[i as int]@));
        }
        i = i + 1;
    }
    assert(vs.take(i as int) =~= vs);
    r
}

/// How many items are done.
fn count_done_items(items: &Vec<TodoItem>) -> (r: usize)
    ensures
        r == done_count(item_views(items@)),
{
    let ghost vs = item_views(items@);
    let mut n: usize = 0;
    let mut i: usize = 0;
    while i < items.len()
        invariant
            i <= items@.len(),
            vs == item_views(items@),
            n == done_count(vs.take(i as int)),
            n <= i,
        decreases items@.len() - i,
    {
        proof {
            assert(vs.take(i + 1).drop_last() =~= vs.take(i as int));
            assert(vs.take(i + 1).last() == items@[i as int]@);
        }
        if items[i].done {
            n = n + 1;
        }
        i = i + 1;
    }
    assert(vs.take(i as int) =~= vs);
    n
}

impl TodoStore {
    /// Marks `user`'s pending item numbered `item_id` done, stamped with the
    /// current time.
    pub fn complete(&mut self, user: &str, item_id: u32) -> (r: Option<TodoItem>)
        requires
            old(self).wf(),
        ensures
            final(self).wf(),
            match r {
                Some(x) => x.completed_at matches Some(now) && complete_effect(old(self)@, user@, item_id, now)
                    == (final(self)@, Some(x@)),
                None => complete_effect(old(self)@, user@, item_id, 0) == (final(self)@, None::<ItemView>),
            },
    {
        let now = now_millis();
        self.complete_at(user, item_id, now)
    }

    /// Marks `user`'s first pending item numbered `item_id` done at time `now`,
    /// and returns it; `None`, with nothing changed, when there is none.
    pub fn complete_at(&mut self, user: &str, item_id: u32, now: i64) -> (r: Option<TodoItem>)
        requires
            old(self).wf(),
        ensures
            final(self).wf(),
            (final(self)@, match r {
                Some(x) => Some(x@),
                None => None::<ItemView>,
            }) == complete_effect(old(self)@, user@, item_id, now),
    {
        let ghost old_map = self@;
        let i = match self.find(user) {
            Some(i) => i,
            None => {
                return None;
            },
        };
        let k = match find_item(&self.users[i].1.items, item_id, true) {
            Some(k) => k,
            None => {
                return None;
            },
        };
        let key = self.users[i].0.clone();
        let mut todos = self.users[i].1.clone_todos();
        let ghost before = item_views(todos.items@);
        assert(todos_of(old_map, user@) == todos@);
        let mut item = todos.items[k].copy_item();
        item.done = true;
        item.completed_at = Some(now);
        assert(before[k as int] == todos.items@[k as int]@);
        assert(item@ == completed(before[k as int], now));
        let result = item.copy_item();
        let ghost old_todos = todos@;
        todos.items.set(k, item);
        assert(item_views(todos.items@) =~= before.update(k as int, completed(before[k as int], now)));
        assert(todos@ == TodosView { items: old_todos.items.update(k as int, completed(before[k as int], now)), ..old_todos });
        self.put_back(i, key, todos);
        Some(result)
    }

    /// Deletes `user`'s first item numbered `item_id` and returns it; `None`,
    /// with nothing changed, when there is none.
    pub fn delete(&mut self, user: &str, item_id: u32) -> (r: Option<TodoItem>)
        requires
            old(self).wf(),
        ensures
            final(self).wf(),
            (final(self)@, match r {
                Some(x) => Some(x@),
                None => None::<ItemView>,
            }) == delete_effect(old(self)@, user@, item_id),
    {
        let i = match self.find(user) {
            Some(i) => i,
            None => {
                return None;
            },
        };
        let k = match find_item(&self.users[i].1.items, item_id, false) {
            Some(k) => k,
            None => {
                return None;
            },
        };
        let ghost old_map = self@;
        let key = self.users[i].0.clone();
        let mut todos = self.users[i].1.clone_todos();
        assert(todos_of(old_map, user@) == todos@);
        let ghost before = item_views(todos.items@);
        let ghost old_todos = todos@;
        let removed = todos.items.remove(k);
        assert(removed@ == before[k as int]);
        assert(item_views(todos.items@) =~= before.remove(k as int));
        assert(todos@ == TodosView { items: old_todos.items.remove(k as int), ..old_todos });
        self.put_back(i, key, todos);
        Some(removed)
    }

    /// `user`'s pending items, in order.
    pub fn list_pending(&self, user: &str) -> (r: Vec<TodoItem>)
        requires
            self.wf(),
        ensures
            item_views(r@) == pending(todos_of(self@, user@).items),
    {
        match self.find(user) {
            Some(i) => pending_items(&self.users[i].1.items),
            None => {
                let r: Vec<TodoItem> = Vec::new();
                assert(item_views(r@) =~= Seq::<ItemView>::empty());
                r
            },
        }
    }

    /// All of `user`'s items, done or not, in order.
    pub fn list_all(&self, user: &str) -> (r: Vec<TodoItem>)
        requires
            self.wf(),
        ensures
            item_views(r@) == todos_of(self@, user@).items,
    {
        match self.find(user) {
            Some(i) => self.users[i].1.clone_todos().items,
            None => {
                let r: Vec<TodoItem> = Vec::new();
                assert(item_views(r@) =~= Seq::<ItemView>::empty());
                r
            },
        }
    }

    /// How many of `user`'s items are done.
    pub fn count_done(&self, user: &str) -> (r: usize)
        requires
            self.wf(),
        ensures
            r == done_count(todos_of(self@, user@).items),
    {
        match self.find(user) {
            Some(i) => count_done_items(&self.users[i].1.items),
            None => 0,
        }
    }

    /// Deletes `user`'s done items and returns how many there were.
    pub fn clear_done(&mut self, user: &str) -> (r: usize)
        requires
            old(self).wf(),
        ensures
            final(self).wf(),
            r == done_count(todos_of(old(self)@, user@).items),
            final(self)@ == clear_done_effect(old(self)@, user@),
    {
        let i = match self.find(user) {
            Some(i) => i,
            None => {
                return 0;
            },
        };
        let key = self.users[i].0.clone();
        let removed = count_done_items(&self.users[i].1.items);
        let kept = pending_items(&self.users[i].1.items);
        let todos = UserTodos { next_id: self.users[i].1.next_id, items: kept };
        self.put_back(i, key, todos);
        removed
    }

    /// Sets `user`'s list to what was read back from their file.
    pub fn restore_user(&mut self, user: &str, todos: UserTodos)
        requires
            old(self).wf(),
        ensures
            final(self).wf(),
            final(self)@ == old(self)@.insert(user@, todos@),
    {
        match self.find(user) {
            Some(i) => {
                let key = self.users[i].0.clone();
                self.put_back(i, key, todos);
            },
            None => {
                let ghost old_users = self.users@;
                let ghost old_map = self@;
                let e = (String::from_str(user), todos);
                let ghost ev = e;
                self.users.push(e);
                proof {
                    lemma_keyed(old_users);
                    lemma_keyed_push(old_users, ev);
                    assert(self@ =~= old_map.insert(user@, ev.1@));
                }
            },
        }
    }

    /// A copy of `user`'s list, if they have one (what their file holds).
    pub fn user_todos(&self, user: &str) -> (r: Option<UserTodos>)
        requires
            self.wf(),
        ensures
            match r {
                Some(t) => self@.contains_key(user@) && t@ == self@[user@],
                None => !self@.contains_key(user@),
            },
    {
        match self.find(user) {
            Some(i) => Some(self.users[i].1.clone_todos()),
            None => None,
        }
    }
}

/// The store after completing `user`'s pending item `id` at `now`, and the
/// completed item.
pub open spec fn complete_effect(m: Map<Seq<char>, TodosView>, user: Seq<char>, id: u32, now: i64) -> (
    Map<Seq<char>, TodosView>,
    Option<ItemView>,
) {
    let t = todos_of(m, user);
    match pending_index(t.items, id) {
        Some(k) => {
            let x = completed(t.items[k], now);
            (m.insert(user, TodosView { items: t.items.update(k, x), ..t }), Some(x))
        },
        None => (m, None),
    }
}

/// The store after deleting `user`'s item `id`, and the deleted item.
pub open spec fn delete_effect(m: Map<Seq<char>, TodosView>, user: Seq<char>, id: u32) -> (
    Map<Seq<char>, TodosView>,
    Option<ItemView>,
) {
    let t = todos_of(m, user);
    match id_index(t.items, id) {
        Some(k) => (m.insert(user, TodosView { items: t.items.remove(k), ..t }), Some(t.items[k])),
        None => (m, None),
    }
}

/// The store after deleting `user`'s done items.
pub open spec fn clear_done_effect(m: Map<Seq<char>, TodosView>, user: Seq<char>) -> Map<
    Seq<char>,
    TodosView,
> {
    if m.contains_key(user) {
        m.insert(user, TodosView { items: pending(m[user].items), ..m[user] })
    } else {
        m
    }
}

/// The MD5 digest of `data` (16 bytes).
pub uninterp spec fn md5_digest(data: Seq<u8>) -> Seq<u8>;

/// `md5::compute`: the named digest of the input, 16 bytes.
#[verifier::external_body]
fn md5_compute(data: &[u8]) -> (r: Vec<u8>)
    ensures
        r@ == md5_digest(data@),
        r@.len() == 16,
{
    md5::compute(data).0.to_vec()
}

/// The lowercase hexadecimal digit for `d < 16`.
pub open spec fn hex_digit(d: int) -> char {
    if d < 10 {
        ((48 + d) as u32) as char
    } else {
        ((87 + d) as u32) as char
    }
}

/// The lowercase hexadecimal rendering of bytes, two digits each (`{:x}` of a digest).
pub open spec fn hex_lower(b: Seq<u8>) -> Seq<char>
    decreases b.len(),
{
    if b.len() == 0 {
        Seq::empty()
    } else {
        hex_lower(b.drop_last()) + seq![hex_digit(b.last() as int / 16), hex_digit(b.last() as int % 16)]
    }
}

pub(crate) fn hex_char(d: u8) -> (c: char)
    requires
        d < 16,
    ensures
        c == hex_digit(d as int),
{
    if d < 10 {
        (48 + d) as char
    } else {
        (87 + d) as char
    }
}

/// The name of `user`'s to-do file: the first 16 hex digits of the MD5 of the
/// user id, then `.json`.
pub fn todo_file_name(user: &str) -> (r: String)
    ensures
        r@ == hex_lower(md5_digest(encode_utf8(user@)).take(8)) + ".json"@,
{
    let digest = md5_compute(user.as_bytes());
    let mut out: Vec<char> = Vec::new();
    let mut i: usize = 0;
    while i < 8
        invariant
            i <= 8,
            digest@.len() == 16,
            out@ == hex_lower(digest@.take(i as int)),
        decreases 8 - i,
    {
        let b = digest[i];
        out.push(hex_char(b / 16));
        out.push(hex_char(b % 16));
        proof {
            let t = digest@.take(i + 1);
            assert(t.drop_last() =~= digest@.take(i as int));
            assert(t.last() == b);
        }
        assert(out@ =~= hex_lower(digest@.take(i + 1)));
        i = i + 1;
    }
    let mut name = crate::text::string_from(&out);
    name.append(".json");
    name
}

/// Numbering law: adding an item keeps a list's numbers strictly increasing
/// and none above the last number given out; the new item gets that last
/// number plus one.
pub proof fn lemma_add_keeps_ids_ordered(
    m: Map<Seq<char>, TodosView>,
    user: Seq<char>,
    content: Seq<char>,
    now: i64,
)
    requires
        ids_ordered(todos_of(m, user)),
        todos_of(m, user).next_id < u32::MAX,
    ensures
        ids_ordered(add_effect(m, user, content, now)[user]),
        add_effect(m, user, content, now)[user].items.last().id == todos_of(m, user).next_id + 1,
{
    let t = todos_of(m, user);
    let n = add_effect(m, user, content, now)[user];
    assert forall|i: int, j: int| 0 <= i < j < n.items.len() implies n.items[i].id < n.items[j].id by {
        if j == n.items.len() - 1 {
            assert(n.items[i] == t.items[i]);
        } else {
            assert(n.items[i] == t.items[i] && n.items[j] == t.items[j]);
        }
    }
    assert forall|i: int| 0 <= i < n.items.len() implies #[trigger] n.items[i].id <= n.next_id by {
        if i < n.items.len() - 1 {
            assert(n.items[i] == t.items[i]);
        }
    }
}

/// Completing an item keeps the numbering, and the completed item is the one
/// asked for, now done.
pub proof fn lemma_complete_keeps_ids_ordered(m: Map<Seq<char>, TodosView>, user: Seq<char>, id: u32, now: i64)
    requires
        ids_ordered(todos_of(m, user)),
    ensures
        ids_ordered(todos_of(complete_effect(m, user, id, now).0, user)),
        complete_effect(m, user, id, now).1 matches Some(x) ==> x.id == id && x.done && x.completed_at
            == Some(now),
{
    let t = todos_of(m, user);
    lemma_first_index(t.items, |x: ItemView| x.id == id && !x.done);
    match pending_index(t.items, id) {
        Some(k) => {
            let n = todos_of(complete_effect(m, user, id, now).0, user);
            assert forall|i: int, j: int| 0 <= i < j < n.items.len() implies n.items[i].id < n.items[j].id by {
                assert(n.items[i].id == t.items[i].id && n.items[j].id == t.items[j].id);
            }
            assert forall|i: int| 0 <= i < n.items.len() implies #[trigger] n.items[i].id <= n.next_id by {
                assert(n.items[i].id == t.items[i].id);
            }
        },
        None => {},
    }
}

/// Deleting an item keeps the numbering, and the deleted item is the one
/// asked for.
pub proof fn lemma_delete_keeps_ids_ordered(m: Map<Seq<char>, TodosView>, user: Seq<char>, id: u32)
    requires
        ids_ordered(todos_of(m, user)),
    ensures
        ids_ordered(todos_of(delete_effect(m, user, id).0, user)),
        delete_effect(m, user, id).1 matches Some(x) ==> x.id == id,
{
    let t = todos_of(m, user);
    lemma_first_index(t.items, |x: ItemView| x.id == id);
    match id_index(t.items, id) {
        Some(k) => {
            let n = todos_of(delete_effect(m, user, id).0, user);
            assert forall|i: int, j: int| 0 <= i < j < n.items.len() implies n.items[i].id < n.items[j].id by {
                let a = if i < k { i } else { i + 1 };
                let b = if j < k { j } else { j + 1 };
                assert(n.items[i] == t.items[a] && n.items[j] == t.items[b]);
            }
            assert forall|i: int| 0 <= i < n.items.len() implies #[trigger] n.items[i].id <= n.next_id by {
                let a = if i < k { i } else { i + 1 };
                assert(n.items[i] == t.items[a]);
            }
        },
        None => {},
    }
}

/// Each item is either pending or done.
pub proof fn lemma_pending_plus_done(items: Seq<ItemView>)
    ensures
        pending(items).len() + done_count(items) == items.len(),
    decreases items.len(),
{
    if items.len() > 0 {
        lemma_pending_plus_done(items.drop_last());
    }
}

/// Clearing done items leaves exactly the pending ones, in order, none done.
pub proof fn lemma_clear_done(m: Map<Seq<char>, TodosView>, user: Seq<char>)
    ensures
        todos_of(clear_done_effect(m, user), user).items == pending(todos_of(m, user).items),
        done_count(todos_of(clear_done_effect(m, user), user).items) == 0,
        pending(todos_of(clear_done_effect(m, user), user).items) == pending(todos_of(m, user).items),
{
    lemma_pending_idempotent(todos_of(m, user).items);
}

proof fn lemma_pending_idempotent(items: Seq<ItemView>)
    ensures
        done_count(pending(items)) == 0,
        pending(pending(items)) == pending(items),
        forall|i: int| 0 <= i < pending(items).len() ==> !(#[trigger] pending(items)[i]).done,
    decreases items.len(),
{
    if items.len() > 0 {
        lemma_pending_idempotent(items.drop_last());
        let p = pending(items.drop_last());
        if !items.last().done {
            assert(pending(items).drop_last() =~= p);
        }
    }
}

} // verus!
