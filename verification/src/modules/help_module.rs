//! The help module: the default handler, which lists the bot's commands.
use crate::session::{chars_lt, lemma_seq_lt_total, lemma_seq_lt_trans, seq_lt};
use crate::strmap::{keys_distinct, lemma_pairs_map, pairs_map};
use crate::text::{chars_eq, chars_of};
use vstd::prelude::*;

verus! {

/// The commands given to `HelpModule::new`, as a map (a later description of
/// a command overrides an earlier one).
pub open spec fn commands_map(s: Seq<(&str, &str)>) -> Map<Seq<char>, Seq<char>>
    decreases s.len(),
{
    if s.len() == 0 {
        Map::empty()
    } else {
        commands_map(s.drop_last()).insert(s.last().0@, s.last().1@)
    }
}

/// Keys in strictly increasing order.
pub open spec fn keys_sorted(s: Seq<(String, String)>) -> bool {
    forall|i: int, j: int| 0 <= i < j < s.len() ==> seq_lt(s[i].0@, s[j].0@)
}

/// One line of the command list.
pub open spec fn command_line(e: (Seq<char>, Seq<char>)) -> Seq<char> {
    "  "@ + e.0 + " — "@ + e.1 + "\n"@
}

/// The lines of the command list, in order.
pub open spec fn command_lines(s: Seq<(Seq<char>, Seq<char>)>) -> Seq<char>
    decreases s.len(),
{
    if s.len() == 0 {
        Seq::empty()
    } else {
        command_lines(s.drop_last()) + command_line(s.last())
    }
}

/// The help text for a sorted command list.
pub open spec fn help_text(s: Seq<(Seq<char>, Seq<char>)>) -> Seq<char> {
    "🤖 可用命令:\n\n"@ + command_lines(s) + "\n发送对应命令即可使用"@
}

/// A sorted list's map, after its entry at `p` got the value `d`, or after
/// `(k, d)` was inserted at `p`.
proof fn lemma_map_after_change(s: Seq<(String, String)>, t: Seq<(String, String)>, k: Seq<char>, d: Seq<char>)
    requires
        keys_distinct(s),
        keys_distinct(t),
        exists|j: int| 0 <= j < t.len() && t[j].0@ == k && t[j].1@ == d,
        forall|j: int| 0 <= j < t.len() && t[j].0@ != k ==> exists|i: int| 0 <= i < s.len() && s[i] == t[j],
        forall|i: int| 0 <= i < s.len() && s[i].0@ != k ==> exists|j: int| 0 <= j < t.len() && t[j] == s[i],
    ensures
        pairs_map(t) == pairs_map(s).insert(k, d),
{
    lemma_pairs_map(s);
    lemma_pairs_map(t);
    assert forall|q: Seq<char>| pairs_map(t).contains_key(q) <==> pairs_map(s).insert(k, d).contains_key(q) by {
        if pairs_map(t).contains_key(q) && q != k {
            let j = choose|j: int| 0 <= j < t.len() && t[j].0@ == q;
            let i = choose|i: int| 0 <= i < s.len() && s[i] == t[j];
            assert(s[i].0@ == q);
        }
        if pairs_map(s).contains_key(q) && q != k {
            let i = choose|i: int| 0 <= i < s.len() && s[i].0@ == q;
            let j = choose|j: int| 0 <= j < t.len() && t[j] == s[i];
            assert(t[j].0@ == q);
        }
        if q == k {
            let j = choose|j: int| 0 <= j < t.len() && t[j].0@ == k && t[j].1@ == d;
            assert(t[j].0@ == q);
        }
    }
    assert forall|q: Seq<char>| #[trigger] pairs_map(t).contains_key(q) implies pairs_map(t)[q] == pairs_map(s).insert(
        k,
        d,
    )[q] by {
        if q == k {
            let j = choose|j: int| 0 <= j < t.len() && t[j].0@ == k && t[j].1@ == d;
            assert(pairs_map(t)[t[j].0@] == t[j].1@);
        } else {
            let j = choose|j: int| 0 <= j < t.len() && t[j].0@ == q;
            let i = choose|i: int| 0 <= i < s.len() && s[i] == t[j];
            assert(pairs_map(t)[t[j].0@] == t[j].1@);
            assert(pairs_map(s)[s[i].0@] == s[i].1@);
        }
    }
    assert(pairs_map(t) =~= pairs_map(s).insert(k, d));
}

proof fn lemma_sorted_distinct(s: Seq<(String, String)>)
    requires
        keys_sorted(s),
    ensures
        keys_distinct(s),
{
    assert forall|i: int, j: int| 0 <= i < j < s.len() implies s[i].0@ != s[j].0@ by {
        lemma_seq_lt_total(s[i].0@, s[j].0@);
    }
}

/// Sets the description of `cmd` in a sorted command list.
fn insert_command(v: &mut Vec<(String, String)>, cmd: String, desc: String)
    requires
        keys_sorted(old(v)@),
    ensures
        keys_sorted(final(v)@),
        pairs_map(final(v)@) == pairs_map(old(v)@).insert(cmd@, desc@),
{
    let ghost s = v@;
    let c = chars_of(cmd.as_str());
    let mut p: usize = 0;
    while p < v.len() && chars_lt(&chars_of(v[p].0.as_str()), &c)
        invariant
            p <= v@.len(),
            v@ == s,
            c@ == cmd@,
            forall|j: int| 0 <= j < p ==> seq_lt(#[trigger] v@[j].0@, cmd@),
        decreases v@.len() - p,
    {
        p = p + 1;
    }
    proof {
        lemma_sorted_distinct(s);
    }
    if p < v.len() && chars_eq(&chars_of(v[p].0.as_str()), &c) {
        let ghost before = v@;
        let k = v[p].0.clone();
        v.set(p, (k, desc));
        proof {
            let t = v@;
            assert(keys_sorted(t)) by {
                assert forall|i: int, j: int| 0 <= i < j < t.len() implies seq_lt(t[i].0@, t[j].0@) by {
                    assert(t[i].0@ == s[i].0@ && t[j].0@ == s[j].0@);
                }
            }
            lemma_sorted_distinct(t);
            assert(t[p as int].0@ == cmd@ && t[p as int].1@ == desc@);
            assert forall|j: int| 0 <= j < t.len() && t[j].0@ != cmd@ implies exists|i: int|
                0 <= i < s.len() && s[i] == t[j] by {
                assert(s[j] == t[j]);
            }
            assert forall|i: int| 0 <= i < s.len() && s[i].0@ != cmd@ implies exists|j: int|
                0 <= j < t.len() && t[j] == s[i] by {
                assert(s[i] == t[i]);
            }
            lemma_map_after_change(s, t, cmd@, desc@);
        }
        return;
    }
    proof {
        if p < s.len() {
            lemma_seq_lt_total(s[p as int].0@, cmd@);
        }
    }
    v.insert(p, (cmd, desc));
    proof {
        let t = v@;
        assert(t =~= s.subrange(0, p as int).push(t[p as int]) + s.subrange(p as int, s.len() as int));
        assert forall|i: int, j: int| 0 <= i < j < t.len() implies seq_lt(t[i].0@, t[j].0@) by {
            if j < p {
                assert(t[i] == s[i] && t[j] == s[j]);
            } else if j == p {
                assert(t[i] == s[i]);
            } else if i < p {
                assert(t[i] == s[i]);
                assert(t[j] == s[j - 1]);
                if j - 1 > p {
                    lemma_seq_lt_trans(cmd@, s[p as int].0@, s[j - 1].0@);
                }
                lemma_seq_lt_trans(s[i].0@, cmd@, s[j - 1].0@);
            } else if i == p {
                assert(t[j] == s[j - 1]);
                if j - 1 > p {
                    lemma_seq_lt_trans(cmd@, s[p as int].0@, s[j - 1].0@);
                }
            } else {
                assert(t[i] == s[i - 1] && t[j] == s[j - 1]);
            }
        }
        lemma_sorted_distinct(t);
        assert forall|j: int| 0 <= j < t.len() && t[j].0@ != cmd@ implies exists|i: int|
            0 <= i < s.len() && s[i] == t[j] by {
            if j < p {
                assert(s[j] == t[j]);
            } else {
                assert(s[j - 1] == t[j]);
            }
        }
        assert forall|i: int| 0 <= i < s.len() && s[i].0@ != cmd@ implies exists|j: int|
            0 <= j < t.len() && t[j] == s[i] by {
            if i < p {
                assert(t[i] == s[i]);
            } else {
                assert(t[i + 1] == s[i]);
            }
        }
        lemma_map_after_change(s, t, cmd@, desc@);
    }
}

/// Lists the bot's commands; it answers every message no rule matched.
pub struct HelpModule {
    commands: Vec<(String, String)>,
}

impl View for HelpModule {
    type V = Seq<(Seq<char>, Seq<char>)>;

    /// The commands with their descriptions, sorted by command.
    closed spec fn view(&self) -> Seq<(Seq<char>, Seq<char>)> {
        self.commands@.map_values(|e: (String, String)| (e.0@, e.1@))
    }
}

impl HelpModule {
    /// The module for a list of (command, description) pairs; a command given
    /// twice keeps its last description.
    pub fn new(commands: Vec<(&str, &str)>) -> (r: HelpModule)
        ensures
            r.wf(),
            r.commands_by_name() == commands_map(commands@),
    {
        let mut v: Vec<(String, String)> = Vec::new();
        let mut i: usize = 0;
        assert(pairs_map(v@) =~= commands_map(commands@.take(0)));
        while i < commands.len()
            invariant
                i <= commands@.len(),
                keys_sorted(v@),
                pairs_map(v@) == commands_map(commands@.take(i as int)),
            decreases commands@.len() - i,
        {
            let (cmd, desc) = commands[i];
            insert_command(&mut v, String::from_str(cmd), String::from_str(desc));
            proof {
                assert(commands@.take(i + 1).drop_last() =~= commands@.take(i as int));
            }
            i = i + 1;
        }
        assert(commands@.take(i as int) =~= commands@);
        HelpModule { commands: v }
    }

    /// The commands are sorted and each occurs once.
    pub closed spec fn wf(&self) -> bool {
        keys_sorted(self.commands@)
    }

    /// Each command with its description.
    pub closed spec fn commands_by_name(&self) -> Map<Seq<char>, Seq<char>> {
        pairs_map(self.commands@)
    }

    /// The list is sorted by command and holds exactly the described commands.
    pub proof fn lemma_view(&self)
        requires
            self.wf(),
        ensures
            forall|i: int, j: int| 0 <= i < j < self@.len() ==> seq_lt(self@[i].0, self@[j].0),
            forall|i: int|
                0 <= i < self@.len() ==> #[trigger] self.commands_by_name().contains_key(self@[i].0)
                    && self.commands_by_name()[self@[i].0] == self@[i].1,
            forall|c: Seq<char>|
                #[trigger] self.commands_by_name().contains_key(c) ==> exists|i: int|
                    0 <= i < self@.len() && self@[i].0 == c,
    {
        lemma_sorted_distinct(self.commands@);
        lemma_pairs_map(self.commands@);
        assert forall|i: int| 0 <= i < self@.len() implies #[trigger] self.commands_by_name().contains_key(
            self@[i].0,
        ) && self.commands_by_name()[self@[i].0] == self@[i].1 by {
            assert(self@[i] == (self.commands@[i].0@, self.commands@[i].1@));
        }
        assert forall|c: Seq<char>| #[trigger] self.commands_by_name().contains_key(c) implies exists|i: int|
            0 <= i < self@.len() && self@[i].0 == c by {
            let i = choose|i: int| 0 <= i < self.commands@.len() && self.commands@[i].0@ == c;
            assert(self@[i] == (self.commands@[i].0@, self.commands@[i].1@));
        }
    }

    pub fn name(&self) -> (r: &'static str)
        ensures
            r@ == "HelpModule"@,
    {
        "HelpModule"
    }

    /// The answer to any message: the command list.
    pub fn respond(&self) -> (r: String)
        ensures
            r@ == help_text(self@),
    {
        let mut s = String::from_str("🤖 可用命令:\n\n");
        let ghost head = s@;
        let mut i: usize = 0;
        while i < self.commands.len()
            invariant
                i <= self.commands@.len(),
                head == "🤖 可用命令:\n\n"@,
                s@ == head + command_lines(self@.take(i as int)),
            decreases self.commands@.len() - i,
        {
            proof {
                assert(self@.take(i + 1).drop_last() =~= self@.take(i as int));
                assert(self@.take(i + 1).last() == (self.commands@[i as int].0@, self.commands@[i as int].1@));
            }
            s.append("  ");
            s.append(self.commands[i].0.as_str());
            s.append(" — ");
            s.append(self.commands[i].1.as_str());
            s.append("\n");
            i = i + 1;
        }
        assert(self@.take(i as int) =~= self@);
        s.append("\n发送对应命令即可使用");
        s
    }
}

} // verus!
