//! Routing of parsed messages to the module that handles them: rules are
//! tried in the order they were registered, and the first that matches wins.
use crate::parser::{message_type_name, MessageType, ParsedMessage, ParsedView};
use crate::text::{chars_eq, chars_of, contains, has_prefix, contains_chars, starts_with, string_from, trim, trim_chars};
use vstd::prelude::*;

verus! {

/// Whether `pattern` is a valid regular expression for the `regex` crate.
pub uninterp spec fn regex_is_valid(pattern: Seq<char>) -> bool;

/// The leftmost-first match of the regular expression `pattern` in `text`.
pub uninterp spec fn regex_first_match(pattern: Seq<char>, text: Seq<char>) -> Option<Seq<char>>;

/// `regex::Regex::new`: succeeds exactly for a valid pattern.
#[verifier::external_body]
pub(crate) fn regex_check(pattern: &str) -> (r: bool)
    ensures
        r == regex_is_valid(pattern@),
{
    match regex::Regex::new(pattern) {
        Ok(_) => true,
        Err(_) => false,
    }
}

/// `regex::Regex::new(pattern)` then `Regex::find(text)`, the match copied:
/// `None` for an invalid pattern, otherwise the named first match (a pattern
/// matches somewhere in `text` exactly when it has a first match).
#[verifier::external_body]
pub(crate) fn regex_find(pattern: &str, text: &str) -> (r: Option<Option<String>>)
    ensures
        r is Some <==> regex_is_valid(pattern@),
        r matches Some(m) ==> match m {
            Some(s) => regex_first_match(pattern@, text@) == Some(s@),
            None => regex_first_match(pattern@, text@) is None,
        },
{
    match regex::Regex::new(pattern) {
        Ok(re) => Some(re.find(text).map(|m| m.as_str().to_string())),
        Err(_) => None,
    }
}

/// How a rule's pattern is compared with a message.
#[derive(Debug, Clone, Copy, PartialEq, Eq, Structural)]
pub enum MatchType {
    /// The trimmed text starts with the pattern.
    Prefix,
    /// The trimmed text is the pattern.
    Exact,
    /// The pattern, a regular expression, matches the trimmed text.
    RegexMatch,
    /// The trimmed text contains the pattern.
    Contains,
    /// The message kind's name is the pattern.
    TypeMatch,
}

/// A routing rule.
#[derive(Debug)]
pub struct RouteRule {
    pub name: String,
    pub pattern: String,
    pub match_type: MatchType,
}

pub struct RouteRuleView {
    pub name: Seq<char>,
    pub pattern: Seq<char>,
    pub match_type: MatchType,
}

impl View for RouteRule {
    type V = RouteRuleView;

    open spec fn view(&self) -> RouteRuleView {
        RouteRuleView { name: self.name@, pattern: self.pattern@, match_type: self.match_type }
    }
}

/// Whether `rule` matches `msg`.
pub open spec fn rule_matches(rule: RouteRuleView, msg: ParsedView) -> bool {
    let text = trim(msg.text);
    match rule.match_type {
        MatchType::Prefix => starts_with(text, rule.pattern),
        MatchType::Exact => text == rule.pattern,
        MatchType::RegexMatch => regex_is_valid(rule.pattern) && regex_first_match(rule.pattern, text) is Some,
        MatchType::Contains => contains(text, rule.pattern),
        MatchType::TypeMatch => message_type_name(msg.message_type) == rule.pattern,
    }
}

impl RouteRule {
    /// A rule; a regular-expression pattern must be valid.
    pub fn new(name: &str, pattern: &str, match_type: MatchType) -> (r: RouteRule)
        requires
            match_type == MatchType::RegexMatch ==> regex_is_valid(pattern@),
        ensures
            r@ == (RouteRuleView { name: name@, pattern: pattern@, match_type }),
    {
        RouteRule {
            name: name.to_string(),
            pattern: pattern.to_string(),
            match_type,
        }
    }

    /// A rule, or `None` when the pattern of a regular-expression rule is
    /// invalid.
    pub fn try_new(name: &str, pattern: &str, match_type: MatchType) -> (r: Option<RouteRule>)
        ensures
            match r {
                Some(rule) => rule@ == (RouteRuleView { name: name@, pattern: pattern@, match_type }),
                None => match_type == MatchType::RegexMatch && !regex_is_valid(pattern@),
            },
    {
        if match_type == MatchType::RegexMatch && !regex_check(pattern) {
            None
        } else {
            Some(RouteRule::new(name, pattern, match_type))
        }
    }

    /// Whether this rule matches `msg`.
    pub fn matches(&self, msg: &ParsedMessage) -> (r: bool)
        ensures
            r == rule_matches(self@, msg@),
    {
        let text = trim_chars(&chars_of(msg.text.as_str()));
        let pattern = chars_of(self.pattern.as_str());
        match self.match_type {
            MatchType::Prefix => has_prefix(&text, &pattern),
            MatchType::Exact => chars_eq(&text, &pattern),
            MatchType::RegexMatch => {
                let t = string_from(&text);
                match regex_find(self.pattern.as_str(), t.as_str()) {
                    Some(Some(_)) => true,
                    _ => false,
                }
            },
            MatchType::Contains => contains_chars(&text, &pattern),
            MatchType::TypeMatch => chars_eq(&chars_of(msg.message_type.as_str()), &pattern),
        }
    }
}

/// The handler that a message is routed to: that of the first rule that
/// matches, else the default handler, if any.
pub open spec fn routed<H>(routes: Seq<(RouteRuleView, H)>, default: Option<H>, msg: ParsedView) -> Option<H>
    decreases routes.len(),
{
    if routes.len() == 0 {
        default
    } else if rule_matches(routes[0].0, msg) {
        Some(routes[0].1)
    } else {
        routed(routes.drop_first(), default, msg)
    }
}

/// The message router. `H` is whatever stands for a handling module.
pub struct MessageRouter<H> {
    routes: Vec<(RouteRule, usize)>,
    handlers: Vec<H>,
    default_handler: Option<H>,
}

impl<H> MessageRouter<H> {
    /// The router's internal consistency: every rule refers to a handler.
    pub closed spec fn wf(&self) -> bool {
        forall|i: int| 0 <= i < self.routes@.len() ==> #[trigger] self.routes@[i].1 < self.handlers@.len()
    }

    /// The registered rules with their handlers, in registration order.
    pub closed spec fn rules(&self) -> Seq<(RouteRuleView, H)> {
        Seq::new(
            self.routes@.len(),
            |i: int| (self.routes@[i].0@, self.handlers@[self.routes@[i].1 as int]),
        )
    }

    /// The handler for messages that no rule matches.
    pub closed spec fn default_handler(&self) -> Option<H> {
        self.default_handler
    }

    pub fn new() -> (r: MessageRouter<H>)
        ensures
            r.wf(),
            r.rules() == Seq::<(RouteRuleView, H)>::empty(),
            r.default_handler() is None,
    {
        let r = MessageRouter { routes: Vec::new(), handlers: Vec::new(), default_handler: None };
        assert(r.rules() =~= Seq::<(RouteRuleView, H)>::empty());
        r
    }

    /// Adds one rule, routed to `handler`, after all earlier rules.
    pub fn register(&mut self, rule: RouteRule, handler: H)
        requires
            old(self).wf(),
        ensures
            final(self).wf(),
            final(self).rules() == old(self).rules().push((rule@, handler)),
            final(self).default_handler() == old(self).default_handler(),
    {
        let idx = self.handlers.len();
        let ghost rv = rule@;
        let ghost old_rules = self.rules();
        self.handlers.push(handler);
        self.routes.push((rule, idx));
        assert(self.rules() =~= old_rules.push((rv, handler)));
    }

    /// Adds a module's rules, in order, all routed to the one `handler`.
    /// A module that declares no rule is not registered.
    pub fn register_module(&mut self, rules: Vec<RouteRule>, handler: H)
        requires
            old(self).wf(),
        ensures
            final(self).wf(),
            final(self).rules() == old(self).rules() + rules@.map_values(|r: RouteRule| (r@, handler)),
            final(self).default_handler() == old(self).default_handler(),
    {
        if rules.len() == 0 {
            assert(rules@.map_values(|r: RouteRule| (r@, handler)) =~= Seq::<(RouteRuleView, H)>::empty());
            assert(self.rules() + Seq::<(RouteRuleView, H)>::empty() =~= self.rules());
            return;
        }
        let idx = self.handlers.len();
        let ghost old_rules = self.rules();
        self.handlers.push(handler);
        assert(self.rules() =~= old_rules);
        let ghost all = rules@;
        let mut rules = rules;
        let mut k: usize = 0;
        assert(all.len() <= usize::MAX);
        while rules.len() > 0
            invariant
                self.wf(),
                all.len() <= usize::MAX,
                self.default_handler() == old(self).default_handler(),
                idx < self.handlers@.len(),
                self.handlers@[idx as int] == handler,
                rules@ == all.skip(k as int),
                k <= all.len(),
                self.rules() == old_rules + all.take(k as int).map_values(|r: RouteRule| (r@, handler)),
            decreases rules@.len(),
        {
            let r = rules.remove(0);
            let ghost rv = r@;
            let ghost before = self.rules();
            self.routes.push((r, idx));
            proof {
                assert(all[k as int] == r);
                assert(self.rules() =~= before.push((rv, handler)));
                assert(all.take(k + 1).map_values(|r: RouteRule| (r@, handler)) =~= all.take(
                    k as int,
                ).map_values(|r: RouteRule| (r@, handler)).push((rv, handler)));
            }
            k = k + 1;
            assert(rules@ =~= all.skip(k as int));
        }
        assert(all.take(k as int) =~= all);
    }

    /// Sets the handler for messages that no rule matches.
    pub fn set_default(&mut self, handler: H)
        requires
            old(self).wf(),
        ensures
            final(self).wf(),
            final(self).rules() == old(self).rules(),
            final(self).default_handler() == Some(handler),
    {
        let ghost old_rules = self.rules();
        self.default_handler = Some(handler);
        assert(self.rules() =~= old_rules);
    }

    /// The handler for `msg`: that of the first registered rule that matches,
    /// else the default handler, if one is set.
    pub fn route(&self, msg: &ParsedMessage) -> (r: Option<&H>)
        requires
            self.wf(),
        ensures
            match r {
                Some(h) => routed(self.rules(), self.default_handler(), msg@) == Some(*h),
                None => routed(self.rules(), self.default_handler(), msg@) is None,
            },
    {
        let ghost all = self.rules();
        let mut i: usize = 0;
        assert(all.skip(0) =~= all);
        while i < self.routes.len()
            invariant
                i <= self.routes@.len() == all.len(),
                all == self.rules(),
                forall|j: int| 0 <= j < self.routes@.len() ==> #[trigger] self.routes@[j].1 < self.handlers@.len(),
                routed(all, self.default_handler(), msg@) == routed(all.skip(i as int), self.default_handler(), msg@),
            decreases self.routes@.len() - i,
        {
            proof {
                let rest = all.skip(i as int);
                assert(rest[0] == all[i as int]);
                assert(rest.drop_first() =~= all.skip(i + 1));
            }
            if self.routes[i].0.matches(msg) {
                let h = self.routes[i].1;
                return Some(&self.handlers[h]);
            }
            i = i + 1;
        }
        assert(all.skip(i as int) =~= Seq::<(RouteRuleView, H)>::empty());
        match &self.default_handler {
            Some(h) => Some(h),
            None => None,
        }
    }
}

/// The first rule that matches decides: if rule `k` matches `msg` and no
/// earlier rule does, `msg` goes to rule `k`'s handler, whatever the default.
pub proof fn lemma_first_matching_rule_wins<H>(
    rules: Seq<(RouteRuleView, H)>,
    default: Option<H>,
    msg: ParsedView,
    k: int,
)
    requires
        0 <= k < rules.len(),
        rule_matches(rules[k].0, msg),
        forall|j: int| 0 <= j < k ==> !rule_matches(#[trigger] rules[j].0, msg),
    ensures
        routed(rules, default, msg) == Some(rules[k].1),
    decreases k,
{
    if k > 0 {
        let rest = rules.drop_first();
        assert forall|j: int| 0 <= j < k - 1 implies !rule_matches(#[trigger] rest[j].0, msg) by {
            assert(rest[j] == rules[j + 1]);
        }
        assert(!rule_matches(rules[0].0, msg));
        lemma_first_matching_rule_wins(rest, default, msg, k - 1);
    }
}

/// A `Contains` rule matches a message exactly when its pattern occurs
/// somewhere in the message's trimmed text, at any position; in particular
/// every message that a `Prefix` rule with the same pattern matches.
pub proof fn lemma_contains_rule_matches_anywhere(name: Seq<char>, pattern: Seq<char>, msg: ParsedView)
    ensures
        rule_matches(RouteRuleView { name, pattern, match_type: MatchType::Contains }, msg) <==> exists|i: int|
            0 <= i && i + pattern.len() <= trim(msg.text).len() && #[trigger] trim(msg.text).subrange(
                i,
                i + pattern.len(),
            ) == pattern,
        rule_matches(RouteRuleView { name, pattern, match_type: MatchType::Prefix }, msg) ==> rule_matches(
            RouteRuleView { name, pattern, match_type: MatchType::Contains },
            msg,
        ),
{
    let t = trim(msg.text);
    if starts_with(t, pattern) {
        assert(crate::text::occurs_at(t, pattern, 0));
    }
    if contains(t, pattern) {
        let i = choose|i: int| crate::text::occurs_at(t, pattern, i);
        assert(0 <= i && i + pattern.len() <= t.len() && t.subrange(i, i + pattern.len()) == pattern);
    }
    if exists|i: int| 0 <= i && i + pattern.len() <= t.len() && #[trigger] t.subrange(i, i + pattern.len()) == pattern {
        let i = choose|i: int| 0 <= i && i + pattern.len() <= t.len() && #[trigger] t.subrange(i, i + pattern.len()) == pattern;
        assert(crate::text::occurs_at(t, pattern, i));
    }
}

/// A `Contains` rule matches a message whose trimmed text holds its pattern
/// anywhere, after any text `before` and before any text `after`.
pub proof fn lemma_contains_rule_matches_inside(
    name: Seq<char>,
    pattern: Seq<char>,
    before: Seq<char>,
    after: Seq<char>,
    msg: ParsedView,
)
    requires
        trim(msg.text) == before + pattern + after,
    ensures
        rule_matches(RouteRuleView { name, pattern, match_type: MatchType::Contains }, msg),
{
    let t = trim(msg.text);
    assert(t.subrange(before.len() as int, (before.len() + pattern.len()) as int) =~= pattern);
    assert(crate::text::occurs_at(t, pattern, before.len() as int));
}

/// A message that no rule matches goes to the default handler.
pub proof fn lemma_unmatched_goes_to_default<H>(
    rules: Seq<(RouteRuleView, H)>,
    default: Option<H>,
    msg: ParsedView,
)
    requires
        forall|j: int| 0 <= j < rules.len() ==> !rule_matches(#[trigger] rules[j].0, msg),
    ensures
        routed(rules, default, msg) == default,
    decreases rules.len(),
{
    if rules.len() > 0 {
        let rest = rules.drop_first();
        assert forall|j: int| 0 <= j < rest.len() implies !rule_matches(#[trigger] rest[j].0, msg) by {
            assert(rest[j] == rules[j + 1]);
        }
        assert(!rule_matches(rules[0].0, msg));
        lemma_unmatched_goes_to_default(rest, default, msg);
    }
}

} // verus!
