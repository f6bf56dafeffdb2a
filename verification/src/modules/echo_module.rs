//! The echo module: answers a message with its own text (for testing).
use crate::router::{MatchType, RouteRule, RouteRuleView};
use vstd::prelude::*;

verus! {

/// Answers `回声 …` with the message's text.
pub struct EchoModule;

impl EchoModule {
    pub fn new() -> (r: EchoModule) {
        EchoModule
    }

    pub fn name(&self) -> (r: &'static str)
        ensures
            r@ == "EchoModule"@,
    {
        "EchoModule"
    }

    /// One rule: messages starting with `回声`.
    pub fn routes(&self) -> (r: Vec<RouteRule>)
        ensures
            r@.len() == 1,
            r@[0]@ == (RouteRuleView { name: "echo"@, pattern: "回声"@, match_type: MatchType::Prefix }),
    {
        let mut v: Vec<RouteRule> = Vec::new();
        v.push(RouteRule::new("echo", "回声", MatchType::Prefix));
        v
    }

    /// The answer to a message with text `text`.
    pub fn respond(&self, text: &str) -> (r: String)
        ensures
            r@ == "你说的是: "@ + text@,
    {
        let mut s = String::from_str("你说的是: ");
        s.append(text);
        s
    }
}

} // verus!
