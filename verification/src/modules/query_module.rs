//! The query module: answers `查询 <keyword>`.
use crate::text::{chars_of, replace_all, replace_all_chars, string_from, trim, trim_chars};
use vstd::prelude::*;

verus! {

/// The keyword of a query: the text without any `查询`, trimmed.
pub open spec fn query_keyword(text: Seq<char>) -> Seq<char> {
    trim(replace_all(text, "查询"@, Seq::empty()))
}

/// What a query for `keyword` finds (an example lookup).
pub open spec fn query_result(keyword: Seq<char>) -> Seq<char> {
    "关于 '"@ + keyword + "' 的查询结果..."@
}

/// The answer to a query message.
pub open spec fn query_reply(text: Seq<char>) -> Seq<char> {
    let keyword = query_keyword(text);
    if keyword.len() == 0 {
        "请输入查询关键词，例如: 查询 天气"@
    } else {
        "📋 查询结果:\n"@ + query_result(keyword)
    }
}

/// Answers messages starting with `查询`.
pub struct QueryModule;

impl QueryModule {
    pub fn new() -> (r: QueryModule) {
        QueryModule
    }

    pub fn name(&self) -> (r: &'static str)
        ensures
            r@ == "QueryModule"@,
    {
        "QueryModule"
    }

    /// Looks `keyword` up (an example lookup).
    pub fn do_query(&self, keyword: &str) -> (r: String)
        ensures
            r@ == query_result(keyword@),
    {
        let mut s = String::from_str("关于 '");
        s.append(keyword);
        s.append("' 的查询结果...");
        s
    }

    /// The answer to a message with text `text`: a prompt when it names no
    /// keyword, else the lookup's result.
    pub fn respond(&self, text: &str) -> (r: String)
        ensures
            r@ == query_reply(text@),
    {
        let pat = chars_of("查询");
        proof {
            reveal_strlit("查询");
        }
        let empty: Vec<char> = Vec::new();
        let keyword = string_from(&trim_chars(&replace_all_chars(&chars_of(text), &pat, &empty)));
        assert(empty@ =~= Seq::<char>::empty());
        if keyword.as_str().is_empty() {
            String::from_str("请输入查询关键词，例如: 查询 天气")
        } else {
            let mut s = String::from_str("📋 查询结果:\n");
            let found = self.do_query(keyword.as_str());
            s.append(found.as_str());
            s
        }
    }
}

} // verus!
