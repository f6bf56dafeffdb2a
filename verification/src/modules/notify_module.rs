//! The notify module: `通知 <user> <text>` forwards a text to another user.
use crate::text::{
    after_char, after_char_chars, before_char, before_char_chars, chars_of, has_prefix,
    slice_range, starts_with, string_from, trim, trim_chars,
};
use vstd::prelude::*;

verus! {

/// What a notify command asks for.
pub enum NotifyPlan {
    /// The command is malformed: answer with this usage text.
    Usage(String),
    /// Send `message` to `target`, then report how that went.
    Forward { target: String, message: String },
}

/// The command's arguments: the trimmed text without its leading command
/// word `通知`, trimmed again. A `通知` further on is part of the content.
pub open spec fn notify_body(text: Seq<char>) -> Seq<char> {
    let t = trim(text);
    if starts_with(t, "通知"@) {
        trim(t.skip("通知"@.len() as int))
    } else {
        t
    }
}

/// The text forwarded to the target.
pub open spec fn notice_text(sender: Seq<char>, content: Seq<char>) -> Seq<char> {
    "📢 来自 "@ + sender + " 的通知:\n"@ + content
}

/// Forwards `通知 …` commands to the named user.
pub struct NotifyModule;

impl NotifyModule {
    pub fn new() -> (r: NotifyModule) {
        NotifyModule
    }

    pub fn name(&self) -> (r: &'static str)
        ensures
            r@ == "NotifyModule"@,
    {
        "NotifyModule"
    }

    /// Reads a notify command from `sender_id`: the target is what precedes
    /// the first space of the arguments, the content all that follows it.
    pub fn plan(&self, sender_id: &str, text: &str) -> (r: NotifyPlan)
        ensures
            match after_char(notify_body(text@), ' ') {
                None => r matches NotifyPlan::Usage(u) && u@ == "格式: 通知 <用户ID> <消息内容>"@,
                Some(content) => r matches NotifyPlan::Forward { target, message } && target@ == before_char(
                    notify_body(text@),
                    ' ',
                ) && message@ == notice_text(sender_id@, content),
            },
    {
        let trimmed = trim_chars(&chars_of(text));
        let word = chars_of("通知");
        let body = if has_prefix(&trimmed, &word) {
            let rest = slice_range(&trimmed, word.len(), trimmed.len());
            assert(rest@ =~= trimmed@.skip(word@.len() as int));
            trim_chars(&rest)
        } else {
            trimmed
        };
        match after_char_chars(&body, ' ') {
            None => NotifyPlan::Usage(String::from_str("格式: 通知 <用户ID> <消息内容>")),
            Some(content) => {
                let target = string_from(&before_char_chars(&body, ' '));
                let mut message = String::from_str("📢 来自 ");
                message.append(sender_id);
                message.append(" 的通知:\n");
                message.append(string_from(&content).as_str());
                NotifyPlan::Forward { target, message }
            },
        }
    }

    /// The answer to the sender once the notice was sent (`None`) or failed
    /// with `error`.
    pub fn outcome_reply(&self, target: &str, error: Option<&str>) -> (r: String)
        ensures
            r@ == match error {
                None => "✅ 已通知 "@ + target@,
                Some(e) => "❌ 通知失败: "@ + e@,
            },
    {
        match error {
            None => {
                let mut s = String::from_str("✅ 已通知 ");
                s.append(target);
                s
            },
            Some(e) => {
                let mut s = String::from_str("❌ 通知失败: ");
                s.append(e);
                s
            },
        }
    }
}

} // verus!
