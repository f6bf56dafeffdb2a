//! The bot's decisions around its accounts: how a long-poll round goes on,
//! which incoming messages are handled, and through which account a message to
//! a user is sent.
use crate::api::{QRCodeResponse, QRCodeStatusResponse};
use crate::auth::{or_empty, status_of, ScanResult};
use crate::json::{as_i64, get, Json, JsonValue};
use crate::parser::{parse_message, MessageParser, ParsedMessage};
use crate::session::{token_key, ContextTokenStore};
use vstd::prelude::*;

verus! {

/// The error code of an expired session.
pub const SESSION_EXPIRED_ERRCODE: i64 = -14;

/// Failed rounds in a row after which the poller backs off.
pub const MAX_CONSECUTIVE_FAILURES: u32 = 3;

/// The back-off delay, in seconds.
pub const BACKOFF_DELAY_S: u64 = 30;

/// The delay before retrying a failed round, in seconds.
pub const RETRY_DELAY_S: u64 = 2;

/// How long the poller pauses after its session expired, in seconds.
pub const SESSION_PAUSE_DURATION_S: u64 = 3600;

/// What one `getupdates` round came back with.
pub enum PollOutcome {
    /// The request itself failed.
    Failed,
    /// The server answered with these codes and this sync cursor.
    Answered { ret: i64, errcode: i64, sync_buf: String },
}

/// What the poller does after a round.
pub struct PollStep {
    /// Failed rounds in a row, after this one.
    pub failures: u32,
    /// How long to sleep before the next round, if at all.
    pub delay_s: Option<u64>,
    /// The new sync cursor to keep and save, if any.
    pub save_sync_buf: Option<String>,
    /// Whether the round's messages are to be handled.
    pub deliver: bool,
}

/// A failed round: the count goes up, and the poller retries shortly, or backs
/// off and starts counting again when the count reaches the maximum.
pub open spec fn after_failure(failures: u32) -> (u32, u64) {
    if failures + 1 >= MAX_CONSECUTIVE_FAILURES {
        (0, BACKOFF_DELAY_S)
    } else {
        ((failures + 1) as u32, RETRY_DELAY_S)
    }
}

/// Whether an answer reports an expired session.
pub open spec fn session_expired(ret: i64, errcode: i64) -> bool {
    errcode == SESSION_EXPIRED_ERRCODE || ret == SESSION_EXPIRED_ERRCODE
}

/// Decides what follows a `getupdates` round, given the failed rounds in a row
/// before it (always fewer than the maximum).
pub fn next_poll_step(failures: u32, outcome: &PollOutcome) -> (r: PollStep)
    requires
        failures < MAX_CONSECUTIVE_FAILURES,
    ensures
        r.failures < MAX_CONSECUTIVE_FAILURES,
        match outcome {
            PollOutcome::Failed => {
                &&& (r.failures, r.delay_s) == (after_failure(failures).0, Some(after_failure(failures).1))
                &&& r.save_sync_buf is None
                &&& !r.deliver
            },
            PollOutcome::Answered { ret, errcode, sync_buf } => if *ret != 0 || *errcode != 0 {
                &&& !r.deliver
                &&& r.save_sync_buf is None
                &&& if session_expired(*ret, *errcode) {
                    r.failures == failures && r.delay_s == Some(SESSION_PAUSE_DURATION_S)
                } else {
                    (r.failures, r.delay_s) == (after_failure(failures).0, Some(after_failure(failures).1))
                }
            } else {
                &&& r.failures == 0
                &&& r.delay_s is None
                &&& r.deliver
                &&& match r.save_sync_buf {
                    Some(b) => sync_buf@.len() > 0 && b@ == sync_buf@,
                    None => sync_buf@.len() == 0,
                }
            },
        },
{
    match outcome {
        PollOutcome::Failed => {
            let (f, d) = failed_round(failures);
            PollStep { failures: f, delay_s: Some(d), save_sync_buf: None, deliver: false }
        },
        PollOutcome::Answered { ret, errcode, sync_buf } => {
            if *ret != 0 || *errcode != 0 {
                if *errcode == SESSION_EXPIRED_ERRCODE || *ret == SESSION_EXPIRED_ERRCODE {
                    PollStep {
                        failures,
                        delay_s: Some(SESSION_PAUSE_DURATION_S),
                        save_sync_buf: None,
                        deliver: false,
                    }
                } else {
                    let (f, d) = failed_round(failures);
                    PollStep { failures: f, delay_s: Some(d), save_sync_buf: None, deliver: false }
                }
            } else {
                let save = if sync_buf.as_str().is_empty() {
                    None
                } else {
                    Some(sync_buf.clone())
                };
                PollStep { failures: 0, delay_s: None, save_sync_buf: save, deliver: true }
            }
        },
    }
}

fn failed_round(failures: u32) -> (r: (u32, u64))
    requires
        failures < MAX_CONSECUTIVE_FAILURES,
    ensures
        r == after_failure(failures),
{
    let f = failures + 1;
    if f >= MAX_CONSECUTIVE_FAILURES {
        (0, BACKOFF_DELAY_S)
    } else {
        (f, RETRY_DELAY_S)
    }
}

/// A message the bot sent itself (`message_type` 2), which it does not handle.
pub open spec fn is_own_message(raw: Json) -> bool {
    as_i64(get(raw, "message_type"@)) == Some(2i64)
}

/// Takes in one raw message of an account's round: a message of the bot's own
/// is dropped; any other is parsed, its context token (when non-empty) is
/// recorded for its sender under the account, and the parsed message is handed
/// back for routing.
pub fn ingest_message(ctx: &mut ContextTokenStore, account_id: &str, raw: &JsonValue) -> (r: Option<
    ParsedMessage,
>)
    requires
        old(ctx).wf(),
    ensures
        final(ctx).wf(),
        is_own_message(raw@) ==> r is None && final(ctx)@ == old(ctx)@,
        !is_own_message(raw@) ==> match r {
            Some(p) => {
                &&& p@ == parse_message(raw@)
                &&& final(ctx)@ == if p@.context_token.len() > 0 {
                    old(ctx)@.insert(token_key(account_id@, p@.user_id), p@.context_token)
                } else {
                    old(ctx)@
                }
            },
            None => false,
        },
{
    let parser = MessageParser::new();
    let parsed = parser.parse(raw);
    match raw.i64_field("message_type") {
        Some(t) => {
            if t == 2 {
                return None;
            }
        },
        None => {},
    }
    if !parsed.context_token.as_str().is_empty() {
        ctx.set(account_id, parsed.user_id.as_str(), parsed.context_token.as_str());
    }
    Some(parsed)
}

/// The account a message to a user goes through, with the user's context
/// token there.
pub struct ResolvedAccount {
    pub account_id: String,
    pub context_token: String,
}

/// The first account of `accounts`, other than `primary`, that holds a context
/// token for `to`, with that token.
pub open spec fn first_with_token(
    m: Map<Seq<char>, Seq<char>>,
    accounts: Seq<Seq<char>>,
    primary: Seq<char>,
    to: Seq<char>,
) -> Option<(Seq<char>, Seq<char>)>
    decreases accounts.len(),
{
    if accounts.len() == 0 {
        None
    } else if accounts[0] != primary && m.contains_key(token_key(accounts[0], to)) {
        Some((accounts[0], m[token_key(accounts[0], to)]))
    } else {
        first_with_token(m, accounts.drop_first(), primary, to)
    }
}

/// Where a message to `to` goes: the primary account (the one the message
/// being answered came in on) when it is registered and holds a token for
/// `to`; else the first other account, in the order given, that holds one.
pub open spec fn resolved_account(
    m: Map<Seq<char>, Seq<char>>,
    accounts: Seq<Seq<char>>,
    primary: Seq<char>,
    to: Seq<char>,
) -> Option<(Seq<char>, Seq<char>)> {
    if primary.len() > 0 && m.contains_key(token_key(primary, to)) && accounts.contains(primary) {
        Some((primary, m[token_key(primary, to)]))
    } else {
        first_with_token(m, accounts, primary, to)
    }
}

/// The error text when no account can reach `to`.
pub open spec fn unreachable_user_message(to: Seq<char>) -> Seq<char> {
    "无法发送消息给 "@ + to + ": 所有账号中均未找到该用户的 context_token，该用户可能从未给 Bot 发过消息"@
}

/// Finds the account through which to send to `to_user_id`, among the
/// registered `accounts` (in the order the registry lists them), preferring
/// `primary`.
pub fn resolve_account(
    ctx: &ContextTokenStore,
    accounts: &Vec<String>,
    primary: &str,
    to_user_id: &str,
) -> (r: Result<ResolvedAccount, String>)
    requires
        ctx.wf(),
    ensures
        match r {
            Ok(a) => resolved_account(
                ctx@,
                string_views(accounts@),
                primary@,
                to_user_id@,
            ) == Some((a.account_id@, a.context_token@)),
            Err(e) => resolved_account(
                ctx@,
                string_views(accounts@),
                primary@,
                to_user_id@,
            ) is None && e@ == unreachable_user_message(to_user_id@),
        },
{
    let ghost ids = string_views(accounts@);
    let p = crate::text::chars_of(primary);
    if !primary.is_empty() {
        match ctx.get(primary, to_user_id) {
            Some(token) => {
                let mut k: usize = 0;
                while k < accounts.len()
                    invariant
                        k <= accounts@.len(),
                        ids == string_views(accounts@),
                        p@ == primary@,
                        primary@.len() > 0,
                        ctx.wf(),
                        ctx@.get(token_key(primary@, to_user_id@)) == Some(token@),
                        forall|j: int| 0 <= j < k ==> ids[j] != primary@,
                    decreases accounts@.len() - k,
                {
                    if crate::text::chars_eq(&crate::text::chars_of(accounts[k].as_str()), &p) {
                        proof {
                            assert(ids[k as int] == primary@);
                            assert(ids.contains(primary@));
                            assert(ctx@.contains_key(token_key(primary@, to_user_id@)));
                        }
                        return Ok(ResolvedAccount { account_id: String::from_str(primary), context_token: token });
                    }
                    k = k + 1;
                }
                assert(!ids.contains(primary@));
            },
            None => {},
        }
    }
    assert(resolved_account(ctx@, ids, primary@, to_user_id@) == first_with_token(ctx@, ids, primary@, to_user_id@));
    let mut i: usize = 0;
    assert(ids.skip(0) =~= ids);
    while i < accounts.len()
        invariant
            i <= accounts@.len(),
            ids == string_views(accounts@),
            p@ == primary@,
            ctx.wf(),
            resolved_account(ctx@, ids, primary@, to_user_id@) == first_with_token(ctx@, ids, primary@, to_user_id@),
            first_with_token(ctx@, ids, primary@, to_user_id@) == first_with_token(
                ctx@,
                ids.skip(i as int),
                primary@,
                to_user_id@,
            ),
        decreases accounts@.len() - i,
    {
        let ghost rest = ids.skip(i as int);
        assert(rest[0] == accounts@[i as int]@);
        assert(rest.drop_first() =~= ids.skip(i + 1));
        if !crate::text::chars_eq(&crate::text::chars_of(accounts[i].as_str()), &p) {
            match ctx.get(accounts[i].as_str(), to_user_id) {
                Some(token) => {
                    let id = accounts[i].clone();
                    proof {
                        assert(rest[0] != primary@);
                        assert(ctx@.contains_key(token_key(rest[0], to_user_id@)));
                        assert(first_with_token(ctx@, rest, primary@, to_user_id@) == Some((id@, token@)));
                    }
                    return Ok(ResolvedAccount { account_id: id, context_token: token });
                },
                None => {},
            }
        }
        i = i + 1;
    }
    let mut msg = String::from_str("无法发送消息给 ");
    msg.append(to_user_id);
    msg.append(": 所有账号中均未找到该用户的 context_token，该用户可能从未给 Bot 发过消息");
    Err(msg)
}

/// An account as shown to administrators.
#[derive(Debug, Clone)]
pub struct AccountInfo {
    pub account_id: String,
    pub user_id: String,
}

/// A user reachable through an account.
#[derive(Debug, Clone)]
pub struct UserInfo {
    pub user_id: String,
    pub account_id: String,
}

/// The outcome of adding an account by a blocking login round.
#[derive(Debug, Clone)]
pub struct AddAccountResult {
    pub success: bool,
    pub account_id: Option<String>,
    pub user_id: Option<String>,
    pub error: Option<String>,
}

/// A QR code handed out for binding a new account.
#[derive(Debug, Clone)]
pub struct BindQRCode {
    pub qrcode: String,
    pub qrcode_img_url: String,
}

/// What a poll of a binding QR code reports.
#[derive(Debug, Clone)]
pub struct BindPollResult {
    pub status: String,
    pub account_id: Option<String>,
    pub user_id: Option<String>,
}

fn copy_opt(s: &Option<String>) -> (r: Option<String>)
    ensures
        match r {
            Some(t) => s matches Some(u) && t@ == u@,
            None => s is None,
        },
{
    match s {
        Some(t) => Some(t.clone()),
        None => None,
    }
}

/// What adding an account reports of a login round: the new account and
/// its user on success, else the round's error.
pub fn add_account_result(scan: &ScanResult) -> (r: AddAccountResult)
    ensures
        r.success == scan.success,
        scan.success ==> {
            &&& r.account_id matches Some(a) && a@ == scan.account_id@
            &&& r.user_id matches Some(u) && u@ == scan.user_id@
            &&& r.error is None
        },
        !scan.success ==> {
            &&& r.account_id is None && r.user_id is None
            &&& match r.error {
                Some(e) => scan.error matches Some(e0) && e@ == e0@,
                None => scan.error is None,
            }
        },
{
    if scan.success {
        AddAccountResult {
            success: true,
            account_id: Some(scan.account_id.clone()),
            user_id: Some(scan.user_id.clone()),
            error: None,
        }
    } else {
        AddAccountResult { success: false, account_id: None, user_id: None, error: copy_opt(&scan.error) }
    }
}

/// The QR code handed out for binding: its id and image URL, `""` where
/// missing.
pub fn bind_qrcode(qr: &QRCodeResponse) -> (r: BindQRCode)
    ensures
        r.qrcode@ == or_empty(qr.qrcode),
        r.qrcode_img_url@ == or_empty(qr.qrcode_img_content),
{
    BindQRCode {
        qrcode: match &qr.qrcode {
            Some(q) => q.clone(),
            None => String::new(),
        },
        qrcode_img_url: match &qr.qrcode_img_content {
            Some(u) => u.clone(),
            None => String::new(),
        },
    }
}

/// What a poll of a binding QR code reports, and, once a user confirmed, the
/// account to register (its base URL defaulting to `default_base_url`).
pub fn bind_poll_result(resp: &QRCodeStatusResponse, default_base_url: &str) -> (r: (
    BindPollResult,
    Option<ScanResult>,
))
    ensures
        r.0.status@ == status_of(*resp),
        status_of(*resp) == "confirmed"@ ==> {
            &&& r.0.account_id matches Some(a) && a@ == or_empty(resp.ilink_bot_id)
            &&& r.0.user_id matches Some(u) && u@ == or_empty(resp.ilink_user_id)
            &&& r.1 matches Some(s) && {
                &&& s.success && s.error is None
                &&& s.bot_token@ == or_empty(resp.bot_token)
                &&& s.account_id@ == or_empty(resp.ilink_bot_id)
                &&& s.user_id@ == or_empty(resp.ilink_user_id)
                &&& s.base_url@ == match resp.baseurl {
                    Some(b) => b@,
                    None => default_base_url@,
                }
            }
        },
        status_of(*resp) != "confirmed"@ ==> r.0.account_id is None && r.0.user_id is None && r.1 is None,
{
    let status = match &resp.status {
        Some(s) => s.clone(),
        None => String::from_str("wait"),
    };
    let confirmed = crate::text::chars_eq(&crate::text::chars_of(status.as_str()), &crate::text::chars_of("confirmed"));
    if !confirmed {
        return (BindPollResult { status, account_id: None, user_id: None }, None);
    }
    let user_id = match &resp.ilink_user_id {
        Some(u) => u.clone(),
        None => String::new(),
    };
    let account_id = match &resp.ilink_bot_id {
        Some(a) => a.clone(),
        None => String::new(),
    };
    let scan = ScanResult {
        success: true,
        bot_token: match &resp.bot_token {
            Some(t) => t.clone(),
            None => String::new(),
        },
        account_id: account_id.clone(),
        base_url: match &resp.baseurl {
            Some(b) => b.clone(),
            None => String::from_str(default_base_url),
        },
        user_id: user_id.clone(),
        error: None,
    };
    (BindPollResult { status, account_id: Some(account_id), user_id: Some(user_id) }, Some(scan))
}

/// The texts of a list of strings.
pub open spec fn string_views(v: Seq<String>) -> Seq<Seq<char>> {
    v.map_values(|s: String| s@)
}

/// Whether some user is reachable through `acc`.
pub open spec fn has_users(m: Map<Seq<char>, Seq<char>>, acc: Seq<char>) -> bool {
    exists|u: Seq<char>| #[trigger] crate::session::account_users(m, acc).contains_key(u)
}

/// The accounts of `ids` that reach some user, in order.
pub open spec fn accounts_with_users(m: Map<Seq<char>, Seq<char>>, ids: Seq<Seq<char>>) -> Seq<Seq<char>>
    decreases ids.len(),
{
    if ids.len() == 0 {
        Seq::empty()
    } else {
        let rest = accounts_with_users(m, ids.drop_last());
        if has_users(m, ids.last()) {
            rest.push(ids.last())
        } else {
            rest
        }
    }
}

/// An entry of `connected_users`: exactly the users reachable through `acc`,
/// each once, all marked with `acc`.
pub open spec fn users_entry(m: Map<Seq<char>, Seq<char>>, acc: Seq<char>, users: Seq<UserInfo>) -> bool {
    &&& forall|j: int|
        0 <= j < users.len() ==> #[trigger] users[j].account_id@ == acc
            && crate::session::account_users(m, acc).contains_key(users[j].user_id@)
    &&& forall|u: Seq<char>|
        #[trigger] crate::session::account_users(m, acc).contains_key(u) ==> exists|j: int|
            0 <= j < users.len() && users[j].user_id@ == u
    &&& forall|j: int, k: int| 0 <= j < k < users.len() ==> users[j].user_id@ != users[k].user_id@
}

/// The account names of `connected_users`' entries.
pub open spec fn entry_accounts(r: Seq<(String, Vec<UserInfo>)>) -> Seq<Seq<char>> {
    r.map_values(|e: (String, Vec<UserInfo>)| e.0@)
}

/// The users reachable through each of `accounts` (in order), leaving out
/// the accounts without any.
pub fn connected_users(ctx: &ContextTokenStore, accounts: &Vec<String>) -> (r: Vec<(String, Vec<UserInfo>)>)
    requires
        ctx.wf(),
    ensures
        entry_accounts(r@) == accounts_with_users(ctx@, string_views(accounts@)),
        forall|a: int| 0 <= a < r@.len() ==> #[trigger] users_entry(ctx@, r@[a].0@, r@[a].1@),
{
    let ghost ids = string_views(accounts@);
    let mut out: Vec<(String, Vec<UserInfo>)> = Vec::new();
    let mut i: usize = 0;
    assert(entry_accounts(out@) =~= accounts_with_users(ctx@, ids.take(0)));
    while i < accounts.len()
        invariant
            i <= accounts@.len(),
            ctx.wf(),
            ids == string_views(accounts@),
            entry_accounts(out@) == accounts_with_users(ctx@, ids.take(i as int)),
            forall|a: int| 0 <= a < out@.len() ==> #[trigger] users_entry(ctx@, out@[a].0@, out@[a].1@),
        decreases accounts@.len() - i,
    {
        let account_id = &accounts[i];
        let users = ctx.get_all_users(account_id.as_str());
        let mut list: Vec<UserInfo> = Vec::new();
        let mut j: usize = 0;
        while j < users.len()
            invariant
                j <= users@.len(),
                list@.len() == j,
                forall|q: int| 0 <= q < j ==> (#[trigger] list@[q]).account_id@ == account_id@
                    && list@[q].user_id@ == users@[q].0@,
            decreases users@.len() - j,
        {
            list.push(UserInfo { user_id: users[j].0.clone(), account_id: account_id.clone() });
            j = j + 1;
        }
        let ghost acc = account_id@;
        proof {
            assert(ids[i as int] == acc);
            assert(ids.take(i + 1).drop_last() =~= ids.take(i as int));
            assert(ids.take(i + 1).last() == acc);
            assert forall|u: Seq<char>| #[trigger] crate::session::account_users(ctx@, acc).contains_key(u)
                implies exists|q: int| 0 <= q < list@.len() && list@[q].user_id@ == u by {
                let a = choose|a: int| 0 <= a < users@.len() && users@[a].0@ == u;
                assert(list@[a].user_id@ == u);
            }
            assert forall|q: int| 0 <= q < list@.len() implies #[trigger] list@[q].account_id@ == acc
                && crate::session::account_users(ctx@, acc).contains_key(list@[q].user_id@) by {
                assert(list@[q].user_id@ == users@[q].0@);
                assert(crate::session::account_users(ctx@, acc).contains_key(users@[q].0@));
            }
            assert forall|j: int, k: int| 0 <= j < k < list@.len() implies list@[j].user_id@ != list@[k].user_id@ by {
                assert(list@[j].user_id@ == users@[j].0@);
                assert(list@[k].user_id@ == users@[k].0@);
            }
            assert(users_entry(ctx@, acc, list@));
        }
        if list.len() > 0 {
            let ghost before = out@;
            out.push((account_id.clone(), list));
            proof {
                assert(crate::session::account_users(ctx@, acc).contains_key(out@[out@.len() - 1].1@[0].user_id@));
                assert(has_users(ctx@, acc));
                assert(entry_accounts(out@) =~= entry_accounts(before).push(acc));
                assert forall|a: int| 0 <= a < out@.len() implies #[trigger] users_entry(ctx@, out@[a].0@, out@[a].1@) by {
                    if a < before.len() {
                        assert(out@[a] == before[a]);
                    }
                }
            }
        } else {
            proof {
                if has_users(ctx@, acc) {
                    let u = choose|u: Seq<char>| #[trigger] crate::session::account_users(ctx@, acc).contains_key(u);
                    assert(exists|q: int| 0 <= q < list@.len() && list@[q].user_id@ == u);
                }
            }
        }
        i = i + 1;
    }
    assert(ids.take(i as int) =~= ids);
    out
}

/// A message goes out only through a registered account, with that
/// account's latest context token for the recipient; and, account ids being
/// non-empty, no account can be found exactly when no registered account
/// holds a token for the recipient (the bot cannot reach a user who never
/// wrote to it).
pub proof fn lemma_resolution_needs_token(
    m: Map<Seq<char>, Seq<char>>,
    accounts: Seq<Seq<char>>,
    primary: Seq<char>,
    to: Seq<char>,
)
    requires
        forall|i: int| 0 <= i < accounts.len() ==> (#[trigger] accounts[i]).len() > 0,
    ensures
        resolved_account(m, accounts, primary, to) matches Some((a, t)) ==> accounts.contains(a) && m.contains_key(
            token_key(a, to),
        ) && m[token_key(a, to)] == t,
        resolved_account(m, accounts, primary, to) is None <==> forall|i: int|
            0 <= i < accounts.len() ==> !m.contains_key(#[trigger] token_key(accounts[i], to)),
{
    lemma_first_with_token(m, accounts, primary, to);
    if primary.len() > 0 && m.contains_key(token_key(primary, to)) && accounts.contains(primary) {
        let i = choose|i: int| 0 <= i < accounts.len() && accounts[i] == primary;
        assert(m.contains_key(token_key(accounts[i], to)));
    } else if first_with_token(m, accounts, primary, to) is None {
        assert forall|i: int| 0 <= i < accounts.len() implies !m.contains_key(#[trigger] token_key(accounts[i], to)) by {
            if accounts[i] == primary {
                assert(accounts[i].len() > 0);
                assert(accounts.contains(primary));
            }
        }
    }
}

/// What `first_with_token` finds: an account of the list, other than
/// `primary`, holding a token, with nothing before it that does; or no such
/// account at all.
pub proof fn lemma_first_with_token(
    m: Map<Seq<char>, Seq<char>>,
    accounts: Seq<Seq<char>>,
    primary: Seq<char>,
    to: Seq<char>,
)
    ensures
        match first_with_token(m, accounts, primary, to) {
            Some((a, t)) => accounts.contains(a) && a != primary && m.contains_key(token_key(a, to)) && m[token_key(
                a,
                to,
            )] == t,
            None => forall|i: int|
                0 <= i < accounts.len() && accounts[i] != primary ==> !m.contains_key(
                    #[trigger] token_key(accounts[i], to),
                ),
        },
    decreases accounts.len(),
{
    if accounts.len() > 0 {
        let rest = accounts.drop_first();
        lemma_first_with_token(m, rest, primary, to);
        if accounts[0] != primary && m.contains_key(token_key(accounts[0], to)) {
            assert(accounts.contains(accounts[0]));
        } else {
            match first_with_token(m, rest, primary, to) {
                Some((a, t)) => {
                    let j = choose|j: int| 0 <= j < rest.len() && rest[j] == a;
                    assert(accounts[j + 1] == a);
                },
                None => {
                    assert forall|i: int| 0 <= i < accounts.len() && accounts[i] != primary implies !m.contains_key(
                        #[trigger] token_key(accounts[i], to),
                    ) by {
                        if i > 0 {
                            assert(accounts[i] == rest[i - 1]);
                        }
                    }
                },
            }
        }
    }
}

/// A reply to a user right after their message came in on a registered
/// account goes back through that account, with the token the message
/// carried.
pub proof fn lemma_reply_uses_latest_token(
    m: Map<Seq<char>, Seq<char>>,
    accounts: Seq<Seq<char>>,
    account_id: Seq<char>,
    user_id: Seq<char>,
    token: Seq<char>,
)
    requires
        account_id.len() > 0,
        accounts.contains(account_id),
    ensures
        resolved_account(m.insert(token_key(account_id, user_id), token), accounts, account_id, user_id) == Some(
            (account_id, token),
        ),
{
}

} // verus!
