use wx_ilink_bot::api::{QRCodeResponse, QRCodeStatusResponse};
use wx_ilink_bot::auth::{ScanAction, ScanState, MAX_QR_REFRESH};
use wx_ilink_bot::bot::{
    add_account_result, bind_poll_result, bind_qrcode, connected_users, ingest_message, next_poll_step,
    resolve_account, PollOutcome,
};
use wx_ilink_bot::json::JsonValue;
use wx_ilink_bot::session::ContextTokenStore;

fn s(x: &str) -> String {
    x.to_string()
}

fn obj(entries: Vec<(&str, JsonValue)>) -> JsonValue {
    JsonValue::Object(entries.into_iter().map(|(k, v)| (k.to_string(), v)).collect())
}

fn status(st: Option<&str>) -> QRCodeStatusResponse {
    QRCodeStatusResponse {
        status: st.map(s),
        bot_token: None,
        ilink_bot_id: None,
        baseurl: None,
        ilink_user_id: None,
        redirect_host: None,
        errcode: 0,
        errmsg: None,
    }
}

fn qr(code: &str, url: &str) -> QRCodeResponse {
    QRCodeResponse { qrcode: Some(s(code)), qrcode_img_content: Some(s(url)), errcode: 0, errmsg: None }
}

#[test]
fn failed_rounds_retry_then_back_off() {
    let a = next_poll_step(0, &PollOutcome::Failed);
    assert_eq!((a.failures, a.delay_s, a.deliver), (1, Some(2), false));
    let b = next_poll_step(a.failures, &PollOutcome::Failed);
    assert_eq!((b.failures, b.delay_s), (2, Some(2)));
    let c = next_poll_step(b.failures, &PollOutcome::Failed);
    assert_eq!((c.failures, c.delay_s), (0, Some(30)));
}

#[test]
fn rejected_round_counts_as_failure() {
    let r = next_poll_step(1, &PollOutcome::Answered { ret: 1, errcode: 0, sync_buf: s("x") });
    assert_eq!((r.failures, r.delay_s, r.deliver), (2, Some(2), false));
    assert!(r.save_sync_buf.is_none());
}

#[test]
fn expired_session_pauses_an_hour_without_counting() {
    let r = next_poll_step(2, &PollOutcome::Answered { ret: 0, errcode: -14, sync_buf: s("") });
    assert_eq!((r.failures, r.delay_s, r.deliver), (2, Some(3600), false));
    let r = next_poll_step(1, &PollOutcome::Answered { ret: -14, errcode: 0, sync_buf: s("") });
    assert_eq!((r.failures, r.delay_s), (1, Some(3600)));
}

#[test]
fn successful_round_resets_and_keeps_cursor() {
    let r = next_poll_step(2, &PollOutcome::Answered { ret: 0, errcode: 0, sync_buf: s("cursor-1") });
    assert_eq!((r.failures, r.delay_s, r.deliver), (0, None, true));
    assert_eq!(r.save_sync_buf, Some(s("cursor-1")));
    let r = next_poll_step(0, &PollOutcome::Answered { ret: 0, errcode: 0, sync_buf: s("") });
    assert_eq!(r.save_sync_buf, None);
}

fn raw_message(user: &str, token: &str, message_type: i64) -> JsonValue {
    obj(vec![
        ("from_user_id", JsonValue::Str(s(user))),
        ("context_token", JsonValue::Str(s(token))),
        ("message_type", JsonValue::Int(message_type)),
        (
            "item_list",
            JsonValue::Array(vec![obj(vec![
                ("type", JsonValue::Int(1)),
                ("text_item", obj(vec![("text", JsonValue::Str(s("你好")))])),
            ])]),
        ),
    ])
}

#[test]
fn own_messages_are_dropped() {
    let mut ctx = ContextTokenStore::new();
    assert!(ingest_message(&mut ctx, "bot@im.bot", &raw_message("u@im.wechat", "t1", 2)).is_none());
    assert_eq!(ctx.get("bot@im.bot", "u@im.wechat"), None);
}

#[test]
fn incoming_message_records_its_token() {
    let mut ctx = ContextTokenStore::new();
    let p = ingest_message(&mut ctx, "bot@im.bot", &raw_message("u@im.wechat", "t1", 1)).unwrap();
    assert_eq!(p.user_id, "u@im.wechat");
    assert_eq!(p.text, "你好");
    assert_eq!(ctx.get("bot@im.bot", "u@im.wechat"), Some(s("t1")));
    // The latest token wins.
    ingest_message(&mut ctx, "bot@im.bot", &raw_message("u@im.wechat", "t2", 1)).unwrap();
    assert_eq!(ctx.get("bot@im.bot", "u@im.wechat"), Some(s("t2")));
    // An empty token leaves the stored one.
    ingest_message(&mut ctx, "bot@im.bot", &raw_message("u@im.wechat", "", 1)).unwrap();
    assert_eq!(ctx.get("bot@im.bot", "u@im.wechat"), Some(s("t2")));
}

#[test]
fn reply_goes_through_primary_account_first() {
    let mut ctx = ContextTokenStore::new();
    ctx.set("a@im.bot", "u", "ta");
    ctx.set("b@im.bot", "u", "tb");
    let accounts = vec![s("a@im.bot"), s("b@im.bot")];
    let r = resolve_account(&ctx, &accounts, "b@im.bot", "u").unwrap();
    assert_eq!((r.account_id.as_str(), r.context_token.as_str()), ("b@im.bot", "tb"));
    let r = resolve_account(&ctx, &accounts, "", "u").unwrap();
    assert_eq!((r.account_id.as_str(), r.context_token.as_str()), ("a@im.bot", "ta"));
}

#[test]
fn reply_falls_back_to_another_account() {
    let mut ctx = ContextTokenStore::new();
    ctx.set("b@im.bot", "u", "tb");
    let accounts = vec![s("a@im.bot"), s("b@im.bot")];
    let r = resolve_account(&ctx, &accounts, "a@im.bot", "u").unwrap();
    assert_eq!(r.account_id, "b@im.bot");
    // A primary account that is not registered is not used.
    ctx.set("gone@im.bot", "u", "tg");
    let r = resolve_account(&ctx, &accounts, "gone@im.bot", "u").unwrap();
    assert_eq!(r.account_id, "b@im.bot");
}

#[test]
fn unknown_user_cannot_be_reached() {
    let ctx = ContextTokenStore::new();
    let accounts = vec![s("a@im.bot")];
    let e = resolve_account(&ctx, &accounts, "a@im.bot", "x@im.wechat").err().unwrap();
    assert_eq!(
        e,
        "无法发送消息给 x@im.wechat: 所有账号中均未找到该用户的 context_token，该用户可能从未给 Bot 发过消息"
    );
}

#[test]
fn connected_users_group_by_account() {
    let mut ctx = ContextTokenStore::new();
    ctx.set("a@im.bot", "u1", "t");
    ctx.set("a@im.bot", "u2", "t");
    let accounts = vec![s("a@im.bot"), s("b@im.bot")];
    let r = connected_users(&ctx, &accounts);
    assert_eq!(r.len(), 1);
    assert_eq!(r[0].0, "a@im.bot");
    let mut users: Vec<String> = r[0].1.iter().map(|u| u.user_id.clone()).collect();
    users.sort();
    assert_eq!(users, vec![s("u1"), s("u2")]);
    assert!(r[0].1.iter().all(|u| u.account_id == "a@im.bot"));
}

#[test]
fn qr_code_expiring_three_times_ends_the_round() {
    let mut st = ScanState::start("https://base", &qr("q1", "https://img/1"));
    let shown = st.get_current_qr().unwrap();
    assert_eq!(shown.qrcode, "q1");
    assert_eq!(shown.qrcode_img_url, "https://img/1");
    assert_eq!(shown.status, "waiting");
    assert_eq!(shown.confirmed_user_id, None);
    for round in 1..MAX_QR_REFRESH {
        match st.on_status(&status(Some("expired"))) {
            ScanAction::RefreshQr => st.qr_refreshed(&qr("q2", "https://img/2")),
            _ => panic!("round {round} should refresh"),
        }
        assert_eq!(st.refresh_count, round);
        assert_eq!(st.qrcode, "q2");
    }
    match st.on_status(&status(Some("expired"))) {
        ScanAction::Finish(r) => {
            assert!(!r.success);
            assert_eq!(r.error, Some(s("二维码多次过期")));
        },
        _ => panic!("the third expiry ends the round"),
    }
    assert!(st.current_qr.is_none());
    assert!(st.get_current_qr().is_none());
}

#[test]
fn scan_follows_redirect_then_confirms() {
    let mut st = ScanState::start("https://base", &qr("q1", "https://img/1"));
    assert!(matches!(st.on_status(&status(None)), ScanAction::Wait));
    assert!(matches!(st.on_status(&status(Some("scaned"))), ScanAction::Wait));
    assert_eq!(st.current_qr.as_ref().unwrap().status, "scaned");
    let mut redirect = status(Some("scaned_but_redirect"));
    redirect.redirect_host = Some(s("idc2.example"));
    assert!(matches!(st.on_status(&redirect), ScanAction::Wait));
    assert_eq!(st.base_url, "https://idc2.example");
    let mut ok = status(Some("confirmed"));
    ok.bot_token = Some(s("tok"));
    ok.ilink_bot_id = Some(s("a@im.bot"));
    ok.ilink_user_id = Some(s("u@im.wechat"));
    match st.on_status(&ok) {
        ScanAction::Finish(r) => {
            assert!(r.success);
            assert_eq!(r.bot_token, "tok");
            assert_eq!(r.account_id, "a@im.bot");
            assert_eq!(r.user_id, "u@im.wechat");
            assert_eq!(r.base_url, "https://idc2.example");
            assert_eq!(r.error, None);
        },
        _ => panic!("confirmation ends the round"),
    }
    let info = st.current_qr.unwrap();
    assert_eq!(info.status, "confirmed");
    assert_eq!(info.confirmed_user_id, Some(s("u@im.wechat")));
}

#[test]
fn unknown_status_keeps_waiting() {
    let mut st = ScanState::start("https://base", &qr("q1", "u"));
    assert!(matches!(st.on_status(&status(Some("whatever"))), ScanAction::Wait));
    assert_eq!(st.refresh_count, 0);
}

#[test]
fn timed_out_round_fails() {
    let mut st = ScanState::start("https://base", &qr("q1", "u"));
    let r = st.timed_out();
    assert!(!r.success);
    assert_eq!(r.error, Some(s("扫码等待超时")));
    assert!(st.current_qr.is_none());
}

#[test]
fn binding_poll_reports_confirmation() {
    let mut ok = status(Some("confirmed"));
    ok.bot_token = Some(s("tok"));
    ok.ilink_bot_id = Some(s("a@im.bot"));
    ok.ilink_user_id = Some(s("u@im.wechat"));
    let (res, scan) = bind_poll_result(&ok, "https://default");
    assert_eq!(res.status, "confirmed");
    assert_eq!(res.account_id, Some(s("a@im.bot")));
    let scan = scan.unwrap();
    assert_eq!(scan.base_url, "https://default");
    let (res, scan) = bind_poll_result(&status(None), "https://default");
    assert_eq!(res.status, "wait");
    assert!(res.account_id.is_none() && scan.is_none());
}

#[test]
fn add_account_result_reports_round() {
    let mut st = ScanState::start("b", &qr("q", "u"));
    let failed = st.timed_out();
    let r = add_account_result(&failed);
    assert!(!r.success && r.account_id.is_none());
    assert_eq!(r.error, Some(s("扫码等待超时")));
    let q = bind_qrcode(&QRCodeResponse { qrcode: None, qrcode_img_content: Some(s("img")), errcode: 0, errmsg: None });
    assert_eq!((q.qrcode.as_str(), q.qrcode_img_url.as_str()), ("", "img"));
}
