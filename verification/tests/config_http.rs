use wx_ilink_bot::config::{AppConfig, EnvValues};
use wx_ilink_bot::http::{
    check_proxy_url, check_send_message, infer_message_type, plan_file_send, play_length_of, proxy_content_type,
    file_sent_json, qrcode_png, resolve_recipient, FileKind, ProxyRefusal, QrImageError,
};
use wx_ilink_bot::json::JsonValue;
use wx_ilink_bot::nickname_store::NicknameStore;

fn s(x: &str) -> String {
    x.to_string()
}

fn no_env() -> EnvValues {
    EnvValues {
        state_dir: None,
        log_level: None,
        base_url: None,
        app_id: None,
        version: None,
        http_port: None,
        xhs_api_url: None,
        xhs_cookie: None,
        xhs_proxy: None,
        xhs_timeout_ms: None,
    }
}

#[test]
fn defaults_when_nothing_is_set() {
    let c = AppConfig::from_values(no_env());
    let d = AppConfig::default();
    assert_eq!(c.state_dir, "./state");
    assert_eq!(c.base_url, "https://ilinkai.weixin.qq.com");
    assert_eq!((c.http_port, c.xhs_timeout_ms), (3000, 60_000));
    assert_eq!((d.http_port, d.app_id.as_str(), d.version.as_str()), (3000, "bot", "1.0.0"));
    assert_eq!(d.xhs_api_url, "http://127.0.0.1:5556");
    assert!(d.xhs_cookie.is_empty() && d.xhs_proxy.is_empty());
}

#[test]
fn numbers_that_do_not_parse_fall_back() {
    let mut e = no_env();
    e.http_port = Some(s("8080"));
    e.xhs_timeout_ms = Some(s("+5"));
    e.app_id = Some(s("mybot"));
    let c = AppConfig::from_values(e);
    assert_eq!((c.http_port, c.xhs_timeout_ms, c.app_id.as_str()), (8080, 5, "mybot"));
    let mut e = no_env();
    e.http_port = Some(s("70000"));
    e.xhs_timeout_ms = Some(s("abc"));
    let c = AppConfig::from_values(e);
    assert_eq!((c.http_port, c.xhs_timeout_ms), (3000, 60_000));
}

#[test]
fn upload_types_follow_content_type() {
    assert_eq!(infer_message_type("image/png"), "image");
    assert_eq!(infer_message_type("video/mp4"), "video");
    assert_eq!(infer_message_type("application/pdf"), "file");
    assert_eq!(plan_file_send("u", "", true, "image/jpeg"), Ok((s("image"), FileKind::Image)));
    assert_eq!(plan_file_send("u", "video", true, "image/jpeg"), Ok((s("video"), FileKind::Video)));
    assert_eq!(plan_file_send("u", "doc", true, "image/jpeg"), Ok((s("doc"), FileKind::File)));
    assert_eq!(plan_file_send("", "", true, "x"), Err(s("to_user_id 不能为空")));
    assert_eq!(plan_file_send("u", "", false, "x"), Err(s("缺少 file 字段")));
}

#[test]
fn play_length_reads_signed_numbers() {
    assert_eq!(play_length_of("12"), 12);
    assert_eq!(play_length_of("-5"), -5);
    assert_eq!(play_length_of("+7"), 7);
    assert_eq!(play_length_of("-9223372036854775808"), i64::MIN);
    assert_eq!(play_length_of("9223372036854775808"), 0);
    assert_eq!(play_length_of("abc"), 0);
    assert_eq!(play_length_of("-"), 0);
    assert_eq!(play_length_of(""), 0);
}

#[test]
fn proxy_only_fetches_wechat_https() {
    assert_eq!(check_proxy_url("http://res.wx.qq.com/a.png"), Err(ProxyRefusal::NotHttps));
    assert_eq!(check_proxy_url("https://example.com/a.png"), Err(ProxyRefusal::HostNotAllowed));
    assert_eq!(check_proxy_url("https://res.wx.qq.com/a.png"), Ok(()));
    assert_eq!(ProxyRefusal::NotHttps.status(), 400);
}

#[test]
fn proxy_checks_the_host_not_the_text() {
    let refused = Err(ProxyRefusal::HostNotAllowed);
    assert_eq!(check_proxy_url("https://evil.example.com/steal?next=qq.com"), refused);
    assert_eq!(check_proxy_url("https://evil.example.com#qq.com"), refused);
    assert_eq!(check_proxy_url("https://notqq.com/a.png"), refused);
    assert_eq!(check_proxy_url("https://qq.com.evil.com/a.png"), refused);
    assert_eq!(check_proxy_url("https://qq.com@evil.com/a.png"), refused);
    assert_eq!(check_proxy_url("https://qq.com:x@evil.com/a.png"), refused);
    assert_eq!(check_proxy_url("https://evil.com\\.qq.com/a.png"), refused);
    assert_eq!(check_proxy_url("https://"), refused);
    assert_eq!(check_proxy_url("https://qq.com"), Ok(()));
    assert_eq!(check_proxy_url("https://qq.com:443/a.png"), Ok(()));
    assert_eq!(check_proxy_url("https://mmbiz.qpic.weixin.qq.com/x?y=1"), Ok(()));
    assert_eq!(check_proxy_url("https://ilinkai.wechat.com/a"), Ok(()));
    assert_eq!(ProxyRefusal::HostNotAllowed.status(), 403);
    assert_eq!(ProxyRefusal::HostNotAllowed.message(), "不允许代理该域名");
    assert_eq!(proxy_content_type(None), "image/png");
    assert_eq!(proxy_content_type(Some("image/jpeg")), "image/jpeg");
}

#[test]
fn send_requests_need_recipient_and_text() {
    assert_eq!(check_send_message("u", "hi"), Ok(()));
    assert_eq!(check_send_message("", "hi"), Err(s("to_user_id 和 text 不能为空")));
    assert_eq!(check_send_message("u", ""), Err(s("to_user_id 和 text 不能为空")));
}

#[test]
fn recipients_may_be_named_by_nickname() {
    let mut store = NicknameStore::new();
    store.set("u1@im.wechat", "大王");
    assert_eq!(resolve_recipient(&store, "大王"), "u1@im.wechat");
    assert_eq!(resolve_recipient(&store, "u2@im.wechat"), "u2@im.wechat");
}

#[test]
fn qr_images_are_png() {
    assert_eq!(qrcode_png(""), Err(QrImageError::EmptyData));
    assert_eq!(QrImageError::EmptyData.status(), 400);
    assert_eq!(QrImageError::EmptyData.message(), "data 参数不能为空");
    let png = qrcode_png("hello").unwrap();
    assert_eq!(&png[..4], &[0x89, b'P', b'N', b'G']);
    // A version-1 code: 21 modules plus a quiet zone of 4 on each side, 8 pixels per module.
    assert_eq!(&png[16..24], &[0, 0, 0, 232, 0, 0, 0, 232]);
    assert_eq!(qrcode_png("hello").unwrap(), png);
    assert_ne!(qrcode_png("world").unwrap(), png);
    let too_long = "x".repeat(5000);
    match qrcode_png(&too_long) {
        Err(e) => {
            assert_eq!(e.status(), 500);
            assert!(e.message().starts_with("生成二维码失败: "));
        },
        Ok(_) => panic!("5000 bytes do not fit in a QR code"),
    }
}

#[test]
fn file_sent_answer_lists_what_went_out() {
    let r = file_sent_json("video", "u@im.wechat", "v.mp4", 42);
    let es = match r {
        JsonValue::Object(es) => es,
        _ => panic!("an object"),
    };
    let keys: Vec<&str> = es.iter().map(|(k, _)| k.as_str()).collect();
    assert_eq!(keys, vec!["success", "type", "to_user_id", "file_name", "file_size"]);
    assert!(matches!(es[0].1, JsonValue::Bool(true)));
    assert!(matches!(&es[1].1, JsonValue::Str(t) if t == "video"));
    assert!(matches!(&es[2].1, JsonValue::Str(t) if t == "u@im.wechat"));
    assert!(matches!(&es[3].1, JsonValue::Str(t) if t == "v.mp4"));
    assert!(matches!(es[4].1, JsonValue::UInt(42)));
}
