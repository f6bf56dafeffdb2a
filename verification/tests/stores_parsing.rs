use wx_ilink_bot::json::JsonValue;
use wx_ilink_bot::nickname_store::{desensitize_id, NicknameStore};
use wx_ilink_bot::parser::{MessageParser, MessageType};
use wx_ilink_bot::router::{MatchType, MessageRouter, RouteRule};
use wx_ilink_bot::session::{
    credential_account_id, credentials_from_json, credentials_json, sync_buf_from_json, sync_buf_json,
    tokens_file_name, ContextTokenStore,
};
use wx_ilink_bot::todo_store::todo_file_name;
use wx_ilink_bot::xhs_client::{
    extension_from_content_type, guess_content_type, guess_extension, looks_like_video_url, normalize_url,
    parse_work, strip_content_type, work_from_detail, work_from_response, DownloadedMedia, XhsClient, XhsClientConfig, XhsError,
    XhsWorkKind,
};

fn s(x: &str) -> String {
    x.to_string()
}

fn obj(entries: Vec<(&str, JsonValue)>) -> JsonValue {
    JsonValue::Object(entries.into_iter().map(|(k, v)| (k.to_string(), v)).collect())
}

fn text_message(text: &str) -> JsonValue {
    obj(vec![
        ("from_user_id", JsonValue::Str(s("u@im.wechat"))),
        (
            "item_list",
            JsonValue::Array(vec![obj(vec![
                ("type", JsonValue::Int(1)),
                ("text_item", obj(vec![("text", JsonValue::Str(s(text)))])),
            ])]),
        ),
    ])
}

#[test]
fn masked_ids_keep_four_chars_each_side() {
    assert_eq!(desensitize_id("abcdefgh1234@im.wechat"), "用户_abcd…1234");
    assert_eq!(desensitize_id("abc@im.wechat"), "用户_abc");
    assert_eq!(desensitize_id("abcdefgh"), "用户_abcdefgh");
    assert_eq!(desensitize_id("张三李四王五赵六钱@im.wechat"), "用户_张三李四…五赵六钱");
    assert_eq!(desensitize_id("中文中文中文@x"), "用户_中文中文中文");
    assert_eq!(desensitize_id("abcdefghi"), "用户_abcd…fghi");
}

#[test]
fn nickname_store_display_names() {
    let mut store = NicknameStore::new();
    store.set("abcdefgh1234@im.wechat", "小明");
    assert_eq!(store.display_name("abcdefgh1234@im.wechat"), "小明");
    assert_eq!(store.display_name("zzzzzzzz9999@im.wechat"), "用户_zzzz…9999");
    assert_eq!(store.find_by_nickname("小明"), Some(s("abcdefgh1234@im.wechat")));
    assert_eq!(store.find_by_nickname("没有"), None);
    store.restore(vec![(s("a"), s("1")), (s("b"), s("2"))]);
    assert_eq!(store.get("abcdefgh1234@im.wechat"), None);
    assert_eq!(store.get_all().len(), 2);
}

#[test]
fn context_tokens_keep_the_latest() {
    let mut ctx = ContextTokenStore::new();
    ctx.set("a", "u", "t1");
    ctx.set("a", "u", "t2");
    ctx.set("b", "v", "t3");
    assert_eq!(ctx.get("a", "u"), Some(s("t2")));
    assert_eq!(ctx.get_all_user_ids(), vec![s("u"), s("v")]);
    assert_eq!(ctx.get_all_users("a"), vec![(s("u"), s("t2"))]);
    ctx.clear_account("a");
    assert_eq!(ctx.get("a", "u"), None);
    assert_eq!(ctx.get("b", "v"), Some(s("t3")));
    let n = ctx.restore("a", &vec![(s("x"), s("tx")), (s("y"), s(""))]);
    assert_eq!(n, 1);
    assert_eq!(ctx.get("a", "x"), Some(s("tx")));
    assert_eq!(ctx.get("a", "y"), None);
}

#[test]
fn state_file_names_and_contents() {
    assert_eq!(tokens_file_name("a@im.bot"), "a@im.bot.context-tokens.json");
    assert_eq!(credential_account_id("a@im.bot.json"), Some(s("a@im.bot")));
    assert_eq!(credential_account_id("a@im.bot.sync.json"), None);
    assert_eq!(credential_account_id("a@im.bot.context-tokens.json"), None);
    assert_eq!(credential_account_id("notes.txt"), None);
    assert_eq!(sync_buf_from_json(&sync_buf_json("cur")), "cur");
    let c = credentials_from_json(&credentials_json("a", "tok", "https://b", "u")).unwrap();
    assert_eq!((c.bot_token.as_str(), c.base_url.as_str(), c.user_id.as_str()), ("tok", "https://b", "u"));
    assert!(credentials_from_json(&obj(vec![("bot_token", JsonValue::Str(s("t")))])).is_none());
}

#[test]
fn todo_file_names_hash_the_user() {
    // MD5("") = d41d8cd98f00b204e9800998ecf8427e, MD5("abc") = 900150983cd24fb0d6963f7d28e17f72.
    assert_eq!(todo_file_name(""), "d41d8cd98f00b204.json");
    assert_eq!(todo_file_name("abc"), "900150983cd24fb0.json");
}

#[test]
fn parser_reads_text_messages() {
    let p = MessageParser::new().parse(&text_message("你好"));
    assert_eq!(p.user_id, "u@im.wechat");
    assert_eq!(p.text, "你好");
    assert_eq!(p.message_type, MessageType::Text);
    assert_eq!(MessageType::from_str("image"), MessageType::Image);
    assert_eq!(MessageType::Video.as_str(), "video");
}

#[test]
fn router_first_matching_rule_wins() {
    let mut router: MessageRouter<u32> = MessageRouter::new();
    router.register(RouteRule::new("a", "待办", MatchType::Prefix), 1);
    router.register(RouteRule::new("b", "待办列表", MatchType::Exact), 2);
    router.register_module(vec![RouteRule::new("c", "^\\d+$", MatchType::RegexMatch)], 3);
    let parser = MessageParser::new();
    assert_eq!(router.route(&parser.parse(&text_message("待办列表"))), Some(&1));
    assert_eq!(router.route(&parser.parse(&text_message(" 42 "))), Some(&3));
    assert_eq!(router.route(&parser.parse(&text_message("hello"))), None);
    router.set_default(9);
    assert_eq!(router.route(&parser.parse(&text_message("hello"))), Some(&9));
    assert!(RouteRule::try_new("bad", "(", MatchType::RegexMatch).is_none());
}

#[test]
fn normalizing_a_url_twice_changes_nothing() {
    for v in ["  xhslink.com/a1 ", "http://x.com/a", " https://y.cn/b\t", "", "   "] {
        let n = normalize_url(v);
        assert!(n.starts_with("http://") || n.starts_with("https://"));
        assert_eq!(n.trim(), n);
        assert_eq!(normalize_url(&n), n);
    }
    assert_eq!(normalize_url("  xhslink.com/a1 "), "https://xhslink.com/a1");
    assert_eq!(normalize_url(""), "https://");
}

#[test]
fn xhs_urls_and_content_types() {
    assert_eq!(normalize_url(" xhslink.com/abc "), "https://xhslink.com/abc");
    assert_eq!(normalize_url("http://x"), "http://x");
    assert_eq!(strip_content_type("image/jpeg; charset=binary"), "image/jpeg");
    assert_eq!(extension_from_content_type("video/quicktime"), Some("mov"));
    assert_eq!(guess_extension("https://a/b/c.PNG?x=1", "application/octet-stream"), "png");
    assert_eq!(guess_content_type("https://a/v.mp4"), "video/mp4");
    assert!(looks_like_video_url("https://a/v.mov"));
    assert!(!looks_like_video_url("https://a/v.jpg"));
    let m = DownloadedMedia::from_download(vec![1, 2], Some("image/webp; q=1"), "https://a/x");
    assert_eq!((m.content_type.as_str(), m.extension.as_str()), ("image/webp", "webp"));
}

#[test]
fn xhs_links_are_found_in_text() {
    assert_eq!(
        XhsClient::extract_first_link("看看这个 xhslink.com/a/BcD12，好看"),
        Some(s("https://xhslink.com/a/BcD12"))
    );
    assert_eq!(XhsClient::extract_first_link("no link here"), None);
    let c = XhsClient::new(XhsClientConfig::new(s("http://h/"), s(" c "), s(""), 5000));
    assert_eq!(c.cookie, Some(s("c")));
    assert_eq!(c.proxy, None);
    assert_eq!(c.detail_endpoint(), "http://h/xhs/detail");
}

#[test]
fn xhs_works_are_read_from_descriptions() {
    let data = obj(vec![
        ("作品标题", JsonValue::Str(s(" 标题 "))),
        ("作品类型", JsonValue::Str(s("视频"))),
        ("下载地址", JsonValue::Str(s("xhs.example/v.mp4 NaN"))),
    ]);
    let w = parse_work(&data).unwrap();
    assert_eq!(w.title, "标题");
    assert_eq!(w.note_id, "xhs");
    assert_eq!(w.kind, XhsWorkKind::Video);
    assert_eq!(w.media_urls, vec![s("https://xhs.example/v.mp4")]);
    assert_eq!(parse_work(&obj(vec![])).err(), Some(XhsError::NoMedia));
    assert_eq!(work_from_detail(s("失败"), None).err(), Some(XhsError::NoData(s("失败"))));
    let answer = obj(vec![("message", JsonValue::Str(s("ok"))), ("data", data)]);
    assert_eq!(work_from_response(&answer).unwrap().media_urls, vec![s("https://xhs.example/v.mp4")]);
    let no_data = obj(vec![("message", JsonValue::Str(s("作品不存在"))), ("data", JsonValue::Null)]);
    assert_eq!(work_from_response(&no_data).err(), Some(XhsError::NoData(s("作品不存在"))));
    let missing = obj(vec![("message", JsonValue::Str(s("无")))]);
    assert_eq!(work_from_response(&missing).err(), Some(XhsError::NoData(s("无"))));
    let malformed = obj(vec![("data", JsonValue::Null)]);
    assert_eq!(work_from_response(&malformed).err(), Some(XhsError::MalformedResponse));
    assert_eq!(XhsError::MalformedResponse.message(), "解析 XHS 响应 JSON 失败: 缺少 message");
    assert_eq!(work_from_response(&obj(vec![("message", JsonValue::Str(s("m"))), ("data", obj(vec![]))])).err(), Some(XhsError::NoMedia));
}
