use wx_ilink_bot::api::{
    client_id_for, get_config_body, get_updates_body, get_upload_url_body, message_client_id, random_wechat_uin,
    send_message_body, send_typing_body, updates_after_error, updates_client_timeout, wechat_uin, with_base_info,
    ILinkAPI, QRCodeStatusResponse,
};
use wx_ilink_bot::api::{media_upload_type, send_media_body, GetUploadUrlResponse, MediaKind, MediaMessage};
use wx_ilink_bot::json::JsonValue;

fn s(x: &str) -> String {
    x.to_string()
}

fn field<'a>(v: &'a JsonValue, key: &str) -> &'a JsonValue {
    v.field(key).unwrap()
}

fn text(v: &JsonValue) -> String {
    v.as_string().unwrap()
}

#[test]
fn client_version_packs_major_minor_patch() {
    assert_eq!(ILinkAPI::build_client_version("1.0.0"), 0x010000);
    assert_eq!(ILinkAPI::build_client_version("2.3.4"), 0x020304);
    assert_eq!(ILinkAPI::build_client_version("1.x.3"), 0x010300);
    assert_eq!(ILinkAPI::build_client_version("256.1.1"), 0x000101);
    assert_eq!(ILinkAPI::build_client_version(""), 0);
}

#[test]
fn new_client_trims_base_url_and_defaults() {
    let api = ILinkAPI::new(Some("https://example.com//"), Some("tok"), "bot", "1.2.3");
    assert_eq!(api.base_url, "https://example.com");
    assert_eq!(api.token, Some(s("tok")));
    assert_eq!(api.client_version, 0x010203);
    let api = ILinkAPI::new(None, None, "bot", "1.0.0");
    assert_eq!(api.base_url, "https://ilinkai.weixin.qq.com");
    assert_eq!(api.endpoint_url("ilink/bot/getupdates"), "https://ilinkai.weixin.qq.com/ilink/bot/getupdates");
    assert_eq!(api.qrcode_url("3"), "https://ilinkai.weixin.qq.com/ilink/bot/get_bot_qrcode?bot_type=3");
    assert_eq!(
        ILinkAPI::qrcode_status_url("https://h", "abc"),
        "https://h/ilink/bot/get_qrcode_status?qrcode=abc"
    );
}

#[test]
fn setters_replace_token_and_base_url() {
    let mut api = ILinkAPI::new(None, None, "bot", "1.0.0");
    api.set_token("t");
    api.set_base_url("https://x/");
    assert_eq!(api.token, Some(s("t")));
    assert_eq!(api.base_url, "https://x");
}

#[test]
fn headers_carry_app_version_uin_and_token() {
    let api = ILinkAPI::new(None, Some("tok"), "bot", "1.0.0");
    let h = api.headers("MTIz");
    let expected = vec![
        (s("Content-Type"), s("application/json")),
        (s("AuthorizationType"), s("ilink_bot_token")),
        (s("iLink-App-Id"), s("bot")),
        (s("iLink-App-ClientVersion"), s("65536")),
        (s("X-WECHAT-UIN"), s("MTIz")),
        (s("Authorization"), s("Bearer tok")),
    ];
    assert_eq!(h, expected);
    let anon = ILinkAPI::new(None, None, "bot", "1.0.0");
    assert_eq!(anon.headers("u").len(), 5);
    assert_eq!(
        anon.qrcode_headers("u"),
        vec![(s("iLink-App-Id"), s("bot")), (s("iLink-App-ClientVersion"), s("65536"))]
    );
    assert_eq!(api.qrcode_headers("u").len(), 6);
}

#[test]
fn uin_is_base64_of_decimal_number() {
    assert_eq!(wechat_uin(123), "MTIz");
    assert_eq!(wechat_uin(0), "MA==");
    let r = random_wechat_uin();
    assert!(!r.is_empty() && r.len() % 4 == 0);
}

#[test]
fn client_id_is_sixteen_hex_digits() {
    assert_eq!(client_id_for(255), "bot-00000000000000ff");
    assert_eq!(client_id_for(u64::MAX), "bot-ffffffffffffffff");
    assert_eq!(message_client_id(Some("mine")), "mine");
    let r = message_client_id(None);
    assert!(r.starts_with("bot-") && r.len() == 20);
}

#[test]
fn send_message_body_layout() {
    let b = send_message_body("u@im.wechat", "hi", "ctx", "bot-1");
    let msg = field(&b, "msg");
    assert_eq!(text(field(msg, "from_user_id")), "");
    assert_eq!(text(field(msg, "to_user_id")), "u@im.wechat");
    assert_eq!(text(field(msg, "client_id")), "bot-1");
    assert_eq!(field(msg, "message_type").as_int(), Some(2));
    assert_eq!(field(msg, "message_state").as_int(), Some(2));
    assert_eq!(text(field(msg, "context_token")), "ctx");
    match field(msg, "item_list") {
        JsonValue::Array(items) => {
            assert_eq!(items.len(), 1);
            assert_eq!(field(&items[0], "type").as_int(), Some(1));
            assert_eq!(text(field(field(&items[0], "text_item"), "text")), "hi");
        },
        _ => panic!("item_list is an array"),
    }
    let b = send_message_body("u", "hi", "", "c");
    assert!(field(field(&b, "msg"), "context_token").is_null());
}

#[test]
fn base_info_is_added_or_replaced() {
    let b = with_base_info(get_updates_body("buf"));
    assert_eq!(text(field(&b, "get_updates_buf")), "buf");
    assert_eq!(text(field(field(&b, "base_info"), "channel_version")), "1.0.0");
    let again = with_base_info(b);
    match &again {
        JsonValue::Object(es) => assert_eq!(es.len(), 2),
        _ => panic!("an object stays an object"),
    }
    let not_object = with_base_info(JsonValue::Int(3));
    assert_eq!(not_object.as_int(), Some(3));
}

#[test]
fn other_bodies() {
    let b = get_config_body("u", "c");
    assert_eq!(text(field(&b, "ilink_user_id")), "u");
    assert_eq!(text(field(&b, "context_token")), "c");
    let b = send_typing_body("u", "tk", 2);
    assert_eq!(field(&b, "status").as_int(), Some(2));
    assert_eq!(text(field(&b, "typing_ticket")), "tk");
    let b = get_upload_url_body("k", 1, "u");
    assert_eq!(field(&b, "media_type").as_int(), Some(1));
    assert_eq!(text(field(&b, "filekey")), "k");
}

#[test]
fn long_poll_timeouts() {
    assert_eq!(updates_client_timeout(None), 40_000);
    assert_eq!(updates_client_timeout(Some(1_000)), 6_000);
    let empty = updates_after_error("error sending request: operation timeout", "cur").unwrap();
    assert_eq!((empty.ret, empty.errcode, empty.msgs.len()), (0, 0, 0));
    assert_eq!(empty.get_updates_buf, "cur");
    assert!(updates_after_error("Timeout while reading", "cur").is_some());
    assert!(updates_after_error("connection refused", "cur").is_none());
}

#[test]
fn waiting_status_stands_for_a_timed_out_poll() {
    let w = QRCodeStatusResponse::waiting();
    assert_eq!(w.status, Some(s("wait")));
    assert_eq!(w.errcode, 0);
    assert!(w.bot_token.is_none() && w.redirect_host.is_none());
}

#[test]
fn media_messages_carry_the_upload() {
    let m = MediaMessage {
        kind: MediaKind::File,
        file_id: s("fid"),
        download_url: s("https://cdn/x"),
        aes_key: s(""),
        file_name: s("a.pdf"),
        size: 1234,
        play_length: 0,
    };
    let b = send_media_body("u", "ctx", "c", &m);
    let msg = field(&b, "msg");
    match field(msg, "item_list") {
        JsonValue::Array(items) => {
            assert_eq!(field(&items[0], "type").as_int(), Some(4));
            let file = field(&items[0], "file_item");
            assert_eq!(text(field(file, "file_name")), "a.pdf");
            assert_eq!(text(field(file, "len")), "1234");
            assert_eq!(text(field(field(file, "media"), "encrypt_query_param")), "fid");
            assert_eq!(text(field(field(file, "media"), "full_url")), "https://cdn/x");
        },
        _ => panic!("item_list is an array"),
    }
    let v = MediaMessage { kind: MediaKind::Video, play_length: 7, ..m };
    let b = send_media_body("u", "", "c", &v);
    match field(field(&b, "msg"), "item_list") {
        JsonValue::Array(items) => {
            assert_eq!(field(&items[0], "type").as_int(), Some(5));
            assert_eq!(field(field(&items[0], "video_item"), "play_length").as_int(), Some(7));
            assert_eq!(field(field(&items[0], "video_item"), "video_size").as_int(), Some(1234));
        },
        _ => panic!("item_list is an array"),
    }
}

#[test]
fn uploads_are_typed_and_filed() {
    assert_eq!(media_upload_type(MediaKind::Image), 1);
    assert_eq!(media_upload_type(MediaKind::Video), 3);
    assert_eq!(media_upload_type(MediaKind::File), 4);
    let given = GetUploadUrlResponse {
        ret: 0,
        errcode: 0,
        upload_url: Some("https://up/x".to_string()),
        download_url: Some("https://down/x".to_string()),
        file_id: Some("fid".to_string()),
    };
    let m = MediaMessage::from_upload(MediaKind::Video, "key1", &given, "v.mp4", 1234, 7);
    assert_eq!(m.kind, MediaKind::Video);
    assert_eq!(m.file_id, "fid");
    assert_eq!(m.download_url, "https://down/x");
    assert_eq!(m.aes_key, "");
    assert_eq!(m.file_name, "v.mp4");
    assert_eq!(m.size, 1234);
    assert_eq!(m.play_length, 7);
    let bare = GetUploadUrlResponse { ret: 0, errcode: 0, upload_url: None, download_url: None, file_id: None };
    let m = MediaMessage::from_upload(MediaKind::File, "key2", &bare, "a.pdf", 9, 0);
    assert_eq!(m.file_id, "key2");
    assert_eq!(m.download_url, "");
}
