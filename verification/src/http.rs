//! The decisions of the HTTP admin interface: which requests it accepts,
//! whom a message goes to, how an upload is sent, which images it proxies,
//! and the QR-code images it draws.
use crate::json::{json_of_entries, json_of_items, json_str, push_entry, push_item, Json, JsonValue};
use crate::nickname_store::NicknameStore;
use crate::text::{
    before_char, before_char_chars, chars_eq, chars_of, contains, contains_chars, ends_with, has_prefix, has_suffix,
    parse_signed, parse_signed_chars, slice_range, starts_with,
};
use vstd::prelude::*;
use vstd::utf8::encode_utf8;

verus! {

/// The message kind of an upload with content type `content_type`.
pub open spec fn inferred_message_type(content_type: Seq<char>) -> Seq<char> {
    if starts_with(content_type, "image/"@) {
        "image"@
    } else if starts_with(content_type, "video/"@) {
        "video"@
    } else {
        "file"@
    }
}

/// `image` for images, `video` for videos, `file` for anything else.
pub fn infer_message_type(content_type: &str) -> (r: String)
    ensures
        r@ == inferred_message_type(content_type@),
{
    let c = chars_of(content_type);
    if has_prefix(&c, &chars_of("image/")) {
        String::from_str("image")
    } else if has_prefix(&c, &chars_of("video/")) {
        String::from_str("video")
    } else {
        String::from_str("file")
    }
}

/// Why the image proxy refuses a URL.
#[derive(Debug, Clone, Copy, PartialEq, Eq, Structural)]
pub enum ProxyRefusal {
    /// Only HTTPS URLs are proxied (400).
    NotHttps,
    /// Only WeChat's hosts are proxied (403).
    HostNotAllowed,
}

impl ProxyRefusal {
    /// The HTTP status of the refusal.
    pub fn status(&self) -> (r: u16)
        ensures
            r == match self {
                ProxyRefusal::NotHttps => 400u16,
                ProxyRefusal::HostNotAllowed => 403u16,
            },
    {
        match self {
            ProxyRefusal::NotHttps => 400,
            ProxyRefusal::HostNotAllowed => 403,
        }
    }

    pub fn message(&self) -> (r: String)
        ensures
            r@ == match self {
                ProxyRefusal::NotHttps => "仅支持代理 HTTPS URL"@,
                ProxyRefusal::HostNotAllowed => "不允许代理该域名"@,
            },
    {
        match self {
            ProxyRefusal::NotHttps => String::from_str("仅支持代理 HTTPS URL"),
            ProxyRefusal::HostNotAllowed => String::from_str("不允许代理该域名"),
        }
    }
}

/// A character that ends a URL's authority: `/`, `\`, `?` or `#`.
pub open spec fn ends_authority(c: char) -> bool {
    c == '/' || c == '\\' || c == '?' || c == '#'
}

/// The length of the authority at the start of `rest` (a URL after its
/// scheme): the index of the first character that ends it, else its length.
pub open spec fn authority_len(rest: Seq<char>) -> nat
    decreases rest.len(),
{
    if rest.len() == 0 || ends_authority(rest[0]) {
        0
    } else {
        1 + authority_len(rest.drop_first())
    }
}

/// The authority of an `https://` URL: what follows the scheme, up to the
/// first `/`, `\`, `?` or `#`.
pub open spec fn https_authority(url: Seq<char>) -> Seq<char> {
    let rest = url.skip("https://"@.len() as int);
    rest.take(authority_len(rest) as int)
}

/// `host` is `domain` or one of its subdomains.
pub open spec fn within_domain(host: Seq<char>, domain: Seq<char>) -> bool {
    host == domain || ends_with(host, "."@ + domain)
}

/// The hosts the image proxy serves: WeChat's domains and their subdomains.
pub open spec fn wechat_host(host: Seq<char>) -> bool {
    within_domain(host, "weixin.qq.com"@) || within_domain(host, "qq.com"@) || within_domain(host, "wechat.com"@)
}

/// Whether the image proxy fetches `url`: only an HTTPS URL whose host (its
/// authority up to any `:port`) is one of WeChat's hosts. An authority with
/// user information (an `@`) is refused, since the host would be what
/// follows it.
pub open spec fn proxy_allowed(url: Seq<char>) -> Option<ProxyRefusal> {
    if !starts_with(url, "https://"@) {
        Some(ProxyRefusal::NotHttps)
    } else if contains(https_authority(url), "@"@) || !wechat_host(before_char(https_authority(url), ':')) {
        Some(ProxyRefusal::HostNotAllowed)
    } else {
        None
    }
}

proof fn lemma_authority_len(rest: Seq<char>, k: int)
    requires
        0 <= k <= rest.len(),
        forall|j: int| 0 <= j < k ==> !ends_authority(#[trigger] rest[j]),
        k == rest.len() || ends_authority(rest[k]),
    ensures
        authority_len(rest) == k,
    decreases k,
{
    if k > 0 {
        let t = rest.drop_first();
        assert forall|j: int| 0 <= j < k - 1 implies !ends_authority(#[trigger] t[j]) by {
            assert(t[j] == rest[j + 1]);
        }
        if k - 1 < t.len() {
            assert(t[k - 1] == rest[k]);
        }
        assert(!ends_authority(rest[0]));
        lemma_authority_len(t, k - 1);
    }
}

fn is_authority_end(c: char) -> (b: bool)
    ensures
        b == ends_authority(c),
{
    c == '/' || c == '\\' || c == '?' || c == '#'
}

fn is_within_domain(host: &[char], domain: &str) -> (b: bool)
    ensures
        b == within_domain(host@, domain@),
{
    let d = chars_of(domain);
    let mut dotted = chars_of(".");
    crate::text::append_chars(&mut dotted, &d);
    proof {
        reveal_strlit(".");
    }
    chars_eq(host, &d) || has_suffix(host, &dotted)
}

/// Checks a URL handed to the image proxy.
pub fn check_proxy_url(url: &str) -> (r: Result<(), ProxyRefusal>)
    ensures
        match r {
            Ok(()) => proxy_allowed(url@) is None,
            Err(e) => proxy_allowed(url@) == Some(e),
        },
{
    let u = chars_of(url);
    let scheme = chars_of("https://");
    if !has_prefix(&u, &scheme) {
        return Err(ProxyRefusal::NotHttps);
    }
    let rest = slice_range(&u, scheme.len(), u.len());
    assert(rest@ =~= url@.skip("https://"@.len() as int));
    let mut k: usize = 0;
    while k < rest.len() && !is_authority_end(rest[k])
        invariant
            k <= rest@.len(),
            forall|j: int| 0 <= j < k ==> !ends_authority(#[trigger] rest@[j]),
        decreases rest@.len() - k,
    {
        k = k + 1;
    }
    proof {
        lemma_authority_len(rest@, k as int);
    }
    let authority = slice_range(&rest, 0, k);
    assert(authority@ =~= https_authority(url@));
    if contains_chars(&authority, &chars_of("@")) {
        return Err(ProxyRefusal::HostNotAllowed);
    }
    let host = before_char_chars(&authority, ':');
    if !(is_within_domain(&host, "weixin.qq.com") || is_within_domain(&host, "qq.com") || is_within_domain(
        &host,
        "wechat.com",
    )) {
        return Err(ProxyRefusal::HostNotAllowed);
    }
    Ok(())
}

/// The answer to a file sent by `POST /message/send-file`.
pub fn file_sent_json(msg_type: &str, to_user_id: &str, file_name: &str, file_size: u64) -> (r: JsonValue)
    ensures
        r@ == Json::Object(
            seq![
                ("success"@, Json::Bool(true)),
                ("type"@, Json::Str(msg_type@)),
                ("to_user_id"@, Json::Str(to_user_id@)),
                ("file_name"@, Json::Str(file_name@)),
                ("file_size"@, Json::UInt(file_size)),
            ],
        ),
{
    let mut es: Vec<(String, JsonValue)> = Vec::new();
    push_entry(&mut es, "success", JsonValue::Bool(true));
    push_entry(&mut es, "type", json_str(msg_type));
    push_entry(&mut es, "to_user_id", json_str(to_user_id));
    push_entry(&mut es, "file_name", json_str(file_name));
    push_entry(&mut es, "file_size", JsonValue::UInt(file_size));
    assert(json_of_entries(es@) =~= seq![
        ("success"@, Json::Bool(true)),
        ("type"@, Json::Str(msg_type@)),
        ("to_user_id"@, Json::Str(to_user_id@)),
        ("file_name"@, Json::Str(file_name@)),
        ("file_size"@, Json::UInt(file_size)),
    ]);
    JsonValue::Object(es)
}

/// The content type of a proxied image: the remote one, else `image/png`.
pub fn proxy_content_type(remote: Option<&str>) -> (r: String)
    ensures
        r@ == match remote {
            Some(c) => c@,
            None => "image/png"@,
        },
{
    match remote {
        Some(c) => String::from_str(c),
        None => String::from_str("image/png"),
    }
}

/// Checks a text-message request: both the recipient and the text are needed.
pub fn check_send_message(to_user_id: &str, text: &str) -> (r: Result<(), String>)
    ensures
        match r {
            Ok(()) => to_user_id@.len() > 0 && text@.len() > 0,
            Err(e) => (to_user_id@.len() == 0 || text@.len() == 0) && e@ == "to_user_id 和 text 不能为空"@,
        },
{
    if to_user_id.is_empty() || text.is_empty() {
        Err(String::from_str("to_user_id 和 text 不能为空"))
    } else {
        Ok(())
    }
}

/// The user a request names: the user who goes by that nickname, if any,
/// else the name itself as a user id.
pub fn resolve_recipient(store: &NicknameStore, name: &str) -> (r: String)
    requires
        store.wf(),
    ensures
        (store@.contains_key(r@) && store@[r@] == name@) || (r@ == name@ && forall|u: Seq<char>|
            #[trigger] store@.contains_key(u) ==> store@[u] != name@),
{
    match store.find_by_nickname(name) {
        Some(uid) => uid,
        None => String::from_str(name),
    }
}

/// How an uploaded file is sent.
#[derive(Debug, Clone, Copy, PartialEq, Eq, Structural)]
pub enum FileKind {
    Image,
    Video,
    File,
}

/// The kind a message type names: `image`, `video`, or a file for anything
/// else.
pub open spec fn file_kind_of(msg_type: Seq<char>) -> FileKind {
    if msg_type == "image"@ {
        FileKind::Image
    } else if msg_type == "video"@ {
        FileKind::Video
    } else {
        FileKind::File
    }
}

/// The message type of an upload: the one given, else the one its content
/// type suggests.
pub open spec fn upload_type(msg_type: Seq<char>, content_type: Seq<char>) -> Seq<char> {
    if msg_type.len() == 0 {
        inferred_message_type(content_type)
    } else {
        msg_type
    }
}

/// Checks an upload request and decides how it is sent: a recipient and a
/// file are needed; the message type, when not given, follows the content
/// type. Returns the message type and the kind it names.
pub fn plan_file_send(to_user_id: &str, msg_type: &str, has_file: bool, content_type: &str) -> (r: Result<
    (String, FileKind),
    String,
>)
    ensures
        match r {
            Ok((t, k)) => {
                &&& to_user_id@.len() > 0 && has_file
                &&& t@ == upload_type(msg_type@, content_type@)
                &&& k == file_kind_of(t@)
            },
            Err(e) => if to_user_id@.len() == 0 {
                e@ == "to_user_id 不能为空"@
            } else {
                !has_file && e@ == "缺少 file 字段"@
            },
        },
{
    if to_user_id.is_empty() {
        return Err(String::from_str("to_user_id 不能为空"));
    }
    if !has_file {
        return Err(String::from_str("缺少 file 字段"));
    }
    let t = if msg_type.is_empty() {
        infer_message_type(content_type)
    } else {
        String::from_str(msg_type)
    };
    let tc = chars_of(t.as_str());
    let k = if crate::text::chars_eq(&tc, &chars_of("image")) {
        FileKind::Image
    } else if crate::text::chars_eq(&tc, &chars_of("video")) {
        FileKind::Video
    } else {
        FileKind::File
    };
    Ok((t, k))
}

/// The play length of an uploaded video: the form field read as a number,
/// else 0.
pub fn play_length_of(field: &str) -> (r: i64)
    ensures
        r == match parse_signed(field@) {
            Some(n) => n,
            None => 0,
        },
{
    match parse_signed_chars(&chars_of(field)) {
        Some(n) => n,
        None => 0,
    }
}

// ---------------------------------------------------------------------------
// QR-code images.

/// Whether `data` fits in a QR code (the crate encodes it in the smallest
/// version at error-correction level M).
pub uninterp spec fn qr_encodable(data: Seq<u8>) -> bool;

/// The 8-bit grayscale image that the `qrcode` crate draws for `data`, quiet
/// zone included: its pixels (one byte each, row by row), width and height.
pub uninterp spec fn qr_gray_image(data: Seq<u8>) -> (Seq<u8>, u32, u32);

/// The PNG file of an 8-bit grayscale image.
pub uninterp spec fn png_gray8(pixels: Seq<u8>, width: u32, height: u32) -> Seq<u8>;

/// `qrcode::QrCode::new(data)`, then `render::<Luma<u8>>().quiet_zone(true).build()`:
/// fails (with the error's text) exactly when `data` does not fit in a QR
/// code; otherwise gives the named image, which is never empty (every code
/// has at least 21 modules a side, plus the quiet zone) and whose buffer holds
/// one byte per pixel.
#[verifier::external_body]
fn qr_render_gray(data: &[u8]) -> (r: Result<(Vec<u8>, u32, u32), String>)
    ensures
        r is Ok <==> qr_encodable(data@),
        r matches Ok(t) ==> {
            &&& (t.0@, t.1, t.2) == qr_gray_image(data@)
            &&& t.1 > 0
            &&& t.2 > 0
            &&& t.0@.len() == t.1 as int * t.2 as int
        },
{
    match qrcode::QrCode::new(data) {
        Ok(code) => {
            let image = code.render::<image::Luma<u8>>().quiet_zone(true).build();
            Ok((image.as_raw().clone(), image.width(), image.height()))
        },
        Err(e) => Err(e.to_string()),
    }
}

/// `PngEncoder::write_image` with `ExtendedColorType::L8` into a byte
/// vector: the named PNG file, or the error's text. With a buffer of the
/// right size it fails only on a zero width or height (the `png` crate's
/// header check); writing into a `Vec` does not fail.
#[verifier::external_body]
fn png_encode_gray(pixels: &[u8], width: u32, height: u32) -> (r: Result<Vec<u8>, String>)
    requires
        pixels@.len() == width as int * height as int,
    ensures
        r matches Ok(b) ==> b@ == png_gray8(pixels@, width, height),
        width > 0 && height > 0 ==> r is Ok,
{
    let mut out: Vec<u8> = Vec::new();
    let encoder = image::codecs::png::PngEncoder::new(&mut out);
    match image::ImageEncoder::write_image(encoder, pixels, width, height, image::ExtendedColorType::L8) {
        Ok(()) => Ok(out),
        Err(e) => Err(e.to_string()),
    }
}

/// Why a QR-code image could not be drawn.
#[derive(Debug, Clone, PartialEq, Eq)]
pub enum QrImageError {
    /// No data was given (400).
    EmptyData,
    /// The data does not fit in a QR code (500), with the encoder's reason.
    Encode(String),
    /// The PNG encoder failed (500), with its reason.
    Png(String),
}

impl QrImageError {
    /// The HTTP status of the error.
    pub fn status(&self) -> (r: u16)
        ensures
            r == match self {
                QrImageError::EmptyData => 400u16,
                _ => 500u16,
            },
    {
        match self {
            QrImageError::EmptyData => 400,
            _ => 500,
        }
    }

    pub fn message(&self) -> (r: String)
        ensures
            r@ == match self {
                QrImageError::EmptyData => "data 参数不能为空"@,
                QrImageError::Encode(e) => "生成二维码失败: "@ + e@,
                QrImageError::Png(e) => "编码 PNG 失败: "@ + e@,
            },
    {
        match self {
            QrImageError::EmptyData => String::from_str("data 参数不能为空"),
            QrImageError::Encode(e) => {
                let mut s = String::from_str("生成二维码失败: ");
                s.append(e.as_str());
                s
            },
            QrImageError::Png(e) => {
                let mut s = String::from_str("编码 PNG 失败: ");
                s.append(e.as_str());
                s
            },
        }
    }
}

/// The PNG file of the QR code that `qrcode_png` draws for `data`.
pub open spec fn qr_png_of(data: Seq<u8>) -> Seq<u8> {
    let image = qr_gray_image(data);
    png_gray8(image.0, image.1, image.2)
}

/// Draws `data` (its UTF-8 bytes) as a QR code and encodes it as a PNG file:
/// empty data is refused, data that does not fit fails with the encoder's
/// reason, and any other data gives the PNG of its QR code.
pub fn qrcode_png(data: &str) -> (r: Result<Vec<u8>, QrImageError>)
    ensures
        data@.len() == 0 ==> r == Err::<Vec<u8>, QrImageError>(QrImageError::EmptyData),
        data@.len() > 0 && !qr_encodable(encode_utf8(data@)) ==> r matches Err(QrImageError::Encode(_)),
        data@.len() > 0 && qr_encodable(encode_utf8(data@)) ==> (r matches Ok(png) && png@
            == qr_png_of(encode_utf8(data@))),
{
    if data.is_empty() {
        return Err(QrImageError::EmptyData);
    }
    let (pixels, width, height) = match qr_render_gray(data.as_bytes()) {
        Ok(t) => t,
        Err(e) => {
            return Err(QrImageError::Encode(e));
        },
    };
    match png_encode_gray(&pixels, width, height) {
        Ok(png) => Ok(png),
        Err(e) => Err(QrImageError::Png(e)),
    }
}

} // verus!

verus! {

/// How a user appears in the admin interface's lists.
pub open spec fn user_entry_json(m: Map<Seq<char>, Seq<char>>, user_id: Seq<char>) -> Json {
    Json::Object(
        seq![
            ("nickname"@, Json::Str(crate::nickname_store::display_name_of(m, user_id))),
            ("user_id"@, Json::Str(user_id)),
        ],
    )
}

/// The entries of a list of users.
pub fn user_entries(store: &NicknameStore, users: &Vec<String>) -> (r: Vec<JsonValue>)
    requires
        store.wf(),
    ensures
        json_of_items(r@) == users@.map_values(|u: String| user_entry_json(store@, u@)),
{
    let ghost ids = crate::bot::string_views(users@);
    let mut out: Vec<JsonValue> = Vec::new();
    let mut i: usize = 0;
    while i < users.len()
        invariant
            i <= users@.len(),
            store.wf(),
            ids == crate::bot::string_views(users@),
            json_of_items(out@) == users@.take(i as int).map_values(|u: String| user_entry_json(store@, u@)),
        decreases users@.len() - i,
    {
        proof {
            assert(ids[i as int] == users@[i as int]@);
        }
        let display = store.display_name(users[i].as_str());
        let mut es: Vec<(String, JsonValue)> = Vec::new();
        push_entry(&mut es, "nickname", JsonValue::Str(display));
        push_entry(&mut es, "user_id", JsonValue::Str(users[i].clone()));
        proof {
            assert(json_of_entries(es@) =~= seq![
                ("nickname"@, Json::Str(crate::nickname_store::display_name_of(store@, users@[i as int]@))),
                ("user_id"@, Json::Str(users@[i as int]@)),
            ]);
        }
        push_item(&mut out, JsonValue::Object(es));
        proof {
            assert(users@.take(i + 1).map_values(|u: String| user_entry_json(store@, u@)) =~= users@.take(
                i as int,
            ).map_values(|u: String| user_entry_json(store@, u@)).push(user_entry_json(store@, users@[i as int]@)));
        }
        i = i + 1;
    }
    assert(users@.take(i as int) =~= users@);
    out
}

/// `GET /status`: whether any account is registered, how many, and each
/// account's user.
pub fn status_json(store: &NicknameStore, account_users: &Vec<String>) -> (r: JsonValue)
    requires
        store.wf(),
    ensures
        r@ == Json::Object(
            seq![
                ("online"@, Json::Bool(account_users@.len() > 0)),
                ("account_count"@, Json::UInt(account_users@.len() as u64)),
                ("accounts"@, Json::Array(account_users@.map_values(|u: String| user_entry_json(store@, u@)))),
            ],
        ),
{
    let list = user_entries(store, account_users);
    let mut es: Vec<(String, JsonValue)> = Vec::new();
    push_entry(&mut es, "online", JsonValue::Bool(account_users.len() > 0));
    push_entry(&mut es, "account_count", JsonValue::UInt(account_users.len() as u64));
    push_entry(&mut es, "accounts", JsonValue::Array(list));
    let r = JsonValue::Object(es);
    assert(json_of_entries(es@) =~= seq![
        ("online"@, Json::Bool(account_users@.len() > 0)),
        ("account_count"@, Json::UInt(account_users@.len() as u64)),
        ("accounts"@, Json::Array(account_users@.map_values(|u: String| user_entry_json(store@, u@)))),
    ]);
    r
}

/// `GET /accounts`: how many accounts, and each account's user.
pub fn accounts_json(store: &NicknameStore, account_users: &Vec<String>) -> (r: JsonValue)
    requires
        store.wf(),
    ensures
        r@ == Json::Object(
            seq![
                ("count"@, Json::UInt(account_users@.len() as u64)),
                ("accounts"@, Json::Array(account_users@.map_values(|u: String| user_entry_json(store@, u@)))),
            ],
        ),
{
    let list = user_entries(store, account_users);
    let mut es: Vec<(String, JsonValue)> = Vec::new();
    push_entry(&mut es, "count", JsonValue::UInt(account_users.len() as u64));
    push_entry(&mut es, "accounts", JsonValue::Array(list));
    let r = JsonValue::Object(es);
    assert(json_of_entries(es@) =~= seq![
        ("count"@, Json::UInt(account_users@.len() as u64)),
        ("accounts"@, Json::Array(account_users@.map_values(|u: String| user_entry_json(store@, u@)))),
    ]);
    r
}

} // verus!

verus! {

/// The number of users over all groups.
pub open spec fn total_users(groups: Seq<(String, Vec<crate::bot::UserInfo>)>) -> nat
    decreases groups.len(),
{
    if groups.len() == 0 {
        0
    } else {
        total_users(groups.drop_last()) + groups.last().1@.len()
    }
}

/// A group of `GET /users`: an account and its users.
pub open spec fn group_json(m: Map<Seq<char>, Seq<char>>, g: (String, Vec<crate::bot::UserInfo>)) -> Json {
    Json::Object(
        seq![
            ("account_id"@, Json::Str(g.0@)),
            ("users"@, Json::Array(g.1@.map_values(|u: crate::bot::UserInfo| user_entry_json(m, u.user_id@)))),
        ],
    )
}

/// `GET /users`: the connected users, grouped by account, and their number.
pub fn users_json(store: &NicknameStore, groups: &Vec<(String, Vec<crate::bot::UserInfo>)>) -> (r: JsonValue)
    requires
        store.wf(),
        total_users(groups@) <= u64::MAX,
    ensures
        r@ == Json::Object(
            seq![
                ("total_users"@, Json::UInt(total_users(groups@) as u64)),
                ("accounts"@, Json::Array(groups@.map_values(|g: (String, Vec<crate::bot::UserInfo>)| group_json(store@, g)))),
            ],
        ),
{
    let mut total: u64 = 0;
    let mut list: Vec<JsonValue> = Vec::new();
    let mut g: usize = 0;
    while g < groups.len()
        invariant
            g <= groups@.len(),
            store.wf(),
            total_users(groups@) <= u64::MAX,
            total == total_users(groups@.take(g as int)),
            json_of_items(list@) == groups@.take(g as int).map_values(
                |g: (String, Vec<crate::bot::UserInfo>)| group_json(store@, g),
            ),
        decreases groups@.len() - g,
    {
        proof {
            assert(groups@.take(g + 1).drop_last() =~= groups@.take(g as int));
            lemma_total_users_prefix(groups@, g + 1);
        }
        let users = &groups[g].1;
        let mut ids: Vec<String> = Vec::new();
        let mut i: usize = 0;
        while i < users.len()
            invariant
                i <= users@.len(),
                ids@.len() == i,
                forall|k: int| 0 <= k < i ==> (#[trigger] ids@[k])@ == users@[k].user_id@,
            decreases users@.len() - i,
        {
            ids.push(users[i].user_id.clone());
            i = i + 1;
        }
        let entries = user_entries(store, &ids);
        proof {
            assert(ids@.map_values(|u: String| user_entry_json(store@, u@)) =~= users@.map_values(
                |u: crate::bot::UserInfo| user_entry_json(store@, u.user_id@),
            ));
        }
        let mut es: Vec<(String, JsonValue)> = Vec::new();
        push_entry(&mut es, "account_id", JsonValue::Str(groups[g].0.clone()));
        push_entry(&mut es, "users", JsonValue::Array(entries));
        proof {
            assert(json_of_entries(es@) =~= seq![
                ("account_id"@, Json::Str(groups@[g as int].0@)),
                ("users"@, Json::Array(users@.map_values(|u: crate::bot::UserInfo| user_entry_json(store@, u.user_id@)))),
            ]);
        }
        push_item(&mut list, JsonValue::Object(es));
        proof {
            assert(groups@.take(g + 1).map_values(|g: (String, Vec<crate::bot::UserInfo>)| group_json(store@, g))
                =~= groups@.take(g as int).map_values(|g: (String, Vec<crate::bot::UserInfo>)| group_json(store@, g)).push(
                group_json(store@, groups@[g as int]),
            ));
        }
        total = total + users.len() as u64;
        g = g + 1;
    }
    assert(groups@.take(g as int) =~= groups@);
    let mut es: Vec<(String, JsonValue)> = Vec::new();
    push_entry(&mut es, "total_users", JsonValue::UInt(total));
    push_entry(&mut es, "accounts", JsonValue::Array(list));
    let r = JsonValue::Object(es);
    assert(json_of_entries(es@) =~= seq![
        ("total_users"@, Json::UInt(total_users(groups@) as u64)),
        ("accounts"@, Json::Array(groups@.map_values(|g: (String, Vec<crate::bot::UserInfo>)| group_json(store@, g)))),
    ]);
    r
}

/// A prefix of the groups has no more users than all of them.
proof fn lemma_total_users_prefix(groups: Seq<(String, Vec<crate::bot::UserInfo>)>, n: int)
    requires
        0 <= n <= groups.len(),
    ensures
        total_users(groups.take(n)) <= total_users(groups),
    decreases groups.len(),
{
    if n < groups.len() {
        assert(groups.drop_last().take(n) =~= groups.take(n));
        lemma_total_users_prefix(groups.drop_last(), n);
    } else {
        assert(groups.take(n) =~= groups);
    }
}

} // verus!
