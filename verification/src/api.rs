//! The iLink bot protocol: its replies, the settings of a client, and the
//! URLs, headers and JSON bodies of its requests.
use crate::json::{json_of_entries, json_of_items, json_str, push_entry, push_item, Json, JsonValue};
use crate::text::{
    chars_of, decimal, parse_unsigned, parse_unsigned_chars, split_char, split_char_chars, string_from,
    trim_end_char, trim_end_char_chars, u64_to_decimal, views,
};
use rand::Rng;
use vstd::prelude::*;

verus! {

/// The protocol's default base URL.
pub const DEFAULT_BASE_URL: &'static str = "https://ilinkai.weixin.qq.com";

/// Default server-side timeout of a long poll (milliseconds).
pub const DEFAULT_LONG_POLL_TIMEOUT_MS: u64 = 35_000;

/// Default timeout of any other call (milliseconds).
pub const DEFAULT_API_TIMEOUT_MS: u64 = 15_000;

/// What the server says of a login QR code.
#[derive(Debug, Clone)]
pub struct QRCodeStatusResponse {
    pub status: Option<String>,
    pub bot_token: Option<String>,
    pub ilink_bot_id: Option<String>,
    pub baseurl: Option<String>,
    pub ilink_user_id: Option<String>,
    pub redirect_host: Option<String>,
    pub errcode: i64,
    pub errmsg: Option<String>,
}

impl QRCodeStatusResponse {
    /// The status a long poll that timed out stands for: still waiting.
    pub fn waiting() -> (r: QRCodeStatusResponse)
        ensures
            r.status matches Some(s) && s@ == "wait"@,
            r.bot_token is None && r.ilink_bot_id is None && r.baseurl is None,
            r.ilink_user_id is None && r.redirect_host is None,
            r.errcode == 0 && r.errmsg is None,
    {
        QRCodeStatusResponse {
            status: Some(String::from_str("wait")),
            bot_token: None,
            ilink_bot_id: None,
            baseurl: None,
            ilink_user_id: None,
            redirect_host: None,
            errcode: 0,
            errmsg: None,
        }
    }
}

/// A new login QR code.
#[derive(Debug, Clone)]
pub struct QRCodeResponse {
    pub qrcode: Option<String>,
    pub qrcode_img_content: Option<String>,
    pub errcode: i64,
    pub errmsg: Option<String>,
}

/// The reply to `getupdates`.
#[derive(Debug)]
pub struct GetUpdatesResponse {
    pub ret: i64,
    pub errcode: i64,
    pub errmsg: Option<String>,
    pub msgs: Vec<JsonValue>,
    pub get_updates_buf: String,
    pub longpolling_timeout_ms: Option<u64>,
}

/// The reply to `sendmessage`.
#[derive(Debug, Clone)]
pub struct SendMessageResponse {
    pub ret: i64,
    pub errcode: i64,
    pub errmsg: Option<String>,
}

/// The reply to `getconfig`.
#[derive(Debug, Clone)]
pub struct GetConfigResponse {
    pub ret: i64,
    pub errcode: i64,
    pub typing_ticket: Option<String>,
}

/// The reply to `getuploadurl`.
#[derive(Debug, Clone)]
pub struct GetUploadUrlResponse {
    pub ret: i64,
    pub errcode: i64,
    pub upload_url: Option<String>,
    pub download_url: Option<String>,
    pub file_id: Option<String>,
}

/// The numbers of a dotted version that read as `u32`, in order.
pub open spec fn parsed_parts(pieces: Seq<Seq<char>>) -> Seq<nat>
    decreases pieces.len(),
{
    if pieces.len() == 0 {
        Seq::empty()
    } else {
        let rest = parsed_parts(pieces.drop_last());
        match parse_unsigned(pieces.last(), 0xFFFF_FFFF) {
            Some(v) => rest.push(v),
            None => rest,
        }
    }
}

/// The `i`-th number, or 0.
pub open spec fn part_or_zero(ps: Seq<nat>, i: int) -> nat {
    if 0 <= i < ps.len() {
        ps[i]
    } else {
        0
    }
}

/// The client version as one integer: the low bytes of major, minor and patch,
/// as `major << 16 | minor << 8 | patch`.
pub open spec fn client_version_of(version: Seq<char>) -> nat {
    let ps = parsed_parts(split_char(version, '.'));
    (part_or_zero(ps, 0) % 256) * 65536 + (part_or_zero(ps, 1) % 256) * 256 + part_or_zero(ps, 2) % 256
}

/// A base URL without its trailing slashes.
pub open spec fn base_url_of(base_url: Option<Seq<char>>) -> Seq<char> {
    trim_end_char(
        match base_url {
            Some(u) => u,
            None => DEFAULT_BASE_URL@,
        },
        '/',
    )
}

/// The settings of an iLink client: where it talks to, as which bot, with
/// which token.
pub struct ILinkAPI {
    /// Base URL, without trailing `/`.
    pub base_url: String,
    pub token: Option<String>,
    pub app_id: String,
    /// The client version as one integer.
    pub client_version: u32,
}

fn low_byte_parts(major: u32, minor: u32, patch: u32) -> (r: u32)
    ensures
        r == (major % 256) * 65536 + (minor % 256) * 256 + patch % 256,
{
    let r = ((major & 0xFF) << 16) | ((minor & 0xFF) << 8) | (patch & 0xFF);
    assert(((major & 0xFF) << 16) | ((minor & 0xFF) << 8) | (patch & 0xFF) == (major % 256) * 65536 + (
    minor % 256) * 256 + patch % 256) by (bit_vector);
    r
}

impl ILinkAPI {
    /// A client of `base_url` (the default one when absent, trailing `/`
    /// removed) with an optional token.
    pub fn new(base_url: Option<&str>, token: Option<&str>, app_id: &str, version: &str) -> (r: ILinkAPI)
        ensures
            r.base_url@ == base_url_of(
                match base_url {
                    Some(u) => Some(u@),
                    None => None,
                },
            ),
            match r.token {
                Some(t) => token matches Some(t0) && t@ == t0@,
                None => token is None,
            },
            r.app_id@ == app_id@,
            r.client_version == client_version_of(version@),
    {
        let raw = match base_url {
            Some(u) => chars_of(u),
            None => chars_of(DEFAULT_BASE_URL),
        };
        let base = string_from(&trim_end_char_chars(&raw, '/'));
        ILinkAPI {
            base_url: base,
            token: match token {
                Some(t) => Some(String::from_str(t)),
                None => None,
            },
            app_id: String::from_str(app_id),
            client_version: Self::build_client_version(version),
        }
    }

    /// The client version of a dotted version string: `1.2.3` is `0x010203`;
    /// parts that are not numbers are skipped, missing ones count as 0.
    pub fn build_client_version(version: &str) -> (r: u32)
        ensures
            r == client_version_of(version@),
    {
        let pieces = split_char_chars(&chars_of(version), '.');
        let mut parts: Vec<u32> = Vec::new();
        let mut i: usize = 0;
        while i < pieces.len()
            invariant
                i <= pieces@.len(),
                views(pieces@) == split_char(version@, '.'),
                parts@.map_values(|v: u32| v as nat) == parsed_parts(views(pieces@).take(i as int)),
            decreases pieces@.len() - i,
        {
            proof {
                assert(views(pieces@).take(i + 1).drop_last() =~= views(pieces@).take(i as int));
                assert(views(pieces@).take(i + 1).last() == pieces@[i as int]@);
            }
            let ghost before = parts@;
            match parse_unsigned_chars(&pieces[i], 0xFFFF_FFFF) {
                Some(v) => {
                    parts.push(v as u32);
                    assert(parts@.map_values(|v: u32| v as nat) =~= before.map_values(|v: u32| v as nat).push(
                        v as nat,
                    ));
                },
                None => {},
            }
            i = i + 1;
        }
        assert(views(pieces@).take(i as int) =~= views(pieces@));
        let ghost ps = parts@.map_values(|v: u32| v as nat);
        let major = if parts.len() > 0 {
            parts[0]
        } else {
            0
        };
        let minor = if parts.len() > 1 {
            parts[1]
        } else {
            0
        };
        let patch = if parts.len() > 2 {
            parts[2]
        } else {
            0
        };
        assert(major == part_or_zero(ps, 0));
        assert(minor == part_or_zero(ps, 1));
        assert(patch == part_or_zero(ps, 2));
        low_byte_parts(major, minor, patch)
    }

    /// Replaces the token.
    pub fn set_token(&mut self, token: &str)
        ensures
            final(self).token matches Some(t) && t@ == token@,
            final(self).base_url == old(self).base_url,
            final(self).app_id == old(self).app_id,
            final(self).client_version == old(self).client_version,
    {
        self.token = Some(String::from_str(token));
    }

    /// Replaces the base URL (trailing `/` removed).
    pub fn set_base_url(&mut self, url: &str)
        ensures
            final(self).base_url@ == trim_end_char(url@, '/'),
            final(self).token == old(self).token,
            final(self).app_id == old(self).app_id,
            final(self).client_version == old(self).client_version,
    {
        self.base_url = string_from(&trim_end_char_chars(&chars_of(url), '/'));
    }

    /// The URL of a POST endpoint: `<base>/<endpoint>`.
    pub fn endpoint_url(&self, endpoint: &str) -> (r: String)
        ensures
            r@ == self.base_url@ + "/"@ + endpoint@,
    {
        let mut s = self.base_url.clone();
        s.append("/");
        s.append(endpoint);
        s
    }

    /// The URL that asks for a login QR code for a bot of type `bot_type`.
    pub fn qrcode_url(&self, bot_type: &str) -> (r: String)
        ensures
            r@ == self.base_url@ + "/ilink/bot/get_bot_qrcode?bot_type="@ + bot_type@,
    {
        let mut s = self.base_url.clone();
        s.append("/ilink/bot/get_bot_qrcode?bot_type=");
        s.append(bot_type);
        s
    }

    /// The URL that asks `base_url` for the status of a QR code.
    pub fn qrcode_status_url(base_url: &str, qrcode: &str) -> (r: String)
        ensures
            r@ == base_url@ + "/ilink/bot/get_qrcode_status?qrcode="@ + qrcode@,
    {
        let mut s = String::from_str(base_url);
        s.append("/ilink/bot/get_qrcode_status?qrcode=");
        s.append(qrcode);
        s
    }
}

} // verus!

verus! {

/// A header list as plain text pairs.
pub open spec fn header_views(h: Seq<(String, String)>) -> Seq<(Seq<char>, Seq<char>)> {
    h.map_values(|e: (String, String)| (e.0@, e.1@))
}

/// The headers of an authenticated call.
pub open spec fn full_headers(
    app_id: Seq<char>,
    client_version: u32,
    uin: Seq<char>,
    token: Option<Seq<char>>,
) -> Seq<(Seq<char>, Seq<char>)> {
    seq![
        ("Content-Type"@, "application/json"@),
        ("AuthorizationType"@, "ilink_bot_token"@),
        ("iLink-App-Id"@, app_id),
        ("iLink-App-ClientVersion"@, decimal(client_version as nat)),
        ("X-WECHAT-UIN"@, uin),
    ] + match token {
        Some(t) => seq![("Authorization"@, "Bearer "@ + t)],
        None => Seq::empty(),
    }
}

/// The headers of a QR-code call made without a token.
pub open spec fn simple_headers(app_id: Seq<char>, client_version: u32) -> Seq<(Seq<char>, Seq<char>)> {
    seq![("iLink-App-Id"@, app_id), ("iLink-App-ClientVersion"@, decimal(client_version as nat))]
}

/// The bytes of an ASCII text.
pub open spec fn ascii_bytes(s: Seq<char>) -> Seq<u8> {
    s.map_values(|c: char| c as u8)
}

/// The `X-WECHAT-UIN` header of the number `n`: the standard base64 of its
/// decimal digits.
pub open spec fn uin_of(n: u32) -> Seq<char> {
    crate::crypto::base64_standard_encode(ascii_bytes(decimal(n as nat)))
}

/// `n` as 16 lowercase hexadecimal digits (`{:016x}`), for `n < 16^16`.
pub open spec fn hex16(n: nat, width: nat) -> Seq<char>
    decreases width,
{
    if width == 0 {
        Seq::empty()
    } else {
        hex16(n / 16, (width - 1) as nat).push(crate::todo_store::hex_digit((n % 16) as int))
    }
}

/// The client id of a message sent with the random number `n`.
pub open spec fn client_id_of(n: u64) -> Seq<char> {
    "bot-"@ + hex16(n as nat, 16)
}

/// `rand::thread_rng().gen::<u32>()`: any `u32`.
#[verifier::external_body]
fn random_u32() -> (r: u32) {
    rand::thread_rng().gen::<u32>()
}

/// `rand::thread_rng().gen::<u64>()`: any `u64`.
#[verifier::external_body]
fn random_u64() -> (r: u64) {
    rand::thread_rng().gen::<u64>()
}

fn push_header(h: &mut Vec<(String, String)>, name: &str, value: String)
    ensures
        header_views(final(h)@) == header_views(old(h)@).push((name@, value@)),
{
    let ghost before = h@;
    h.push((String::from_str(name), value));
    assert(header_views(h@) =~= header_views(before).push((name@, value@)));
}

/// The bytes of an ASCII text, one per character.
fn to_ascii_bytes(s: &[char]) -> (r: Vec<u8>)
    ensures
        r@ == ascii_bytes(s@),
{
    let mut r: Vec<u8> = Vec::new();
    let mut i: usize = 0;
    while i < s.len()
        invariant
            i <= s@.len(),
            r@ == ascii_bytes(s@.take(i as int)),
        decreases s@.len() - i,
    {
        r.push(s[i] as u8);
        assert(ascii_bytes(s@.take(i + 1)) =~= ascii_bytes(s@.take(i as int)).push(s@[i as int] as u8));
        i = i + 1;
    }
    assert(s@.take(i as int) =~= s@);
    r
}

/// The `X-WECHAT-UIN` header for the number `n`.
pub fn wechat_uin(n: u32) -> (r: String)
    ensures
        r@ == uin_of(n),
{
    let digits = u64_to_decimal(n as u64);
    crate::crypto::base64_encode(&to_ascii_bytes(&digits))
}

/// A fresh `X-WECHAT-UIN` header, from a random `u32`.
pub fn random_wechat_uin() -> (r: String)
    ensures
        exists|n: u32| r@ == uin_of(n),
{
    let n = random_u32();
    wechat_uin(n)
}

/// The 16 hexadecimal digits of `n`.
fn hex16_of(n: u64) -> (r: Vec<char>)
    ensures
        r@ == hex16(n as nat, 16),
{
    let mut digits: Vec<char> = Vec::new();
    let mut k: u64 = n;
    let mut w: usize = 0;
    assert(pow16(0) == 1);
    assert(n as nat / 1 == n as nat);
    assert(digits@.reverse() =~= Seq::<char>::empty());
    assert(hex16(n as nat, 16) + Seq::<char>::empty() =~= hex16(n as nat, 16));
    // Digits come out least significant first.
    while w < 16
        invariant
            w <= 16,
            digits@.len() == w,
            k as nat == n as nat / pow16(w as nat),
            hex16(n as nat, 16) == hex16(k as nat, (16 - w) as nat) + digits@.reverse(),
        decreases 16 - w,
    {
        let d = (k % 16) as u8;
        let c = crate::todo_store::hex_char(d);
        proof {
            lemma_pow16_div(n as nat, w as nat);
            let rest = hex16(k as nat / 16, (16 - w - 1) as nat);
            assert(hex16(k as nat, (16 - w) as nat) == rest.push(c));
            assert(digits@.push(c).reverse() =~= seq![c] + digits@.reverse());
            assert(rest.push(c) + digits@.reverse() =~= rest + (seq![c] + digits@.reverse()));
        }
        digits.push(c);
        k = k / 16;
        w = w + 1;
    }
    assert(hex16(k as nat, 0) =~= Seq::<char>::empty());
    assert(Seq::<char>::empty() + digits@.reverse() =~= digits@.reverse());
    let mut r: Vec<char> = Vec::new();
    let mut i: usize = 16;
    while i > 0
        invariant
            i <= 16,
            digits@.len() == 16,
            r@ == digits@.reverse().take(16 - i),
        decreases i,
    {
        i = i - 1;
        r.push(digits[i]);
        assert(digits@.reverse().take(16 - i) =~= digits@.reverse().take(16 - i - 1).push(digits@[i as int]));
    }
    assert(digits@.reverse().take(16) =~= digits@.reverse());
    r
}

/// `16^e`.
pub open spec fn pow16(e: nat) -> nat
    decreases e,
{
    if e == 0 {
        1
    } else {
        16 * pow16((e - 1) as nat)
    }
}

proof fn lemma_pow16_div(n: nat, w: nat)
    ensures
        pow16(w) > 0,
        n / pow16(w) / 16 == n / pow16(w + 1),
    decreases w,
{
    if w > 0 {
        lemma_pow16_div(n, (w - 1) as nat);
    }
    assert(pow16(w + 1) == 16 * pow16(w));
    vstd::arithmetic::div_mod::lemma_div_denominator(n as int, pow16(w) as int, 16);
    vstd::arithmetic::mul::lemma_mul_is_commutative(pow16(w) as int, 16);
}

/// The client id of a message sent with the random number `n`: `bot-` and
/// 16 hexadecimal digits.
pub fn client_id_for(n: u64) -> (r: String)
    ensures
        r@ == client_id_of(n),
{
    let mut s = String::from_str("bot-");
    let h = string_from(&hex16_of(n));
    s.append(h.as_str());
    s
}

/// The client id of an outgoing message: the one given, or a fresh random one.
pub fn message_client_id(given: Option<&str>) -> (r: String)
    ensures
        match given {
            Some(g) => r@ == g@,
            None => exists|n: u64| r@ == client_id_of(n),
        },
{
    match given {
        Some(g) => String::from_str(g),
        None => client_id_for(random_u64()),
    }
}

impl ILinkAPI {
    /// The headers of an authenticated call, with the given `X-WECHAT-UIN`.
    pub fn headers(&self, uin: &str) -> (r: Vec<(String, String)>)
        ensures
            header_views(r@) == full_headers(
                self.app_id@,
                self.client_version,
                uin@,
                match self.token {
                    Some(t) => Some(t@),
                    None => None,
                },
            ),
    {
        let mut h: Vec<(String, String)> = Vec::new();
        push_header(&mut h, "Content-Type", String::from_str("application/json"));
        push_header(&mut h, "AuthorizationType", String::from_str("ilink_bot_token"));
        push_header(&mut h, "iLink-App-Id", self.app_id.clone());
        push_header(&mut h, "iLink-App-ClientVersion", string_from(&u64_to_decimal(self.client_version as u64)));
        push_header(&mut h, "X-WECHAT-UIN", String::from_str(uin));
        match &self.token {
            Some(t) => {
                let mut v = String::from_str("Bearer ");
                v.append(t.as_str());
                push_header(&mut h, "Authorization", v);
            },
            None => {},
        }
        proof {
            let expected = full_headers(
                self.app_id@,
                self.client_version,
                uin@,
                match &self.token {
                    Some(t) => Some(t@),
                    None => None,
                },
            );
            assert(header_views(h@) =~= expected);
        }
        h
    }

    /// The headers of a QR-code call made without a token.
    pub fn simple_headers(&self) -> (r: Vec<(String, String)>)
        ensures
            header_views(r@) == simple_headers(self.app_id@, self.client_version),
    {
        let mut h: Vec<(String, String)> = Vec::new();
        push_header(&mut h, "iLink-App-Id", self.app_id.clone());
        push_header(&mut h, "iLink-App-ClientVersion", string_from(&u64_to_decimal(self.client_version as u64)));
        assert(header_views(h@) =~= simple_headers(self.app_id@, self.client_version));
        h
    }

    /// The headers of a QR-code call: with a token (binding a new user to this
    /// bot) the authenticated ones, else the simple ones.
    pub fn qrcode_headers(&self, uin: &str) -> (r: Vec<(String, String)>)
        ensures
            header_views(r@) == match self.token {
                Some(t) => full_headers(self.app_id@, self.client_version, uin@, Some(t@)),
                None => simple_headers(self.app_id@, self.client_version),
            },
    {
        match &self.token {
            Some(_) => self.headers(uin),
            None => self.simple_headers(),
        }
    }
}

} // verus!

verus! {

/// What every POST body carries as `base_info`.
pub open spec fn base_info() -> Json {
    Json::Object(seq![("channel_version"@, Json::Str("1.0.0"@))])
}

/// A POST body with `base_info` set, when it is an object.
pub open spec fn with_base_info_of(body: Json) -> Json {
    match body {
        Json::Object(es) => Json::Object(crate::json::with_member(es, "base_info"@, base_info())),
        other => other,
    }
}

fn base_info_value() -> (r: JsonValue)
    ensures
        r@ == base_info(),
{
    let mut es: Vec<(String, JsonValue)> = Vec::new();
    push_entry(&mut es, "channel_version", json_str("1.0.0"));
    let r = JsonValue::Object(es);
    assert(r@ =~= base_info());
    r
}

/// Sets `base_info` in a POST body that is an object; any other body is sent
/// as it is.
pub fn with_base_info(body: JsonValue) -> (r: JsonValue)
    ensures
        r@ == with_base_info_of(body@),
{
    match body {
        JsonValue::Object(entries) => {
            let ghost es = json_of_entries(entries@);
            proof {
                crate::json::lemma_json_of_entries(entries@);
            }
            let key = chars_of("base_info");
            let mut out: Vec<(String, JsonValue)> = Vec::new();
            let mut found = false;
            let mut i: usize = 0;
            while i < entries.len()
                invariant
                    i <= entries@.len() == es.len(),
                    es == json_of_entries(entries@),
                    forall|j: int| 0 <= j < entries@.len() ==> #[trigger] es[j] == (entries@[j].0@, crate::json::json_of(entries@[j].1)),
                    key@ == "base_info"@,
                    json_of_entries(out@) == es.take(i as int).map_values(|e: (Seq<char>, Json)| crate::json::member_with(e, "base_info"@, base_info())),
                    found == exists|j: int| 0 <= j < i && #[trigger] es[j].0 == "base_info"@,
                decreases entries@.len() - i,
            {
                let k = entries[i].0.clone();
                let is_key = crate::text::chars_eq(&chars_of(k.as_str()), &key);
                let v = if is_key {
                    base_info_value()
                } else {
                    entries[i].1.deep_clone()
                };
                push_entry(&mut out, k.as_str(), v);
                proof {
                    assert(es[i as int] == (entries@[i as int].0@, crate::json::json_of(entries@[i as int].1)));
                    assert(k@ == es[i as int].0);
                    if is_key {
                        assert(es[i as int].0 == "base_info"@);
                    } else {
                        assert(v@ == es[i as int].1);
                    }
                    assert(crate::json::member_with(es[i as int], "base_info"@, base_info()) == (k@, v@));
                    assert(es.take(i + 1).map_values(|e: (Seq<char>, Json)| crate::json::member_with(e, "base_info"@, base_info())) =~= es.take(i as int).map_values(|e: (Seq<char>, Json)| crate::json::member_with(e, "base_info"@, base_info())).push(crate::json::member_with(es[i as int], "base_info"@, base_info())));
                }
                found = found || is_key;
                i = i + 1;
            }
            assert(es.take(i as int) =~= es);
            if !found {
                push_entry(&mut out, "base_info", base_info_value());
                proof {
                    assert forall|j: int| 0 <= j < es.len() implies es[j].0 != "base_info"@ by {}
                    assert(es.map_values(|e: (Seq<char>, Json)| crate::json::member_with(e, "base_info"@, base_info())) =~= es);
                    assert(!(exists|j: int| 0 <= j < es.len() && #[trigger] es[j].0 == "base_info"@));
                }
            }
            JsonValue::Object(out)
        },
        other => other,
    }
}

/// The body of `getupdates`.
pub fn get_updates_body(get_updates_buf: &str) -> (r: JsonValue)
    ensures
        r@ == Json::Object(seq![("get_updates_buf"@, Json::Str(get_updates_buf@))]),
{
    let mut es: Vec<(String, JsonValue)> = Vec::new();
    push_entry(&mut es, "get_updates_buf", json_str(get_updates_buf));
    let r = JsonValue::Object(es);
    assert(r@ =~= Json::Object(seq![("get_updates_buf"@, Json::Str(get_updates_buf@))]));
    r
}

/// The client-side timeout of a long poll: the server's (35 s by default)
/// plus five seconds.
pub fn updates_client_timeout(timeout_ms: Option<u64>) -> (r: u64)
    requires
        timeout_ms matches Some(t) ==> t <= u64::MAX - 5_000,
    ensures
        r == match timeout_ms {
            Some(t) => t,
            None => DEFAULT_LONG_POLL_TIMEOUT_MS,
        } + 5_000,
{
    let t = match timeout_ms {
        Some(t) => t,
        None => DEFAULT_LONG_POLL_TIMEOUT_MS,
    };
    t + 5_000
}

/// A failed long poll whose error mentions a timeout counts as an empty
/// round that keeps the cursor; any other failure stays a failure.
pub fn updates_after_error(error_text: &str, get_updates_buf: &str) -> (r: Option<GetUpdatesResponse>)
    ensures
        match r {
            Some(u) => {
                &&& (crate::text::contains(error_text@, "timeout"@) || crate::text::contains(error_text@, "Timeout"@))
                &&& u.ret == 0 && u.errcode == 0 && u.errmsg is None
                &&& u.msgs@.len() == 0 && u.get_updates_buf@ == get_updates_buf@
                &&& u.longpolling_timeout_ms is None
            },
            None => !crate::text::contains(error_text@, "timeout"@) && !crate::text::contains(error_text@, "Timeout"@),
        },
{
    let e = chars_of(error_text);
    if crate::text::contains_chars(&e, &chars_of("timeout")) || crate::text::contains_chars(&e, &chars_of("Timeout")) {
        Some(
            GetUpdatesResponse {
                ret: 0,
                errcode: 0,
                errmsg: None,
                msgs: Vec::new(),
                get_updates_buf: String::from_str(get_updates_buf),
                longpolling_timeout_ms: None,
            },
        )
    } else {
        None
    }
}

/// The body of `sendmessage`: a text message from the bot to `to_user_id`,
/// with the context token when there is one.
pub open spec fn send_message_json(to_user_id: Seq<char>, text: Seq<char>, context_token: Seq<char>, client_id: Seq<char>) -> Json {
    Json::Object(
        seq![
            (
                "msg"@,
                Json::Object(
                    seq![
                        ("from_user_id"@, Json::Str(""@)),
                        ("to_user_id"@, Json::Str(to_user_id)),
                        ("client_id"@, Json::Str(client_id)),
                        ("message_type"@, Json::Int(2)),
                        ("message_state"@, Json::Int(2)),
                        (
                            "item_list"@,
                            Json::Array(
                                seq![
                                    Json::Object(
                                        seq![
                                            ("type"@, Json::Int(1)),
                                            ("text_item"@, Json::Object(seq![("text"@, Json::Str(text))])),
                                        ],
                                    ),
                                ],
                            ),
                        ),
                        (
                            "context_token"@,
                            if context_token.len() == 0 {
                                Json::Null
                            } else {
                                Json::Str(context_token)
                            },
                        ),
                    ],
                ),
            ),
        ],
    )
}

pub fn send_message_body(to_user_id: &str, text: &str, context_token: &str, client_id: &str) -> (r: JsonValue)
    ensures
        r@ == send_message_json(to_user_id@, text@, context_token@, client_id@),
{
    let mut text_item: Vec<(String, JsonValue)> = Vec::new();
    push_entry(&mut text_item, "text", json_str(text));
    let mut item: Vec<(String, JsonValue)> = Vec::new();
    push_entry(&mut item, "type", JsonValue::Int(1));
    push_entry(&mut item, "text_item", JsonValue::Object(text_item));
    let mut items: Vec<JsonValue> = Vec::new();
    push_item(&mut items, JsonValue::Object(item));
    let mut msg: Vec<(String, JsonValue)> = Vec::new();
    push_entry(&mut msg, "from_user_id", json_str(""));
    push_entry(&mut msg, "to_user_id", json_str(to_user_id));
    push_entry(&mut msg, "client_id", json_str(client_id));
    push_entry(&mut msg, "message_type", JsonValue::Int(2));
    push_entry(&mut msg, "message_state", JsonValue::Int(2));
    push_entry(&mut msg, "item_list", JsonValue::Array(items));
    let ct = if context_token.is_empty() {
        JsonValue::Null
    } else {
        json_str(context_token)
    };
    push_entry(&mut msg, "context_token", ct);
    let mut body: Vec<(String, JsonValue)> = Vec::new();
    push_entry(&mut body, "msg", JsonValue::Object(msg));
    let r = JsonValue::Object(body);
    proof {
        let text_json = Json::Object(seq![("text"@, Json::Str(text@))]);
        let item_json = Json::Object(seq![("type"@, Json::Int(1)), ("text_item"@, text_json)]);
        assert(json_of_entries(text_item@) =~= seq![("text"@, Json::Str(text@))]);
        assert(json_of_entries(item@) =~= seq![("type"@, Json::Int(1)), ("text_item"@, text_json)]);
        assert(json_of_items(items@) =~= seq![item_json]);
        let ct_json = if context_token@.len() == 0 {
            Json::Null
        } else {
            Json::Str(context_token@)
        };
        assert(json_of_entries(msg@) =~= seq![
            ("from_user_id"@, Json::Str(""@)),
            ("to_user_id"@, Json::Str(to_user_id@)),
            ("client_id"@, Json::Str(client_id@)),
            ("message_type"@, Json::Int(2)),
            ("message_state"@, Json::Int(2)),
            ("item_list"@, Json::Array(seq![item_json])),
            ("context_token"@, ct_json),
        ]);
        assert(json_of_entries(body@) =~= seq![("msg"@, crate::json::json_of(JsonValue::Object(msg)))]);
    }
    r
}

/// The body of `getconfig`.
pub fn get_config_body(ilink_user_id: &str, context_token: &str) -> (r: JsonValue)
    ensures
        r@ == Json::Object(
            seq![("ilink_user_id"@, Json::Str(ilink_user_id@)), ("context_token"@, Json::Str(context_token@))],
        ),
{
    let mut es: Vec<(String, JsonValue)> = Vec::new();
    push_entry(&mut es, "ilink_user_id", json_str(ilink_user_id));
    push_entry(&mut es, "context_token", json_str(context_token));
    let r = JsonValue::Object(es);
    assert(json_of_entries(es@) =~= seq![("ilink_user_id"@, Json::Str(ilink_user_id@)), ("context_token"@, Json::Str(context_token@))]);
    r
}

/// The body of `sendtyping` (status 1 starts the indicator, 2 cancels it).
pub fn send_typing_body(ilink_user_id: &str, typing_ticket: &str, status: i32) -> (r: JsonValue)
    ensures
        r@ == Json::Object(
            seq![
                ("ilink_user_id"@, Json::Str(ilink_user_id@)),
                ("typing_ticket"@, Json::Str(typing_ticket@)),
                ("status"@, Json::Int(status as i64)),
            ],
        ),
{
    let mut es: Vec<(String, JsonValue)> = Vec::new();
    push_entry(&mut es, "ilink_user_id", json_str(ilink_user_id));
    push_entry(&mut es, "typing_ticket", json_str(typing_ticket));
    push_entry(&mut es, "status", JsonValue::Int(status as i64));
    let r = JsonValue::Object(es);
    assert(json_of_entries(es@) =~= seq![
            ("ilink_user_id"@, Json::Str(ilink_user_id@)),
            ("typing_ticket"@, Json::Str(typing_ticket@)),
            ("status"@, Json::Int(status as i64)),
        ]);
    r
}

/// The body of `getuploadurl`.
pub fn get_upload_url_body(filekey: &str, media_type: i32, to_user_id: &str) -> (r: JsonValue)
    ensures
        r@ == Json::Object(
            seq![
                ("filekey"@, Json::Str(filekey@)),
                ("media_type"@, Json::Int(media_type as i64)),
                ("to_user_id"@, Json::Str(to_user_id@)),
            ],
        ),
{
    let mut es: Vec<(String, JsonValue)> = Vec::new();
    push_entry(&mut es, "filekey", json_str(filekey));
    push_entry(&mut es, "media_type", JsonValue::Int(media_type as i64));
    push_entry(&mut es, "to_user_id", json_str(to_user_id));
    let r = JsonValue::Object(es);
    assert(json_of_entries(es@) =~= seq![
            ("filekey"@, Json::Str(filekey@)),
            ("media_type"@, Json::Int(media_type as i64)),
            ("to_user_id"@, Json::Str(to_user_id@)),
        ]);
    r
}

} // verus!

verus! {

/// The kind of an uploaded media message.
#[derive(Debug, Clone, Copy, PartialEq, Eq, Structural)]
pub enum MediaKind {
    Image,
    File,
    Video,
}

/// The item type and item member of a media kind (as the parser reads them).
pub open spec fn media_item(kind: MediaKind) -> (i64, Seq<char>) {
    match kind {
        MediaKind::Image => (crate::parser::ITEM_IMAGE, "image_item"@),
        MediaKind::File => (crate::parser::ITEM_FILE, "file_item"@),
        MediaKind::Video => (crate::parser::ITEM_VIDEO, "video_item"@),
    }
}

/// The media reference of an uploaded file.
pub open spec fn media_ref_json(file_id: Seq<char>, download_url: Seq<char>, aes_key: Seq<char>) -> Json {
    Json::Object(
        seq![
            ("encrypt_query_param"@, Json::Str(file_id)),
            ("full_url"@, Json::Str(download_url)),
            ("aes_key"@, Json::Str(aes_key)),
        ],
    )
}

/// The item of a media message: the media reference, with the file's name
/// and size (as text) for a file, and the size and play length for a video.
pub open spec fn media_item_json(
    kind: MediaKind,
    media: Json,
    file_name: Seq<char>,
    size: i64,
    play_length: i64,
) -> Json {
    Json::Object(
        seq![
            ("type"@, Json::Int(media_item(kind).0)),
            (
                media_item(kind).1,
                Json::Object(
                    seq![("media"@, media)] + match kind {
                        MediaKind::Image => Seq::empty(),
                        MediaKind::File => seq![
                            ("file_name"@, Json::Str(file_name)),
                            ("len"@, Json::Str(crate::text::decimal_signed(size as int))),
                        ],
                        MediaKind::Video => seq![("video_size"@, Json::Int(size)), ("play_length"@, Json::Int(play_length))],
                    },
                ),
            ),
        ],
    )
}

/// The body of `sendmessage` for an uploaded media file.
pub open spec fn send_media_json(
    to_user_id: Seq<char>,
    context_token: Seq<char>,
    client_id: Seq<char>,
    item: Json,
) -> Json {
    Json::Object(
        seq![
            (
                "msg"@,
                Json::Object(
                    seq![
                        ("from_user_id"@, Json::Str(""@)),
                        ("to_user_id"@, Json::Str(to_user_id)),
                        ("client_id"@, Json::Str(client_id)),
                        ("message_type"@, Json::Int(2)),
                        ("message_state"@, Json::Int(2)),
                        ("item_list"@, Json::Array(seq![item])),
                        (
                            "context_token"@,
                            if context_token.len() == 0 {
                                Json::Null
                            } else {
                                Json::Str(context_token)
                            },
                        ),
                    ],
                ),
            ),
        ],
    )
}

/// A message carrying an uploaded image, file or video.
pub struct MediaMessage {
    pub kind: MediaKind,
    /// What the upload was filed under.
    pub file_id: String,
    pub download_url: String,
    /// The key of the uploaded file (may be empty).
    pub aes_key: String,
    /// The file's name (files only).
    pub file_name: String,
    /// The file's size in bytes (files and videos).
    pub size: i64,
    /// The video's length in seconds (videos only).
    pub play_length: i64,
}

/// A media item reads back as what it was sent as: the item of an image
/// has type 2 and its media under `image_item`, a file type 4 under
/// `file_item`, a video type 5 under `video_item`; and the message parser
/// reads the item as an image, a file or a video message, respectively.
pub proof fn lemma_media_item_reads_back(
    kind: MediaKind,
    media: Json,
    file_name: Seq<char>,
    size: i64,
    play_length: i64,
    acc: crate::parser::ParsedView,
)
    ensures
        ({
            let item = media_item_json(kind, media, file_name, size, play_length);
            let member = match kind {
                MediaKind::Image => "image_item"@,
                MediaKind::File => "file_item"@,
                MediaKind::Video => "video_item"@,
            };
            &&& crate::json::get(item, "type"@) == Json::Int(
                match kind {
                    MediaKind::Image => 2,
                    MediaKind::File => 4,
                    MediaKind::Video => 5,
                },
            )
            &&& crate::json::get(crate::json::get(item, member), "media"@) == media
            &&& crate::parser::apply_item(acc, item).message_type == match kind {
                MediaKind::Image => crate::parser::MessageType::Image,
                MediaKind::File => crate::parser::MessageType::File,
                MediaKind::Video => crate::parser::MessageType::Video,
            }
        }),
{
    reveal_strlit("type");
    reveal_strlit("image_item");
    reveal_strlit("file_item");
    reveal_strlit("video_item");
    reveal_strlit("media");
    assert("type"@[0] != "image_item"@[0]);
    assert("type"@[0] != "file_item"@[0]);
    assert("type"@[0] != "video_item"@[0]);
    reveal_with_fuel(crate::json::lookup, 3);
    let inner_extra = match kind {
        MediaKind::Image => Seq::<(Seq<char>, Json)>::empty(),
        MediaKind::File => seq![
            ("file_name"@, Json::Str(file_name)),
            ("len"@, Json::Str(crate::text::decimal_signed(size as int))),
        ],
        MediaKind::Video => seq![("video_size"@, Json::Int(size)), ("play_length"@, Json::Int(play_length))],
    };
    let inner = seq![("media"@, media)] + inner_extra;
    assert(inner[0] == ("media"@, media));
    assert(inner.len() > 0);
}

/// The `media_type` that `getuploadurl` is asked for: 1 for an image, 3 for
/// a video, 4 for a file.
pub open spec fn upload_type_of(kind: MediaKind) -> i32 {
    match kind {
        MediaKind::Image => 1,
        MediaKind::Video => 3,
        MediaKind::File => 4,
    }
}

pub fn media_upload_type(kind: MediaKind) -> (r: i32)
    ensures
        r == upload_type_of(kind),
{
    match kind {
        MediaKind::Image => 1,
        MediaKind::Video => 3,
        MediaKind::File => 4,
    }
}

impl MediaMessage {
    /// The message for a file of `size` bytes uploaded under `filekey`: it is
    /// filed under the id that `getuploadurl` gave, else under the file key,
    /// with the download URL it gave, else none, and with no key.
    pub fn from_upload(
        kind: MediaKind,
        filekey: &str,
        target: &GetUploadUrlResponse,
        file_name: &str,
        size: usize,
        play_length: i64,
    ) -> (r: MediaMessage)
        requires
            size <= i64::MAX,
        ensures
            r.kind == kind,
            r.file_id@ == match target.file_id {
                Some(f) => f@,
                None => filekey@,
            },
            r.download_url@ == match target.download_url {
                Some(u) => u@,
                None => Seq::<char>::empty(),
            },
            r.aes_key@ == Seq::<char>::empty(),
            r.file_name@ == file_name@,
            r.size == size as i64,
            r.play_length == play_length,
    {
        let file_id = match &target.file_id {
            Some(f) => f.clone(),
            None => String::from_str(filekey),
        };
        let download_url = match &target.download_url {
            Some(u) => u.clone(),
            None => String::new(),
        };
        MediaMessage {
            kind,
            file_id,
            download_url,
            aes_key: String::new(),
            file_name: String::from_str(file_name),
            size: size as i64,
            play_length,
        }
    }
}

pub fn send_media_body(to_user_id: &str, context_token: &str, client_id: &str, m: &MediaMessage) -> (r: JsonValue)
    ensures
        r@ == send_media_json(
            to_user_id@,
            context_token@,
            client_id@,
            media_item_json(
                m.kind,
                media_ref_json(m.file_id@, m.download_url@, m.aes_key@),
                m.file_name@,
                m.size,
                m.play_length,
            ),
        ),
{
    let mut media: Vec<(String, JsonValue)> = Vec::new();
    push_entry(&mut media, "encrypt_query_param", JsonValue::Str(m.file_id.clone()));
    push_entry(&mut media, "full_url", JsonValue::Str(m.download_url.clone()));
    push_entry(&mut media, "aes_key", JsonValue::Str(m.aes_key.clone()));
    let ghost media_view = media_ref_json(m.file_id@, m.download_url@, m.aes_key@);
    assert(json_of_entries(media@) =~= seq![
        ("encrypt_query_param"@, Json::Str(m.file_id@)),
        ("full_url"@, Json::Str(m.download_url@)),
        ("aes_key"@, Json::Str(m.aes_key@)),
    ]);
    let mut inner: Vec<(String, JsonValue)> = Vec::new();
    push_entry(&mut inner, "media", JsonValue::Object(media));
    let (item_type, member) = match m.kind {
        MediaKind::Image => (crate::parser::ITEM_IMAGE, "image_item"),
        MediaKind::File => {
            push_entry(&mut inner, "file_name", JsonValue::Str(m.file_name.clone()));
            push_entry(&mut inner, "len", JsonValue::Str(string_from(&crate::text::i64_to_decimal(m.size))));
            (crate::parser::ITEM_FILE, "file_item")
        },
        MediaKind::Video => {
            push_entry(&mut inner, "video_size", JsonValue::Int(m.size));
            push_entry(&mut inner, "play_length", JsonValue::Int(m.play_length));
            (crate::parser::ITEM_VIDEO, "video_item")
        },
    };
    proof {
        reveal_strlit("image_item");
        reveal_strlit("file_item");
        reveal_strlit("video_item");
        let extra = match m.kind {
            MediaKind::Image => Seq::<(Seq<char>, Json)>::empty(),
            MediaKind::File => seq![
                ("file_name"@, Json::Str(m.file_name@)),
                ("len"@, Json::Str(crate::text::decimal_signed(m.size as int))),
            ],
            MediaKind::Video => seq![("video_size"@, Json::Int(m.size)), ("play_length"@, Json::Int(m.play_length))],
        };
        assert(json_of_entries(inner@) =~= seq![("media"@, media_view)] + extra);
        assert(media_item(m.kind) == (item_type, member@));
    }
    let mut item: Vec<(String, JsonValue)> = Vec::new();
    push_entry(&mut item, "type", JsonValue::Int(item_type));
    push_entry(&mut item, member, JsonValue::Object(inner));
    let ghost item_view = media_item_json(
        m.kind,
        media_view,
        m.file_name@,
        m.size,
        m.play_length,
    );
    assert(json_of_entries(item@) =~= seq![("type"@, Json::Int(item_type)), (member@, crate::json::json_of(JsonValue::Object(inner)))]);
    let mut items: Vec<JsonValue> = Vec::new();
    push_item(&mut items, JsonValue::Object(item));
    assert(json_of_items(items@) =~= seq![item_view]);
    let mut msg: Vec<(String, JsonValue)> = Vec::new();
    push_entry(&mut msg, "from_user_id", json_str(""));
    push_entry(&mut msg, "to_user_id", json_str(to_user_id));
    push_entry(&mut msg, "client_id", json_str(client_id));
    push_entry(&mut msg, "message_type", JsonValue::Int(2));
    push_entry(&mut msg, "message_state", JsonValue::Int(2));
    push_entry(&mut msg, "item_list", JsonValue::Array(items));
    let ct = if context_token.is_empty() {
        JsonValue::Null
    } else {
        json_str(context_token)
    };
    push_entry(&mut msg, "context_token", ct);
    let mut body: Vec<(String, JsonValue)> = Vec::new();
    push_entry(&mut body, "msg", JsonValue::Object(msg));
    let r = JsonValue::Object(body);
    proof {
        let ct_json = if context_token@.len() == 0 {
            Json::Null
        } else {
            Json::Str(context_token@)
        };
        assert(json_of_entries(msg@) =~= seq![
            ("from_user_id"@, Json::Str(""@)),
            ("to_user_id"@, Json::Str(to_user_id@)),
            ("client_id"@, Json::Str(client_id@)),
            ("message_type"@, Json::Int(2)),
            ("message_state"@, Json::Int(2)),
            ("item_list"@, Json::Array(seq![item_view])),
            ("context_token"@, ct_json),
        ]);
        assert(json_of_entries(body@) =~= seq![("msg"@, crate::json::json_of(JsonValue::Object(msg)))]);
    }
    r
}

} // verus!
