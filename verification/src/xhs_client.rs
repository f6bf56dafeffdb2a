//! Xiaohongshu (XHS) links and works: finding a link in a message, reading a
//! work's description as the XHS-Downloader service returns it, and naming
//! and typing downloaded media.
use crate::json::{as_str, get, json_of_items, lemma_json_of_items, Json, JsonValue};
use crate::text::{
    ascii_lower, ascii_lower_chars, before_char, before_char_chars, chars_eq, chars_of, has_prefix,
    is_ascii_alnum, last_index_of, last_index_of_chars, lemma_last_index_of, slice_range,
    split_char, split_char_chars, starts_with, string_from, trim, trim_chars, lemma_trim_idempotent, lemma_trim_shape,
    lemma_trim_unchanged, views, words, words_chars,
};
use crate::router::{regex_find, regex_first_match, regex_is_valid};
use vstd::prelude::*;

verus! {

/// What an XHS share link looks like.
pub const XHS_LINK_PATTERN: &'static str = r#"(?:https?://)?(?:www\.)?(?:xiaohongshu\.com/(?:explore|discovery/item|user/profile/[A-Za-z0-9]+/)\S+|xhslink\.com/[^\s"<>\\^`{|}，。；！？、【】《》]+)"#;

/// The settings of the XHS client.
#[derive(Debug, Clone)]
pub struct XhsClientConfig {
    pub api_url: String,
    pub cookie: String,
    pub proxy: String,
    pub timeout_ms: u64,
}

impl XhsClientConfig {
    pub fn new(api_url: String, cookie: String, proxy: String, timeout_ms: u64) -> (r: XhsClientConfig)
        ensures
            r.api_url == api_url,
            r.cookie == cookie,
            r.proxy == proxy,
            r.timeout_ms == timeout_ms,
    {
        XhsClientConfig { api_url, cookie, proxy, timeout_ms }
    }
}

/// What kind of work a note is.
#[derive(Debug, Clone, Copy, PartialEq, Eq, Structural)]
pub enum XhsWorkKind {
    ImageSet,
    Video,
    Unknown,
}

/// A work as the downloader service describes it.
#[derive(Debug, Clone)]
pub struct XhsWork {
    pub title: String,
    pub note_id: String,
    pub work_type: String,
    pub media_urls: Vec<String>,
    pub kind: XhsWorkKind,
}

/// Downloaded media: the bytes, their content type, and a file extension.
#[derive(Debug, Clone)]
pub struct DownloadedMedia {
    pub bytes: Vec<u8>,
    pub content_type: String,
    pub extension: String,
}

// ---------------------------------------------------------------------------
// URLs, content types and extensions.

/// A URL with a scheme: trimmed, and given `https://` when it has none.
pub open spec fn normalized_url(value: Seq<char>) -> Seq<char> {
    let t = trim(value);
    if starts_with(t, "http://"@) || starts_with(t, "https://"@) {
        t
    } else {
        "https://"@ + t
    }
}

pub fn normalize_url(value: &str) -> (r: String)
    ensures
        r@ == normalized_url(value@),
{
    let t = trim_chars(&chars_of(value));
    if has_prefix(&t, &chars_of("http://")) || has_prefix(&t, &chars_of("https://")) {
        string_from(&t)
    } else {
        let mut s = String::from_str("https://");
        let ts = string_from(&t);
        s.append(ts.as_str());
        s
    }
}

/// A normalized URL has a scheme, has no surrounding whitespace, and is left
/// unchanged by normalizing it again.
pub proof fn lemma_normalize_url_idempotent(value: Seq<char>)
    ensures
        starts_with(normalized_url(value), "http://"@) || starts_with(normalized_url(value), "https://"@),
        trim(normalized_url(value)) == normalized_url(value),
        normalized_url(normalized_url(value)) == normalized_url(value),
{
    let t = trim(value);
    let n = normalized_url(value);
    lemma_trim_idempotent(value);
    lemma_trim_shape(value);
    if !(starts_with(t, "http://"@) || starts_with(t, "https://"@)) {
        reveal_strlit("https://");
        assert(n.subrange(0, 8) =~= "https://"@);
        assert(n[0] == 'h');
        if t.len() > 0 {
            assert(n.last() == t.last());
        }
        lemma_trim_unchanged(n);
    }
}

/// A trimmed value, or `None` when nothing is left.
pub fn non_empty(value: String) -> (r: Option<String>)
    ensures
        match r {
            Some(v) => trim(value@).len() > 0 && v@ == trim(value@),
            None => trim(value@).len() == 0,
        },
{
    let t = trim_chars(&chars_of(value.as_str()));
    if t.len() == 0 {
        None
    } else {
        Some(string_from(&t))
    }
}

/// The media type of a `Content-Type` header: what precedes any `;`, trimmed.
pub open spec fn stripped_content_type(value: Seq<char>) -> Seq<char> {
    trim(before_char(value, ';'))
}

pub fn strip_content_type(value: &str) -> (r: String)
    ensures
        r@ == stripped_content_type(value@),
{
    let before = before_char_chars(&chars_of(value), ';');
    string_from(&trim_chars(&before))
}

/// The file extension that a content type stands for.
pub open spec fn extension_for_content_type(content_type: Seq<char>) -> Option<Seq<char>> {
    if content_type == "image/jpeg"@ {
        Some("jpg"@)
    } else if content_type == "image/png"@ {
        Some("png"@)
    } else if content_type == "image/webp"@ {
        Some("webp"@)
    } else if content_type == "image/gif"@ {
        Some("gif"@)
    } else if content_type == "image/heic"@ {
        Some("heic"@)
    } else if content_type == "image/avif"@ {
        Some("avif"@)
    } else if content_type == "video/mp4"@ {
        Some("mp4"@)
    } else if content_type == "video/quicktime"@ {
        Some("mov"@)
    } else {
        None
    }
}

pub fn extension_from_content_type(content_type: &str) -> (r: Option<&'static str>)
    ensures
        match r {
            Some(e) => extension_for_content_type(content_type@) == Some(e@),
            None => extension_for_content_type(content_type@) is None,
        },
{
    let c = chars_of(content_type);
    if chars_eq(&c, &chars_of("image/jpeg")) {
        Some("jpg")
    } else if chars_eq(&c, &chars_of("image/png")) {
        Some("png")
    } else if chars_eq(&c, &chars_of("image/webp")) {
        Some("webp")
    } else if chars_eq(&c, &chars_of("image/gif")) {
        Some("gif")
    } else if chars_eq(&c, &chars_of("image/heic")) {
        Some("heic")
    } else if chars_eq(&c, &chars_of("image/avif")) {
        Some("avif")
    } else if chars_eq(&c, &chars_of("video/mp4")) {
        Some("mp4")
    } else if chars_eq(&c, &chars_of("video/quicktime")) {
        Some("mov")
    } else {
        None
    }
}

/// The last component of a path that is not empty and not `.`.
pub open spec fn last_component(pieces: Seq<Seq<char>>) -> Option<Seq<char>>
    decreases pieces.len(),
{
    if pieces.len() == 0 {
        None
    } else if pieces.last().len() > 0 && pieces.last() != "."@ {
        Some(pieces.last())
    } else {
        last_component(pieces.drop_last())
    }
}

/// `Path::file_name` for a `/`-separated path: its last component, unless
/// there is none or it is `..`.
pub open spec fn path_file_name(path: Seq<char>) -> Option<Seq<char>> {
    match last_component(split_char(path, '/')) {
        Some(c) => if c == ".."@ {
            None
        } else {
            Some(c)
        },
        None => None,
    }
}

/// `Path::extension` of a file name: what follows its last `.`, unless it has
/// no `.` or its only `.` leads it.
pub open spec fn name_extension(name: Seq<char>) -> Option<Seq<char>> {
    match last_index_of(name, '.') {
        Some(i) => if i == 0 {
            None
        } else {
            Some(name.skip(i + 1))
        },
        None => None,
    }
}

/// The extension of a URL's path (what precedes any `?`).
pub open spec fn url_extension(url: Seq<char>) -> Option<Seq<char>> {
    match path_file_name(before_char(url, '?')) {
        Some(n) => name_extension(n),
        None => None,
    }
}

/// The extension for media at `url` served as `content_type`: that of the
/// content type when it is known, else the URL's own extension in lower case,
/// else `bin`.
pub open spec fn guessed_extension(url: Seq<char>, content_type: Seq<char>) -> Seq<char> {
    match extension_for_content_type(content_type) {
        Some(e) => e,
        None => match url_extension(url) {
            Some(e) => if e.len() > 0 {
                ascii_lower(e)
            } else {
                "bin"@
            },
            None => "bin"@,
        },
    }
}

/// The last non-empty, non-`.` component.
fn last_component_of(pieces: &Vec<Vec<char>>) -> (r: Option<Vec<char>>)
    ensures
        match r {
            Some(c) => last_component(views(pieces@)) == Some(c@),
            None => last_component(views(pieces@)) is None,
        },
{
    let dot = chars_of(".");
    let mut i = pieces.len();
    assert(views(pieces@).take(i as int) =~= views(pieces@));
    while i > 0
        invariant
            i <= pieces@.len(),
            dot@ == "."@,
            last_component(views(pieces@)) == last_component(views(pieces@).take(i as int)),
        decreases i,
    {
        proof {
            assert(views(pieces@).take(i as int).drop_last() =~= views(pieces@).take(i - 1));
            assert(views(pieces@).take(i as int).last() == pieces@[i - 1]@);
        }
        if pieces[i - 1].len() > 0 && !chars_eq(&pieces[i - 1], &dot) {
            return Some(slice_range(&pieces[i - 1], 0, pieces[i - 1].len()));
        }
        i = i - 1;
    }
    None
}

/// The extension of a URL's path.
fn url_extension_of(url: &[char]) -> (r: Option<Vec<char>>)
    ensures
        match r {
            Some(e) => url_extension(url@) == Some(e@),
            None => url_extension(url@) is None,
        },
{
    let path = before_char_chars(url, '?');
    let pieces = split_char_chars(&path, '/');
    let name = match last_component_of(&pieces) {
        Some(c) => c,
        None => {
            return None;
        },
    };
    if chars_eq(&name, &chars_of("..")) {
        return None;
    }
    let n = name.len();
    match last_index_of_chars(&name, '.') {
        Some(i) => {
            if i == 0 {
                None
            } else {
                proof {
                    lemma_last_index_of(name@, '.');
                }
                Some(slice_range(&name, i + 1, n))
            }
        },
        None => None,
    }
}

pub fn guess_extension(url: &str, content_type: &str) -> (r: String)
    ensures
        r@ == guessed_extension(url@, content_type@),
{
    if let Some(e) = extension_from_content_type(content_type) {
        return String::from_str(e);
    }
    match url_extension_of(&chars_of(url)) {
        Some(e) => {
            if e.len() > 0 {
                string_from(&ascii_lower_chars(&e))
            } else {
                String::from_str("bin")
            }
        },
        None => String::from_str("bin"),
    }
}

/// The content type that a URL's extension suggests.
pub open spec fn guessed_content_type(url: Seq<char>) -> Seq<char> {
    let e = guessed_extension(url, "application/octet-stream"@);
    if e == "jpg"@ || e == "jpeg"@ {
        "image/jpeg"@
    } else if e == "png"@ {
        "image/png"@
    } else if e == "webp"@ {
        "image/webp"@
    } else if e == "gif"@ {
        "image/gif"@
    } else if e == "heic"@ {
        "image/heic"@
    } else if e == "avif"@ {
        "image/avif"@
    } else if e == "mp4"@ {
        "video/mp4"@
    } else if e == "mov"@ {
        "video/quicktime"@
    } else {
        "application/octet-stream"@
    }
}

pub fn guess_content_type(url: &str) -> (r: String)
    ensures
        r@ == guessed_content_type(url@),
{
    let e = chars_of(guess_extension(url, "application/octet-stream").as_str());
    let s = if chars_eq(&e, &chars_of("jpg")) || chars_eq(&e, &chars_of("jpeg")) {
        "image/jpeg"
    } else if chars_eq(&e, &chars_of("png")) {
        "image/png"
    } else if chars_eq(&e, &chars_of("webp")) {
        "image/webp"
    } else if chars_eq(&e, &chars_of("gif")) {
        "image/gif"
    } else if chars_eq(&e, &chars_of("heic")) {
        "image/heic"
    } else if chars_eq(&e, &chars_of("avif")) {
        "image/avif"
    } else if chars_eq(&e, &chars_of("mp4")) {
        "video/mp4"
    } else if chars_eq(&e, &chars_of("mov")) {
        "video/quicktime"
    } else {
        "application/octet-stream"
    };
    String::from_str(s)
}

/// A URL whose extension is that of a video.
pub open spec fn is_video_url(url: Seq<char>) -> bool {
    let e = guessed_extension(url, "application/octet-stream"@);
    e == "mp4"@ || e == "mov"@ || e == "m4v"@ || e == "webm"@
}

pub fn looks_like_video_url(url: &str) -> (r: bool)
    ensures
        r == is_video_url(url@),
{
    let e = chars_of(guess_extension(url, "application/octet-stream").as_str());
    chars_eq(&e, &chars_of("mp4")) || chars_eq(&e, &chars_of("mov")) || chars_eq(&e, &chars_of("m4v"))
        || chars_eq(&e, &chars_of("webm"))
}

/// The content type of downloaded media: the response's, stripped of its
/// parameters, else the one the URL suggests.
pub fn media_content_type(header: Option<&str>, url: &str) -> (r: String)
    ensures
        r@ == match header {
            Some(h) => stripped_content_type(h@),
            None => guessed_content_type(url@),
        },
{
    match header {
        Some(h) => strip_content_type(h),
        None => guess_content_type(url),
    }
}

/// The first XHS link in `text`, with a scheme.
pub open spec fn first_link(text: Seq<char>) -> Option<Seq<char>> {
    match regex_first_match(XHS_LINK_PATTERN@, text) {
        Some(m) => Some(normalized_url(m)),
        None => None,
    }
}

/// An XHS client's settings.
pub struct XhsClient {
    /// The downloader service's base URL, without trailing `/`.
    pub api_base_url: String,
    pub cookie: Option<String>,
    pub proxy: Option<String>,
    /// Timeout of a service call (at least one second).
    pub api_timeout_ms: u64,
    /// Timeout of a media download.
    pub media_timeout_ms: u64,
}

impl XhsClient {
    /// The client for `config`: the base URL without trailing `/`, cookie and
    /// proxy only when non-blank (trimmed), a service timeout of at least one
    /// second, and two minutes for media downloads.
    pub fn new(config: XhsClientConfig) -> (r: XhsClient)
        ensures
            r.api_base_url@ == crate::text::trim_end_char(config.api_url@, '/'),
            match r.cookie {
                Some(c) => trim(config.cookie@).len() > 0 && c@ == trim(config.cookie@),
                None => trim(config.cookie@).len() == 0,
            },
            match r.proxy {
                Some(p) => trim(config.proxy@).len() > 0 && p@ == trim(config.proxy@),
                None => trim(config.proxy@).len() == 0,
            },
            r.api_timeout_ms == if config.timeout_ms > 1000 {
                config.timeout_ms
            } else {
                1000
            },
            r.media_timeout_ms == 120_000,
    {
        let base = crate::text::trim_end_char_chars(&chars_of(config.api_url.as_str()), '/');
        XhsClient {
            api_base_url: string_from(&base),
            cookie: non_empty(config.cookie),
            proxy: non_empty(config.proxy),
            api_timeout_ms: if config.timeout_ms > 1000 {
                config.timeout_ms
            } else {
                1000
            },
            media_timeout_ms: 120_000,
        }
    }

    /// The first XHS link in `text`, with a scheme (`None` also when the link
    /// pattern does not compile, which the library's pattern does).
    pub fn extract_first_link(text: &str) -> (r: Option<String>)
        ensures
            regex_is_valid(XHS_LINK_PATTERN@) ==> match r {
                Some(l) => first_link(text@) == Some(l@),
                None => first_link(text@) is None,
            },
            !regex_is_valid(XHS_LINK_PATTERN@) ==> r is None,
    {
        match regex_find(XHS_LINK_PATTERN, text) {
            Some(Some(m)) => Some(normalize_url(m.as_str())),
            _ => None,
        }
    }

    /// The downloader service's detail endpoint.
    pub fn detail_endpoint(&self) -> (r: String)
        ensures
            r@ == self.api_base_url@ + "/xhs/detail"@,
    {
        let mut s = self.api_base_url.clone();
        s.append("/xhs/detail");
        s
    }

    /// The body of a detail request for `url`: the URL, no download, and the
    /// cookie and proxy when set.
    pub fn detail_request(&self, url: &str) -> (r: JsonValue)
        ensures
            r@ == Json::Object(
                seq![("url"@, Json::Str(url@)), ("download"@, Json::Bool(false))] + match &self.cookie {
                    Some(c) => seq![("cookie"@, Json::Str(c@))],
                    None => Seq::empty(),
                } + match &self.proxy {
                    Some(p) => seq![("proxy"@, Json::Str(p@))],
                    None => Seq::empty(),
                },
            ),
    {
        let mut es: Vec<(String, JsonValue)> = Vec::new();
        es.push((String::from_str("url"), JsonValue::Str(String::from_str(url))));
        es.push((String::from_str("download"), JsonValue::Bool(false)));
        let ghost base = es@;
        match &self.cookie {
            Some(c) => es.push((String::from_str("cookie"), JsonValue::Str(c.clone()))),
            None => {},
        }
        let ghost mid = es@;
        match &self.proxy {
            Some(p) => es.push((String::from_str("proxy"), JsonValue::Str(p.clone()))),
            None => {},
        }
        proof {
            crate::json::lemma_json_of_entries(es@);
            let expected = seq![("url"@, Json::Str(url@)), ("download"@, Json::Bool(false))] + match &self.cookie {
                Some(c) => seq![("cookie"@, Json::Str(c@))],
                None => Seq::empty(),
            } + match &self.proxy {
                Some(p) => seq![("proxy"@, Json::Str(p@))],
                None => Seq::empty(),
            };
            assert(crate::json::json_of_entries(es@).len() == expected.len());
            assert forall|i: int| 0 <= i < expected.len() implies crate::json::json_of_entries(es@)[i] == expected[i] by {
                assert(crate::json::json_of_entries(es@)[i] == (es@[i].0@, crate::json::json_of(es@[i].1)));
            }
            assert(crate::json::json_of_entries(es@) =~= expected);
        }
        JsonValue::Object(es)
    }
}

// ---------------------------------------------------------------------------
// Reading a work's description.

/// Why a work could not be read.
#[derive(Debug, Clone, PartialEq, Eq)]
pub enum XhsError {
    /// The service answered without data, with this message.
    NoData(String),
    /// The work has no downloadable media.
    NoMedia,
    /// The service's answer carries no `message` text.
    MalformedResponse,
}

impl XhsError {
    pub fn message(&self) -> (r: String)
        ensures
            match self {
                XhsError::NoData(m) => r@ == m@,
                XhsError::NoMedia => r@ == "未获取到可下载的无水印媒体地址"@,
                XhsError::MalformedResponse => r@ == "解析 XHS 响应 JSON 失败: 缺少 message"@,
            },
    {
        match self {
            XhsError::NoData(m) => m.clone(),
            XhsError::NoMedia => String::from_str("未获取到可下载的无水印媒体地址"),
            XhsError::MalformedResponse => String::from_str("解析 XHS 响应 JSON 失败: 缺少 message"),
        }
    }
}

/// `data[key].as_str()`, trimmed.
pub open spec fn string_field_of(data: Json, key: Seq<char>) -> Option<Seq<char>> {
    match as_str(get(data, key)) {
        Some(s) => Some(trim(s)),
        None => None,
    }
}

pub fn string_field(data: &JsonValue, key: &str) -> (r: Option<String>)
    ensures
        match r {
            Some(s) => string_field_of(data@, key@) == Some(s@),
            None => string_field_of(data@, key@) is None,
        },
{
    match data.str_field(key) {
        Some(s) => Some(string_from(&trim_chars(&chars_of(s.as_str())))),
        None => None,
    }
}

/// The candidate URLs of a list: each string item, trimmed.
pub open spec fn string_items(items: Seq<Json>) -> Seq<Seq<char>>
    decreases items.len(),
{
    if items.len() == 0 {
        Seq::empty()
    } else {
        let rest = string_items(items.drop_last());
        match as_str(items.last()) {
            Some(s) => rest.push(trim(s)),
            None => rest,
        }
    }
}

/// The candidates that are URLs (non-empty and not `NaN`), normalized.
pub open spec fn usable_urls(c: Seq<Seq<char>>) -> Seq<Seq<char>>
    decreases c.len(),
{
    if c.len() == 0 {
        Seq::empty()
    } else {
        let rest = usable_urls(c.drop_last());
        if c.last().len() > 0 && c.last() != "NaN"@ {
            rest.push(normalized_url(c.last()))
        } else {
            rest
        }
    }
}

/// The media URLs of a `下载地址` value: a list of strings, or one string of
/// whitespace-separated URLs.
pub open spec fn collected_urls(value: Json) -> Seq<Seq<char>> {
    match value {
        Json::Array(items) => usable_urls(string_items(items)),
        Json::Str(s) => usable_urls(words(s).map_values(|w: Seq<char>| trim(w))),
        _ => Seq::empty(),
    }
}

/// Appends the usable candidates of `cands`, normalized.
fn push_usable(out: &mut Vec<String>, cands: &Vec<Vec<char>>)
    ensures
        final(out)@.map_values(|s: String| s@) == old(out)@.map_values(|s: String| s@) + usable_urls(views(cands@)),
{
    let nan = chars_of("NaN");
    let ghost base = old(out)@.map_values(|s: String| s@);
    let mut i: usize = 0;
    assert(views(cands@).take(0) =~= Seq::<Seq<char>>::empty());
    assert(base + Seq::<Seq<char>>::empty() =~= base);
    while i < cands.len()
        invariant
            i <= cands@.len(),
            nan@ == "NaN"@,
            out@.map_values(|s: String| s@) == base + usable_urls(views(cands@).take(i as int)),
        decreases cands@.len() - i,
    {
        proof {
            assert(views(cands@).take(i + 1).drop_last() =~= views(cands@).take(i as int));
            assert(views(cands@).take(i + 1).last() == cands@[i as int]@);
        }
        if cands[i].len() > 0 && !chars_eq(&cands[i], &nan) {
            let u = normalize_url(string_from(&cands[i]).as_str());
            let ghost before = out@;
            out.push(u);
            proof {
                assert(out@.map_values(|s: String| s@) =~= before.map_values(|s: String| s@).push(u@));
            }
        }
        i = i + 1;
    }
    assert(views(cands@).take(i as int) =~= views(cands@));
}

/// The media URLs of a `下载地址` member.
pub fn collect_urls(value: Option<&JsonValue>) -> (r: Vec<String>)
    ensures
        r@.map_values(|s: String| s@) == collected_urls(
            match value {
                Some(v) => v@,
                None => Json::Null,
            },
        ),
{
    let mut out: Vec<String> = Vec::new();
    assert(out@.map_values(|s: String| s@) =~= Seq::<Seq<char>>::empty());
    match value {
        Some(JsonValue::Array(items)) => {
            let mut cands: Vec<Vec<char>> = Vec::new();
            let ghost js = json_of_items(items@);
            proof {
                lemma_json_of_items(items@);
            }
            let mut i: usize = 0;
            while i < items.len()
                invariant
                    i <= items@.len() == js.len(),
                    js == json_of_items(items@),
                    forall|j: int| 0 <= j < items@.len() ==> #[trigger] js[j] == crate::json::json_of(items@[j]),
                    views(cands@) == string_items(js.take(i as int)),
                decreases items@.len() - i,
            {
                proof {
                    assert(js.take(i + 1).drop_last() =~= js.take(i as int));
                    assert(js.take(i + 1).last() == items@[i as int]@);
                }
                if let Some(s) = items[i].as_string() {
                    let ghost before = cands@;
                    cands.push(trim_chars(&chars_of(s.as_str())));
                    assert(views(cands@) =~= views(before).push(trim(s@)));
                }
                i = i + 1;
            }
            assert(js.take(i as int) =~= js);
            push_usable(&mut out, &cands);
            assert(Seq::<Seq<char>>::empty() + usable_urls(views(cands@)) =~= usable_urls(views(cands@)));
        },
        Some(JsonValue::Str(s)) => {
            let ws = words_chars(&chars_of(s.as_str()));
            let mut cands: Vec<Vec<char>> = Vec::new();
            let mut i: usize = 0;
            while i < ws.len()
                invariant
                    i <= ws@.len(),
                    views(cands@) == views(ws@).take(i as int).map_values(|w: Seq<char>| trim(w)),
                decreases ws@.len() - i,
            {
                let ghost before = cands@;
                cands.push(trim_chars(&ws[i]));
                proof {
                    assert(views(cands@) =~= views(before).push(trim(ws@[i as int]@)));
                    assert(views(ws@).take(i + 1).map_values(|w: Seq<char>| trim(w)) =~= views(ws@).take(
                        i as int,
                    ).map_values(|w: Seq<char>| trim(w)).push(trim(ws@[i as int]@)));
                }
                i = i + 1;
            }
            assert(views(ws@).take(i as int) =~= views(ws@));
            push_usable(&mut out, &cands);
            assert(Seq::<Seq<char>>::empty() + usable_urls(views(cands@)) =~= usable_urls(views(cands@)));
        },
        _ => {},
    }
    out
}

/// The kind of a work of type `work_type` with media `urls`.
pub open spec fn work_kind(work_type: Seq<char>, urls: Seq<Seq<char>>) -> XhsWorkKind {
    if work_type == "图文"@ || work_type == "图集"@ {
        XhsWorkKind::ImageSet
    } else if work_type == "视频"@ {
        XhsWorkKind::Video
    } else if urls.len() == 1 && is_video_url(urls[0]) {
        XhsWorkKind::Video
    } else if urls.len() > 0 {
        XhsWorkKind::ImageSet
    } else {
        XhsWorkKind::Unknown
    }
}

/// A trimmed string member, if non-empty, else `default`.
pub open spec fn field_or(data: Json, key: Seq<char>, default: Seq<char>) -> Seq<char> {
    match string_field_of(data, key) {
        Some(s) => if s.len() > 0 {
            s
        } else {
            default
        },
        None => default,
    }
}

pub struct WorkView {
    pub title: Seq<char>,
    pub note_id: Seq<char>,
    pub work_type: Seq<char>,
    pub media_urls: Seq<Seq<char>>,
    pub kind: XhsWorkKind,
}

impl View for XhsWork {
    type V = WorkView;

    open spec fn view(&self) -> WorkView {
        WorkView {
            title: self.title@,
            note_id: self.note_id@,
            work_type: self.work_type@,
            media_urls: self.media_urls@.map_values(|s: String| s@),
            kind: self.kind,
        }
    }
}

/// The work that a description holds, when it has media.
pub open spec fn work_of(data: Json) -> Option<WorkView> {
    let urls = collected_urls(get(data, "下载地址"@));
    let work_type = match string_field_of(data, "作品类型"@) {
        Some(t) => t,
        None => "未知"@,
    };
    if urls.len() == 0 {
        None
    } else {
        Some(
            WorkView {
                title: field_or(data, "作品标题"@, "小红书作品"@),
                note_id: field_or(data, "作品ID"@, "xhs"@),
                work_type,
                media_urls: urls,
                kind: work_kind(work_type, urls),
            },
        )
    }
}

fn string_field_or(data: &JsonValue, key: &str, default: &str) -> (r: String)
    ensures
        r@ == field_or(data@, key@, default@),
{
    match string_field(data, key) {
        Some(s) => {
            if s.as_str().is_empty() {
                String::from_str(default)
            } else {
                s
            }
        },
        None => String::from_str(default),
    }
}

/// Reads a work's description.
pub fn parse_work(data: &JsonValue) -> (r: Result<XhsWork, XhsError>)
    ensures
        match r {
            Ok(w) => work_of(data@) == Some(w@),
            Err(e) => work_of(data@) is None && e == XhsError::NoMedia,
        },
{
    let title = string_field_or(data, "作品标题", "小红书作品");
    let note_id = string_field_or(data, "作品ID", "xhs");
    let work_type = match string_field(data, "作品类型") {
        Some(t) => t,
        None => String::from_str("未知"),
    };
    let media_urls = collect_urls(data.field("下载地址"));
    if media_urls.len() == 0 {
        return Err(XhsError::NoMedia);
    }
    let wt = chars_of(work_type.as_str());
    let kind = if chars_eq(&wt, &chars_of("图文")) || chars_eq(&wt, &chars_of("图集")) {
        XhsWorkKind::ImageSet
    } else if chars_eq(&wt, &chars_of("视频")) {
        XhsWorkKind::Video
    } else if media_urls.len() == 1 && looks_like_video_url(media_urls[0].as_str()) {
        XhsWorkKind::Video
    } else if media_urls.len() > 0 {
        XhsWorkKind::ImageSet
    } else {
        XhsWorkKind::Unknown
    };
    proof {
        if media_urls@.len() == 1 {
            assert(media_urls@.map_values(|s: String| s@)[0] == media_urls@[0]@);
        }
    }
    Ok(XhsWork { title, note_id, work_type, media_urls, kind })
}

/// Reads the downloader service's answer: its message and, when present, the
/// work's description.
pub fn work_from_detail(message: String, data: Option<JsonValue>) -> (r: Result<XhsWork, XhsError>)
    ensures
        match data {
            Some(d) => match r {
                Ok(w) => work_of(d@) == Some(w@),
                Err(e) => work_of(d@) is None && e == XhsError::NoMedia,
            },
            None => r == Err::<XhsWork, XhsError>(XhsError::NoData(message)),
        },
{
    match data {
        Some(d) => parse_work(&d),
        None => Err(XhsError::NoData(message)),
    }
}

/// How a work's kind follows its declared type (`作品类型`, trimmed): `图文`
/// and `图集` are image sets, `视频` is a video, and a work of another type
/// is a video only when it has a single media URL. A work read from data is
/// never of unknown kind.
pub proof fn lemma_work_kind_follows_type(data: Json)
    ensures
        work_of(data) matches Some(w) ==> {
            &&& string_field_of(data, "作品类型"@) == Some("图文"@) ==> w.kind == XhsWorkKind::ImageSet
            &&& string_field_of(data, "作品类型"@) == Some("图集"@) ==> w.kind == XhsWorkKind::ImageSet
            &&& string_field_of(data, "作品类型"@) == Some("视频"@) ==> w.kind == XhsWorkKind::Video
            &&& w.kind == XhsWorkKind::Video ==> w.work_type == "视频"@ || (w.media_urls.len() == 1
                && w.work_type != "图文"@ && w.work_type != "图集"@)
            &&& w.kind == XhsWorkKind::ImageSet ==> w.work_type != "视频"@
            &&& w.kind != XhsWorkKind::Unknown
        },
{
    reveal_strlit("图文");
    reveal_strlit("图集");
    reveal_strlit("视频");
    assert("视频"@[0] != "图文"@[0]);
    assert("视频"@[0] != "图集"@[0]);
}

/// Reads the downloader service's whole answer: it must carry a `message`
/// text; its `data`, when present and not null, describes the work, and
/// otherwise the message is the error.
pub fn work_from_response(payload: &JsonValue) -> (r: Result<XhsWork, XhsError>)
    ensures
        match as_str(get(payload@, "message"@)) {
            None => r == Err::<XhsWork, XhsError>(XhsError::MalformedResponse),
            Some(m) => if get(payload@, "data"@) == Json::Null {
                r matches Err(XhsError::NoData(e)) && e@ == m
            } else {
                match r {
                    Ok(w) => work_of(get(payload@, "data"@)) == Some(w@),
                    Err(e) => work_of(get(payload@, "data"@)) is None && e == XhsError::NoMedia,
                }
            },
        },
{
    let message = match payload.str_field("message") {
        Some(m) => m,
        None => {
            return Err(XhsError::MalformedResponse);
        },
    };
    let data = match payload.field("data") {
        Some(d) => if d.is_null() {
            None
        } else {
            Some(d.deep_clone())
        },
        None => None,
    };
    work_from_detail(message, data)
}

} // verus!

verus! {

impl DownloadedMedia {
    /// Downloaded media: its bytes, its content type (the response's, else
    /// the URL's), and the file extension that goes with them.
    pub fn from_download(bytes: Vec<u8>, header: Option<&str>, url: &str) -> (r: DownloadedMedia)
        ensures
            r.bytes@ == bytes@,
            r.content_type@ == match header {
                Some(h) => stripped_content_type(h@),
                None => guessed_content_type(url@),
            },
            r.extension@ == guessed_extension(url@, r.content_type@),
    {
        let content_type = media_content_type(header, url);
        let extension = guess_extension(url, content_type.as_str());
        DownloadedMedia { bytes, content_type, extension }
    }
}

} // verus!
