//! Parsing of inbound iLink messages (`WeixinMessage`) into a flat record.
use crate::json::{as_array, as_i64, as_str, get, json_of, json_of_items, lemma_json_of_items, str_or_empty, Json, JsonValue};
use crate::text::{i64_to_decimal, string_from, decimal_signed, join};
use vstd::prelude::*;

verus! {

/// Item type codes in a message's `item_list`.
pub const ITEM_NONE: i64 = 0;
pub const ITEM_TEXT: i64 = 1;
pub const ITEM_IMAGE: i64 = 2;
pub const ITEM_VOICE: i64 = 3;
pub const ITEM_FILE: i64 = 4;
pub const ITEM_VIDEO: i64 = 5;

/// The kind of a message.
#[derive(Debug, Clone, Copy, PartialEq, Eq, Structural)]
pub enum MessageType {
    Text,
    Image,
    Voice,
    File,
    Video,
    Unknown,
}

/// The name of a message kind, as the protocol and the routes write it.
pub open spec fn message_type_name(t: MessageType) -> Seq<char> {
    match t {
        MessageType::Text => "text"@,
        MessageType::Image => "image"@,
        MessageType::Voice => "voice"@,
        MessageType::File => "file"@,
        MessageType::Video => "video"@,
        MessageType::Unknown => "unknown"@,
    }
}

/// The message kind that a name stands for; any other name is `Unknown`.
pub open spec fn message_type_from_name(s: Seq<char>) -> MessageType {
    if s == "text"@ {
        MessageType::Text
    } else if s == "image"@ {
        MessageType::Image
    } else if s == "voice"@ {
        MessageType::Voice
    } else if s == "file"@ {
        MessageType::File
    } else if s == "video"@ {
        MessageType::Video
    } else {
        MessageType::Unknown
    }
}

impl MessageType {
    pub fn as_str(&self) -> (r: &'static str)
        ensures
            r@ == message_type_name(*self),
    {
        match self {
            MessageType::Text => "text",
            MessageType::Image => "image",
            MessageType::Voice => "voice",
            MessageType::File => "file",
            MessageType::Video => "video",
            MessageType::Unknown => "unknown",
        }
    }

    pub fn from_str(s: &str) -> (r: MessageType)
        ensures
            r == message_type_from_name(s@),
    {
        let c = crate::text::chars_of(s);
        if crate::text::chars_eq(&c, &crate::text::chars_of("text")) {
            MessageType::Text
        } else if crate::text::chars_eq(&c, &crate::text::chars_of("image")) {
            MessageType::Image
        } else if crate::text::chars_eq(&c, &crate::text::chars_of("voice")) {
            MessageType::Voice
        } else if crate::text::chars_eq(&c, &crate::text::chars_of("file")) {
            MessageType::File
        } else if crate::text::chars_eq(&c, &crate::text::chars_of("video")) {
            MessageType::Video
        } else {
            MessageType::Unknown
        }
    }
}

/// A CDN media reference carried by an image, voice, file or video item.
#[derive(Debug)]
pub struct MediaInfo {
    /// CDN download parameter.
    pub encrypt_query_param: String,
    /// AES-128 key (base64).
    pub aes_key: String,
    pub encrypt_type: i64,
    /// Full download URL.
    pub full_url: String,
    /// File name (files only).
    pub file_name: String,
    /// File MD5 (files only).
    pub md5: String,
    /// File size as text.
    pub size: String,
    /// Encoding (voice only).
    pub encode_type: Option<i64>,
    /// Play time (voice only).
    pub playtime: Option<i64>,
    /// Video size (video only).
    pub video_size: Option<i64>,
    /// Play length (video only).
    pub play_length: Option<i64>,
    /// Thumbnail media reference (images only).
    pub thumb_media: Option<JsonValue>,
}

/// The mathematical value of a `MediaInfo`.
pub struct MediaView {
    pub encrypt_query_param: Seq<char>,
    pub aes_key: Seq<char>,
    pub encrypt_type: i64,
    pub full_url: Seq<char>,
    pub file_name: Seq<char>,
    pub md5: Seq<char>,
    pub size: Seq<char>,
    pub encode_type: Option<i64>,
    pub playtime: Option<i64>,
    pub video_size: Option<i64>,
    pub play_length: Option<i64>,
    pub thumb_media: Option<Json>,
}

impl View for MediaInfo {
    type V = MediaView;

    open spec fn view(&self) -> MediaView {
        MediaView {
            encrypt_query_param: self.encrypt_query_param@,
            aes_key: self.aes_key@,
            encrypt_type: self.encrypt_type,
            full_url: self.full_url@,
            file_name: self.file_name@,
            md5: self.md5@,
            size: self.size@,
            encode_type: self.encode_type,
            playtime: self.playtime,
            video_size: self.video_size,
            play_length: self.play_length,
            thumb_media: match self.thumb_media {
                Some(t) => Some(t@),
                None => None,
            },
        }
    }
}

/// A message as the modules see it.
#[derive(Debug)]
pub struct ParsedMessage {
    /// Sender.
    pub user_id: String,
    /// Text content.
    pub text: String,
    /// The session token that a reply to this sender must carry.
    pub context_token: String,
    pub message_type: MessageType,
    pub media_info: Option<MediaInfo>,
    /// Text of a quoted message.
    pub ref_text: Option<String>,
    /// The message as received.
    pub raw_message: JsonValue,
    /// Creation time (milliseconds).
    pub create_time_ms: i64,
    pub session_id: String,
    pub group_id: String,
}

/// The mathematical value of a `ParsedMessage`.
pub struct ParsedView {
    pub user_id: Seq<char>,
    pub text: Seq<char>,
    pub context_token: Seq<char>,
    pub message_type: MessageType,
    pub media_info: Option<MediaView>,
    pub ref_text: Option<Seq<char>>,
    pub raw_message: Json,
    pub create_time_ms: i64,
    pub session_id: Seq<char>,
    pub group_id: Seq<char>,
}

impl View for ParsedMessage {
    type V = ParsedView;

    open spec fn view(&self) -> ParsedView {
        ParsedView {
            user_id: self.user_id@,
            text: self.text@,
            context_token: self.context_token@,
            message_type: self.message_type,
            media_info: match self.media_info {
                Some(m) => Some(m@),
                None => None,
            },
            ref_text: match self.ref_text {
                Some(t) => Some(t@),
                None => None,
            },
            raw_message: self.raw_message@,
            create_time_ms: self.create_time_ms,
            session_id: self.session_id@,
            group_id: self.group_id@,
        }
    }
}

/// A media reference with every field empty.
pub open spec fn empty_media() -> MediaView {
    MediaView {
        encrypt_query_param: Seq::empty(),
        aes_key: Seq::empty(),
        encrypt_type: 0,
        full_url: Seq::empty(),
        file_name: Seq::empty(),
        md5: Seq::empty(),
        size: Seq::empty(),
        encode_type: None,
        playtime: None,
        video_size: None,
        play_length: None,
        thumb_media: None,
    }
}

impl Default for MediaInfo {
    fn default() -> (r: MediaInfo)
        ensures
            r@ == empty_media(),
    {
        MediaInfo {
            encrypt_query_param: String::new(),
            aes_key: String::new(),
            encrypt_type: 0,
            full_url: String::new(),
            file_name: String::new(),
            md5: String::new(),
            size: String::new(),
            encode_type: None,
            playtime: None,
            video_size: None,
            play_length: None,
            thumb_media: None,
        }
    }
}

/// A message with every field empty, of unknown kind.
pub open spec fn empty_parsed() -> ParsedView {
    ParsedView {
        user_id: Seq::empty(),
        text: Seq::empty(),
        context_token: Seq::empty(),
        message_type: MessageType::Unknown,
        media_info: None,
        ref_text: None,
        raw_message: Json::Null,
        create_time_ms: 0,
        session_id: Seq::empty(),
        group_id: Seq::empty(),
    }
}

impl Default for ParsedMessage {
    fn default() -> (r: ParsedMessage)
        ensures
            r@ == empty_parsed(),
    {
        ParsedMessage {
            user_id: String::new(),
            text: String::new(),
            context_token: String::new(),
            message_type: MessageType::Unknown,
            media_info: None,
            ref_text: None,
            raw_message: JsonValue::Null,
            create_time_ms: 0,
            session_id: String::new(),
            group_id: String::new(),
        }
    }
}

// ---------------------------------------------------------------------------
// What parsing gives, item by item.

/// The common CDN fields of `media`, everything else empty.
pub open spec fn cdn_media(media: Json) -> MediaView {
    MediaView {
        encrypt_query_param: str_or_empty(get(media, "encrypt_query_param"@)),
        aes_key: str_or_empty(get(media, "aes_key"@)),
        encrypt_type: match as_i64(get(media, "encrypt_type"@)) {
            Some(t) => t,
            None => 0,
        },
        full_url: str_or_empty(get(media, "full_url"@)),
        ..empty_media()
    }
}

pub open spec fn image_media(item: Json) -> MediaView {
    let image = get(item, "image_item"@);
    let base = cdn_media(get(image, "media"@));
    MediaView {
        thumb_media: Some(get(image, "thumb_media"@)),
        aes_key: match as_str(get(image, "aeskey"@)) {
            Some(k) => k,
            None => base.aes_key,
        },
        ..base
    }
}

pub open spec fn voice_media(item: Json) -> MediaView {
    let voice = get(item, "voice_item"@);
    MediaView {
        encode_type: as_i64(get(voice, "encode_type"@)),
        playtime: as_i64(get(voice, "playtime"@)),
        ..cdn_media(get(voice, "media"@))
    }
}

/// The size text of a file item's `len`: a non-empty string as it is, an
/// integer in decimal, anything else `"0"`.
pub open spec fn file_size_text(len: Json) -> Seq<char> {
    match len {
        Json::Str(s) => if s.len() == 0 {
            "0"@
        } else {
            s
        },
        Json::Int(n) => decimal_signed(n as int),
        _ => "0"@,
    }
}

pub open spec fn file_media(item: Json) -> MediaView {
    let file = get(item, "file_item"@);
    MediaView {
        file_name: str_or_empty(get(file, "file_name"@)),
        md5: str_or_empty(get(file, "md5"@)),
        size: file_size_text(get(file, "len"@)),
        ..cdn_media(get(file, "media"@))
    }
}

pub open spec fn video_media(item: Json) -> MediaView {
    let video = get(item, "video_item"@);
    MediaView {
        video_size: as_i64(get(video, "video_size"@)),
        play_length: as_i64(get(video, "play_length"@)),
        ..cdn_media(get(video, "media"@))
    }
}

/// The text of a quoted message: its non-empty title and the non-empty text
/// of a quoted text item, joined by `" | "`; `None` when there is neither or
/// nothing is quoted.
pub open spec fn ref_text_of(item: Json) -> Option<Seq<char>> {
    let ref_msg = get(item, "ref_msg"@);
    if ref_msg == Json::Null {
        None
    } else {
        let title_part: Seq<Seq<char>> = match as_str(get(ref_msg, "title"@)) {
            Some(t) => if t.len() > 0 {
                seq![t]
            } else {
                Seq::empty()
            },
            None => Seq::empty(),
        };
        let ref_item = get(ref_msg, "message_item"@);
        let text_part: Seq<Seq<char>> = if ref_item != Json::Null && as_i64(get(ref_item, "type"@))
            == Some(ITEM_TEXT) {
            match as_str(get(get(ref_item, "text_item"@), "text"@)) {
                Some(t) => if t.len() > 0 {
                    seq![t]
                } else {
                    Seq::empty()
                },
                None => Seq::empty(),
            }
        } else {
            Seq::empty()
        };
        let parts = title_part + text_part;
        if parts.len() == 0 {
            None
        } else {
            Some(join(parts, " | "@))
        }
    }
}

/// The effect of one item of `item_list` on the message parsed so far.
pub open spec fn apply_item(acc: ParsedView, item: Json) -> ParsedView {
    let t = match as_i64(get(item, "type"@)) {
        Some(t) => t,
        None => 0,
    };
    if t == ITEM_TEXT {
        ParsedView {
            message_type: MessageType::Text,
            text: str_or_empty(get(get(item, "text_item"@), "text"@)),
            ref_text: match ref_text_of(item) {
                Some(r) => Some(r),
                None => acc.ref_text,
            },
            ..acc
        }
    } else if t == ITEM_IMAGE {
        ParsedView { message_type: MessageType::Image, media_info: Some(image_media(item)), ..acc }
    } else if t == ITEM_VOICE {
        let voice_text = str_or_empty(get(get(item, "voice_item"@), "text"@));
        ParsedView {
            message_type: MessageType::Voice,
            text: if voice_text.len() > 0 {
                voice_text
            } else {
                acc.text
            },
            media_info: Some(voice_media(item)),
            ..acc
        }
    } else if t == ITEM_FILE {
        ParsedView { message_type: MessageType::File, media_info: Some(file_media(item)), ..acc }
    } else if t == ITEM_VIDEO {
        ParsedView { message_type: MessageType::Video, media_info: Some(video_media(item)), ..acc }
    } else {
        acc
    }
}

/// The items applied in order.
pub open spec fn apply_items(acc: ParsedView, items: Seq<Json>) -> ParsedView
    decreases items.len(),
{
    if items.len() == 0 {
        acc
    } else {
        apply_item(apply_items(acc, items.drop_last()), items.last())
    }
}

/// The envelope fields of a message, before any item is read.
pub open spec fn parsed_header(msg: Json) -> ParsedView {
    ParsedView {
        user_id: str_or_empty(get(msg, "from_user_id"@)),
        context_token: str_or_empty(get(msg, "context_token"@)),
        raw_message: msg,
        create_time_ms: match as_i64(get(msg, "create_time_ms"@)) {
            Some(t) => t,
            None => 0,
        },
        session_id: str_or_empty(get(msg, "session_id"@)),
        group_id: str_or_empty(get(msg, "group_id"@)),
        ..empty_parsed()
    }
}

/// What parsing a message gives.
pub open spec fn parse_message(msg: Json) -> ParsedView {
    match as_array(get(msg, "item_list"@)) {
        Some(items) => apply_items(parsed_header(msg), items),
        None => parsed_header(msg),
    }
}

/// `value[k1][k2].as_str().unwrap_or("")`, copied.
fn nested_str_or_empty(v: &JsonValue, k1: &str, k2: &str) -> (r: String)
    ensures
        r@ == str_or_empty(get(get(v@, k1@), k2@)),
{
    match v.field(k1) {
        Some(x) => x.str_field_or_empty(k2),
        None => String::new(),
    }
}

/// The message parser. It holds no state.
pub struct MessageParser;

impl MessageParser {
    pub fn new() -> (r: MessageParser) {
        MessageParser
    }

    /// Parses one `WeixinMessage`: the envelope fields, then each item of
    /// `item_list` in order (a later item overrides what an earlier one set).
    pub fn parse(&self, msg: &JsonValue) -> (r: ParsedMessage)
        ensures
            r@ == parse_message(msg@),
    {
        let mut parsed = ParsedMessage {
            user_id: msg.str_field_or_empty("from_user_id"),
            context_token: msg.str_field_or_empty("context_token"),
            raw_message: msg.deep_clone(),
            create_time_ms: match msg.i64_field("create_time_ms") {
                Some(t) => t,
                None => 0,
            },
            session_id: msg.str_field_or_empty("session_id"),
            group_id: msg.str_field_or_empty("group_id"),
            text: String::new(),
            message_type: MessageType::Unknown,
            media_info: None,
            ref_text: None,
        };
        let ghost header = parsed_header(msg@);
        assert(parsed@ == header);
        let items = match msg.array_field("item_list") {
            Some(items) => items,
            None => {
                return parsed;
            },
        };
        let ghost js = json_of_items(items@);
        proof {
            lemma_json_of_items(items@);
        }
        let mut i: usize = 0;
        assert(js.take(0) =~= Seq::<Json>::empty());
        while i < items.len()
            invariant
                i <= items@.len() == js.len(),
                js == json_of_items(items@),
                forall|j: int| 0 <= j < items@.len() ==> #[trigger] js[j] == json_of(items@[j]),
                parsed@ == apply_items(header, js.take(i as int)),
            decreases items@.len() - i,
        {
            let item = &items[i];
            proof {
                assert(js.take(i + 1).drop_last() =~= js.take(i as int));
                assert(js.take(i + 1).last() == item@);
            }
            Self::apply(&mut parsed, item);
            i = i + 1;
        }
        assert(js.take(js.len() as int) =~= js);
        parsed
    }

    /// Applies one item to the message parsed so far.
    fn apply(parsed: &mut ParsedMessage, item: &JsonValue)
        ensures
            final(parsed)@ == apply_item(old(parsed)@, item@),
    {
        let t = match item.i64_field("type") {
            Some(t) => t,
            None => 0,
        };
        if t == ITEM_TEXT {
            parsed.message_type = MessageType::Text;
            parsed.text = Self::extract_text(item);
            if let Some(ref_text) = Self::extract_ref_text(item) {
                parsed.ref_text = Some(ref_text);
            }
        } else if t == ITEM_IMAGE {
            parsed.message_type = MessageType::Image;
            parsed.media_info = Some(Self::extract_image_info(item));
        } else if t == ITEM_VOICE {
            parsed.message_type = MessageType::Voice;
            let voice_text = nested_str_or_empty(item, "voice_item", "text");
            if !voice_text.as_str().is_empty() {
                parsed.text = voice_text;
            }
            parsed.media_info = Some(Self::extract_voice_info(item));
        } else if t == ITEM_FILE {
            parsed.message_type = MessageType::File;
            parsed.media_info = Some(Self::extract_file_info(item));
        } else if t == ITEM_VIDEO {
            parsed.message_type = MessageType::Video;
            parsed.media_info = Some(Self::extract_video_info(item));
        }
    }

    /// The text of a text item.
    fn extract_text(item: &JsonValue) -> (r: String)
        ensures
            r@ == str_or_empty(get(get(item@, "text_item"@), "text"@)),
    {
        nested_str_or_empty(item, "text_item", "text")
    }

    /// The text of the message that an item quotes.
    fn extract_ref_text(item: &JsonValue) -> (r: Option<String>)
        ensures
            match r {
                Some(t) => ref_text_of(item@) == Some(t@),
                None => ref_text_of(item@) is None,
            },
    {
        let ref_msg = match item.field("ref_msg") {
            Some(x) => x,
            None => {
                return None;
            },
        };
        if ref_msg.is_null() {
            return None;
        }
        let mut parts: Vec<Vec<char>> = Vec::new();
        if let Some(title) = ref_msg.str_field("title") {
            if !title.as_str().is_empty() {
                parts.push(crate::text::chars_of(title.as_str()));
                assert(crate::text::views(parts@) =~= seq![title@]);
            } else {
                assert(crate::text::views(parts@) =~= Seq::<Seq<char>>::empty());
            }
        } else {
            assert(crate::text::views(parts@) =~= Seq::<Seq<char>>::empty());
        }
        let ghost title_part = crate::text::views(parts@);
        match ref_msg.field("message_item") {
            Some(ref_item) => {
                if !ref_item.is_null() && ref_item.i64_field("type") == Some(ITEM_TEXT) {
                    let t = nested_str_or_empty(ref_item, "text_item", "text");
                    if !t.as_str().is_empty() {
                        let ghost before = parts@;
                        parts.push(crate::text::chars_of(t.as_str()));
                        assert(crate::text::views(parts@) =~= title_part + seq![t@]);
                    } else {
                        assert(crate::text::views(parts@) =~= title_part + Seq::<Seq<char>>::empty());
                    }
                } else {
                    assert(crate::text::views(parts@) =~= title_part + Seq::<Seq<char>>::empty());
                }
            },
            None => {
                assert(crate::text::views(parts@) =~= title_part + Seq::<Seq<char>>::empty());
            },
        }
        if parts.len() == 0 {
            None
        } else {
            let sep = crate::text::chars_of(" | ");
            let joined = crate::text::join_chars(&parts, &sep);
            Some(string_from(&joined))
        }
    }

    /// The common CDN fields of a `media` member.
    fn extract_cdn_media(media: Option<&JsonValue>) -> (r: MediaInfo)
        ensures
            r@ == cdn_media(
                match media {
                    Some(m) => m@,
                    None => Json::Null,
                },
            ),
    {
        match media {
            Some(m) => MediaInfo {
                encrypt_query_param: m.str_field_or_empty("encrypt_query_param"),
                aes_key: m.str_field_or_empty("aes_key"),
                encrypt_type: match m.i64_field("encrypt_type") {
                    Some(t) => t,
                    None => 0,
                },
                full_url: m.str_field_or_empty("full_url"),
                ..MediaInfo::default()
            },
            None => MediaInfo::default(),
        }
    }

    fn extract_image_info(item: &JsonValue) -> (r: MediaInfo)
        ensures
            r@ == image_media(item@),
    {
        let image = match item.field("image_item") {
            Some(x) => x.deep_clone(),
            None => JsonValue::Null,
        };
        let mut info = Self::extract_cdn_media(image.field("media"));
        info.thumb_media = Some(image.field_or_null("thumb_media"));
        if let Some(aeskey) = image.str_field("aeskey") {
            info.aes_key = aeskey;
        }
        info
    }

    fn extract_voice_info(item: &JsonValue) -> (r: MediaInfo)
        ensures
            r@ == voice_media(item@),
    {
        let voice = match item.field("voice_item") {
            Some(x) => x.deep_clone(),
            None => JsonValue::Null,
        };
        let mut info = Self::extract_cdn_media(voice.field("media"));
        info.encode_type = voice.i64_field("encode_type");
        info.playtime = voice.i64_field("playtime");
        info
    }

    fn extract_file_info(item: &JsonValue) -> (r: MediaInfo)
        ensures
            r@ == file_media(item@),
    {
        let file = match item.field("file_item") {
            Some(x) => x.deep_clone(),
            None => JsonValue::Null,
        };
        proof {
            reveal_strlit("0");
            crate::text::lemma_decimal_signed_zero();
        }
        let mut info = Self::extract_cdn_media(file.field("media"));
        info.file_name = file.str_field_or_empty("file_name");
        info.md5 = file.str_field_or_empty("md5");
        let len = file.field_or_null("len");
        info.size = match len.as_string() {
            Some(s) => s,
            None => match len.as_int() {
                Some(_) => String::new(),
                None => String::from_str("0"),
            },
        };
        if info.size.as_str().is_empty() {
            let n = match len.as_int() {
                Some(n) => n,
                None => 0,
            };
            info.size = string_from(&i64_to_decimal(n));
        }
        assert(info.size@ == file_size_text(len@));
        info
    }

    fn extract_video_info(item: &JsonValue) -> (r: MediaInfo)
        ensures
            r@ == video_media(item@),
    {
        let video = match item.field("video_item") {
            Some(x) => x.deep_clone(),
            None => JsonValue::Null,
        };
        let mut info = Self::extract_cdn_media(video.field("media"));
        info.video_size = video.i64_field("video_size");
        info.play_length = video.i64_field("play_length");
        info
    }
}

/// A voice item with a transcription carries the message's text: when the
/// last item of `item_list` is a voice item (type 3) whose `voice_item.text`
/// is a non-empty string, the parsed message is a voice message and its text
/// is that transcription. A voice item without one leaves the text that the
/// earlier items gave.
pub proof fn lemma_voice_transcription_is_text(msg: Json, items: Seq<Json>)
    requires
        get(msg, "item_list"@) == Json::Array(items),
        items.len() > 0,
        get(items.last(), "type"@) == Json::Int(3),
    ensures
        parse_message(msg).message_type == MessageType::Voice,
        str_or_empty(get(get(items.last(), "voice_item"@), "text"@)).len() > 0 ==> parse_message(msg).text
            == str_or_empty(get(get(items.last(), "voice_item"@), "text"@)),
        str_or_empty(get(get(items.last(), "voice_item"@), "text"@)).len() == 0 ==> parse_message(msg).text
            == apply_items(parsed_header(msg), items.drop_last()).text,
{
}

/// The message types that the item types of the protocol give: 1 text,
/// 2 image, 3 voice, 4 file, 5 video; any other item changes nothing.
pub proof fn lemma_item_types(acc: ParsedView, item: Json, t: i64)
    requires
        get(item, "type"@) == Json::Int(t),
    ensures
        t == 1 ==> apply_item(acc, item).message_type == MessageType::Text,
        t == 2 ==> apply_item(acc, item).message_type == MessageType::Image,
        t == 3 ==> apply_item(acc, item).message_type == MessageType::Voice,
        t == 4 ==> apply_item(acc, item).message_type == MessageType::File,
        t == 5 ==> apply_item(acc, item).message_type == MessageType::Video,
        !(1 <= t <= 5) ==> apply_item(acc, item) == acc,
{
}

} // verus!
