//! The Xiaohongshu module: a message with a Xiaohongshu link gets the work's
//! images or video back, without watermark.
use crate::text::{chars_of, decimal, is_ascii_alnum, push_char, string_from, u64_to_decimal};
use crate::xhs_client::{XhsClient, XhsClientConfig, XhsWork, XhsWorkKind};
use vstd::prelude::*;

verus! {

/// A character kept in a file name: ASCII letters and digits, `-` and `_`.
pub open spec fn stem_char(c: char) -> char {
    if is_ascii_alnum(c) || c == '-' || c == '_' {
        c
    } else {
        '_'
    }
}

/// A file-name stem: every other character replaced by `_`; `xhs` for an
/// empty value.
pub open spec fn file_stem(value: Seq<char>) -> Seq<char> {
    if value.len() == 0 {
        "xhs"@
    } else {
        value.map_values(|c: char| stem_char(c))
    }
}

/// The file-name stem for `value`.
pub fn sanitize_file_stem(value: &str) -> (r: String)
    ensures
        r@ == file_stem(value@),
{
    let v = chars_of(value);
    let mut out = String::new();
    let mut i: usize = 0;
    while i < v.len()
        invariant
            i <= v@.len(),
            v@ == value@,
            out@ == v@.take(i as int).map_values(|c: char| stem_char(c)),
        decreases v@.len() - i,
    {
        let c = v[i];
        let keep = ('a' <= c && c <= 'z') || ('A' <= c && c <= 'Z') || ('0' <= c && c <= '9') || c == '-' || c
            == '_';
        push_char(&mut out, if keep {
            c
        } else {
            '_'
        });
        assert(v@.take(i + 1).map_values(|c: char| stem_char(c)) =~= v@.take(i as int).map_values(
            |c: char| stem_char(c),
        ).push(stem_char(c)));
        i = i + 1;
    }
    assert(v@.take(i as int) =~= v@);
    if out.as_str().is_empty() {
        String::from_str("xhs")
    } else {
        out
    }
}

/// The name of the `index`-th image file (from 0) of a note.
pub open spec fn image_file_name(note_id: Seq<char>, index: nat, extension: Seq<char>) -> Seq<char> {
    "xhs_"@ + file_stem(note_id) + "_"@ + decimal(index + 1) + "."@ + extension
}

/// The name of a note's video file.
pub open spec fn video_file_name(note_id: Seq<char>, extension: Seq<char>) -> Seq<char> {
    "xhs_"@ + file_stem(note_id) + "."@ + extension
}

/// The closing answer after sending images: `success` of `total` went out.
pub open spec fn image_summary_text(success: nat, total: nat) -> Seq<char> {
    if success == 0 {
        "图片下载或发送失败，请稍后重试。"@
    } else if success == total {
        "已发送完成，共返回 "@ + decimal(total) + " 张无水印图片。"@
    } else {
        "已返回 "@ + decimal(success) + "/"@ + decimal(total) + " 张图片，部分图片处理失败。"@
    }
}

/// How many images went out, given whether each one did.
pub open spec fn sent_count(outcomes: Seq<bool>) -> nat
    decreases outcomes.len(),
{
    if outcomes.len() == 0 {
        0
    } else {
        sent_count(outcomes.drop_last()) + if outcomes.last() {
            1nat
        } else {
            0nat
        }
    }
}

/// How a work is sent back.
pub enum XhsDelivery {
    /// Its images, one by one, after this announcement.
    Images { intro: String },
    /// Its video, from `url`, after this announcement.
    Video { intro: String, url: String },
    /// Not at all: answer with this text.
    Unsupported(String),
    /// The work names no video: the handling fails with this error.
    NoVideo(String),
}

/// Sends back the images or video of Xiaohongshu links.
pub struct XhsModule {
    pub client: XhsClient,
}

impl XhsModule {
    /// The module, with a client for `config`.
    pub fn new(config: XhsClientConfig) -> (r: XhsModule)
        ensures
            r.client.api_base_url@ == crate::text::trim_end_char(config.api_url@, '/'),
            r.client.api_timeout_ms == if config.timeout_ms > 1000 {
                config.timeout_ms
            } else {
                1000
            },
    {
        XhsModule { client: XhsClient::new(config) }
    }

    pub fn name(&self) -> (r: &'static str)
        ensures
            r@ == "XhsModule"@,
    {
        "XhsModule"
    }

    /// The answer to a message without a usable link.
    pub fn no_link_reply(&self) -> (r: String)
        ensures
            r@ == "未识别到有效的小红书链接，请重新发送。"@,
    {
        String::from_str("未识别到有效的小红书链接，请重新发送。")
    }

    /// The answer when reading the work failed with `error`.
    pub fn fetch_failed_reply(&self, error: &str) -> (r: String)
        ensures
            r@ == "解析小红书链接失败: "@ + error@,
    {
        let mut s = String::from_str("解析小红书链接失败: ");
        s.append(error);
        s
    }

    /// How `work` is sent back: an image set as images, a video as its
    /// first media URL, anything else not at all.
    pub fn delivery(&self, work: &XhsWork) -> (r: XhsDelivery)
        ensures
            match work.kind {
                XhsWorkKind::ImageSet => r matches XhsDelivery::Images { intro } && intro@ == "已解析到小红书"@
                    + work.work_type@ + "《"@ + work.title@ + "》，共 "@ + decimal(work.media_urls@.len())
                    + " 张图片，开始回传无水印原图。"@,
                XhsWorkKind::Video => if work.media_urls@.len() > 0 {
                    r matches XhsDelivery::Video { intro, url } && intro@ == "已解析到小红书视频《"@ + work.title@
                        + "》，开始回传无水印视频。"@ && url@ == work.media_urls@[0]@
                } else {
                    r matches XhsDelivery::NoVideo(e) && e@ == "未获取到视频下载地址"@
                },
                XhsWorkKind::Unknown => r matches XhsDelivery::Unsupported(t) && t@ == "当前作品类型暂不支持处理。"@,
            },
    {
        match work.kind {
            XhsWorkKind::ImageSet => {
                let mut s = String::from_str("已解析到小红书");
                s.append(work.work_type.as_str());
                s.append("《");
                s.append(work.title.as_str());
                s.append("》，共 ");
                s.append(string_from(&u64_to_decimal(work.media_urls.len() as u64)).as_str());
                s.append(" 张图片，开始回传无水印原图。");
                XhsDelivery::Images { intro: s }
            },
            XhsWorkKind::Video => {
                if work.media_urls.len() == 0 {
                    return XhsDelivery::NoVideo(String::from_str("未获取到视频下载地址"));
                }
                let mut s = String::from_str("已解析到小红书视频《");
                s.append(work.title.as_str());
                s.append("》，开始回传无水印视频。");
                XhsDelivery::Video { intro: s, url: work.media_urls[0].clone() }
            },
            XhsWorkKind::Unknown => XhsDelivery::Unsupported(String::from_str("当前作品类型暂不支持处理。")),
        }
    }

    /// The file name of the `index`-th image (from 0) of `note_id`.
    pub fn image_file_name(&self, note_id: &str, index: usize, extension: &str) -> (r: String)
        requires
            index < usize::MAX,
        ensures
            r@ == image_file_name(note_id@, index as nat, extension@),
    {
        let mut s = String::from_str("xhs_");
        s.append(sanitize_file_stem(note_id).as_str());
        s.append("_");
        s.append(string_from(&u64_to_decimal((index + 1) as u64)).as_str());
        s.append(".");
        s.append(extension);
        s
    }

    /// The file name of `note_id`'s video.
    pub fn video_file_name(&self, note_id: &str, extension: &str) -> (r: String)
        ensures
            r@ == video_file_name(note_id@, extension@),
    {
        let mut s = String::from_str("xhs_");
        s.append(sanitize_file_stem(note_id).as_str());
        s.append(".");
        s.append(extension);
        s
    }

    /// The closing answer after sending images.
    pub fn image_summary(&self, success: usize, total: usize) -> (r: String)
        ensures
            r@ == image_summary_text(success as nat, total as nat),
    {
        if success == 0 {
            String::from_str("图片下载或发送失败，请稍后重试。")
        } else if success == total {
            let mut s = String::from_str("已发送完成，共返回 ");
            s.append(string_from(&u64_to_decimal(total as u64)).as_str());
            s.append(" 张无水印图片。");
            s
        } else {
            let mut s = String::from_str("已返回 ");
            s.append(string_from(&u64_to_decimal(success as u64)).as_str());
            s.append("/");
            s.append(string_from(&u64_to_decimal(total as u64)).as_str());
            s.append(" 张图片，部分图片处理失败。");
            s
        }
    }

    /// The closing answer after sending a note's images, given whether each
    /// one went out.
    pub fn image_summary_of(&self, outcomes: &Vec<bool>) -> (r: String)
        ensures
            r@ == image_summary_text(sent_count(outcomes@), outcomes@.len()),
    {
        let mut success: usize = 0;
        let mut i: usize = 0;
        while i < outcomes.len()
            invariant
                i <= outcomes@.len(),
                success <= i,
                success == sent_count(outcomes@.take(i as int)),
            decreases outcomes@.len() - i,
        {
            assert(outcomes@.take(i + 1).drop_last() =~= outcomes@.take(i as int));
            if outcomes[i] {
                success = success + 1;
            }
            i = i + 1;
        }
        assert(outcomes@.take(i as int) =~= outcomes@);
        self.image_summary(success, outcomes.len())
    }

    /// The closing answer after sending a video: sent as a video, or as a
    /// file after the video message failed.
    pub fn video_summary(&self, as_file: bool) -> (r: String)
        ensures
            r@ == if as_file {
                "视频已作为文件发送完成。"@
            } else {
                "视频发送完成。"@
            },
    {
        if as_file {
            String::from_str("视频已作为文件发送完成。")
        } else {
            String::from_str("视频发送完成。")
        }
    }
}

} // verus!
