//! Reading the content of a Matrix `m.room.message` event into a bridge
//! message content.
//!
//! The event arrives as JSON; the fields the bridge reads are handed over
//! as a `MatrixContentFields`, absent fields as `None`.
use vstd::prelude::*;
use vstd::string::*;

use crate::message::{MessageContent, MessageContentView, content_view, opt_view, clone_opt};
use crate::text::{starts_with, seq_starts_with, str_eq};

verus! {

/// The `file` object of an encrypted attachment, as far as the bridge
/// reads it: `url`, `key.k`, `iv` and `hashes.sha256`.
pub struct FileFields {
    pub url: Option<String>,
    pub key_k: Option<String>,
    pub iv: Option<String>,
    pub sha256: Option<String>,
}

/// The fields of a Matrix message content that the bridge reads
/// (`info.*` fields are those of the `info` object).
pub struct MatrixContentFields {
    pub formatted_body: Option<String>,
    pub url: Option<String>,
    pub file: Option<FileFields>,
    pub mimetype: Option<String>,
    pub width: Option<u64>,
    pub height: Option<u64>,
    pub size: Option<u64>,
    pub duration: Option<u64>,
    pub filename: Option<String>,
}

/// Key material of an encrypted attachment.
pub struct FileEncryption {
    /// Base64url-encoded AES-256 key (JWK `k` field).
    pub key_b64url: String,
    /// Base64-encoded IV.
    pub iv_b64: String,
    /// Unpadded base64-encoded SHA-256 of the ciphertext.
    pub sha256_b64: String,
}

pub struct FileEncryptionView {
    pub key_b64url: Seq<char>,
    pub iv_b64: Seq<char>,
    pub sha256_b64: Seq<char>,
}

impl View for FileEncryption {
    type V = FileEncryptionView;

    open spec fn view(&self) -> FileEncryptionView {
        FileEncryptionView {
            key_b64url: self.key_b64url@,
            iv_b64: self.iv_b64@,
            sha256_b64: self.sha256_b64@,
        }
    }
}

/// A parsed message content, with the key material of its attachment
/// when the attachment is encrypted.
pub struct ParsedContent {
    pub content: MessageContent,
    /// The media URL points at ciphertext that must be decrypted before
    /// it is forwarded.
    pub encrypted_media: bool,
    pub file_encryption: Option<FileEncryption>,
}

pub struct ParsedContentView {
    pub content: MessageContentView,
    pub encrypted_media: bool,
    pub file_encryption: Option<FileEncryptionView>,
}

impl View for ParsedContent {
    type V = ParsedContentView;

    open spec fn view(&self) -> ParsedContentView {
        ParsedContentView {
            content: content_view(self.content),
            encrypted_media: self.encrypted_media,
            file_encryption: match self.file_encryption {
                Some(f) => Some(f@),
                None => None,
            },
        }
    }
}

/// The key material of a `file` object: present when `key.k`, `iv` and
/// `hashes.sha256` all are.
pub open spec fn spec_extract_file_encryption(f: FileFields) -> Option<FileEncryptionView> {
    if f.key_k is Some && f.iv is Some && f.sha256 is Some {
        Some(
            FileEncryptionView {
                key_b64url: f.key_k->0@,
                iv_b64: f.iv->0@,
                sha256_b64: f.sha256->0@,
            },
        )
    } else {
        None
    }
}

/// The media URL of a content: a non-empty plain `url` (unencrypted), else
/// a non-empty `file.url` (encrypted, with its key material), else empty.
pub open spec fn spec_extract_media_url(c: MatrixContentFields) -> (Seq<char>, bool, Option<FileEncryptionView>) {
    if c.url is Some && c.url->0@.len() > 0 {
        (c.url->0@, false, None)
    } else if c.file is Some && c.file->0.url is Some && c.file->0.url->0@.len() > 0 {
        (c.file->0.url->0@, true, spec_extract_file_encryption(c.file->0))
    } else {
        (Seq::empty(), false, None)
    }
}

/// `info.mimetype`, or `default` when it is absent.
pub open spec fn spec_extract_mimetype(c: MatrixContentFields, default: Seq<char>) -> Seq<char> {
    match c.mimetype {
        Some(m) => m@,
        None => default,
    }
}

/// An optional dimension narrowed to 32 bits, as `as u32` does.
pub open spec fn narrow(o: Option<u64>) -> Option<u32> {
    match o {
        Some(v) => Some(v as u32),
        None => None,
    }
}

/// An image or video content: a video when `is_visual` and the default
/// MIME type is a video type, an image otherwise; the body is the caption
/// unless it is empty.
pub open spec fn spec_parse_media_content(
    c: MatrixContentFields,
    body: Seq<char>,
    default_mime: Seq<char>,
    is_visual: bool,
) -> ParsedContentView {
    let (url, encrypted_media, file_encryption) = spec_extract_media_url(c);
    let mimetype = spec_extract_mimetype(c, default_mime);
    let caption = if body.len() > 0 { Some(body) } else { None };
    let content = if is_visual && seq_starts_with(default_mime, "video"@) {
        MessageContentView::Video {
            url,
            caption,
            mimetype,
            filename: opt_view(c.filename),
            width: narrow(c.width),
            height: narrow(c.height),
            size: c.size,
            duration: c.duration,
        }
    } else {
        MessageContentView::Image {
            url,
            caption,
            mimetype,
            filename: opt_view(c.filename),
            width: narrow(c.width),
            height: narrow(c.height),
            size: c.size,
        }
    };
    ParsedContentView { content, encrypted_media, file_encryption }
}

/// The bridge content for a Matrix message of type `msgtype`; `None` for
/// the types the bridge does not forward.
pub open spec fn spec_parse_message_content(
    msgtype: Seq<char>,
    body: Seq<char>,
    c: MatrixContentFields,
) -> Option<ParsedContentView> {
    let plain = |content: MessageContentView|
        ParsedContentView { content, encrypted_media: false, file_encryption: None };
    if msgtype == "m.text"@ {
        Some(plain(MessageContentView::Text { body, formatted_body: opt_view(c.formatted_body) }))
    } else if msgtype == "m.notice"@ {
        Some(plain(MessageContentView::Notice { body }))
    } else if msgtype == "m.emote"@ {
        Some(plain(MessageContentView::Emote { body }))
    } else if msgtype == "m.image"@ {
        Some(spec_parse_media_content(c, body, "image/png"@, true))
    } else if msgtype == "m.file"@ {
        let (url, encrypted_media, file_encryption) = spec_extract_media_url(c);
        Some(
            ParsedContentView {
                content: MessageContentView::File {
                    url,
                    filename: body,
                    mimetype: spec_extract_mimetype(c, "application/octet-stream"@),
                    size: c.size,
                },
                encrypted_media,
                file_encryption,
            },
        )
    } else if msgtype == "m.video"@ {
        Some(spec_parse_media_content(c, body, "video/mp4"@, true))
    } else if msgtype == "m.audio"@ {
        let (url, encrypted_media, file_encryption) = spec_extract_media_url(c);
        Some(
            ParsedContentView {
                content: MessageContentView::Audio {
                    url,
                    mimetype: spec_extract_mimetype(c, "audio/ogg"@),
                    filename: opt_view(c.filename),
                    size: c.size,
                    duration: c.duration,
                },
                encrypted_media,
                file_encryption,
            },
        )
    } else {
        None
    }
}

/// Reads the key material of a `file` object.
pub fn extract_file_encryption(file: &FileFields) -> (r: Option<FileEncryption>)
    ensures
        match r {
            Some(e) => spec_extract_file_encryption(*file) == Some(e@),
            None => spec_extract_file_encryption(*file) is None,
        },
{
    match (&file.key_k, &file.iv, &file.sha256) {
        (Some(k), Some(iv), Some(h)) => Some(
            FileEncryption { key_b64url: k.clone(), iv_b64: iv.clone(), sha256_b64: h.clone() },
        ),
        _ => None,
    }
}

/// Reads the media URL of a content, with the key material when the media
/// is an encrypted attachment.
pub fn extract_media_url(content: &MatrixContentFields) -> (r: (String, bool, Option<FileEncryption>))
    ensures
        r.0@ == spec_extract_media_url(*content).0,
        r.1 == spec_extract_media_url(*content).1,
        match r.2 {
            Some(e) => spec_extract_media_url(*content).2 == Some(e@),
            None => spec_extract_media_url(*content).2 is None,
        },
{
    if let Some(url) = &content.url {
        if url.unicode_len() > 0 {
            return (url.clone(), false, None);
        }
    }
    if let Some(file) = &content.file {
        if let Some(url) = &file.url {
            if url.unicode_len() > 0 {
                let encryption = extract_file_encryption(file);
                return (url.clone(), true, encryption);
            }
        }
    }
    (String::new(), false, None)
}

/// `info.mimetype`, or `default` when it is absent.
pub fn extract_mimetype(content: &MatrixContentFields, default: &str) -> (r: String)
    ensures
        r@ == spec_extract_mimetype(*content, default@),
{
    match &content.mimetype {
        Some(m) => m.clone(),
        None => default.to_string(),
    }
}

fn narrow_dimension(o: Option<u64>) -> (r: Option<u32>)
    ensures
        r == narrow(o),
{
    match o {
        Some(v) => Some(v as u32),
        None => None,
    }
}

/// Reads an image or video content.
pub fn parse_media_content(
    content: &MatrixContentFields,
    body: &str,
    default_mime: &str,
    is_visual: bool,
) -> (r: ParsedContent)
    ensures
        r@ == spec_parse_media_content(*content, body@, default_mime@, is_visual),
{
    let (url, encrypted_media, file_encryption) = extract_media_url(content);
    let mimetype = extract_mimetype(content, default_mime);
    let caption = if body.unicode_len() > 0 {
        Some(body.to_string())
    } else {
        None
    };
    let width = narrow_dimension(content.width);
    let height = narrow_dimension(content.height);
    let filename = clone_opt(&content.filename);
    let is_video = is_visual && starts_with(default_mime, "video");
    let mc = if is_video {
        MessageContent::Video {
            url,
            caption,
            mimetype,
            filename,
            width,
            height,
            size: content.size,
            duration: content.duration,
        }
    } else {
        MessageContent::Image {
            url,
            caption,
            mimetype,
            filename,
            width,
            height,
            size: content.size,
        }
    };
    let r = ParsedContent { content: mc, encrypted_media, file_encryption };
    assert(r@.content == spec_parse_media_content(*content, body@, default_mime@, is_visual).content);
    r
}

fn plain_content(content: MessageContent) -> (r: ParsedContent)
    ensures
        r@ == (ParsedContentView {
            content: content_view(content),
            encrypted_media: false,
            file_encryption: None,
        }),
{
    ParsedContent { content, encrypted_media: false, file_encryption: None }
}

/// Reads a Matrix message content of type `msgtype` with body `body`.
/// Text, notice, emote, image, file, video and audio messages are read;
/// any other type gives `None`.
pub fn parse_message_content(msgtype: &str, body: &str, content: &MatrixContentFields) -> (r: Option<ParsedContent>)
    ensures
        match r {
            Some(p) => spec_parse_message_content(msgtype@, body@, *content) == Some(p@),
            None => spec_parse_message_content(msgtype@, body@, *content) is None,
        },
{
    if str_eq(msgtype, "m.text") {
        let formatted = clone_opt(&content.formatted_body);
        Some(plain_content(MessageContent::Text { body: body.to_string(), formatted_body: formatted }))
    } else if str_eq(msgtype, "m.notice") {
        Some(plain_content(MessageContent::Notice { body: body.to_string() }))
    } else if str_eq(msgtype, "m.emote") {
        Some(plain_content(MessageContent::Emote { body: body.to_string() }))
    } else if str_eq(msgtype, "m.image") {
        Some(parse_media_content(content, body, "image/png", true))
    } else if str_eq(msgtype, "m.file") {
        let (url, encrypted_media, file_encryption) = extract_media_url(content);
        let mimetype = extract_mimetype(content, "application/octet-stream");
        Some(
            ParsedContent {
                content: MessageContent::File {
                    url,
                    filename: body.to_string(),
                    mimetype,
                    size: content.size,
                },
                encrypted_media,
                file_encryption,
            },
        )
    } else if str_eq(msgtype, "m.video") {
        Some(parse_media_content(content, body, "video/mp4", true))
    } else if str_eq(msgtype, "m.audio") {
        let (url, encrypted_media, file_encryption) = extract_media_url(content);
        let mimetype = extract_mimetype(content, "audio/ogg");
        let filename = clone_opt(&content.filename);
        Some(
            ParsedContent {
                content: MessageContent::Audio {
                    url,
                    mimetype,
                    filename,
                    size: content.size,
                    duration: content.duration,
                },
                encrypted_media,
                file_encryption,
            },
        )
    } else {
        None
    }
}

} // verus!
