//! Messages from external platforms into Matrix: the Matrix message
//! content a bridge message becomes.
use vstd::prelude::*;
use vstd::string::*;

use crate::attachment::EncryptedAttachment;
use crate::message::{BridgeMessage, MessageContent};

verus! {

/// What `ammonia` keeps of an HTML text (default rules, links marked
/// `rel="noopener noreferrer"`).
pub uninterp spec fn html_clean_view(html: Seq<char>) -> Seq<char>;

/// Cleans untrusted HTML with `ammonia::Builder::default()` and
/// `link_rel(Some("noopener noreferrer"))`.
///
/// Claimed of the crate: the cleaned text depends on the input alone
/// (`html_clean_view`); the whitelist rules that decide it are not restated.
#[verifier::external_body]
fn sanitize_html(html: &str) -> (r: String)
    ensures
        r@ == html_clean_view(html@),
{
    ammonia::Builder::default().link_rel(Some("noopener noreferrer")).clean(html).to_string()
}

/// A fresh transaction ID: `ulid::Ulid::new()` as text. It depends on the
/// clock and on randomness; the contract states only its length.
#[verifier::external_body]
pub(crate) fn new_txn_id() -> (r: String)
    ensures
        r@.len() == 26,
{
    ulid::Ulid::new().to_string()
}

/// Where the media of a Matrix message is: a plain URL, or an encrypted
/// upload described by a `file` object.
#[derive(Debug, Clone)]
pub enum MediaSource {
    Url(String),
    File(EncryptedAttachment),
}

pub enum MediaSourceView {
    Url(Seq<char>),
    File(EncryptedAttachment),
}

impl View for MediaSource {
    type V = MediaSourceView;

    open spec fn view(&self) -> MediaSourceView {
        match self {
            MediaSource::Url(u) => MediaSourceView::Url(u@),
            MediaSource::File(f) => MediaSourceView::File(*f),
        }
    }
}

/// The content of a Matrix `m.room.message` event sent by the bridge.
#[derive(Debug, Clone)]
pub struct MatrixMessageContent {
    pub msgtype: String,
    pub body: String,
    /// Sanitized HTML, sent with `format: org.matrix.custom.html`.
    pub formatted_body: Option<String>,
    /// `info.mimetype` of a media message.
    pub info_mimetype: Option<String>,
    pub media: Option<MediaSource>,
    /// For `m.location`: the coordinates as `f64` bit patterns, from which
    /// the body (`Location: lat, lon`) and `geo_uri` (`geo:lat,lon`) are
    /// written; the body here is then empty.
    pub location: Option<(u64, u64)>,
}

pub struct MatrixMessageContentView {
    pub msgtype: Seq<char>,
    pub body: Seq<char>,
    pub formatted_body: Option<Seq<char>>,
    pub info_mimetype: Option<Seq<char>>,
    pub media: Option<MediaSourceView>,
    pub location: Option<(u64, u64)>,
}

impl View for MatrixMessageContent {
    type V = MatrixMessageContentView;

    open spec fn view(&self) -> MatrixMessageContentView {
        MatrixMessageContentView {
            msgtype: self.msgtype@,
            body: self.body@,
            formatted_body: match self.formatted_body {
                Some(h) => Some(h@),
                None => None,
            },
            info_mimetype: match self.info_mimetype {
                Some(m) => Some(m@),
                None => None,
            },
            media: match self.media {
                Some(m) => Some(m@),
                None => None,
            },
            location: self.location,
        }
    }
}

/// The media field of a message: the encrypted upload when there is one,
/// else the plain URL.
pub open spec fn media_source(url: Seq<char>, enc: Option<EncryptedAttachment>) -> MediaSourceView {
    match enc {
        Some(e) => MediaSourceView::File(e),
        None => MediaSourceView::Url(url),
    }
}

pub open spec fn text_content(msgtype: Seq<char>, body: Seq<char>) -> MatrixMessageContentView {
    MatrixMessageContentView {
        msgtype,
        body,
        formatted_body: None,
        info_mimetype: None,
        media: None,
        location: None,
    }
}

pub open spec fn media_content(
    msgtype: Seq<char>,
    body: Seq<char>,
    mimetype: Seq<char>,
    url: Seq<char>,
    enc: Option<EncryptedAttachment>,
) -> MatrixMessageContentView {
    MatrixMessageContentView {
        msgtype,
        body,
        formatted_body: None,
        info_mimetype: Some(mimetype),
        media: Some(media_source(url, enc)),
        location: None,
    }
}

/// The Matrix content for a bridge message content. HTML is sanitized;
/// media without a caption are described by their kind; an edit is sent
/// as its new content (without the outer encrypted upload).
pub open spec fn spec_matrix_content(c: MessageContent, enc: Option<EncryptedAttachment>) -> MatrixMessageContentView
    decreases c,
{
    match c {
        MessageContent::Text { body, formatted_body } => MatrixMessageContentView {
            msgtype: "m.text"@,
            body: body@,
            formatted_body: match formatted_body {
                Some(h) => Some(html_clean_view(h@)),
                None => None,
            },
            info_mimetype: None,
            media: None,
            location: None,
        },
        MessageContent::Notice { body } => text_content("m.notice"@, body@),
        MessageContent::Emote { body } => text_content("m.emote"@, body@),
        MessageContent::Image { url, caption, mimetype, .. } => media_content(
            "m.image"@,
            match caption {
                Some(c) => c@,
                None => "image"@,
            },
            mimetype@,
            url@,
            enc,
        ),
        MessageContent::File { url, filename, mimetype, .. } => media_content(
            "m.file"@,
            filename@,
            mimetype@,
            url@,
            enc,
        ),
        MessageContent::Video { url, caption, mimetype, .. } => media_content(
            "m.video"@,
            match caption {
                Some(c) => c@,
                None => "video"@,
            },
            mimetype@,
            url@,
            enc,
        ),
        MessageContent::Audio { url, mimetype, .. } => media_content(
            "m.audio"@,
            "audio"@,
            mimetype@,
            url@,
            enc,
        ),
        MessageContent::Location { latitude, longitude } => MatrixMessageContentView {
            msgtype: "m.location"@,
            body: Seq::empty(),
            formatted_body: None,
            info_mimetype: None,
            media: None,
            location: Some((latitude, longitude)),
        },
        MessageContent::Reaction { emoji, .. } => text_content("m.text"@, emoji@),
        MessageContent::Redaction { .. } => text_content("m.notice"@, "[message deleted]"@),
        MessageContent::Edit { new_content, .. } => spec_matrix_content(*new_content, None),
    }
}

/// A copy of an encrypted upload's description.
pub fn copy_attachment(a: &EncryptedAttachment) -> (r: EncryptedAttachment)
    ensures
        r == *a,
{
    EncryptedAttachment {
        mxc_uri: a.mxc_uri.clone(),
        key_b64url: a.key_b64url.clone(),
        iv_b64: a.iv_b64.clone(),
        sha256_b64: a.sha256_b64.clone(),
    }
}

fn media_field(url: &String, enc: Option<&EncryptedAttachment>) -> (r: MediaSource)
    ensures
        r@ == media_source(
            url@,
            match enc {
                Some(e) => Some(*e),
                None => None,
            },
        ),
{
    match enc {
        Some(e) => MediaSource::File(copy_attachment(e)),
        None => MediaSource::Url(url.clone()),
    }
}

fn text_message(msgtype: &str, body: String) -> (r: MatrixMessageContent)
    ensures
        r@ == text_content(msgtype@, body@),
{
    MatrixMessageContent {
        msgtype: msgtype.to_string(),
        body,
        formatted_body: None,
        info_mimetype: None,
        media: None,
        location: None,
    }
}

fn media_message(
    msgtype: &str,
    body: String,
    mimetype: &String,
    url: &String,
    enc: Option<&EncryptedAttachment>,
) -> (r: MatrixMessageContent)
    ensures
        r@ == media_content(
            msgtype@,
            body@,
            mimetype@,
            url@,
            match enc {
                Some(e) => Some(*e),
                None => None,
            },
        ),
{
    MatrixMessageContent {
        msgtype: msgtype.to_string(),
        body,
        formatted_body: None,
        info_mimetype: Some(mimetype.clone()),
        media: Some(media_field(url, enc)),
        location: None,
    }
}

fn caption_or(caption: &Option<String>, kind: &str) -> (r: String)
    ensures
        r@ == (match caption {
            Some(c) => c@,
            None => kind@,
        }),
{
    match caption {
        Some(c) => c.clone(),
        None => kind.to_string(),
    }
}

/// The Matrix content for a message content; `encrypted_file` describes
/// the encrypted upload of its media, if any.
pub fn matrix_content(content: &MessageContent, encrypted_file: Option<&EncryptedAttachment>) -> (r: MatrixMessageContent)
    ensures
        r@ == spec_matrix_content(
            *content,
            match encrypted_file {
                Some(e) => Some(*e),
                None => None,
            },
        ),
    decreases content,
{
    match content {
        MessageContent::Text { body, formatted_body } => {
            let formatted = match formatted_body {
                Some(html) => Some(sanitize_html(html.as_str())),
                None => None,
            };
            MatrixMessageContent {
                msgtype: String::from_str("m.text"),
                body: body.clone(),
                formatted_body: formatted,
                info_mimetype: None,
                media: None,
                location: None,
            }
        },
        MessageContent::Notice { body } => text_message("m.notice", body.clone()),
        MessageContent::Emote { body } => text_message("m.emote", body.clone()),
        MessageContent::Image { url, caption, mimetype, .. } => media_message(
            "m.image",
            caption_or(caption, "image"),
            mimetype,
            url,
            encrypted_file,
        ),
        MessageContent::File { url, filename, mimetype, .. } => media_message(
            "m.file",
            filename.clone(),
            mimetype,
            url,
            encrypted_file,
        ),
        MessageContent::Video { url, caption, mimetype, .. } => media_message(
            "m.video",
            caption_or(caption, "video"),
            mimetype,
            url,
            encrypted_file,
        ),
        MessageContent::Audio { url, mimetype, .. } => media_message(
            "m.audio",
            String::from_str("audio"),
            mimetype,
            url,
            encrypted_file,
        ),
        MessageContent::Location { latitude, longitude } => MatrixMessageContent {
            msgtype: String::from_str("m.location"),
            body: String::new(),
            formatted_body: None,
            info_mimetype: None,
            media: None,
            location: Some((*latitude, *longitude)),
        },
        MessageContent::Reaction { emoji, .. } => text_message("m.text", emoji.clone()),
        MessageContent::Redaction { .. } => text_message(
            "m.notice",
            String::from_str("[message deleted]"),
        ),
        MessageContent::Edit { new_content, .. } => {
            let inner: &MessageContent = new_content;
            matrix_content(inner, None)
        },
    }
}

/// Converts a bridge message to Matrix message content, with a fresh
/// transaction ID for sending it.
pub fn to_matrix_content(message: &BridgeMessage, encrypted_file: Option<&EncryptedAttachment>) -> (r: (MatrixMessageContent, String))
    ensures
        r.0@ == spec_matrix_content(
            message.content,
            match encrypted_file {
                Some(e) => Some(*e),
                None => None,
            },
        ),
        r.1@.len() == 26,
{
    let txn_id = new_txn_id();
    (matrix_content(&message.content, encrypted_file), txn_id)
}

} // verus!
