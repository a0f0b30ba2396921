//! Messages that flow between Matrix and external platforms, and the
//! Bridge API request and response bodies.
//!
//! Coordinates of a location are carried as the IEEE-754 bit patterns of
//! their `f64` values.
use vstd::prelude::*;
use vstd::string::*;

use crate::text::{split_char, trim, trim_seq, views, split_seq};

verus! {

/// Platform-agnostic message content that can flow in either direction.
#[derive(Debug)]
pub enum MessageContent {
    Text { body: String, formatted_body: Option<String> },
    Image {
        url: String,
        caption: Option<String>,
        mimetype: String,
        filename: Option<String>,
        width: Option<u32>,
        height: Option<u32>,
        size: Option<u64>,
    },
    File { url: String, filename: String, mimetype: String, size: Option<u64> },
    Video {
        url: String,
        caption: Option<String>,
        mimetype: String,
        filename: Option<String>,
        width: Option<u32>,
        height: Option<u32>,
        size: Option<u64>,
        duration: Option<u64>,
    },
    Audio {
        url: String,
        mimetype: String,
        filename: Option<String>,
        size: Option<u64>,
        duration: Option<u64>,
    },
    /// Bit patterns of the `f64` latitude and longitude.
    Location { latitude: u64, longitude: u64 },
    Notice { body: String },
    Emote { body: String },
    Reaction { target_id: String, emoji: String },
    Redaction { target_id: String },
    Edit { target_id: String, new_content: Box<MessageContent> },
}

/// A user on an external platform.
#[derive(Debug, Clone)]
pub struct ExternalUser {
    pub platform: String,
    pub external_id: String,
    pub display_name: Option<String>,
    pub avatar_url: Option<String>,
}

/// A channel/chat/room on an external platform.
#[derive(Debug, Clone)]
pub struct ExternalRoom {
    pub platform: String,
    pub external_id: String,
    pub name: Option<String>,
}

/// A normalized bridge message.
#[derive(Debug)]
pub struct BridgeMessage {
    pub id: String,
    pub sender: ExternalUser,
    pub room: ExternalRoom,
    pub content: MessageContent,
    pub timestamp: u64,
    pub reply_to: Option<String>,
}

/// The mathematical value of a `MessageContent`: the same variants with
/// every string taken by its characters.
pub enum MessageContentView {
    Text { body: Seq<char>, formatted_body: Option<Seq<char>> },
    Image {
        url: Seq<char>,
        caption: Option<Seq<char>>,
        mimetype: Seq<char>,
        filename: Option<Seq<char>>,
        width: Option<u32>,
        height: Option<u32>,
        size: Option<u64>,
    },
    File { url: Seq<char>, filename: Seq<char>, mimetype: Seq<char>, size: Option<u64> },
    Video {
        url: Seq<char>,
        caption: Option<Seq<char>>,
        mimetype: Seq<char>,
        filename: Option<Seq<char>>,
        width: Option<u32>,
        height: Option<u32>,
        size: Option<u64>,
        duration: Option<u64>,
    },
    Audio {
        url: Seq<char>,
        mimetype: Seq<char>,
        filename: Option<Seq<char>>,
        size: Option<u64>,
        duration: Option<u64>,
    },
    Location { latitude: u64, longitude: u64 },
    Notice { body: Seq<char> },
    Emote { body: Seq<char> },
    Reaction { target_id: Seq<char>, emoji: Seq<char> },
    Redaction { target_id: Seq<char> },
    Edit { target_id: Seq<char>, new_content: Box<MessageContentView> },
}

/// The characters of an optional string.
pub open spec fn opt_view(o: Option<String>) -> Option<Seq<char>> {
    match o {
        Some(s) => Some(s@),
        None => None,
    }
}

/// The mathematical value of a message content.
pub open spec fn content_view(c: MessageContent) -> MessageContentView
    decreases c,
{
    match c {
        MessageContent::Text { body, formatted_body } => MessageContentView::Text {
            body: body@,
            formatted_body: opt_view(formatted_body),
        },
        MessageContent::Image { url, caption, mimetype, filename, width, height, size } =>
            MessageContentView::Image {
            url: url@,
            caption: opt_view(caption),
            mimetype: mimetype@,
            filename: opt_view(filename),
            width,
            height,
            size,
        },
        MessageContent::File { url, filename, mimetype, size } => MessageContentView::File {
            url: url@,
            filename: filename@,
            mimetype: mimetype@,
            size,
        },
        MessageContent::Video { url, caption, mimetype, filename, width, height, size, duration } =>
            MessageContentView::Video {
            url: url@,
            caption: opt_view(caption),
            mimetype: mimetype@,
            filename: opt_view(filename),
            width,
            height,
            size,
            duration,
        },
        MessageContent::Audio { url, mimetype, filename, size, duration } =>
            MessageContentView::Audio {
            url: url@,
            mimetype: mimetype@,
            filename: opt_view(filename),
            size,
            duration,
        },
        MessageContent::Location { latitude, longitude } => MessageContentView::Location {
            latitude,
            longitude,
        },
        MessageContent::Notice { body } => MessageContentView::Notice { body: body@ },
        MessageContent::Emote { body } => MessageContentView::Emote { body: body@ },
        MessageContent::Reaction { target_id, emoji } => MessageContentView::Reaction {
            target_id: target_id@,
            emoji: emoji@,
        },
        MessageContent::Redaction { target_id } => MessageContentView::Redaction {
            target_id: target_id@,
        },
        MessageContent::Edit { target_id, new_content } => MessageContentView::Edit {
            target_id: target_id@,
            new_content: Box::new(content_view(*new_content)),
        },
    }
}

/// The mathematical value of an external user.
pub struct ExternalUserView {
    pub platform: Seq<char>,
    pub external_id: Seq<char>,
    pub display_name: Option<Seq<char>>,
    pub avatar_url: Option<Seq<char>>,
}

/// The mathematical value of an external room.
pub struct ExternalRoomView {
    pub platform: Seq<char>,
    pub external_id: Seq<char>,
    pub name: Option<Seq<char>>,
}

/// The mathematical value of a bridge message.
pub struct BridgeMessageView {
    pub id: Seq<char>,
    pub sender: ExternalUserView,
    pub room: ExternalRoomView,
    pub content: MessageContentView,
    pub timestamp: u64,
    pub reply_to: Option<Seq<char>>,
}

impl View for ExternalUser {
    type V = ExternalUserView;

    open spec fn view(&self) -> ExternalUserView {
        ExternalUserView {
            platform: self.platform@,
            external_id: self.external_id@,
            display_name: opt_view(self.display_name),
            avatar_url: opt_view(self.avatar_url),
        }
    }
}

impl View for ExternalRoom {
    type V = ExternalRoomView;

    open spec fn view(&self) -> ExternalRoomView {
        ExternalRoomView {
            platform: self.platform@,
            external_id: self.external_id@,
            name: opt_view(self.name),
        }
    }
}

impl View for BridgeMessage {
    type V = BridgeMessageView;

    open spec fn view(&self) -> BridgeMessageView {
        BridgeMessageView {
            id: self.id@,
            sender: self.sender@,
            room: self.room@,
            content: content_view(self.content),
            timestamp: self.timestamp,
            reply_to: opt_view(self.reply_to),
        }
    }
}

/// Sender of a message posted to the Bridge API.
#[derive(Debug)]
pub struct SenderInfo {
    pub id: String,
    pub display_name: Option<String>,
    pub avatar_url: Option<String>,
}

/// Message content as posted to the Bridge API.
#[derive(Debug)]
pub enum ContentPayload {
    Text { body: String, html: Option<String> },
    Image {
        url: String,
        caption: Option<String>,
        mimetype: String,
        filename: Option<String>,
        width: Option<u32>,
        height: Option<u32>,
        size: Option<u64>,
    },
    File { url: String, filename: String, mimetype: String, size: Option<u64> },
    Video {
        url: String,
        caption: Option<String>,
        mimetype: String,
        filename: Option<String>,
        width: Option<u32>,
        height: Option<u32>,
        size: Option<u64>,
        duration: Option<u64>,
    },
    Audio {
        url: String,
        mimetype: String,
        filename: Option<String>,
        size: Option<u64>,
        duration: Option<u64>,
    },
    /// Bit patterns of the `f64` latitude and longitude.
    Location { latitude: u64, longitude: u64 },
    Notice { body: String },
    Emote { body: String },
    Reaction { target_id: String, emoji: String },
    Redaction { target_id: String },
    Edit { target_id: String, new_content: Box<ContentPayload> },
}

/// Request body for sending a message from an external platform to Matrix.
#[derive(Debug)]
pub struct SendMessageRequest {
    pub platform: String,
    pub room_id: String,
    pub sender: SenderInfo,
    pub content: ContentPayload,
    pub external_message_id: Option<String>,
    pub reply_to: Option<String>,
}

#[derive(Debug)]
pub struct SendMessageResponse {
    pub event_id: String,
    pub message_id: String,
}

/// Request body for creating a room mapping.
#[derive(Debug)]
pub struct CreateRoomMappingRequest {
    pub platform: String,
    pub external_room_id: String,
    /// If `None`, the bridge auto-creates a Matrix room.
    pub matrix_room_id: Option<String>,
    /// Room name used when auto-creating.
    pub room_name: Option<String>,
    /// Extra Matrix user IDs to invite when auto-creating a room.
    pub invite: Vec<String>,
}

/// Request body for registering a webhook.
#[derive(Debug)]
pub struct CreateWebhookRequest {
    pub platform: String,
    pub url: String,
    pub events: String,
    pub forward_sources: Vec<String>,
    pub capabilities: Vec<String>,
    pub owner: String,
}

pub fn default_image_mime() -> (r: String)
    ensures
        r@ == "image/png"@,
{
    String::from_str("image/png")
}

pub fn default_file_mime() -> (r: String)
    ensures
        r@ == "application/octet-stream"@,
{
    String::from_str("application/octet-stream")
}

pub fn default_video_mime() -> (r: String)
    ensures
        r@ == "video/mp4"@,
{
    String::from_str("video/mp4")
}

pub fn default_audio_mime() -> (r: String)
    ensures
        r@ == "audio/ogg"@,
{
    String::from_str("audio/ogg")
}

pub fn default_events() -> (r: String)
    ensures
        r@ == "message"@,
{
    String::from_str("message")
}

/// A list given as one comma-separated string: empty means no entries,
/// otherwise the comma-separated pieces, each trimmed.
pub open spec fn spec_string_list(s: Seq<char>) -> Seq<Seq<char>> {
    if s.len() == 0 {
        Seq::empty()
    } else {
        split_seq(s, ',').map_values(|p: Seq<char>| trim_seq(p))
    }
}

/// Read a list given as one comma-separated string (as the Bridge API
/// accepts for `forward_sources` and `capabilities`).
pub fn string_list(s: &str) -> (r: Vec<String>)
    ensures
        views(r@) == spec_string_list(s@),
{
    if s.unicode_len() == 0 {
        let r: Vec<String> = Vec::new();
        assert(views(r@) =~= spec_string_list(s@));
        return r;
    }
    let pieces = split_char(s, ',');
    let mut r: Vec<String> = Vec::new();
    let mut i: usize = 0;
    while i < pieces.len()
        invariant
            i <= pieces@.len(),
            views(pieces@) == split_seq(s@, ','),
            views(r@) =~= split_seq(s@, ',').subrange(0, i as int).map_values(
                |p: Seq<char>| trim_seq(p),
            ),
        decreases pieces@.len() - i,
    {
        let t = trim(pieces[i].as_str());
        let ghost before = views(r@);
        r.push(t);
        assert(views(pieces@)[i as int] == pieces@[i as int]@);
        assert(views(r@) =~= before.push(t@));
        assert(split_seq(s@, ',').subrange(0, i + 1).map_values(|p: Seq<char>| trim_seq(p))
            =~= split_seq(s@, ',').subrange(0, i as int).map_values(|p: Seq<char>| trim_seq(p)).push(
            trim_seq(split_seq(s@, ',')[i as int]),
        ));
        i = i + 1;
    }
    assert(split_seq(s@, ',').subrange(0, i as int) =~= split_seq(s@, ','));
    r
}

/// The internal content for a Bridge API content payload: the same
/// variant with the same fields (`html` becomes `formatted_body`).
pub open spec fn spec_convert_content(p: ContentPayload) -> MessageContent
    decreases p,
{
    match p {
        ContentPayload::Text { body, html } => MessageContent::Text { body, formatted_body: html },
        ContentPayload::Image { url, caption, mimetype, filename, width, height, size } =>
            MessageContent::Image { url, caption, mimetype, filename, width, height, size },
        ContentPayload::File { url, filename, mimetype, size } => MessageContent::File {
            url,
            filename,
            mimetype,
            size,
        },
        ContentPayload::Video { url, caption, mimetype, filename, width, height, size, duration } =>
            MessageContent::Video {
            url,
            caption,
            mimetype,
            filename,
            width,
            height,
            size,
            duration,
        },
        ContentPayload::Audio { url, mimetype, filename, size, duration } => MessageContent::Audio {
            url,
            mimetype,
            filename,
            size,
            duration,
        },
        ContentPayload::Location { latitude, longitude } => MessageContent::Location {
            latitude,
            longitude,
        },
        ContentPayload::Notice { body } => MessageContent::Notice { body },
        ContentPayload::Emote { body } => MessageContent::Emote { body },
        ContentPayload::Reaction { target_id, emoji } => MessageContent::Reaction {
            target_id,
            emoji,
        },
        ContentPayload::Redaction { target_id } => MessageContent::Redaction { target_id },
        ContentPayload::Edit { target_id, new_content } => MessageContent::Edit {
            target_id,
            new_content: Box::new(spec_convert_content(*new_content)),
        },
    }
}

/// Convert a ContentPayload (API input) to MessageContent (internal).
pub fn convert_content(payload: ContentPayload) -> (r: MessageContent)
    ensures
        r == spec_convert_content(payload),
    decreases payload,
{
    match payload {
        ContentPayload::Text { body, html } => MessageContent::Text { body, formatted_body: html },
        ContentPayload::Image { url, caption, mimetype, filename, width, height, size } =>
            MessageContent::Image { url, caption, mimetype, filename, width, height, size },
        ContentPayload::File { url, filename, mimetype, size } => MessageContent::File {
            url,
            filename,
            mimetype,
            size,
        },
        ContentPayload::Video { url, caption, mimetype, filename, width, height, size, duration } =>
            MessageContent::Video {
            url,
            caption,
            mimetype,
            filename,
            width,
            height,
            size,
            duration,
        },
        ContentPayload::Audio { url, mimetype, filename, size, duration } => MessageContent::Audio {
            url,
            mimetype,
            filename,
            size,
            duration,
        },
        ContentPayload::Location { latitude, longitude } => MessageContent::Location {
            latitude,
            longitude,
        },
        ContentPayload::Notice { body } => MessageContent::Notice { body },
        ContentPayload::Emote { body } => MessageContent::Emote { body },
        ContentPayload::Reaction { target_id, emoji } => MessageContent::Reaction {
            target_id,
            emoji,
        },
        ContentPayload::Redaction { target_id } => MessageContent::Redaction { target_id },
        ContentPayload::Edit { target_id, new_content } => MessageContent::Edit {
            target_id,
            new_content: Box::new(convert_content(*new_content)),
        },
    }
}

/// A copy of an optional string.
pub fn clone_opt(s: &Option<String>) -> (r: Option<String>)
    ensures
        r == *s,
{
    match s {
        Some(x) => Some(x.clone()),
        None => None,
    }
}

/// A copy of a message content.
pub fn clone_content(c: &MessageContent) -> (r: MessageContent)
    ensures
        r == *c,
    decreases c,
{
    match c {
        MessageContent::Text { body, formatted_body } => MessageContent::Text {
            body: body.clone(),
            formatted_body: clone_opt(formatted_body),
        },
        MessageContent::Image { url, caption, mimetype, filename, width, height, size } =>
            MessageContent::Image {
            url: url.clone(),
            caption: clone_opt(caption),
            mimetype: mimetype.clone(),
            filename: clone_opt(filename),
            width: *width,
            height: *height,
            size: *size,
        },
        MessageContent::File { url, filename, mimetype, size } => MessageContent::File {
            url: url.clone(),
            filename: filename.clone(),
            mimetype: mimetype.clone(),
            size: *size,
        },
        MessageContent::Video { url, caption, mimetype, filename, width, height, size, duration } =>
            MessageContent::Video {
            url: url.clone(),
            caption: clone_opt(caption),
            mimetype: mimetype.clone(),
            filename: clone_opt(filename),
            width: *width,
            height: *height,
            size: *size,
            duration: *duration,
        },
        MessageContent::Audio { url, mimetype, filename, size, duration } => MessageContent::Audio {
            url: url.clone(),
            mimetype: mimetype.clone(),
            filename: clone_opt(filename),
            size: *size,
            duration: *duration,
        },
        MessageContent::Location { latitude, longitude } => MessageContent::Location {
            latitude: *latitude,
            longitude: *longitude,
        },
        MessageContent::Notice { body } => MessageContent::Notice { body: body.clone() },
        MessageContent::Emote { body } => MessageContent::Emote { body: body.clone() },
        MessageContent::Reaction { target_id, emoji } => MessageContent::Reaction {
            target_id: target_id.clone(),
            emoji: emoji.clone(),
        },
        MessageContent::Redaction { target_id } => MessageContent::Redaction {
            target_id: target_id.clone(),
        },
        MessageContent::Edit { target_id, new_content } => {
            let inner: &MessageContent = new_content;
            MessageContent::Edit {
                target_id: target_id.clone(),
                new_content: Box::new(clone_content(inner)),
            }
        },
    }
}

} // verus!
