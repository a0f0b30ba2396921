//! Decisions around media that crosses the bridge: which encrypted Matrix
//! attachments are decrypted and uploaded again before they are forwarded,
//! which external media is downloaded into the Matrix media repository,
//! and the size limit of a download.
use vstd::prelude::*;
use vstd::string::*;

use crate::config::MAX_MEDIA_SIZE;
use crate::matrix_content::FileEncryption;
use crate::media::{filename_from_url, is_external_url, spec_filename_from_url, spec_is_external_url};
use crate::message::MessageContent;
use crate::text::{seq_starts_with, starts_with};

verus! {

/// What to do with the media of a Matrix message before it is forwarded.
#[derive(Debug)]
pub enum OutboundMediaPlan {
    /// Forward the content as it is.
    Keep,
    /// Turn its `mxc://` URL into an HTTP download URL.
    ConvertUrl,
    /// Download the ciphertext at `mxc_uri`, decrypt it, upload the
    /// plaintext as `upload_name` with type `content_type`, point the
    /// content at the new URI and turn that into an HTTP URL.
    DecryptAndReupload { mxc_uri: String, content_type: String, upload_name: String },
}

pub enum OutboundMediaPlanView {
    Keep,
    ConvertUrl,
    DecryptAndReupload { mxc_uri: Seq<char>, content_type: Seq<char>, upload_name: Seq<char> },
}

impl View for OutboundMediaPlan {
    type V = OutboundMediaPlanView;

    open spec fn view(&self) -> OutboundMediaPlanView {
        match self {
            OutboundMediaPlan::Keep => OutboundMediaPlanView::Keep,
            OutboundMediaPlan::ConvertUrl => OutboundMediaPlanView::ConvertUrl,
            OutboundMediaPlan::DecryptAndReupload { mxc_uri, content_type, upload_name } =>
                OutboundMediaPlanView::DecryptAndReupload {
                mxc_uri: mxc_uri@,
                content_type: content_type@,
                upload_name: upload_name@,
            },
        }
    }
}

/// The URL, content type and upload name of a media content (the file
/// name, else the kind of media); `None` for other contents.
pub open spec fn spec_upload_target(c: MessageContent) -> Option<(Seq<char>, Seq<char>, Seq<char>)> {
    match c {
        MessageContent::Image { url, mimetype, filename, .. } => Some(
            (url@, mimetype@, match filename { Some(f) => f@, None => "image"@ }),
        ),
        MessageContent::File { url, mimetype, filename, .. } => Some((url@, mimetype@, filename@)),
        MessageContent::Video { url, mimetype, filename, .. } => Some(
            (url@, mimetype@, match filename { Some(f) => f@, None => "video"@ }),
        ),
        MessageContent::Audio { url, mimetype, filename, .. } => Some(
            (url@, mimetype@, match filename { Some(f) => f@, None => "audio"@ }),
        ),
        _ => None,
    }
}

/// The plan for the media of an outbound message: unencrypted media and
/// encrypted media without key material only get their URL converted; an
/// encrypted attachment at a valid `mxc://` URI is decrypted and uploaded
/// again; encrypted non-media content is kept.
pub open spec fn spec_outbound_media_plan(
    content: MessageContent,
    encrypted_media: bool,
    has_key_material: bool,
) -> OutboundMediaPlanView {
    if !encrypted_media || !has_key_material {
        OutboundMediaPlanView::ConvertUrl
    } else {
        match spec_upload_target(content) {
            None => OutboundMediaPlanView::Keep,
            Some((url, content_type, name)) => if url.len() == 0 || !seq_starts_with(url, "mxc://"@) {
                OutboundMediaPlanView::ConvertUrl
            } else {
                OutboundMediaPlanView::DecryptAndReupload {
                    mxc_uri: url,
                    content_type,
                    upload_name: name,
                }
            },
        }
    }
}

fn name_or(filename: &Option<String>, fallback: &str) -> (r: String)
    ensures
        r@ == (match filename {
            Some(f) => f@,
            None => fallback@,
        }),
{
    match filename {
        Some(f) => f.clone(),
        None => fallback.to_string(),
    }
}

/// The URL, content type and upload name of a media content.
pub fn upload_target(c: &MessageContent) -> (r: Option<(String, String, String)>)
    ensures
        match r {
            Some(t) => spec_upload_target(*c) == Some((t.0@, t.1@, t.2@)),
            None => spec_upload_target(*c) is None,
        },
{
    match c {
        MessageContent::Image { url, mimetype, filename, .. } => Some(
            (url.clone(), mimetype.clone(), name_or(filename, "image")),
        ),
        MessageContent::File { url, mimetype, filename, .. } => Some(
            (url.clone(), mimetype.clone(), filename.clone()),
        ),
        MessageContent::Video { url, mimetype, filename, .. } => Some(
            (url.clone(), mimetype.clone(), name_or(filename, "video")),
        ),
        MessageContent::Audio { url, mimetype, filename, .. } => Some(
            (url.clone(), mimetype.clone(), name_or(filename, "audio")),
        ),
        _ => None,
    }
}

/// Decides how the media of an outbound message is resolved.
pub fn outbound_media_plan(
    content: &MessageContent,
    encrypted_media: bool,
    file_encryption: &Option<FileEncryption>,
) -> (r: OutboundMediaPlan)
    ensures
        r@ == spec_outbound_media_plan(*content, encrypted_media, file_encryption is Some),
{
    if !encrypted_media || file_encryption.is_none() {
        return OutboundMediaPlan::ConvertUrl;
    }
    match upload_target(content) {
        None => OutboundMediaPlan::Keep,
        Some((url, content_type, upload_name)) => {
            if url.unicode_len() == 0 || !starts_with(url.as_str(), "mxc://") {
                OutboundMediaPlan::ConvertUrl
            } else {
                OutboundMediaPlan::DecryptAndReupload { mxc_uri: url, content_type, upload_name }
            }
        },
    }
}

/// External media to download and upload to the Matrix media repository.
#[derive(Debug)]
pub struct ReuploadRequest {
    pub url: String,
    pub mimetype: String,
    pub filename: String,
}

/// The download for a message content from a platform: media whose URL is
/// an `http(s)` URL is downloaded; a file keeps its own name, other media
/// take the name in the URL, else their file name, else their kind.
pub open spec fn spec_reupload_request(c: MessageContent) -> Option<(Seq<char>, Seq<char>, Seq<char>)> {
    match spec_upload_target(c) {
        None => None,
        Some((url, mimetype, name)) => if !spec_is_external_url(url) {
            None
        } else if c is File {
            Some((url, mimetype, name))
        } else {
            match spec_filename_from_url(url) {
                Some(n) => Some((url, mimetype, n)),
                None => Some((url, mimetype, name)),
            }
        },
    }
}

/// Decides whether the media of a message from a platform is downloaded
/// and uploaded again, and under which name.
pub fn reupload_request(c: &MessageContent) -> (r: Option<ReuploadRequest>)
    ensures
        match r {
            Some(q) => spec_reupload_request(*c) == Some((q.url@, q.mimetype@, q.filename@)),
            None => spec_reupload_request(*c) is None,
        },
{
    let (url, mimetype, name) = match upload_target(c) {
        None => return None,
        Some(t) => t,
    };
    if !is_external_url(url.as_str()) {
        return None;
    }
    let is_file = match c {
        MessageContent::File { .. } => true,
        _ => false,
    };
    if is_file {
        return Some(ReuploadRequest { url, mimetype, filename: name });
    }
    let filename = match filename_from_url(url.as_str()) {
        Some(n) => n,
        None => name,
    };
    Some(ReuploadRequest { url, mimetype, filename })
}

/// Whether a download announced with this `Content-Length` may be read.
pub fn announced_size_allowed(content_length: Option<u64>) -> (r: bool)
    ensures
        r == (match content_length {
            Some(n) => n <= MAX_MEDIA_SIZE,
            None => true,
        }),
{
    match content_length {
        Some(n) => n <= MAX_MEDIA_SIZE as u64,
        None => true,
    }
}

/// Whether a chunk of `chunk_len` bytes may be added to the `received`
/// bytes of a download without passing the size limit.
pub fn chunk_allowed(received: usize, chunk_len: usize) -> (r: bool)
    ensures
        r == (received + chunk_len <= MAX_MEDIA_SIZE),
{
    received <= MAX_MEDIA_SIZE && chunk_len <= MAX_MEDIA_SIZE - received
}

/// The content type to upload downloaded media with: the type the server
/// sent, else the one in the message; encrypted uploads are always
/// `application/octet-stream`.
pub fn upload_content_type(encrypt: bool, server_type: Option<&str>, message_type: &str) -> (r: String)
    ensures
        r@ == (if encrypt {
            "application/octet-stream"@
        } else {
            match server_type {
                Some(t) => t@,
                None => message_type@,
            }
        }),
{
    if encrypt {
        String::from_str("application/octet-stream")
    } else {
        match server_type {
            Some(t) => t.to_string(),
            None => message_type.to_string(),
        }
    }
}

} // verus!
