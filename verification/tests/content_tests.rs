use matrix_bridge::attachment::EncryptedAttachment;
use matrix_bridge::matrix_content::{
    extract_file_encryption, extract_media_url, extract_mimetype, parse_media_content,
    parse_message_content, FileFields, MatrixContentFields,
};
use matrix_bridge::message::{BridgeMessage, ExternalRoom, ExternalUser, MessageContent};
use matrix_bridge::platform_events::{matrix_content, to_matrix_content, MediaSource};

fn fields() -> MatrixContentFields {
    MatrixContentFields {
        formatted_body: None,
        url: None,
        file: None,
        mimetype: None,
        width: None,
        height: None,
        size: None,
        duration: None,
        filename: None,
    }
}

fn encrypted_file() -> FileFields {
    FileFields {
        url: Some("mxc://hs/enc".to_string()),
        key_k: Some("KEY".to_string()),
        iv: Some("IV".to_string()),
        sha256: Some("HASH".to_string()),
    }
}

#[test]
fn text_message_is_read() {
    let mut c = fields();
    c.formatted_body = Some("<b>hi</b>".to_string());
    let p = parse_message_content("m.text", "hi", &c).unwrap();
    assert!(!p.encrypted_media);
    assert!(matches!(p.content, MessageContent::Text { ref body, ref formatted_body }
        if body == "hi" && formatted_body.as_deref() == Some("<b>hi</b>")));
}

#[test]
fn unknown_type_is_skipped() {
    assert!(parse_message_content("m.sticker", "x", &fields()).is_none());
    assert!(parse_message_content("", "x", &fields()).is_none());
}

#[test]
fn image_defaults() {
    let mut c = fields();
    c.url = Some("mxc://hs/img".to_string());
    c.width = Some(640);
    c.height = Some((1u64 << 32) + 5);
    let p = parse_message_content("m.image", "", &c).unwrap();
    match p.content {
        MessageContent::Image { url, caption, mimetype, width, height, .. } => {
            assert_eq!(url, "mxc://hs/img");
            assert_eq!(caption, None);
            assert_eq!(mimetype, "image/png");
            assert_eq!(width, Some(640));
            assert_eq!(height, Some(5));
        }
        other => panic!("unexpected {other:?}"),
    }
}

#[test]
fn encrypted_video_keeps_key_material() {
    let mut c = fields();
    c.file = Some(encrypted_file());
    c.mimetype = Some("video/webm".to_string());
    let p = parse_message_content("m.video", "clip", &c).unwrap();
    assert!(p.encrypted_media);
    let enc = p.file_encryption.unwrap();
    assert_eq!(enc.key_b64url, "KEY");
    assert_eq!(enc.iv_b64, "IV");
    assert_eq!(enc.sha256_b64, "HASH");
    assert!(matches!(p.content, MessageContent::Video { ref url, ref caption, ref mimetype, .. }
        if url == "mxc://hs/enc" && caption.as_deref() == Some("clip") && mimetype == "video/webm"));
}

#[test]
fn plain_url_wins_over_file() {
    let mut c = fields();
    c.url = Some("mxc://hs/plain".to_string());
    c.file = Some(encrypted_file());
    let (url, encrypted, enc) = extract_media_url(&c);
    assert_eq!(url, "mxc://hs/plain");
    assert!(!encrypted);
    assert!(enc.is_none());
    let mut c2 = fields();
    c2.url = Some(String::new());
    let (url2, encrypted2, _) = extract_media_url(&c2);
    assert_eq!(url2, "");
    assert!(!encrypted2);
}

#[test]
fn incomplete_key_material_is_dropped() {
    let mut f = encrypted_file();
    f.iv = None;
    assert!(extract_file_encryption(&f).is_none());
    assert_eq!(extract_mimetype(&fields(), "audio/ogg"), "audio/ogg");
}

#[test]
fn file_and_audio_messages() {
    let mut c = fields();
    c.url = Some("mxc://hs/f".to_string());
    c.size = Some(12);
    let p = parse_message_content("m.file", "report.pdf", &c).unwrap();
    assert!(matches!(p.content, MessageContent::File { ref filename, ref mimetype, size, .. }
        if filename == "report.pdf" && mimetype == "application/octet-stream" && size == Some(12)));
    c.duration = Some(3000);
    c.filename = Some("voice.ogg".to_string());
    let a = parse_message_content("m.audio", "voice", &c).unwrap();
    assert!(matches!(a.content, MessageContent::Audio { ref mimetype, ref filename, duration, .. }
        if mimetype == "audio/ogg" && filename.as_deref() == Some("voice.ogg") && duration == Some(3000)));
    let v = parse_media_content(&c, "x", "video/mp4", false);
    assert!(matches!(v.content, MessageContent::Image { .. }));
}

fn message(content: MessageContent) -> BridgeMessage {
    BridgeMessage {
        id: "m1".to_string(),
        sender: ExternalUser {
            platform: "telegram".to_string(),
            external_id: "u1".to_string(),
            display_name: None,
            avatar_url: None,
        },
        room: ExternalRoom { platform: "telegram".to_string(), external_id: "r1".to_string(), name: None },
        content,
        timestamp: 0,
        reply_to: None,
    }
}

#[test]
fn matrix_content_for_text_sanitizes_html() {
    let (c, txn) = to_matrix_content(
        &message(MessageContent::Text {
            body: "hi".to_string(),
            formatted_body: Some("<b>hi</b><script>alert(1)</script>".to_string()),
        }),
        None,
    );
    assert_eq!(c.msgtype, "m.text");
    assert_eq!(c.body, "hi");
    assert_eq!(c.formatted_body.as_deref(), Some("<b>hi</b>"));
    assert_eq!(txn.len(), 26);
}

#[test]
fn matrix_content_for_media() {
    let img = MessageContent::Image {
        url: "mxc://hs/i".to_string(),
        caption: None,
        mimetype: "image/jpeg".to_string(),
        filename: None,
        width: None,
        height: None,
        size: None,
    };
    let c = matrix_content(&img, None);
    assert_eq!(c.msgtype, "m.image");
    assert_eq!(c.body, "image");
    assert_eq!(c.info_mimetype.as_deref(), Some("image/jpeg"));
    assert!(matches!(c.media, Some(MediaSource::Url(ref u)) if u == "mxc://hs/i"));
    let att = EncryptedAttachment {
        mxc_uri: "mxc://hs/enc".to_string(),
        key_b64url: "k".to_string(),
        iv_b64: "iv".to_string(),
        sha256_b64: "h".to_string(),
    };
    let e = matrix_content(&img, Some(&att));
    assert!(matches!(e.media, Some(MediaSource::File(ref f)) if f.mxc_uri == "mxc://hs/enc"));
}

#[test]
fn matrix_content_for_other_kinds() {
    let r = matrix_content(&MessageContent::Redaction { target_id: "x".to_string() }, None);
    assert_eq!((r.msgtype.as_str(), r.body.as_str()), ("m.notice", "[message deleted]"));
    let re = matrix_content(
        &MessageContent::Reaction { target_id: "x".to_string(), emoji: "👍".to_string() },
        None,
    );
    assert_eq!((re.msgtype.as_str(), re.body.as_str()), ("m.text", "👍"));
    let loc = matrix_content(
        &MessageContent::Location { latitude: 1.5f64.to_bits(), longitude: 2.5f64.to_bits() },
        None,
    );
    assert_eq!(loc.msgtype, "m.location");
    assert_eq!(loc.location, Some((1.5f64.to_bits(), 2.5f64.to_bits())));
    let edit = matrix_content(
        &MessageContent::Edit {
            target_id: "t".to_string(),
            new_content: Box::new(MessageContent::Notice { body: "fixed".to_string() }),
        },
        None,
    );
    assert_eq!((edit.msgtype.as_str(), edit.body.as_str()), ("m.notice", "fixed"));
    let audio = matrix_content(
        &MessageContent::Audio {
            url: "mxc://hs/a".to_string(),
            mimetype: "audio/ogg".to_string(),
            filename: Some("v.ogg".to_string()),
            size: None,
            duration: None,
        },
        None,
    );
    assert_eq!(audio.body, "audio");
}
