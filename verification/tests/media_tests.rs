use matrix_bridge::media::{
    convert_mxc_urls, filename_from_url, is_external_url, is_safe_mxc_component,
    mxc_to_download_url, mxc_to_http, parse_mxc, replace_media_url, MxcError,
};
use matrix_bridge::message::{convert_content, ContentPayload, MessageContent};

#[test]
fn parse_mxc_valid() {
    let (server, media) = parse_mxc("mxc://example.com/abc123").unwrap();
    assert_eq!(server, "example.com");
    assert_eq!(media, "abc123");
}

#[test]
fn parse_mxc_invalid_scheme() {
    assert!(parse_mxc("https://example.com/abc").is_err());
}

#[test]
fn parse_mxc_missing_media_id() {
    assert!(parse_mxc("mxc://example.com").is_err());
}

#[test]
fn parse_mxc_empty_components() {
    assert!(parse_mxc("mxc:///abc").is_err());
    assert!(parse_mxc("mxc://example.com/").is_err());
}

#[test]
fn parse_mxc_error_kinds() {
    assert_eq!(parse_mxc("https://x/y"), Err(MxcError::NotMxc));
    assert_eq!(parse_mxc("mxc://example.com"), Err(MxcError::MissingMediaId));
    assert_eq!(parse_mxc("mxc:///abc"), Err(MxcError::EmptyComponent));
    assert_eq!(parse_mxc("mxc://ex ample.com/abc"), Err(MxcError::UnsafeCharacters));
    assert!(is_safe_mxc_component("abc-DEF_1.2"));
    assert!(!is_safe_mxc_component("../etc"));
}

#[test]
fn external_url_detection() {
    assert!(is_external_url("https://example.com/file.jpg"));
    assert!(is_external_url("http://example.com/file.jpg"));
    assert!(!is_external_url("mxc://example.com/abc"));
    assert!(!is_external_url("ftp://example.com/file"));
    assert!(!is_external_url(""));
}

#[test]
fn filename_from_simple_url() {
    assert_eq!(
        filename_from_url("https://example.com/photos/cat.jpg"),
        Some("cat.jpg".to_string())
    );
}

#[test]
fn filename_from_url_with_query() {
    assert_eq!(
        filename_from_url("https://cdn.example.com/file/doc.pdf?token=abc123"),
        Some("doc.pdf".to_string())
    );
}

#[test]
fn filename_from_url_with_fragment() {
    assert_eq!(
        filename_from_url("https://example.com/image.png#section"),
        Some("image.png".to_string())
    );
}

#[test]
fn filename_from_url_encoded() {
    assert_eq!(
        filename_from_url("https://example.com/my%20photo.jpg"),
        Some("my photo.jpg".to_string())
    );
}

#[test]
fn filename_from_url_no_name() {
    assert_eq!(filename_from_url("https://example.com/"), None);
}

#[test]
fn filename_from_url_empty_path() {
    assert_eq!(filename_from_url("https://example.com"), None);
}

#[test]
fn filename_from_url_sanitizes() {
    assert_eq!(
        filename_from_url("https://example.com/..%2F..%2Fetc%2Fpasswd"),
        Some("_.._etc_passwd".to_string())
    );
    let long = "a".repeat(300);
    let name = filename_from_url(&format!("https://example.com/{long}")).unwrap();
    assert_eq!(name.chars().count(), 255);
}

#[test]
fn mxc_download_urls() {
    assert_eq!(
        mxc_to_download_url("https://matrix.example.com", "mxc://example.com/abc"),
        Some("https://matrix.example.com/_matrix/media/v3/download/example.com/abc".to_string())
    );
    assert_eq!(mxc_to_download_url("https://hs", "https://x/y"), None);
    assert_eq!(mxc_to_http("https://hs", "https://x/y"), "https://x/y");
}

#[test]
fn media_url_replacement() {
    let c = MessageContent::File {
        url: "mxc://e/f".to_string(),
        filename: "a.txt".to_string(),
        mimetype: "text/plain".to_string(),
        size: Some(3),
    };
    match replace_media_url(c, "mxc://e/g") {
        MessageContent::File { url, filename, .. } => {
            assert_eq!(url, "mxc://e/g");
            assert_eq!(filename, "a.txt");
        }
        other => panic!("unexpected {other:?}"),
    }
    let text = MessageContent::Text { body: "hi".to_string(), formatted_body: None };
    match convert_mxc_urls("https://hs", text) {
        MessageContent::Text { body, .. } => assert_eq!(body, "hi"),
        other => panic!("unexpected {other:?}"),
    }
}

#[test]
fn convert_content_text() {
    let result = convert_content(ContentPayload::Text {
        body: "hello".into(),
        html: Some("<b>hello</b>".into()),
    });
    assert!(
        matches!(result, MessageContent::Text { body, formatted_body } if body == "hello" && formatted_body.as_deref() == Some("<b>hello</b>"))
    );
}

#[test]
fn convert_content_image() {
    let result = convert_content(ContentPayload::Image {
        url: "mxc://e/i".into(),
        caption: Some("photo".into()),
        mimetype: "image/jpeg".into(),
        filename: None,
        width: None,
        height: None,
        size: None,
    });
    assert!(
        matches!(result, MessageContent::Image { url, caption, mimetype, .. } if url == "mxc://e/i" && caption.as_deref() == Some("photo") && mimetype == "image/jpeg")
    );
}

#[test]
fn convert_content_notice() {
    let result = convert_content(ContentPayload::Notice { body: "sys".into() });
    assert!(matches!(result, MessageContent::Notice { body } if body == "sys"));
}

#[test]
fn convert_content_emote() {
    let result = convert_content(ContentPayload::Emote { body: "dances".into() });
    assert!(matches!(result, MessageContent::Emote { body } if body == "dances"));
}

#[test]
fn convert_content_reaction() {
    let result = convert_content(ContentPayload::Reaction {
        target_id: "m1".into(),
        emoji: "heart".into(),
    });
    assert!(
        matches!(result, MessageContent::Reaction { target_id, emoji } if target_id == "m1" && emoji == "heart")
    );
}

#[test]
fn convert_content_redaction() {
    let result = convert_content(ContentPayload::Redaction { target_id: "m2".into() });
    assert!(matches!(result, MessageContent::Redaction { target_id } if target_id == "m2"));
}

#[test]
fn convert_content_edit_recursive() {
    let result = convert_content(ContentPayload::Edit {
        target_id: "m3".into(),
        new_content: Box::new(ContentPayload::Text { body: "fixed".into(), html: None }),
    });
    assert!(matches!(result, MessageContent::Edit { target_id, .. } if target_id == "m3"));
}

#[test]
fn convert_content_location() {
    let result = convert_content(ContentPayload::Location {
        latitude: 40.7f64.to_bits(),
        longitude: (-74.0f64).to_bits(),
    });
    assert!(
        matches!(result, MessageContent::Location { latitude, longitude } if (f64::from_bits(latitude) - 40.7).abs() < 0.01 && (f64::from_bits(longitude) - (-74.0)).abs() < 0.01)
    );
}

#[test]
fn convert_content_video() {
    let result = convert_content(ContentPayload::Video {
        url: "mxc://e/v".into(),
        caption: None,
        mimetype: "video/mp4".into(),
        filename: None,
        width: None,
        height: None,
        size: None,
        duration: None,
    });
    assert!(
        matches!(result, MessageContent::Video { url, mimetype, .. } if url == "mxc://e/v" && mimetype == "video/mp4")
    );
}

#[test]
fn convert_content_audio() {
    let result = convert_content(ContentPayload::Audio {
        url: "mxc://e/a".into(),
        mimetype: "audio/ogg".into(),
        filename: None,
        size: None,
        duration: None,
    });
    assert!(
        matches!(result, MessageContent::Audio { url, mimetype, .. } if url == "mxc://e/a" && mimetype == "audio/ogg")
    );
}

#[test]
fn convert_content_file() {
    let result = convert_content(ContentPayload::File {
        url: "mxc://e/f".into(),
        filename: "data.csv".into(),
        mimetype: "text/csv".into(),
        size: None,
    });
    assert!(
        matches!(result, MessageContent::File { url, filename, mimetype, .. } if url == "mxc://e/f" && filename == "data.csv" && mimetype == "text/csv")
    );
}
