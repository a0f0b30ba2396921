use matrix_bridge::matrix_content::FileEncryption;
use matrix_bridge::media_flow::{
    announced_size_allowed, chunk_allowed, outbound_media_plan, reupload_request,
    upload_content_type, upload_target, OutboundMediaPlan,
};
use matrix_bridge::message::MessageContent;

fn image(url: &str, filename: Option<&str>) -> MessageContent {
    MessageContent::Image {
        url: url.to_string(),
        caption: None,
        mimetype: "image/png".to_string(),
        filename: filename.map(|s| s.to_string()),
        width: None,
        height: None,
        size: None,
    }
}

fn key() -> Option<FileEncryption> {
    Some(FileEncryption {
        key_b64url: "k".to_string(),
        iv_b64: "i".to_string(),
        sha256_b64: "h".to_string(),
    })
}

#[test]
fn outbound_media_plans() {
    assert!(matches!(outbound_media_plan(&image("mxc://hs/a", None), false, &None), OutboundMediaPlan::ConvertUrl));
    assert!(matches!(outbound_media_plan(&image("mxc://hs/a", None), true, &None), OutboundMediaPlan::ConvertUrl));
    assert!(matches!(outbound_media_plan(&image("https://x/a", None), true, &key()), OutboundMediaPlan::ConvertUrl));
    match outbound_media_plan(&image("mxc://hs/a", None), true, &key()) {
        OutboundMediaPlan::DecryptAndReupload { mxc_uri, content_type, upload_name } => {
            assert_eq!(mxc_uri, "mxc://hs/a");
            assert_eq!(content_type, "image/png");
            assert_eq!(upload_name, "image");
        }
        other => panic!("unexpected {other:?}"),
    }
    let text = MessageContent::Text { body: "x".to_string(), formatted_body: None };
    assert!(matches!(outbound_media_plan(&text, true, &key()), OutboundMediaPlan::Keep));
    assert!(upload_target(&text).is_none());
}

#[test]
fn external_media_is_reuploaded() {
    let r = reupload_request(&image("https://cdn.example/pics/cat.png?x=1", Some("fallback.png"))).unwrap();
    assert_eq!(r.url, "https://cdn.example/pics/cat.png?x=1");
    assert_eq!(r.filename, "cat.png");
    let r2 = reupload_request(&image("https://cdn.example/", Some("fallback.png"))).unwrap();
    assert_eq!(r2.filename, "fallback.png");
    let r3 = reupload_request(&image("https://cdn.example/", None)).unwrap();
    assert_eq!(r3.filename, "image");
    assert!(reupload_request(&image("mxc://hs/a", None)).is_none());
    let file = MessageContent::File {
        url: "https://cdn.example/x/y.bin".to_string(),
        filename: "report.pdf".to_string(),
        mimetype: "application/pdf".to_string(),
        size: None,
    };
    assert_eq!(reupload_request(&file).unwrap().filename, "report.pdf");
}

#[test]
fn download_limits() {
    assert!(announced_size_allowed(None));
    assert!(announced_size_allowed(Some(209715200)));
    assert!(!announced_size_allowed(Some(209715201)));
    assert!(chunk_allowed(0, 209715200));
    assert!(!chunk_allowed(209715200, 1));
    assert!(!chunk_allowed(usize::MAX, usize::MAX));
    assert_eq!(upload_content_type(true, Some("image/png"), "image/jpeg"), "application/octet-stream");
    assert_eq!(upload_content_type(false, Some("image/png"), "image/jpeg"), "image/png");
    assert_eq!(upload_content_type(false, None, "image/jpeg"), "image/jpeg");
}
