use matrix_bridge::api::{
    contains_string, existing_mapping_action, incoming_message, incoming_message_id,
    matrix_room_source, upload_content_type, upload_filename, upload_size_allowed,
    validate_room_mapping_request, validate_send_message, ExistingMappingAction,
    MatrixRoomSource, PaginationParams, RoomMappingError, SendMessageError, MAX_UPLOAD_SIZE,
};
use matrix_bridge::message::{
    ContentPayload, CreateRoomMappingRequest, MessageContent, SendMessageRequest, SenderInfo,
};

fn send(content: ContentPayload) -> SendMessageRequest {
    SendMessageRequest {
        platform: "telegram".to_string(),
        room_id: "chat_12345".to_string(),
        sender: SenderInfo {
            id: "user_789".to_string(),
            display_name: Some("Alice".to_string()),
            avatar_url: None,
        },
        content,
        external_message_id: None,
        reply_to: None,
    }
}

fn text(body: &str) -> ContentPayload {
    ContentPayload::Text { body: body.to_string(), html: None }
}

#[test]
fn send_message_limits() {
    assert_eq!(validate_send_message(&send(text("hi"))), Ok(()));
    let mut r = send(text("hi"));
    r.platform = "p".repeat(65);
    assert_eq!(validate_send_message(&r), Err(SendMessageError::PlatformTooLong));
    let mut r = send(text("hi"));
    r.room_id = "r".repeat(256);
    assert_eq!(validate_send_message(&r), Err(SendMessageError::RoomIdTooLong));
    let mut r = send(text("hi"));
    r.sender.id = "u".repeat(256);
    assert_eq!(validate_send_message(&r), Err(SendMessageError::SenderIdTooLong));
    let mut r = send(text("hi"));
    r.sender.display_name = Some("é".repeat(128));
    assert_eq!(validate_send_message(&r), Err(SendMessageError::DisplayNameTooLong));
    let mut r = send(text("hi"));
    r.external_message_id = Some("m".repeat(256));
    assert_eq!(validate_send_message(&r), Err(SendMessageError::ExternalMessageIdTooLong));
    let mut r = send(text("hi"));
    r.reply_to = Some("m".repeat(256));
    assert_eq!(validate_send_message(&r), Err(SendMessageError::ReplyToTooLong));
    assert_eq!(validate_send_message(&send(text(&"b".repeat(65537)))), Err(SendMessageError::BodyTooLong));
    assert_eq!(validate_send_message(&send(text(&"b".repeat(65536)))), Ok(()));
    assert_eq!(
        validate_send_message(&send(ContentPayload::Notice { body: "n".repeat(65537) })),
        Err(SendMessageError::BodyTooLong)
    );
    assert_eq!(
        validate_send_message(&send(ContentPayload::Reaction {
            target_id: "t".to_string(),
            emoji: "😀".repeat(65),
        })),
        Err(SendMessageError::EmojiTooLong)
    );
    assert_eq!(
        validate_send_message(&send(ContentPayload::Reaction {
            target_id: "t".to_string(),
            emoji: "😀".repeat(64),
        })),
        Ok(())
    );
    assert_eq!(SendMessageError::BodyTooLong.message(), "body exceeds 64KB");
}

#[test]
fn incoming_messages_are_built() {
    let mut req = send(text("Hello from Telegram!"));
    req.reply_to = Some("orig".to_string());
    let msg = incoming_message(req, "mid".to_string(), 1234);
    assert_eq!(msg.id, "mid");
    assert_eq!(msg.sender.platform, "telegram");
    assert_eq!(msg.sender.external_id, "user_789");
    assert_eq!(msg.sender.display_name.as_deref(), Some("Alice"));
    assert_eq!(msg.room.external_id, "chat_12345");
    assert_eq!(msg.timestamp, 1234);
    assert_eq!(msg.reply_to.as_deref(), Some("orig"));
    assert!(matches!(msg.content, MessageContent::Text { ref body, .. } if body == "Hello from Telegram!"));
    assert_eq!(incoming_message_id(Some("ext".to_string())), "ext");
    assert_eq!(incoming_message_id(None).len(), 26);
}

fn mapping_request(invite: &[&str]) -> CreateRoomMappingRequest {
    CreateRoomMappingRequest {
        platform: "telegram".to_string(),
        external_room_id: "chat_1".to_string(),
        matrix_room_id: None,
        room_name: None,
        invite: invite.iter().map(|s| s.to_string()).collect(),
    }
}

#[test]
fn handler_room_name_too_long() {
    let mut req = mapping_request(&[]);
    req.room_name = Some("x".repeat(256));
    let err = validate_room_mapping_request(&req, false).unwrap_err();
    assert!(matches!(err, RoomMappingError::RoomNameTooLong));
    assert!(err.message().contains("room_name"));
}

#[test]
fn invite_lists_are_checked_when_allowed() {
    let ok = mapping_request(&["@a:x.org", "@b:y.org"]);
    assert!(validate_room_mapping_request(&ok, true).is_ok());
    let bad = mapping_request(&["@a:x.org", "nope", "also bad"]);
    assert!(validate_room_mapping_request(&bad, false).is_ok());
    match validate_room_mapping_request(&bad, true) {
        Err(RoomMappingError::InvalidInvite(u)) => assert_eq!(u, "nope"),
        other => panic!("unexpected {other:?}"),
    }
    let long = format!("@{}:x.org", "a".repeat(260));
    match validate_room_mapping_request(&mapping_request(&[&long]), true) {
        Err(RoomMappingError::InviteTooLong(u)) => assert_eq!(u, long),
        other => panic!("unexpected {other:?}"),
    }
    let many: Vec<String> = (0..51).map(|i| format!("@u{i}:x.org")).collect();
    let refs: Vec<&str> = many.iter().map(|s| s.as_str()).collect();
    assert!(matches!(
        validate_room_mapping_request(&mapping_request(&refs), true),
        Err(RoomMappingError::TooManyInvites)
    ));
}

#[test]
fn existing_mappings_and_room_sources() {
    assert!(matches!(existing_mapping_action(&None, "!a:x"), ExistingMappingAction::UseExisting));
    assert!(matches!(existing_mapping_action(&Some("!a:x".to_string()), "!a:x"), ExistingMappingAction::UseExisting));
    assert!(matches!(existing_mapping_action(&Some(String::new()), "!a:x"), ExistingMappingAction::UseExisting));
    assert!(matches!(existing_mapping_action(&Some("!b:x".to_string()), "!a:x"),
        ExistingMappingAction::Remap { ref matrix_room_id } if matrix_room_id == "!b:x"));

    let mut provided = mapping_request(&[]);
    provided.matrix_room_id = Some("!given:x".to_string());
    assert!(matches!(matrix_room_source(&provided, &vec![], true),
        MatrixRoomSource::Provided(ref id) if id == "!given:x"));

    let auto = vec!["@ops:x.org".to_string()];
    let req = mapping_request(&["@a:x.org", "@ops:x.org", "@a:x.org", "@b:x.org"]);
    match matrix_room_source(&req, &auto, true) {
        MatrixRoomSource::AutoCreate { name, invite } => {
            assert_eq!(name, "chat_1");
            assert_eq!(invite, vec!["@ops:x.org", "@a:x.org", "@b:x.org"]);
        }
        other => panic!("unexpected {other:?}"),
    }
    let mut named = mapping_request(&["@a:x.org"]);
    named.room_name = Some("Lobby".to_string());
    match matrix_room_source(&named, &auto, false) {
        MatrixRoomSource::AutoCreate { name, invite } => {
            assert_eq!(name, "Lobby");
            assert_eq!(invite, vec!["@ops:x.org"]);
        }
        other => panic!("unexpected {other:?}"),
    }
    assert!(contains_string(&auto, "@ops:x.org"));
    assert!(!contains_string(&auto, "@ops:x.or"));
}

#[test]
fn upload_rules() {
    assert_eq!(upload_filename(None), "upload");
    assert_eq!(upload_filename(Some("photo.jpg")), "photo.jpg");
    assert_eq!(upload_filename(Some("../../etc/passwd")), "passwd");
    assert_eq!(upload_filename(Some("C:\\Users\\me\\doc.txt")), "doc.txt");
    assert_eq!(upload_filename(Some(&"a".repeat(300))), "a".repeat(255));
    let mixed = format!("{}é", "a".repeat(253));
    assert_eq!(upload_filename(Some(&mixed)), mixed);
    assert_eq!(upload_content_type(None), "application/octet-stream");
    assert_eq!(upload_content_type(Some("image/png")), "image/png");
    assert!(upload_size_allowed(MAX_UPLOAD_SIZE));
    assert!(!upload_size_allowed(MAX_UPLOAD_SIZE + 1));
}

#[test]
fn pagination_parameters() {
    let p = PaginationParams::from_query(Some("telegram"), Some("42"), Some("5000"));
    assert_eq!(p.platform.as_deref(), Some("telegram"));
    assert_eq!(p.after, 42);
    assert_eq!(p.limit, 1000);
    let d = PaginationParams::from_query(None, None, None);
    assert_eq!((d.after, d.limit), (0, 100));
    let bad = PaginationParams::from_query(None, Some("abc"), Some("-3"));
    assert_eq!((bad.after, bad.limit), (0, 1));
    let signed = PaginationParams::from_query(None, Some("+7"), Some("0"));
    assert_eq!((signed.after, signed.limit), (7, 1));
    let big = PaginationParams::from_query(None, Some("9223372036854775808"), Some("-9223372036854775808"));
    assert_eq!((big.after, big.limit), (0, 1));
    let max = PaginationParams::from_query(None, Some("9223372036854775807"), Some(" 5"));
    assert_eq!((max.after, max.limit), (i64::MAX, 100));
}
