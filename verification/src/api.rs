//! Rules of the Bridge API: request validation, the bridge message built
//! from a send request, room mapping creation, uploads and pagination.
use vstd::prelude::*;
use vstd::string::*;

use crate::message::{
    BridgeMessage, BridgeMessageView, ContentPayload, CreateRoomMappingRequest, ExternalRoom,
    ExternalRoomView, ExternalUser, ExternalUserView, SendMessageRequest, content_view,
    convert_content, opt_view, spec_convert_content,
};
use crate::platform::{is_valid_matrix_user_id, spec_is_valid_matrix_user_id};
use crate::platform_events::new_txn_id;
use crate::text::{
    char_utf8_width, char_width, lemma_utf8_len_push, parse_i64, spec_parse_i64, str_eq,
    string_of, to_chars, utf8_len,
};

verus! {

/// Why a send request is refused.
#[derive(Debug, Clone, Copy, PartialEq, Eq, Structural)]
pub enum SendMessageError {
    PlatformTooLong,
    RoomIdTooLong,
    SenderIdTooLong,
    DisplayNameTooLong,
    ExternalMessageIdTooLong,
    ReplyToTooLong,
    BodyTooLong,
    EmojiTooLong,
}

impl SendMessageError {
    /// The text the client is shown.
    pub fn message(&self) -> (r: &'static str)
        ensures
            r@ == (match self {
                SendMessageError::PlatformTooLong => "platform exceeds 64 characters"@,
                SendMessageError::RoomIdTooLong => "room_id exceeds 255 characters"@,
                SendMessageError::SenderIdTooLong => "sender.id exceeds 255 characters"@,
                SendMessageError::DisplayNameTooLong => "display_name exceeds 255 characters"@,
                SendMessageError::ExternalMessageIdTooLong => "external_message_id exceeds 255 characters"@,
                SendMessageError::ReplyToTooLong => "reply_to exceeds 255 characters"@,
                SendMessageError::BodyTooLong => "body exceeds 64KB"@,
                SendMessageError::EmojiTooLong => "emoji exceeds 64 characters"@,
            }),
    {
        match self {
            SendMessageError::PlatformTooLong => "platform exceeds 64 characters",
            SendMessageError::RoomIdTooLong => "room_id exceeds 255 characters",
            SendMessageError::SenderIdTooLong => "sender.id exceeds 255 characters",
            SendMessageError::DisplayNameTooLong => "display_name exceeds 255 characters",
            SendMessageError::ExternalMessageIdTooLong => "external_message_id exceeds 255 characters",
            SendMessageError::ReplyToTooLong => "reply_to exceeds 255 characters",
            SendMessageError::BodyTooLong => "body exceeds 64KB",
            SendMessageError::EmojiTooLong => "emoji exceeds 64 characters",
        }
    }
}

/// An optional string longer than `max` bytes.
pub open spec fn opt_longer(o: Option<String>, max: nat) -> bool {
    o is Some && utf8_len(o->0@) > max
}

/// The first limit a send request breaks, checked in this order: platform
/// (64 bytes), room, sender, display name, external message ID and reply
/// target (255 bytes each), the body of text, notice and emote content
/// (65536 bytes), the emoji of a reaction (64 characters).
pub open spec fn spec_validate_send_message(req: SendMessageRequest) -> Result<(), SendMessageError> {
    if utf8_len(req.platform@) > 64 {
        Err(SendMessageError::PlatformTooLong)
    } else if utf8_len(req.room_id@) > 255 {
        Err(SendMessageError::RoomIdTooLong)
    } else if utf8_len(req.sender.id@) > 255 {
        Err(SendMessageError::SenderIdTooLong)
    } else if opt_longer(req.sender.display_name, 255) {
        Err(SendMessageError::DisplayNameTooLong)
    } else if opt_longer(req.external_message_id, 255) {
        Err(SendMessageError::ExternalMessageIdTooLong)
    } else if opt_longer(req.reply_to, 255) {
        Err(SendMessageError::ReplyToTooLong)
    } else {
        match req.content {
            ContentPayload::Text { body, .. } => if utf8_len(body@) > 65536 {
                Err(SendMessageError::BodyTooLong)
            } else {
                Ok(())
            },
            ContentPayload::Notice { body } => if utf8_len(body@) > 65536 {
                Err(SendMessageError::BodyTooLong)
            } else {
                Ok(())
            },
            ContentPayload::Emote { body } => if utf8_len(body@) > 65536 {
                Err(SendMessageError::BodyTooLong)
            } else {
                Ok(())
            },
            ContentPayload::Reaction { emoji, .. } => if emoji@.len() > 64 {
                Err(SendMessageError::EmojiTooLong)
            } else {
                Ok(())
            },
            _ => Ok(()),
        }
    }
}

fn byte_len_over(s: &String, max: usize) -> (r: bool)
    ensures
        r == (utf8_len(s@) > max),
{
    s.as_str().as_bytes().len() > max
}

fn opt_byte_len_over(o: &Option<String>, max: usize) -> (r: bool)
    ensures
        r == opt_longer(*o, max as nat),
{
    match o {
        Some(s) => byte_len_over(s, max),
        None => false,
    }
}

/// Checks the length limits of a send request.
pub fn validate_send_message(req: &SendMessageRequest) -> (r: Result<(), SendMessageError>)
    ensures
        r == spec_validate_send_message(*req),
{
    if byte_len_over(&req.platform, 64) {
        return Err(SendMessageError::PlatformTooLong);
    }
    if byte_len_over(&req.room_id, 255) {
        return Err(SendMessageError::RoomIdTooLong);
    }
    if byte_len_over(&req.sender.id, 255) {
        return Err(SendMessageError::SenderIdTooLong);
    }
    if opt_byte_len_over(&req.sender.display_name, 255) {
        return Err(SendMessageError::DisplayNameTooLong);
    }
    if opt_byte_len_over(&req.external_message_id, 255) {
        return Err(SendMessageError::ExternalMessageIdTooLong);
    }
    if opt_byte_len_over(&req.reply_to, 255) {
        return Err(SendMessageError::ReplyToTooLong);
    }
    match &req.content {
        ContentPayload::Text { body, .. } | ContentPayload::Notice { body } | ContentPayload::Emote {
            body,
        } => {
            if byte_len_over(body, 65536) {
                return Err(SendMessageError::BodyTooLong);
            }
        },
        ContentPayload::Reaction { emoji, .. } => {
            if emoji.unicode_len() > 64 {
                return Err(SendMessageError::EmojiTooLong);
            }
        },
        _ => {},
    }
    Ok(())
}

/// The ID of a message from a platform: the one it was sent with, else a
/// fresh ULID.
pub fn incoming_message_id(external_message_id: Option<String>) -> (r: String)
    ensures
        match external_message_id {
            Some(id) => r == id,
            None => r@.len() == 26,
        },
{
    match external_message_id {
        Some(id) => id,
        None => new_txn_id(),
    }
}

/// The bridge message for a send request: sender and room on the request's
/// platform, the content converted, and the given ID and time.
pub open spec fn spec_incoming_message(req: SendMessageRequest, id: Seq<char>, timestamp: u64) -> BridgeMessageView {
    BridgeMessageView {
        id,
        sender: ExternalUserView {
            platform: req.platform@,
            external_id: req.sender.id@,
            display_name: opt_view(req.sender.display_name),
            avatar_url: opt_view(req.sender.avatar_url),
        },
        room: ExternalRoomView { platform: req.platform@, external_id: req.room_id@, name: None },
        content: content_view(spec_convert_content(req.content)),
        timestamp,
        reply_to: opt_view(req.reply_to),
    }
}

/// Builds the bridge message for a send request, with message ID `id` and
/// time `timestamp` (milliseconds since the Unix epoch).
pub fn incoming_message(req: SendMessageRequest, id: String, timestamp: u64) -> (r: BridgeMessage)
    ensures
        r@ == spec_incoming_message(req, id@, timestamp),
{
    let SendMessageRequest { platform, room_id, sender, content, external_message_id: _, reply_to } =
        req;
    BridgeMessage {
        id,
        sender: ExternalUser {
            platform: platform.clone(),
            external_id: sender.id,
            display_name: sender.display_name,
            avatar_url: sender.avatar_url,
        },
        room: ExternalRoom { platform, external_id: room_id, name: None },
        content: convert_content(content),
        timestamp,
        reply_to,
    }
}


/// Most Matrix user IDs a room mapping request may invite.
pub const MAX_INVITE_LIST_SIZE: usize = 50;
/// Longest Matrix user ID accepted in an invite list, in bytes.
pub const MAX_USER_ID_LEN: usize = 255;
/// Longest room name accepted, in bytes.
pub const MAX_ROOM_NAME_LEN: usize = 255;

/// Why a room mapping request is refused.
#[derive(Debug)]
pub enum RoomMappingError {
    RoomNameTooLong,
    TooManyInvites,
    /// The first invitee whose ID is longer than 255 bytes.
    InviteTooLong(String),
    /// The first invitee whose ID is not `@localpart:domain`.
    InvalidInvite(String),
}

impl RoomMappingError {
    /// The text the client is shown.
    pub fn message(&self) -> (r: String)
        ensures
            r@ == (match self {
                RoomMappingError::RoomNameTooLong => "room_name exceeds 255 characters"@,
                RoomMappingError::TooManyInvites => "invite list exceeds maximum of 50 entries"@,
                RoomMappingError::InviteTooLong(u) => "invite user ID too long: "@ + u@,
                RoomMappingError::InvalidInvite(u) => "invalid Matrix user ID: "@ + u@,
            }),
    {
        match self {
            RoomMappingError::RoomNameTooLong => String::from_str("room_name exceeds 255 characters"),
            RoomMappingError::TooManyInvites => String::from_str(
                "invite list exceeds maximum of 50 entries",
            ),
            RoomMappingError::InviteTooLong(u) => {
                let mut s = String::from_str("invite user ID too long: ");
                s.append(u.as_str());
                s
            },
            RoomMappingError::InvalidInvite(u) => {
                let mut s = String::from_str("invalid Matrix user ID: ");
                s.append(u.as_str());
                s
            },
        }
    }
}

/// An invitee the request may not name: too long, or not a user ID.
pub open spec fn bad_invite(u: Seq<char>) -> bool {
    utf8_len(u) > MAX_USER_ID_LEN || !spec_is_valid_matrix_user_id(u)
}

/// `i` is the first bad invitee of the list.
pub open spec fn is_first_bad_invite(invites: Seq<String>, i: int) -> bool {
    0 <= i < invites.len() && bad_invite(invites[i]@) && forall|j: int|
        0 <= j < i ==> !bad_invite(#[trigger] invites[j]@)
}

/// Checks a room mapping request: the room name is at most 255 bytes and,
/// when per-request invites are allowed, the invite list has at most 50
/// entries, each a user ID of at most 255 bytes; the first invitee that
/// breaks a rule is named.
pub fn validate_room_mapping_request(req: &CreateRoomMappingRequest, allow_api_invite: bool) -> (r: Result<(), RoomMappingError>)
    ensures
        match r {
            Ok(()) => {
                &&& !opt_longer(req.room_name, MAX_ROOM_NAME_LEN as nat)
                &&& allow_api_invite ==> req.invite@.len() <= MAX_INVITE_LIST_SIZE && forall|i: int|
                    0 <= i < req.invite@.len() ==> !bad_invite(#[trigger] req.invite@[i]@)
            },
            Err(RoomMappingError::RoomNameTooLong) => opt_longer(req.room_name, MAX_ROOM_NAME_LEN as nat),
            Err(RoomMappingError::TooManyInvites) => {
                &&& !opt_longer(req.room_name, MAX_ROOM_NAME_LEN as nat)
                &&& allow_api_invite
                &&& req.invite@.len() > MAX_INVITE_LIST_SIZE
            },
            Err(RoomMappingError::InviteTooLong(u)) => {
                &&& !opt_longer(req.room_name, MAX_ROOM_NAME_LEN as nat)
                &&& allow_api_invite
                &&& req.invite@.len() <= MAX_INVITE_LIST_SIZE
                &&& exists|i: int|
                    is_first_bad_invite(req.invite@, i) && utf8_len(req.invite@[i]@) > MAX_USER_ID_LEN
                        && u@ == req.invite@[i]@
            },
            Err(RoomMappingError::InvalidInvite(u)) => {
                &&& !opt_longer(req.room_name, MAX_ROOM_NAME_LEN as nat)
                &&& allow_api_invite
                &&& req.invite@.len() <= MAX_INVITE_LIST_SIZE
                &&& exists|i: int|
                    is_first_bad_invite(req.invite@, i) && utf8_len(req.invite@[i]@) <= MAX_USER_ID_LEN
                        && u@ == req.invite@[i]@
            },
        },
{
    if opt_byte_len_over(&req.room_name, MAX_ROOM_NAME_LEN) {
        return Err(RoomMappingError::RoomNameTooLong);
    }
    if allow_api_invite {
        if req.invite.len() > MAX_INVITE_LIST_SIZE {
            return Err(RoomMappingError::TooManyInvites);
        }
        let mut i: usize = 0;
        while i < req.invite.len()
            invariant
                i <= req.invite@.len(),
                forall|j: int| 0 <= j < i ==> !bad_invite(#[trigger] req.invite@[j]@),
                !opt_longer(req.room_name, MAX_ROOM_NAME_LEN as nat),
                allow_api_invite,
                req.invite@.len() <= MAX_INVITE_LIST_SIZE,
            decreases req.invite@.len() - i,
        {
            let u = &req.invite[i];
            if byte_len_over(u, MAX_USER_ID_LEN) {
                assert(is_first_bad_invite(req.invite@, i as int));
                return Err(RoomMappingError::InviteTooLong(u.clone()));
            }
            if !is_valid_matrix_user_id(u.as_str()) {
                assert(is_first_bad_invite(req.invite@, i as int));
                return Err(RoomMappingError::InvalidInvite(u.clone()));
            }
            i = i + 1;
        }
    }
    Ok(())
}

/// What to do when a mapping for the external room already exists.
#[derive(Debug)]
pub enum ExistingMappingAction {
    /// Return the existing mapping.
    UseExisting,
    /// Map the external room to the Matrix room the caller asked for.
    Remap { matrix_room_id: String },
}

/// Decides between keeping an existing mapping and moving it to the Matrix
/// room the request names (when it names a different, non-empty one).
pub fn existing_mapping_action(wanted: &Option<String>, existing_matrix_room_id: &str) -> (r: ExistingMappingAction)
    ensures
        match r {
            ExistingMappingAction::Remap { matrix_room_id } => {
                &&& wanted is Some
                &&& matrix_room_id == wanted->0
                &&& wanted->0@.len() > 0
                &&& wanted->0@ != existing_matrix_room_id@
            },
            ExistingMappingAction::UseExisting => !(wanted is Some && wanted->0@.len() > 0
                && wanted->0@ != existing_matrix_room_id@),
        },
{
    match wanted {
        Some(w) => {
            if w.unicode_len() > 0 && !str_eq(w.as_str(), existing_matrix_room_id) {
                ExistingMappingAction::Remap { matrix_room_id: w.clone() }
            } else {
                ExistingMappingAction::UseExisting
            }
        },
        None => ExistingMappingAction::UseExisting,
    }
}

/// `base` followed by the entries of `extra` that are not in it yet, each
/// once, in order.
pub open spec fn merge_invites(base: Seq<Seq<char>>, extra: Seq<Seq<char>>) -> Seq<Seq<char>>
    decreases extra.len(),
{
    if extra.len() == 0 {
        base
    } else {
        let m = merge_invites(base, extra.drop_last());
        if m.contains(extra.last()) {
            m
        } else {
            m.push(extra.last())
        }
    }
}

/// Where the Matrix room of a new mapping comes from.
#[derive(Debug)]
pub enum MatrixRoomSource {
    /// The room the request names.
    Provided(String),
    /// A new room with this name and these invitees.
    AutoCreate { name: String, invite: Vec<String> },
}

/// The Matrix room of a new mapping: the one the request names, else a
/// new room named after the request (or the external room), inviting the
/// configured users and, when allowed, the request's invitees.
pub fn matrix_room_source(req: &CreateRoomMappingRequest, auto_invite: &Vec<String>, allow_api_invite: bool) -> (r: MatrixRoomSource)
    ensures
        match r {
            MatrixRoomSource::Provided(id) => req.matrix_room_id is Some && id == req.matrix_room_id->0
                && id@.len() > 0,
            MatrixRoomSource::AutoCreate { name, invite } => {
                &&& !(req.matrix_room_id is Some && req.matrix_room_id->0@.len() > 0)
                &&& name@ == (match req.room_name {
                    Some(n) => n@,
                    None => req.external_room_id@,
                })
                &&& crate::text::views(invite@) == merge_invites(
                    crate::text::views(auto_invite@),
                    if allow_api_invite {
                        crate::text::views(req.invite@)
                    } else {
                        Seq::empty()
                    },
                )
            },
        },
{
    if let Some(id) = &req.matrix_room_id {
        if id.unicode_len() > 0 {
            return MatrixRoomSource::Provided(id.clone());
        }
    }
    let name = match &req.room_name {
        Some(n) => n.clone(),
        None => req.external_room_id.clone(),
    };
    let mut invite = copy_strings(auto_invite);
    if allow_api_invite {
        let ghost base = crate::text::views(auto_invite@);
        let ghost extra = crate::text::views(req.invite@);
        let mut i: usize = 0;
        while i < req.invite.len()
            invariant
                i <= req.invite@.len(),
                extra == crate::text::views(req.invite@),
                crate::text::views(invite@) == merge_invites(base, extra.subrange(0, i as int)),
            decreases req.invite@.len() - i,
        {
            let u = &req.invite[i];
            let present = contains_string(&invite, u.as_str());
            proof {
                assert(extra.subrange(0, i + 1).drop_last() =~= extra.subrange(0, i as int));
                assert(extra.subrange(0, i + 1).last() == u@);
            }
            if !present {
                let ghost before = invite@;
                invite.push(u.clone());
                assert(crate::text::views(invite@) =~= crate::text::views(before).push(u@));
            }
            i = i + 1;
        }
        assert(extra.subrange(0, req.invite@.len() as int) =~= extra);
    } else {
        assert(merge_invites(crate::text::views(auto_invite@), Seq::empty()) == crate::text::views(
            auto_invite@,
        ));
    }
    MatrixRoomSource::AutoCreate { name, invite }
}

fn copy_strings(v: &Vec<String>) -> (r: Vec<String>)
    ensures
        crate::text::views(r@) == crate::text::views(v@),
{
    let mut out: Vec<String> = Vec::new();
    let mut i: usize = 0;
    while i < v.len()
        invariant
            i <= v@.len(),
            crate::text::views(out@) == crate::text::views(v@).subrange(0, i as int),
        decreases v@.len() - i,
    {
        let ghost before = out@;
        out.push(v[i].clone());
        assert(crate::text::views(out@) =~= crate::text::views(before).push(v@[i as int]@));
        assert(crate::text::views(v@).subrange(0, i + 1) =~= crate::text::views(v@).subrange(
            0,
            i as int,
        ).push(v@[i as int]@));
        i = i + 1;
    }
    assert(crate::text::views(v@).subrange(0, i as int) =~= crate::text::views(v@));
    out
}

/// Whether the list holds the string.
pub fn contains_string(v: &Vec<String>, s: &str) -> (r: bool)
    ensures
        r == crate::text::views(v@).contains(s@),
{
    let mut i: usize = 0;
    while i < v.len()
        invariant
            i <= v@.len(),
            forall|j: int| 0 <= j < i ==> v@[j]@ != s@,
        decreases v@.len() - i,
    {
        if str_eq(v[i].as_str(), s) {
            assert(crate::text::views(v@)[i as int] == s@);
            return true;
        }
        i = i + 1;
    }
    assert forall|j: int| 0 <= j < crate::text::views(v@).len() implies crate::text::views(v@)[j]
        != s@ by {
        assert(crate::text::views(v@)[j] == v@[j]@);
    }
    false
}

/// Every requested invitee of a new room is invited, the configured ones
/// first and in order, and nobody is invited twice when the configured
/// list has no repetition.
pub proof fn merge_invites_law(base: Seq<Seq<char>>, extra: Seq<Seq<char>>)
    ensures
        merge_invites(base, extra).len() >= base.len(),
        merge_invites(base, extra).subrange(0, base.len() as int) == base,
        forall|u: Seq<char>| #[trigger]
            merge_invites(base, extra).contains(u) <==> (base.contains(u) || extra.contains(u)),
        base.no_duplicates() ==> merge_invites(base, extra).no_duplicates(),
    decreases extra.len(),
{
    if extra.len() == 0 {
        assert(base.subrange(0, base.len() as int) =~= base);
    } else {
        let e = extra.drop_last();
        merge_invites_law(base, e);
        let m = merge_invites(base, e);
        if !m.contains(extra.last()) {
            assert(m.push(extra.last()).subrange(0, base.len() as int) =~= m.subrange(
                0,
                base.len() as int,
            ));
        }
        assert forall|u: Seq<char>| #[trigger]
            merge_invites(base, extra).contains(u) <==> (base.contains(u) || extra.contains(u)) by {
            if extra.contains(u) && !e.contains(u) {
                let k = choose|k: int| 0 <= k < extra.len() && extra[k] == u;
                if k < extra.len() - 1 {
                    assert(e[k] == u);
                }
                assert(u == extra.last());
            }
            if e.contains(u) {
                let k = choose|k: int| 0 <= k < e.len() && e[k] == u;
                assert(extra[k] == u);
            }
            if !m.contains(extra.last()) && m.push(extra.last()).contains(u) && u != extra.last() {
                let k = choose|k: int| 0 <= k < m.push(extra.last()).len() && m.push(extra.last())[k] == u;
                assert(m[k] == u);
            }
            if m.contains(u) && !m.contains(extra.last()) {
                let k = choose|k: int| 0 <= k < m.len() && m[k] == u;
                assert(m.push(extra.last())[k] == u);
            }
            if u == extra.last() && !m.contains(extra.last()) {
                assert(m.push(extra.last())[m.len() as int] == u);
            }
            if u == extra.last() {
                assert(extra[extra.len() - 1] == u);
            }
        }
    }
}


/// Largest file the upload endpoint accepts (200 MiB).
pub const MAX_UPLOAD_SIZE: usize = 209715200;

pub open spec fn is_path_sep(c: char) -> bool {
    c == '/' || c == '\\'
}

/// The last path component of a file name (after the last `/` or `\`).
pub open spec fn basename(s: Seq<char>) -> Seq<char>
    decreases s.len(),
{
    if s.len() == 0 {
        s
    } else if is_path_sep(s.last()) {
        Seq::empty()
    } else {
        basename(s.drop_last()).push(s.last())
    }
}

/// `s` is at most `max` bytes long, or its first `max` bytes end on a
/// character boundary.
pub open spec fn cut_on_boundary(s: Seq<char>, max: nat) -> bool {
    utf8_len(s) <= max || exists|k: int| 0 <= k <= s.len() && utf8_len(s.subrange(0, k)) == max
}

proof fn lemma_prefix_len_monotone(s: Seq<char>, i: int, j: int)
    requires
        0 <= i <= j <= s.len(),
    ensures
        utf8_len(s.subrange(0, i)) <= utf8_len(s.subrange(0, j)),
    decreases j - i,
{
    if i < j {
        lemma_prefix_len_monotone(s, i, j - 1);
        lemma_utf8_len_push(s.subrange(0, j - 1), s[j - 1]);
        assert(s.subrange(0, j - 1).push(s[j - 1]) =~= s.subrange(0, j));
    }
}

fn basename_start(v: &[char], to: usize) -> (r: usize)
    requires
        to <= v@.len(),
    ensures
        r <= to,
        v@.subrange(r as int, to as int) == basename(v@.subrange(0, to as int)),
    decreases to,
{
    if to == 0 {
        return 0;
    }
    assert(v@.subrange(0, to as int).drop_last() =~= v@.subrange(0, to - 1));
    if v[to - 1] == '/' || v[to - 1] == '\\' {
        assert(v@.subrange(to as int, to as int) =~= Seq::<char>::empty());
        return to;
    }
    let r = basename_start(v, to - 1);
    assert(v@.subrange(r as int, to as int) =~= v@.subrange(r as int, to - 1).push(v@[to - 1]));
    r
}

/// The name an uploaded file is stored under: the last component of the
/// name the client gave, cut to 255 bytes, or `upload` when none was
/// given. The cut must fall on a character boundary.
pub fn upload_filename(file_name: Option<&str>) -> (r: String)
    requires
        match file_name {
            Some(n) => cut_on_boundary(basename(n@), 255),
            None => true,
        },
    ensures
        match file_name {
            None => r@ == "upload"@,
            Some(n) => {
                let b = basename(n@);
                &&& r@ == b.subrange(0, r@.len() as int)
                &&& r@.len() <= b.len()
                &&& utf8_len(b) <= 255 ==> r@ == b
                &&& utf8_len(b) > 255 ==> utf8_len(r@) == 255
            },
        },
{
    let n = match file_name {
        Some(n) => n,
        None => return String::from_str("upload"),
    };
    let v = to_chars(n);
    let len = v.len();
    let start = basename_start(v.as_slice(), len);
    let ghost b = v@.subrange(start as int, len as int);
    assert(v@.subrange(0, len as int) =~= v@);
    assert(b == basename(n@));
    let mut acc: usize = 0;
    let mut j: usize = start;
    while j < len
        invariant
            start <= j <= len,
            len == v@.len(),
            b == v@.subrange(start as int, len as int),
            acc == utf8_len(b.subrange(0, j - start)),
            acc <= 255,
            cut_on_boundary(b, 255),
            b == basename(n@),
            file_name is Some && file_name->0@ == n@,
            v@ == n@,
        decreases len - j,
    {
        let w = char_width(v[j]);
        proof {
            lemma_utf8_len_push(b.subrange(0, j - start), b[j - start]);
            assert(b.subrange(0, j - start).push(b[j - start]) =~= b.subrange(0, j + 1 - start));
        }
        if acc + w > 255 {
            proof {
                lemma_prefix_len_monotone(b, j + 1 - start, b.len() as int);
                assert(b.subrange(0, b.len() as int) =~= b);
                if utf8_len(b) > 255 {
                    let k = choose|k: int| 0 <= k <= b.len() && utf8_len(b.subrange(0, k)) == 255;
                    if k <= j - start {
                        lemma_prefix_len_monotone(b, k, j - start);
                    } else {
                        lemma_prefix_len_monotone(b, j + 1 - start, k);
                    }
                }
            }
            assert(v@.subrange(start as int, j as int) =~= b.subrange(0, j - start));
            return string_of(v.as_slice(), start, j);
        }
        acc = acc + w;
        j = j + 1;
    }
    assert(b.subrange(0, j - start) =~= b);
    string_of(v.as_slice(), start, len)
}

/// The content type of an upload: the one the client gave, else
/// `application/octet-stream`.
pub fn upload_content_type(content_type: Option<&str>) -> (r: String)
    ensures
        r@ == (match content_type {
            Some(t) => t@,
            None => "application/octet-stream"@,
        }),
{
    match content_type {
        Some(t) => t.to_string(),
        None => String::from_str("application/octet-stream"),
    }
}

/// Whether an upload of `size` bytes is accepted.
pub fn upload_size_allowed(size: usize) -> (r: bool)
    ensures
        r == (size <= MAX_UPLOAD_SIZE),
{
    size <= MAX_UPLOAD_SIZE
}

/// Cursor-based pagination parameters of the admin listings.
#[derive(Debug)]
pub struct PaginationParams {
    pub platform: Option<String>,
    pub after: i64,
    pub limit: i64,
}

/// A query value read as an `i64`, or `default` when it is absent or not
/// a decimal `i64`.
pub open spec fn query_i64_or(value: Option<Seq<char>>, default: int) -> int {
    match value {
        Some(s) => match spec_parse_i64(s) {
            Some(v) => v,
            None => default,
        },
        None => default,
    }
}

fn parse_or(value: Option<&str>, default: i64) -> (r: i64)
    ensures
        r == query_i64_or(
            match value {
                Some(s) => Some(s@),
                None => None,
            },
            default as int,
        ),
{
    match value {
        Some(s) => match parse_i64(s) {
            Some(v) => v,
            None => default,
        },
        None => default,
    }
}

impl PaginationParams {
    /// Reads the `platform`, `after` and `limit` query parameters: `after`
    /// defaults to 0, `limit` to 100 and is kept within 1 to 1000.
    pub fn from_query(platform: Option<&str>, after: Option<&str>, limit: Option<&str>) -> (r: Self)
        ensures
            opt_view(r.platform) == (match platform {
                Some(p) => Some(p@),
                None => None,
            }),
            r.after == query_i64_or(
                match after {
                    Some(s) => Some(s@),
                    None => None,
                },
                0,
            ),
            ({
                let l = query_i64_or(
                    match limit {
                        Some(s) => Some(s@),
                        None => None,
                    },
                    100,
                );
                r.limit == (if l < 1 {
                    1
                } else if l > 1000 {
                    1000
                } else {
                    l
                })
            }),
    {
        let l = parse_or(limit, 100);
        let clamped = if l < 1 {
            1
        } else if l > 1000 {
            1000
        } else {
            l
        };
        PaginationParams {
            platform: match platform {
                Some(p) => Some(p.to_string()),
                None => None,
            },
            after: parse_or(after, 0),
            limit: clamped,
        }
    }
}

} // verus!
