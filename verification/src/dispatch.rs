//! Decisions of the dispatcher for events that arrive from Matrix: which
//! handler an event goes to, which invites are accepted, how a message is
//! routed, and which bridge messages are sent to which platforms.
//!
//! The dispatcher itself performs the lookups and the deliveries; each
//! decision here takes the values it needs and says what to do.
use vstd::prelude::*;
use vstd::string::*;

use crate::config::{PermissionLevel, PermissionsConfig};
use crate::message::{
    BridgeMessage, BridgeMessageView, ExternalRoom, ExternalRoomView, ExternalUser,
    ExternalUserView, MessageContent, MessageContentView, clone_content, clone_opt, content_view,
    opt_view,
};
use crate::platform::{puppet_source_platform, spec_puppet_source_platform};
use crate::text::{seq_starts_with, starts_with, str_eq, split_whitespace, words, utf8_len, views};
use crate::ws::{is_valid_platform_id, spec_is_valid_platform_id, should_forward_source, spec_should_forward_source};

verus! {

/// The handler a Matrix event goes to.
#[derive(Debug, Clone, Copy, PartialEq, Eq, Structural)]
pub enum EventAction {
    /// `m.room.member`, also when the bridge bot sent it.
    Membership,
    RoomMessage,
    Encrypted,
    /// `m.room.encryption`: remember that the room is encrypted.
    TrackEncryption,
    Redaction,
    /// Events of the bridge bot itself and unknown event types.
    Ignore,
}

/// The handler for an event of type `event_type` sent by `sender`.
pub open spec fn spec_classify_event(event_type: Seq<char>, sender: Seq<char>, bot_user_id: Seq<char>) -> EventAction {
    if event_type == "m.room.member"@ {
        EventAction::Membership
    } else if sender == bot_user_id {
        EventAction::Ignore
    } else if event_type == "m.room.message"@ {
        EventAction::RoomMessage
    } else if event_type == "m.room.encrypted"@ {
        EventAction::Encrypted
    } else if event_type == "m.room.encryption"@ {
        EventAction::TrackEncryption
    } else if event_type == "m.room.redaction"@ {
        EventAction::Redaction
    } else {
        EventAction::Ignore
    }
}

/// Chooses the handler of a Matrix event. Membership events are handled
/// even when the bridge bot sent them; other events of the bot are skipped.
pub fn classify_event(event_type: &str, sender: &str, bot_user_id: &str) -> (r: EventAction)
    ensures
        r == spec_classify_event(event_type@, sender@, bot_user_id@),
{
    if str_eq(event_type, "m.room.member") {
        EventAction::Membership
    } else if str_eq(sender, bot_user_id) {
        EventAction::Ignore
    } else if str_eq(event_type, "m.room.message") {
        EventAction::RoomMessage
    } else if str_eq(event_type, "m.room.encrypted") {
        EventAction::Encrypted
    } else if str_eq(event_type, "m.room.encryption") {
        EventAction::TrackEncryption
    } else if str_eq(event_type, "m.room.redaction") {
        EventAction::Redaction
    } else {
        EventAction::Ignore
    }
}

/// What to do with an `m.room.member` event.
#[derive(Debug, Clone, Copy, PartialEq, Eq, Structural)]
pub struct MembershipPlan {
    /// Track the device keys of the member (joins and invites).
    pub track_device: bool,
    /// Join the room as the invited user (the bot or a puppet).
    pub accept_invite: bool,
    /// After the bot joined, track the devices of all room members.
    pub track_members_after_join: bool,
}

/// The plan for a membership event: invites of the bridge bot or of a
/// puppet are accepted when the inviter is the bot itself or an admin.
pub open spec fn spec_membership_plan(
    membership: Seq<char>,
    state_key: Seq<char>,
    inviter: Seq<char>,
    bot_user_id: Seq<char>,
    puppet_user_prefix: Seq<char>,
    permissions: PermissionsConfig,
) -> MembershipPlan {
    if state_key.len() == 0 {
        MembershipPlan { track_device: false, accept_invite: false, track_members_after_join: false }
    } else {
        let is_bot = state_key == bot_user_id;
        let is_puppet = seq_starts_with(state_key, puppet_user_prefix);
        let inviter_ok = inviter == bot_user_id || permissions.spec_permission_level(inviter)
            == PermissionLevel::Admin;
        let accept = membership == "invite"@ && (is_bot || is_puppet) && inviter_ok;
        MembershipPlan {
            track_device: membership == "join"@ || membership == "invite"@,
            accept_invite: accept,
            track_members_after_join: accept && is_bot,
        }
    }
}

/// Decides what to do with a membership event of `state_key`.
pub fn membership_plan(
    membership: &str,
    state_key: &str,
    inviter: &str,
    bot_user_id: &str,
    puppet_user_prefix: &str,
    permissions: &PermissionsConfig,
) -> (r: MembershipPlan)
    ensures
        r == spec_membership_plan(
            membership@,
            state_key@,
            inviter@,
            bot_user_id@,
            puppet_user_prefix@,
            *permissions,
        ),
{
    if state_key.unicode_len() == 0 {
        return MembershipPlan {
            track_device: false,
            accept_invite: false,
            track_members_after_join: false,
        };
    }
    let is_invite = str_eq(membership, "invite");
    let track_device = str_eq(membership, "join") || is_invite;
    let is_bot = str_eq(state_key, bot_user_id);
    let is_puppet = starts_with(state_key, puppet_user_prefix);
    let inviter_ok = str_eq(inviter, bot_user_id) || permissions.is_invite_allowed(inviter);
    let accept = is_invite && (is_bot || is_puppet) && inviter_ok;
    MembershipPlan { track_device, accept_invite: accept, track_members_after_join: accept && is_bot }
}

/// Where an `m.room.message` goes.
#[derive(Debug, Clone, Copy, PartialEq, Eq, Structural)]
pub enum RoomMessageRoute {
    /// A `!bridge` room management command (in any room).
    BridgeCommand,
    /// A `!` command in a room without bridge mappings.
    BotCommand,
    /// Forward to the platforms the room is mapped to.
    Forward,
    Ignore,
}

pub open spec fn spec_route_room_message(body: Seq<char>, has_mappings: bool) -> RoomMessageRoute {
    if seq_starts_with(body, "!bridge"@) {
        RoomMessageRoute::BridgeCommand
    } else if !has_mappings {
        if seq_starts_with(body, "!"@) {
            RoomMessageRoute::BotCommand
        } else {
            RoomMessageRoute::Ignore
        }
    } else {
        RoomMessageRoute::Forward
    }
}

/// Routes a room message by its body and whether the room has mappings.
pub fn route_room_message(body: &str, has_mappings: bool) -> (r: RoomMessageRoute)
    ensures
        r == spec_route_room_message(body@, has_mappings),
{
    if starts_with(body, "!bridge") {
        RoomMessageRoute::BridgeCommand
    } else if !has_mappings {
        if starts_with(body, "!") {
            RoomMessageRoute::BotCommand
        } else {
            RoomMessageRoute::Ignore
        }
    } else {
        RoomMessageRoute::Forward
    }
}

/// Whether the sender's power level must be fetched before a message is
/// forwarded: a minimum is configured and the sender is not a puppet.
pub fn needs_power_check(min_power_level: i64, sender: &str, puppet_user_prefix: &str) -> (r: bool)
    ensures
        r == (min_power_level > 0 && !seq_starts_with(sender@, puppet_user_prefix@)),
{
    min_power_level > 0 && !starts_with(sender, puppet_user_prefix)
}

/// Whether a power level reaches `min`; a level that could not be read
/// counts as 0.
pub fn power_level_reaches(power_level: Option<i64>, min: i64) -> (r: bool)
    ensures
        r == (match power_level {
            Some(p) => p >= min,
            None => 0 >= min,
        }),
{
    match power_level {
        Some(p) => p >= min,
        None => 0 >= min,
    }
}

/// Whether a message relation marks an edit (`rel_type` is `m.replace`).
pub fn is_replacement(rel_type: Option<&str>) -> (r: bool)
    ensures
        r == (rel_type is Some && rel_type->0@ == "m.replace"@),
{
    match rel_type {
        Some(t) => str_eq(t, "m.replace"),
        None => false,
    }
}

/// The platform a Matrix message came from: the puppet record's platform
/// when the sender is a known puppet, else the platform read from a puppet
/// user ID, else none (a real Matrix user).
pub open spec fn spec_source_platform(
    puppet_platform: Option<Seq<char>>,
    sender: Seq<char>,
    puppet_prefix: Seq<char>,
) -> Option<Seq<char>> {
    match puppet_platform {
        Some(p) => Some(p),
        None => spec_puppet_source_platform(sender, puppet_prefix),
    }
}

pub fn source_platform(puppet_platform: Option<&str>, sender: &str, puppet_prefix: &str) -> (r: Option<String>)
    ensures
        opt_view(r) == spec_source_platform(
            match puppet_platform {
                Some(p) => Some(p@),
                None => None,
            },
            sender@,
            puppet_prefix@,
        ),
{
    match puppet_platform {
        Some(p) => Some(p.to_string()),
        None => puppet_source_platform(sender, puppet_prefix),
    }
}


/// A mapping between a Matrix room and a room of an external platform.
#[derive(Debug, Clone)]
pub struct RoomMappingRecord {
    pub id: i64,
    pub matrix_room_id: String,
    pub platform_id: String,
    pub external_room_id: String,
}

pub struct RoomMappingView {
    pub id: i64,
    pub matrix_room_id: Seq<char>,
    pub platform_id: Seq<char>,
    pub external_room_id: Seq<char>,
}

impl View for RoomMappingRecord {
    type V = RoomMappingView;

    open spec fn view(&self) -> RoomMappingView {
        RoomMappingView {
            id: self.id,
            matrix_room_id: self.matrix_room_id@,
            platform_id: self.platform_id@,
            external_room_id: self.external_room_id@,
        }
    }
}

pub open spec fn mapping_views(s: Seq<RoomMappingRecord>) -> Seq<RoomMappingView> {
    s.map_values(|m: RoomMappingRecord| m@)
}

/// A puppet user known to the store.
#[derive(Debug, Clone)]
pub struct PuppetRecord {
    pub platform_id: String,
    pub external_user_id: String,
    pub display_name: Option<String>,
    pub avatar_mxc: Option<String>,
}

/// The sender of a message bridged out of Matrix: the external identity
/// of a known puppet, or the Matrix user itself on platform `matrix`.
pub open spec fn spec_bridge_sender(puppet: Option<PuppetRecord>, sender: Seq<char>) -> ExternalUserView {
    match puppet {
        Some(p) => ExternalUserView {
            platform: p.platform_id@,
            external_id: p.external_user_id@,
            display_name: opt_view(p.display_name),
            avatar_url: opt_view(p.avatar_mxc),
        },
        None => spec_matrix_user(sender),
    }
}

/// A Matrix user as the sender of a bridged message.
pub open spec fn spec_matrix_user(sender: Seq<char>) -> ExternalUserView {
    ExternalUserView {
        platform: "matrix"@,
        external_id: sender,
        display_name: None,
        avatar_url: None,
    }
}

/// The message sent to the platform of one mapping.
pub open spec fn spec_outbound_message(
    platform_id: Seq<char>,
    external_room_id: Seq<char>,
    from: ExternalUserView,
    id: Seq<char>,
    content: MessageContentView,
    timestamp: u64,
) -> BridgeMessageView {
    BridgeMessageView {
        id,
        sender: from,
        room: ExternalRoomView { platform: platform_id, external_id: external_room_id, name: None },
        content,
        timestamp,
        reply_to: None,
    }
}

/// The deliveries for the first `n` mappings: one per mapping, in order,
/// except to the platform the message came from.
pub open spec fn spec_plan_prefix(
    ms: Seq<RoomMappingView>,
    n: int,
    source: Option<Seq<char>>,
    from: ExternalUserView,
    event_id: Seq<char>,
    content: MessageContentView,
    timestamp: u64,
) -> Seq<(int, BridgeMessageView)>
    decreases n,
{
    if n <= 0 {
        Seq::empty()
    } else {
        let prev = spec_plan_prefix(ms, n - 1, source, from, event_id, content, timestamp);
        let m = ms[n - 1];
        if source is Some && m.platform_id == source->0 {
            prev
        } else {
            prev.push(
                (
                    n - 1,
                    spec_outbound_message(
                        m.platform_id,
                        m.external_room_id,
                        from,
                        event_id,
                        content,
                        timestamp,
                    ),
                ),
            )
        }
    }
}

/// One message to deliver, with the index of the room mapping it is for.
#[derive(Debug)]
pub struct OutboundDelivery {
    pub mapping_index: usize,
    pub message: BridgeMessage,
}

pub open spec fn delivery_views(v: Seq<OutboundDelivery>) -> Seq<(int, BridgeMessageView)> {
    v.map_values(|d: OutboundDelivery| (d.mapping_index as int, d.message@))
}

fn bridge_sender(puppet: Option<&PuppetRecord>, sender: &str) -> (r: ExternalUser)
    ensures
        r@ == spec_bridge_sender(
            match puppet {
                Some(p) => Some(*p),
                None => None,
            },
            sender@,
        ),
{
    match puppet {
        Some(p) => ExternalUser {
            platform: p.platform_id.clone(),
            external_id: p.external_user_id.clone(),
            display_name: clone_opt(&p.display_name),
            avatar_url: clone_opt(&p.avatar_mxc),
        },
        None => matrix_user(sender),
    }
}

fn matrix_user(sender: &str) -> (r: ExternalUser)
    ensures
        r@ == spec_matrix_user(sender@),
{
    ExternalUser {
        platform: String::from_str("matrix"),
        external_id: sender.to_string(),
        display_name: None,
        avatar_url: None,
    }
}

/// The bridge messages for a Matrix message in a room with these
/// mappings: one for each mapping, in order, skipping the platform the
/// message came from so that it does not loop back. The sender is the
/// puppet's external identity when the sender is a known puppet.
pub fn plan_room_message(
    mappings: &Vec<RoomMappingRecord>,
    puppet: Option<&PuppetRecord>,
    sender: &str,
    source_platform: Option<&str>,
    event_id: &str,
    content: &MessageContent,
    timestamp: u64,
) -> (r: Vec<OutboundDelivery>)
    ensures
        delivery_views(r@) == spec_plan_prefix(
            mapping_views(mappings@),
            mappings@.len() as int,
            match source_platform {
                Some(s) => Some(s@),
                None => None,
            },
            spec_bridge_sender(
                match puppet {
                    Some(p) => Some(*p),
                    None => None,
                },
                sender@,
            ),
            event_id@,
            content_view(*content),
            timestamp,
        ),
{
    let ghost ms = mapping_views(mappings@);
    let ghost source = match source_platform {
        Some(s) => Some(s@),
        None => None,
    };
    let ghost from = spec_bridge_sender(
        match puppet {
            Some(p) => Some(*p),
            None => None,
        },
        sender@,
    );
    let mut out: Vec<OutboundDelivery> = Vec::new();
    let mut i: usize = 0;
    while i < mappings.len()
        invariant
            i <= mappings@.len(),
            ms == mapping_views(mappings@),
            source == (match source_platform {
                Some(s) => Some(s@),
                None => None::<Seq<char>>,
            }),
            from == spec_bridge_sender(
                match puppet {
                    Some(p) => Some(*p),
                    None => None,
                },
                sender@,
            ),
            delivery_views(out@) == spec_plan_prefix(
                ms,
                i as int,
                source,
                from,
                event_id@,
                content_view(*content),
                timestamp,
            ),
        decreases mappings@.len() - i,
    {
        let m = &mappings[i];
        assert(ms[i as int] == m@);
        let skip = match source_platform {
            Some(src) => str_eq(m.platform_id.as_str(), src),
            None => false,
        };
        if !skip {
            let message = BridgeMessage {
                id: event_id.to_string(),
                sender: bridge_sender(puppet, sender),
                room: ExternalRoom {
                    platform: m.platform_id.clone(),
                    external_id: m.external_room_id.clone(),
                    name: None,
                },
                content: clone_content(content),
                timestamp,
                reply_to: None,
            };
            let ghost before = out@;
            out.push(OutboundDelivery { mapping_index: i, message });
            assert(delivery_views(out@) =~= delivery_views(before).push(
                (i as int, message@),
            ));
        }
        i = i + 1;
    }
    assert(mapping_views(mappings@).len() == mappings@.len());
    out
}

/// An external message that a Matrix relation (edit, reaction, redaction)
/// refers to, with the external room of its platform's mapping for the
/// Matrix room (`None` when the room is not mapped to that platform).
#[derive(Debug, Clone)]
pub struct RelationTarget {
    pub platform_id: String,
    pub external_message_id: String,
    pub external_room_id: Option<String>,
}

/// A relation to an earlier message, fanned out to every platform that
/// received that message.
#[derive(Debug)]
pub enum Relation {
    Edit { new_content: MessageContent },
    Reaction { emoji: String },
    Redaction,
}

/// The content sent for a relation to the external message `target_id`.
pub open spec fn spec_relation_content(relation: Relation, target_id: Seq<char>) -> MessageContentView {
    match relation {
        Relation::Edit { new_content } => MessageContentView::Edit {
            target_id,
            new_content: Box::new(content_view(new_content)),
        },
        Relation::Reaction { emoji } => MessageContentView::Reaction { target_id, emoji: emoji@ },
        Relation::Redaction => MessageContentView::Redaction { target_id },
    }
}

/// The messages for the first `n` targets: one per target whose room is
/// mapped, in order, sent as the Matrix user.
pub open spec fn spec_relation_prefix(
    ts: Seq<RelationTarget>,
    n: int,
    relation: Relation,
    sender: Seq<char>,
    id: Seq<char>,
    timestamp: u64,
) -> Seq<BridgeMessageView>
    decreases n,
{
    if n <= 0 {
        Seq::empty()
    } else {
        let prev = spec_relation_prefix(ts, n - 1, relation, sender, id, timestamp);
        let t = ts[n - 1];
        match t.external_room_id {
            None => prev,
            Some(room) => prev.push(
                spec_outbound_message(
                    t.platform_id@,
                    room@,
                    spec_matrix_user(sender),
                    id,
                    spec_relation_content(relation, t.external_message_id@),
                    timestamp,
                ),
            ),
        }
    }
}

pub open spec fn message_views(v: Seq<BridgeMessage>) -> Seq<BridgeMessageView> {
    v.map_values(|m: BridgeMessage| m@)
}

fn relation_content(relation: &Relation, target_id: &String) -> (r: MessageContent)
    ensures
        content_view(r) == spec_relation_content(*relation, target_id@),
{
    match relation {
        Relation::Edit { new_content } => MessageContent::Edit {
            target_id: target_id.clone(),
            new_content: Box::new(clone_content(new_content)),
        },
        Relation::Reaction { emoji } => MessageContent::Reaction {
            target_id: target_id.clone(),
            emoji: emoji.clone(),
        },
        Relation::Redaction => MessageContent::Redaction { target_id: target_id.clone() },
    }
}

/// The bridge messages for a relation (edit, reaction or redaction) sent
/// by `sender`: one for each target whose room is mapped, in order, each
/// naming the target's external message.
pub fn plan_relation_fanout(
    targets: &Vec<RelationTarget>,
    relation: &Relation,
    sender: &str,
    id: &str,
    timestamp: u64,
) -> (r: Vec<BridgeMessage>)
    ensures
        message_views(r@) == spec_relation_prefix(
            targets@,
            targets@.len() as int,
            *relation,
            sender@,
            id@,
            timestamp,
        ),
{
    let mut out: Vec<BridgeMessage> = Vec::new();
    let mut i: usize = 0;
    while i < targets.len()
        invariant
            i <= targets@.len(),
            message_views(out@) == spec_relation_prefix(
                targets@,
                i as int,
                *relation,
                sender@,
                id@,
                timestamp,
            ),
        decreases targets@.len() - i,
    {
        let t = &targets[i];
        if let Some(room) = &t.external_room_id {
            let message = BridgeMessage {
                id: id.to_string(),
                sender: matrix_user(sender),
                room: ExternalRoom {
                    platform: t.platform_id.clone(),
                    external_id: room.clone(),
                    name: None,
                },
                content: relation_content(relation, &t.external_message_id),
                timestamp,
                reply_to: None,
            };
            let ghost before = out@;
            out.push(message);
            assert(message_views(out@) =~= message_views(before).push(message@));
        }
        i = i + 1;
    }
    out
}


/// Whether cross-platform relay lets a message through: always for
/// messages of Matrix users, for messages of other platforms only when
/// relay is enabled.
pub fn relay_permits(allow_relay: bool, source_platform: Option<&str>) -> (r: bool)
    ensures
        r == (allow_relay || source_platform is None),
{
    allow_relay || source_platform.is_none()
}

/// A webhook registered for a platform.
#[derive(Debug, Clone)]
pub struct WebhookRecord {
    pub webhook_url: String,
    /// Allowlist of source platforms (`*` allows all).
    pub forward_sources: Vec<String>,
}

/// The source a webhook allowlist is checked against: the source platform,
/// or `matrix` for messages of Matrix users.
pub open spec fn effective_source(source: Option<Seq<char>>) -> Seq<char> {
    match source {
        Some(s) => s,
        None => "matrix"@,
    }
}

/// The URLs of the first `n` webhooks that forward messages from `source`.
pub open spec fn spec_webhook_targets(ws: Seq<WebhookRecord>, n: int, source: Seq<char>) -> Seq<Seq<char>>
    decreases n,
{
    if n <= 0 {
        Seq::empty()
    } else {
        let prev = spec_webhook_targets(ws, n - 1, source);
        if spec_should_forward_source(views(ws[n - 1].forward_sources@), source) {
            prev.push(ws[n - 1].webhook_url@)
        } else {
            prev
        }
    }
}

/// The URLs of the webhooks, in order, that a message from
/// `source_platform` (none: a Matrix user) is delivered to.
pub fn webhook_targets(webhooks: &Vec<WebhookRecord>, source_platform: Option<&str>) -> (r: Vec<String>)
    ensures
        views(r@) == spec_webhook_targets(
            webhooks@,
            webhooks@.len() as int,
            effective_source(
                match source_platform {
                    Some(s) => Some(s@),
                    None => None,
                },
            ),
        ),
{
    proof {
        reveal_strlit("matrix");
    }
    let source: &str = match source_platform {
        Some(s) => s,
        None => "matrix",
    };
    let mut out: Vec<String> = Vec::new();
    let mut i: usize = 0;
    while i < webhooks.len()
        invariant
            i <= webhooks@.len(),
            source@ == effective_source(
                match source_platform {
                    Some(s) => Some(s@),
                    None => None,
                },
            ),
            views(out@) == spec_webhook_targets(webhooks@, i as int, source@),
        decreases webhooks@.len() - i,
    {
        let w = &webhooks[i];
        if should_forward_source(&w.forward_sources, source) {
            let ghost before = out@;
            out.push(w.webhook_url.clone());
            assert(views(out@) =~= views(before).push(w.webhook_url@));
        }
        i = i + 1;
    }
    out
}

/// The power level a room member needs for `!bridge link` and `!bridge unlink`.
pub const BRIDGE_COMMAND_MIN_POWER_LEVEL: i64 = 50;

/// A `!bridge` room management command.
#[derive(Debug)]
pub enum BridgeCommand {
    /// `!bridge link <platform> <external_room_id>`.
    Link { platform_id: String, external_id: String },
    /// `link` without both arguments.
    LinkUsage,
    /// `link` with a platform ID that is not 1 to 64 bytes of letters,
    /// digits, `-`, `_`, `.`.
    InvalidPlatformId,
    /// `link` with an external room ID longer than 255 bytes.
    ExternalIdTooLong,
    /// `!bridge unlink <platform>`.
    Unlink { platform_id: String },
    /// `unlink` without a platform.
    UnlinkUsage,
    Status,
    /// Anything else: the list of commands.
    Help,
}

pub enum BridgeCommandView {
    Link { platform_id: Seq<char>, external_id: Seq<char> },
    LinkUsage,
    InvalidPlatformId,
    ExternalIdTooLong,
    Unlink { platform_id: Seq<char> },
    UnlinkUsage,
    Status,
    Help,
}

impl View for BridgeCommand {
    type V = BridgeCommandView;

    open spec fn view(&self) -> BridgeCommandView {
        match self {
            BridgeCommand::Link { platform_id, external_id } => BridgeCommandView::Link {
                platform_id: platform_id@,
                external_id: external_id@,
            },
            BridgeCommand::LinkUsage => BridgeCommandView::LinkUsage,
            BridgeCommand::InvalidPlatformId => BridgeCommandView::InvalidPlatformId,
            BridgeCommand::ExternalIdTooLong => BridgeCommandView::ExternalIdTooLong,
            BridgeCommand::Unlink { platform_id } => BridgeCommandView::Unlink {
                platform_id: platform_id@,
            },
            BridgeCommand::UnlinkUsage => BridgeCommandView::UnlinkUsage,
            BridgeCommand::Status => BridgeCommandView::Status,
            BridgeCommand::Help => BridgeCommandView::Help,
        }
    }
}

/// The `k`-th word, or nothing.
pub open spec fn word_or_empty(ws: Seq<Seq<char>>, k: int) -> Seq<char> {
    if 0 <= k < ws.len() {
        ws[k]
    } else {
        Seq::empty()
    }
}

/// The command a `!bridge` message gives, read from its
/// whitespace-separated words.
pub open spec fn spec_parse_bridge_command(body: Seq<char>) -> BridgeCommandView {
    let ws = words(body);
    let sub = word_or_empty(ws, 1);
    if sub == "link"@ {
        let p = word_or_empty(ws, 2);
        let e = word_or_empty(ws, 3);
        if p.len() == 0 || e.len() == 0 {
            BridgeCommandView::LinkUsage
        } else if !spec_is_valid_platform_id(p) {
            BridgeCommandView::InvalidPlatformId
        } else if utf8_len(e) > 255 {
            BridgeCommandView::ExternalIdTooLong
        } else {
            BridgeCommandView::Link { platform_id: p, external_id: e }
        }
    } else if sub == "unlink"@ {
        let p = word_or_empty(ws, 2);
        if p.len() == 0 {
            BridgeCommandView::UnlinkUsage
        } else {
            BridgeCommandView::Unlink { platform_id: p }
        }
    } else if sub == "status"@ {
        BridgeCommandView::Status
    } else {
        BridgeCommandView::Help
    }
}

fn word_at(ws: &Vec<String>, k: usize) -> (r: String)
    ensures
        r@ == word_or_empty(views(ws@), k as int),
{
    if k < ws.len() {
        ws[k].clone()
    } else {
        String::new()
    }
}

/// Reads a `!bridge` command.
pub fn parse_bridge_command(body: &str) -> (r: BridgeCommand)
    ensures
        r@ == spec_parse_bridge_command(body@),
{
    let ws = split_whitespace(body);
    let sub = word_at(&ws, 1);
    if str_eq(sub.as_str(), "link") {
        let p = word_at(&ws, 2);
        let e = word_at(&ws, 3);
        if p.unicode_len() == 0 || e.unicode_len() == 0 {
            BridgeCommand::LinkUsage
        } else if !is_valid_platform_id(p.as_str()) {
            BridgeCommand::InvalidPlatformId
        } else if e.as_str().as_bytes().len() > 255 {
            BridgeCommand::ExternalIdTooLong
        } else {
            BridgeCommand::Link { platform_id: p, external_id: e }
        }
    } else if str_eq(sub.as_str(), "unlink") {
        let p = word_at(&ws, 2);
        if p.unicode_len() == 0 {
            BridgeCommand::UnlinkUsage
        } else {
            BridgeCommand::Unlink { platform_id: p }
        }
    } else if str_eq(sub.as_str(), "status") {
        BridgeCommand::Status
    } else {
        BridgeCommand::Help
    }
}

impl BridgeCommand {
    /// Whether the command links or unlinks, which needs the sender's
    /// power level to be at least `BRIDGE_COMMAND_MIN_POWER_LEVEL`.
    pub fn needs_power_level(&self) -> (r: bool)
        ensures
            r == !(self@ is Status || self@ is Help),
    {
        match self {
            BridgeCommand::Status | BridgeCommand::Help => false,
            _ => true,
        }
    }
}

/// A command sent to the bridge bot in a room without bridge mappings.
#[derive(Debug)]
pub enum BotCommand {
    /// The sender is not an admin: no answer.
    Denied,
    Help,
    /// `!rooms [platform]`.
    Rooms { platform: Option<String> },
    Platforms,
    Spaces,
    /// `!<platform>`: details of one platform.
    PlatformInfo { platform: String },
    /// `!<platform> <command...>`: forward the command to the platform.
    Passthrough { platform: String, command: String },
    /// A bare `!` or a message that is no command.
    Ignore,
}

pub enum BotCommandView {
    Denied,
    Help,
    Rooms { platform: Option<Seq<char>> },
    Platforms,
    Spaces,
    PlatformInfo { platform: Seq<char> },
    Passthrough { platform: Seq<char>, command: Seq<char> },
    Ignore,
}

impl View for BotCommand {
    type V = BotCommandView;

    open spec fn view(&self) -> BotCommandView {
        match self {
            BotCommand::Denied => BotCommandView::Denied,
            BotCommand::Help => BotCommandView::Help,
            BotCommand::Rooms { platform } => BotCommandView::Rooms { platform: opt_view(*platform) },
            BotCommand::Platforms => BotCommandView::Platforms,
            BotCommand::Spaces => BotCommandView::Spaces,
            BotCommand::PlatformInfo { platform } => BotCommandView::PlatformInfo {
                platform: platform@,
            },
            BotCommand::Passthrough { platform, command } => BotCommandView::Passthrough {
                platform: platform@,
                command: command@,
            },
            BotCommand::Ignore => BotCommandView::Ignore,
        }
    }
}

/// The words of `ws` joined by single spaces.
pub open spec fn join_words(ws: Seq<Seq<char>>) -> Seq<char>
    decreases ws.len(),
{
    if ws.len() == 0 {
        Seq::empty()
    } else if ws.len() == 1 {
        ws[0]
    } else {
        join_words(ws.drop_last()) + seq![' '] + ws.last()
    }
}

/// The bot command a message gives; only admins may use bot commands.
pub open spec fn spec_parse_bot_command(body: Seq<char>, sender: Seq<char>, permissions: PermissionsConfig) -> BotCommandView {
    if permissions.spec_permission_level(sender) != PermissionLevel::Admin {
        BotCommandView::Denied
    } else {
        let ws = words(body);
        let cmd = word_or_empty(ws, 0);
        if cmd == "!help"@ {
            BotCommandView::Help
        } else if cmd == "!rooms"@ {
            BotCommandView::Rooms { platform: if ws.len() > 1 { Some(ws[1]) } else { None } }
        } else if cmd == "!platforms"@ {
            BotCommandView::Platforms
        } else if cmd == "!spaces"@ {
            BotCommandView::Spaces
        } else if !seq_starts_with(cmd, "!"@) || cmd.len() == 1 {
            BotCommandView::Ignore
        } else if ws.len() == 1 {
            BotCommandView::PlatformInfo { platform: cmd.skip(1) }
        } else {
            BotCommandView::Passthrough { platform: cmd.skip(1), command: join_words(ws.skip(1)) }
        }
    }
}

fn join_from(ws: &Vec<String>, from: usize) -> (r: String)
    requires
        from < ws@.len(),
    ensures
        r@ == join_words(views(ws@).skip(from as int)),
{
    let ghost vs = views(ws@);
    let n = ws.len();
    let mut out = ws[from].clone();
    let mut k: usize = from + 1;
    assert(vs.subrange(from as int, k as int) =~= seq![vs[from as int]]);
    while k < ws.len()
        invariant
            from < k <= ws@.len(),
            vs == views(ws@),
            out@ == join_words(vs.subrange(from as int, k as int)),
        decreases ws@.len() - k,
    {
        out.append(" ");
        out.append(ws[k].as_str());
        proof {
            reveal_strlit(" ");
            let sub = vs.subrange(from as int, k + 1);
            assert(sub.drop_last() =~= vs.subrange(from as int, k as int));
            assert(sub.last() == vs[k as int]);
        }
        k = k + 1;
    }
    assert(vs.subrange(from as int, ws@.len() as int) =~= vs.skip(from as int));
    out
}

fn without_bang(cmd: &String) -> (r: String)
    requires
        cmd@.len() >= 1,
    ensures
        r@ == cmd@.skip(1),
{
    let v = crate::text::to_chars(cmd.as_str());
    crate::text::string_of(v.as_slice(), 1, v.len())
}

/// Reads a bot command; senders below admin level are denied.
pub fn parse_bot_command(body: &str, sender: &str, permissions: &PermissionsConfig) -> (r: BotCommand)
    ensures
        r@ == spec_parse_bot_command(body@, sender@, *permissions),
{
    if !permissions.permission_level(sender).at_least(&PermissionLevel::Admin) {
        return BotCommand::Denied;
    }
    let ws = split_whitespace(body);
    let cmd = word_at(&ws, 0);
    proof {
        reveal_strlit("!");
    }
    if str_eq(cmd.as_str(), "!help") {
        BotCommand::Help
    } else if str_eq(cmd.as_str(), "!rooms") {
        let platform = if ws.len() > 1 {
            Some(ws[1].clone())
        } else {
            None
        };
        BotCommand::Rooms { platform }
    } else if str_eq(cmd.as_str(), "!platforms") {
        BotCommand::Platforms
    } else if str_eq(cmd.as_str(), "!spaces") {
        BotCommand::Spaces
    } else if !starts_with(cmd.as_str(), "!") || cmd.unicode_len() == 1 {
        BotCommand::Ignore
    } else if ws.len() == 1 {
        BotCommand::PlatformInfo { platform: without_bang(&cmd) }
    } else {
        BotCommand::Passthrough { platform: without_bang(&cmd), command: join_from(&ws, 1) }
    }
}

} // verus!
