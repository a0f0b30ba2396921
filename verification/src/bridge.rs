//! Identities, names and routing decisions of the bridge service: the bot
//! and puppet user IDs, portal rooms and platform spaces, puppet profile
//! updates, crypto sync routing and the texts of the bot's replies.
use vstd::prelude::*;
use vstd::string::*;

use crate::dispatch::RoomMappingRecord;
use crate::registration::{decimal, spec_decimal};
use crate::sorted::{insert_all_sorted, insert_sorted, sorted_distinct};
use crate::text::{
    contains_str, seq_contains_sub, seq_starts_with, split_char, split_seq, starts_with, str_eq, trim,
    trim_seq, views,
};

verus! {

/// Non-sensitive server configuration shown by the admin info endpoint.
#[derive(Debug, Clone)]
pub struct BridgeInfo {
    pub homeserver_url: String,
    pub homeserver_domain: String,
    pub bot_user_id: String,
    pub puppet_prefix: String,
    pub encryption_enabled: bool,
    pub encryption_default: bool,
    pub webhook_ssrf_protection: bool,
    pub api_key_required: bool,
    pub configured_platforms: Vec<String>,
    pub admin_users: Vec<String>,
    pub relay_users: Vec<String>,
}

impl BridgeInfo {
    /// The number of admin and relay patterns, as the info endpoint shows.
    pub fn permission_counts(&self) -> (r: (usize, usize))
        ensures
            r.0 == self.admin_users@.len(),
            r.1 == self.relay_users@.len(),
    {
        (self.admin_users.len(), self.relay_users.len())
    }
}

/// The bridge bot's user ID: `@{sender_localpart}:{server_name}`.
pub fn bot_user_id(sender_localpart: &str, server_name: &str) -> (r: String)
    ensures
        r@ == seq!['@'] + sender_localpart@ + seq![':'] + server_name@,
{
    proof {
        reveal_strlit("@");
        reveal_strlit(":");
    }
    let mut s = String::from_str("@");
    s.append(sender_localpart);
    s.append(":");
    s.append(server_name);
    s
}

/// The start of every puppet user ID: `@{puppet_prefix}_`.
pub fn puppet_user_prefix(puppet_prefix: &str) -> (r: String)
    ensures
        r@ == seq!['@'] + puppet_prefix@ + seq!['_'],
{
    proof {
        reveal_strlit("@");
        reveal_strlit("_");
    }
    let mut s = String::from_str("@");
    s.append(puppet_prefix);
    s.append("_");
    s
}

/// The name of an auto-created portal room: the room name the platform
/// gave, else the external room ID.
pub fn portal_room_name(name: Option<&str>, external_room_id: &str) -> (r: String)
    ensures
        r@ == (match name {
            Some(n) => n@,
            None => external_room_id@,
        }),
{
    match name {
        Some(n) => n.to_string(),
        None => external_room_id.to_string(),
    }
}

/// The name of a platform's space: `{platform} (bridge)`.
pub fn platform_space_name(platform_id: &str) -> (r: String)
    ensures
        r@ == platform_id@ + " (bridge)"@,
{
    let mut s = String::from_str(platform_id);
    s.append(" (bridge)");
    s
}

/// The topic of a platform's space: `Bridged rooms from {platform}`.
pub fn platform_space_topic(platform_id: &str) -> (r: String)
    ensures
        r@ == "Bridged rooms from "@ + platform_id@,
{
    let mut s = String::from_str("Bridged rooms from ");
    s.append(platform_id);
    s
}

/// Whether a failure to create a space shows that the homeserver does not
/// support spaces (`M_UNKNOWN`, `M_UNRECOGNIZED` or `m.space` in the error).
pub fn is_spaces_unsupported_error(error: &str) -> (r: bool)
    ensures
        r == (seq_contains_sub(error@, "M_UNKNOWN"@) || seq_contains_sub(error@, "M_UNRECOGNIZED"@)
            || seq_contains_sub(error@, "m.space"@)),
{
    contains_str(error, "M_UNKNOWN") || contains_str(error, "M_UNRECOGNIZED") || contains_str(
        error,
        "m.space",
    )
}

/// The key under which an ensured puppet is cached: `{platform}:{external_id}`.
pub fn puppet_cache_key(platform_id: &str, external_user_id: &str) -> (r: String)
    ensures
        r@ == platform_id@ + seq![':'] + external_user_id@,
{
    proof {
        reveal_strlit(":");
    }
    let mut s = String::from_str(platform_id);
    s.append(":");
    s.append(external_user_id);
    s
}

/// What to do to bring a puppet's profile up to date.
#[derive(Debug)]
pub struct PuppetProfilePlan {
    pub set_display_name: Option<String>,
    pub set_avatar: Option<String>,
    /// Write the puppet record to the store.
    pub store: bool,
}

pub open spec fn opt_str_view(o: Option<&str>) -> Option<Seq<char>> {
    match o {
        Some(s) => Some(s@),
        None => None,
    }
}

fn opt_str_eq(a: Option<&str>, b: Option<&str>) -> (r: bool)
    ensures
        r == (opt_str_view(a) == opt_str_view(b)),
{
    match (a, b) {
        (Some(x), Some(y)) => str_eq(x, y),
        (None, None) => true,
        _ => false,
    }
}

fn opt_string(o: Option<&str>) -> (r: Option<String>)
    ensures
        crate::message::opt_view(r) == opt_str_view(o),
{
    match o {
        Some(s) => Some(s.to_string()),
        None => None,
    }
}

/// The profile updates for a puppet: a new puppet (no stored profile) gets
/// the name and avatar it arrives with and is stored; a known puppet gets
/// each field that changed to a value, and is stored again when anything
/// changed.
pub fn puppet_profile_plan(
    stored: Option<(Option<&str>, Option<&str>)>,
    display_name: Option<&str>,
    avatar_url: Option<&str>,
) -> (r: PuppetProfilePlan)
    ensures
        match stored {
            None => {
                &&& crate::message::opt_view(r.set_display_name) == opt_str_view(display_name)
                &&& crate::message::opt_view(r.set_avatar) == opt_str_view(avatar_url)
                &&& r.store
            },
            Some((name, avatar)) => {
                let name_changed = opt_str_view(display_name) != opt_str_view(name);
                let avatar_changed = opt_str_view(avatar_url) != opt_str_view(avatar);
                &&& crate::message::opt_view(r.set_display_name) == (if name_changed {
                    opt_str_view(display_name)
                } else {
                    None
                })
                &&& crate::message::opt_view(r.set_avatar) == (if avatar_changed {
                    opt_str_view(avatar_url)
                } else {
                    None
                })
                &&& r.store == (name_changed || avatar_changed)
            },
        },
{
    match stored {
        None => PuppetProfilePlan {
            set_display_name: opt_string(display_name),
            set_avatar: opt_string(avatar_url),
            store: true,
        },
        Some((name, avatar)) => {
            let name_changed = !opt_str_eq(display_name, name);
            let avatar_changed = !opt_str_eq(avatar_url, avatar);
            PuppetProfilePlan {
                set_display_name: if name_changed {
                    opt_string(display_name)
                } else {
                    None
                },
                set_avatar: if avatar_changed {
                    opt_string(avatar_url)
                } else {
                    None
                },
                store: name_changed || avatar_changed,
            }
        },
    }
}

/// A user's power level from a room's power levels: the user's own entry,
/// else `users_default`, else 0.
pub fn power_level_of(user_level: Option<i64>, users_default: Option<i64>) -> (r: i64)
    ensures
        r == (match user_level {
            Some(l) => l,
            None => match users_default {
                Some(d) => d,
                None => 0,
            },
        }),
{
    match user_level {
        Some(l) => l,
        None => match users_default {
            Some(d) => d,
            None => 0,
        },
    }
}

/// The event ID of a send response, when it is present and not empty.
pub fn event_id_from_response(event_id: Option<&str>) -> (r: Option<String>)
    ensures
        crate::message::opt_view(r) == (match event_id {
            Some(e) => if e@.len() > 0 {
                Some(e@)
            } else {
                None
            },
            None => None,
        }),
{
    match event_id {
        Some(e) => if e.unicode_len() > 0 {
            Some(e.to_string())
        } else {
            None
        },
        None => None,
    }
}

/// The query parameters that make the homeserver act for a user's device
/// (`user_id`, then `device_id`, each when known).
pub fn e2ee_query_params(user_id: Option<&str>, device_id: Option<&str>) -> (r: Vec<(String, String)>)
    ensures
        r@.len() == (if user_id is Some { 1int } else { 0 }) + (if device_id is Some { 1int } else { 0 }),
        user_id matches Some(u) ==> r@[0].0@ == "user_id"@ && r@[0].1@ == u@,
        device_id matches Some(d) ==> {
            let k = r@.len() - 1;
            r@[k].0@ == "device_id"@ && r@[k].1@ == d@
        },
{
    let mut params: Vec<(String, String)> = Vec::new();
    if let Some(u) = user_id {
        params.push((String::from_str("user_id"), u.to_string()));
    }
    if let Some(d) = device_id {
        params.push((String::from_str("device_id"), d.to_string()));
    }
    params
}

/// The cursor of the next page of a listing: the ID of its last entry.
pub fn next_cursor(ids: &Vec<i64>) -> (r: Option<i64>)
    ensures
        r == (if ids@.len() == 0 {
            None
        } else {
            Some(ids@.last())
        }),
{
    if ids.len() == 0 {
        None
    } else {
        Some(ids[ids.len() - 1])
    }
}

/// The distinct entries of `s`, in order of first appearance, without `skip`.
pub open spec fn distinct_except(s: Seq<Seq<char>>, skip: Seq<char>) -> Seq<Seq<char>>
    decreases s.len(),
{
    if s.len() == 0 {
        Seq::empty()
    } else {
        let m = distinct_except(s.drop_last(), skip);
        if s.last() == skip || m.contains(s.last()) {
            m
        } else {
            m.push(s.last())
        }
    }
}

/// The puppets whose crypto state a transaction concerns: every user named
/// in the per-user to-device events, one-time-key counts or fallback keys,
/// each once, except the bridge bot (handled on its own).
pub fn crypto_sync_targets(
    to_device_users: &Vec<String>,
    otk_users: &Vec<String>,
    fallback_users: &Vec<String>,
    bot_user_id: &str,
) -> (r: Vec<String>)
    ensures
        views(r@) == distinct_except(
            views(to_device_users@) + views(otk_users@) + views(fallback_users@),
            bot_user_id@,
        ),
{
    let ghost all = views(to_device_users@) + views(otk_users@) + views(fallback_users@);
    let mut out: Vec<String> = Vec::new();
    let ghost mut seen: int = 0;
    let lists = [to_device_users, otk_users, fallback_users];
    let mut li: usize = 0;
    while li < 3
        invariant
            li <= 3,
            lists@.len() == 3,
            lists@[0] == to_device_users,
            lists@[1] == otk_users,
            lists@[2] == fallback_users,
            all == views(to_device_users@) + views(otk_users@) + views(fallback_users@),
            seen == (if li == 0 {
                0
            } else if li == 1 {
                to_device_users@.len() as int
            } else if li == 2 {
                to_device_users@.len() + otk_users@.len() as int
            } else {
                all.len() as int
            }),
            seen <= all.len(),
            views(out@) == distinct_except(all.subrange(0, seen), bot_user_id@),
        decreases 3 - li,
    {
        let list = lists[li];
        let ghost base = seen;
        assert(views(list@).len() == list@.len());
        assert(base + views(list@).len() <= all.len());
        assert forall|k: int| 0 <= k < views(list@).len() implies all[base + k] == #[trigger] views(
            list@,
        )[k] by {
            if li == 0 {
                assert(all[base + k] == views(to_device_users@)[k]);
            } else if li == 1 {
                assert(all[base + k] == (views(to_device_users@) + views(otk_users@))[base + k]);
            } else {
                assert(all[base + k] == views(fallback_users@)[k]);
            }
        }
        let mut j: usize = 0;
        while j < list.len()
            invariant
                j <= list@.len(),
                seen == base + j,
                0 <= base,
                views(list@).len() == list@.len(),
                base + views(list@).len() <= all.len(),
                forall|k: int| 0 <= k < views(list@).len() ==> all[base + k] == #[trigger] views(
                    list@,
                )[k],
                views(out@) == distinct_except(all.subrange(0, seen), bot_user_id@),
            decreases list@.len() - j,
        {
            let u = &list[j];
            assert(views(list@)[j as int] == u@);
            proof {
                let next = all.subrange(0, seen + 1);
                assert(next.drop_last() =~= all.subrange(0, seen));
                assert(next.last() == u@);
            }
            let present = crate::api::contains_string(&out, u.as_str());
            if !str_eq(u.as_str(), bot_user_id) && !present {
                let ghost before = views(out@);
                out.push(u.clone());
                assert(views(out@) =~= before.push(u@));
            }
            j = j + 1;
            proof {
                seen = seen + 1;
            }
        }
        li = li + 1;
    }
    assert(all.subrange(0, all.len() as int) =~= all);
    out
}

/// Whether one-time-key counts come in the per-user format (some key is a
/// user ID, starting with `@`) rather than as flat counts.
pub fn is_per_user_key_counts(keys: &Vec<String>) -> (r: bool)
    ensures
        r == exists|i: int| 0 <= i < keys@.len() && seq_starts_with(#[trigger] keys@[i]@, "@"@),
{
    let mut i: usize = 0;
    while i < keys.len()
        invariant
            i <= keys@.len(),
            forall|j: int| 0 <= j < i ==> !seq_starts_with(#[trigger] keys@[j]@, "@"@),
        decreases keys@.len() - i,
    {
        if starts_with(keys[i].as_str(), "@") {
            return true;
        }
        i = i + 1;
    }
    false
}

/// The help text of the bot.
pub const HELP_TEXT: &'static str = "Commands (DM):\n  !help                  \u{2014} show this help\n  !platforms             \u{2014} list all platforms with summary\n  !rooms [platform]      \u{2014} list bridged room mappings\n  !spaces                \u{2014} list platform spaces\n  !<platform>            \u{2014} show platform details and capabilities\n  !<platform> <command>  \u{2014} forward a custom command to a platform\n\nRoom commands (in bridged rooms):\n  !bridge link <platform> <external_id>  \u{2014} link room to platform\n  !bridge unlink <platform>              \u{2014} unlink room from platform\n  !bridge status                         \u{2014} show room bridge status";

/// `prefix{platform}suffix`.
fn around(prefix: &str, platform: &str, suffix: &str) -> (r: String)
    ensures
        r@ == prefix@ + platform@ + suffix@,
{
    let mut s = String::from_str(prefix);
    s.append(platform);
    s.append(suffix);
    s
}

/// The reply to `!rooms` when there is no mapping.
pub fn no_rooms_reply(platform_filter: Option<&str>) -> (r: String)
    ensures
        r@ == (match platform_filter {
            Some(p) => "No bridged rooms for platform '"@ + p@ + "'."@,
            None => "No bridged rooms."@,
        }),
{
    match platform_filter {
        Some(p) => around("No bridged rooms for platform '", p, "'."),
        None => String::from_str("No bridged rooms."),
    }
}

/// One line of the room list: `  [{platform}] {external} ↔ {matrix}`.
pub open spec fn room_line(m: RoomMappingRecord) -> Seq<char> {
    "\n  ["@ + m.platform_id@ + "] "@ + m.external_room_id@ + " \u{2194} "@ + m.matrix_room_id@
}

/// The lines of the first `n` mappings.
pub open spec fn room_lines(ms: Seq<RoomMappingRecord>, n: int) -> Seq<char>
    decreases n,
{
    if n <= 0 {
        Seq::empty()
    } else {
        room_lines(ms, n - 1) + room_line(ms[n - 1])
    }
}

/// The reply to `!rooms`: a header with the number of mappings, then one
/// line per mapping.
pub fn rooms_reply(mappings: &Vec<RoomMappingRecord>) -> (r: String)
    ensures
        r@ == "Bridged rooms ("@ + spec_decimal(mappings@.len() as nat) + "):"@ + room_lines(
            mappings@,
            mappings@.len() as int,
        ),
{
    let mut s = String::from_str("Bridged rooms (");
    let n = decimal(mappings.len() as u64);
    s.append(n.as_str());
    s.append("):");
    let ghost head = s@;
    let mut i: usize = 0;
    while i < mappings.len()
        invariant
            i <= mappings@.len(),
            s@ == head + room_lines(mappings@, i as int),
        decreases mappings@.len() - i,
    {
        let m = &mappings[i];
        s.append("\n  [");
        s.append(m.platform_id.as_str());
        s.append("] ");
        s.append(m.external_room_id.as_str());
        s.append(" \u{2194} ");
        s.append(m.matrix_room_id.as_str());
        assert(s@ =~= head + room_lines(mappings@, i + 1));
        i = i + 1;
    }
    s
}

/// The reply to `!<platform> <command>` when the platform has no webhook
/// and no WebSocket client.
pub fn no_integrations_reply(platform: &str) -> (r: String)
    ensures
        r@ == "No integrations for platform '"@ + platform@
            + "'. Type !platforms to see available."@,
{
    around("No integrations for platform '", platform, "'. Type !platforms to see available.")
}

/// The reply after a command was forwarded to a platform.
pub fn command_sent_reply(platform: &str) -> (r: String)
    ensures
        r@ == "Command sent to "@ + platform@ + "."@,
{
    around("Command sent to ", platform, ".")
}

/// The reply to `!<platform>` for a platform with no webhook, WebSocket
/// client or room.
pub fn unknown_platform_reply(platform: &str) -> (r: String)
    ensures
        r@ == "Unknown platform '"@ + platform@ + "'. Type !platforms to see available platforms."@,
{
    around("Unknown platform '", platform, "'. Type !platforms to see available platforms.")
}


/// The platforms known from the store and from WebSocket clients, each
/// once, in sorted order.
pub fn known_platforms(db_platforms: &Vec<String>, ws_platforms: &Vec<String>) -> (r: Vec<String>)
    ensures
        sorted_distinct(views(r@)),
        forall|s: Seq<char>| #[trigger]
            views(r@).contains(s) <==> (views(db_platforms@).contains(s) || views(
                ws_platforms@,
            ).contains(s)),
{
    let mut out: Vec<String> = Vec::new();
    assert(views(out@) =~= Seq::<Seq<char>>::empty());
    insert_all_sorted(&mut out, db_platforms);
    insert_all_sorted(&mut out, ws_platforms);
    out
}

/// The capabilities declared in one comma-separated list: its trimmed,
/// non-empty pieces.
pub open spec fn declared(list: Seq<char>) -> Seq<Seq<char>> {
    split_seq(list, ',').map_values(|p: Seq<char>| trim_seq(p)).filter(|p: Seq<char>| p.len() > 0)
}

/// Whether a capability is declared by one of the first `n` lists.
pub open spec fn declared_by_any(lists: Seq<Seq<char>>, n: int, cap: Seq<char>) -> bool
    decreases n,
{
    if n <= 0 {
        false
    } else {
        declared_by_any(lists, n - 1, cap) || declared(lists[n - 1]).contains(cap)
    }
}

/// The capabilities of a platform: those its webhooks declare (each as a
/// comma-separated list) and those of its WebSocket clients, each once, in
/// sorted order.
pub fn platform_capabilities(webhook_caps: &Vec<String>, ws_caps: &Vec<String>) -> (r: Vec<String>)
    ensures
        sorted_distinct(views(r@)),
        forall|s: Seq<char>| #[trigger]
            views(r@).contains(s) <==> (declared_by_any(
                views(webhook_caps@),
                webhook_caps@.len() as int,
                s,
            ) || views(ws_caps@).contains(s)),
{
    let mut out: Vec<String> = Vec::new();
    assert(views(out@) =~= Seq::<Seq<char>>::empty());
    let mut i: usize = 0;
    while i < webhook_caps.len()
        invariant
            i <= webhook_caps@.len(),
            sorted_distinct(views(out@)),
            forall|s: Seq<char>| #[trigger]
                views(out@).contains(s) <==> declared_by_any(views(webhook_caps@), i as int, s),
        decreases webhook_caps@.len() - i,
    {
        let pieces = split_char(webhook_caps[i].as_str(), ',');
        let ghost list = webhook_caps@[i as int]@;
        let ghost before = views(out@);
        let ghost trimmed = split_seq(list, ',').map_values(|p: Seq<char>| trim_seq(p));
        let mut j: usize = 0;
        while j < pieces.len()
            invariant
                j <= pieces@.len(),
                views(pieces@) == split_seq(list, ','),
                trimmed == split_seq(list, ',').map_values(|p: Seq<char>| trim_seq(p)),
                sorted_distinct(views(out@)),
                forall|s: Seq<char>| #[trigger]
                    views(out@).contains(s) <==> (before.contains(s) || trimmed.subrange(
                        0,
                        j as int,
                    ).filter(|p: Seq<char>| p.len() > 0).contains(s)),
            decreases pieces@.len() - j,
        {
            let t = trim(pieces[j].as_str());
            let ghost pre = trimmed.subrange(0, j as int);
            let ghost post = trimmed.subrange(0, j + 1);
            proof {
                assert(post =~= pre.push(t@));
                assert(views(pieces@)[j as int] == pieces@[j as int]@);
                lemma_filter_push(pre, t@);
            }
            if t.unicode_len() > 0 {
                let ghost tv = t@;
                insert_sorted(&mut out, t);
                assert forall|s: Seq<char>| #[trigger]
                    views(out@).contains(s) <==> (before.contains(s) || post.filter(
                        |p: Seq<char>| p.len() > 0,
                    ).contains(s)) by {
                    lemma_push_contains(pre.filter(|p: Seq<char>| p.len() > 0), tv, s);
                }
            } else {
                assert(post.filter(|p: Seq<char>| p.len() > 0) =~= pre.filter(
                    |p: Seq<char>| p.len() > 0,
                ));
            }
            j = j + 1;
        }
        proof {
            assert(trimmed.subrange(0, pieces@.len() as int) =~= trimmed);
            assert(views(webhook_caps@)[i as int] == list);
        }
        i = i + 1;
    }
    let ghost mid = views(out@);
    insert_all_sorted(&mut out, ws_caps);
    out
}

proof fn lemma_filter_push(s: Seq<Seq<char>>, x: Seq<char>)
    ensures
        s.push(x).filter(|p: Seq<char>| p.len() > 0) == (if x.len() > 0 {
            s.filter(|p: Seq<char>| p.len() > 0).push(x)
        } else {
            s.filter(|p: Seq<char>| p.len() > 0)
        }),
{
    s.lemma_filter_push(x, |p: Seq<char>| p.len() > 0);
}

proof fn lemma_push_contains(s: Seq<Seq<char>>, x: Seq<char>, y: Seq<char>)
    ensures
        s.push(x).contains(y) <==> (s.contains(y) || y == x),
{
    if s.push(x).contains(y) && y != x {
        let i = choose|i: int| 0 <= i < s.push(x).len() && s.push(x)[i] == y;
        assert(s[i] == y);
    }
    if s.contains(y) {
        let i = choose|i: int| 0 <= i < s.len() && s[i] == y;
        assert(s.push(x)[i] == y);
    }
    if y == x {
        assert(s.push(x)[s.len() as int] == y);
    }
}

/// The strings of `ws` joined by `sep`.
pub open spec fn join_with(ws: Seq<Seq<char>>, sep: Seq<char>) -> Seq<char>
    decreases ws.len(),
{
    if ws.len() == 0 {
        Seq::empty()
    } else if ws.len() == 1 {
        ws[0]
    } else {
        join_with(ws.drop_last(), sep) + sep + ws.last()
    }
}

/// Joins strings with a separator.
pub fn join_strings(ws: &Vec<String>, sep: &str) -> (r: String)
    ensures
        r@ == join_with(views(ws@), sep@),
{
    let mut out = String::new();
    let mut i: usize = 0;
    while i < ws.len()
        invariant
            i <= ws@.len(),
            out@ == join_with(views(ws@).subrange(0, i as int), sep@),
        decreases ws@.len() - i,
    {
        if i > 0 {
            out.append(sep);
        }
        out.append(ws[i].as_str());
        proof {
            let sub = views(ws@).subrange(0, i + 1);
            assert(sub.drop_last() =~= views(ws@).subrange(0, i as int));
            assert(sub.last() == ws@[i as int]@);
            if i == 0 {
                assert(views(ws@).subrange(0, 0) =~= Seq::<Seq<char>>::empty());
            }
        }
        i = i + 1;
    }
    assert(views(ws@).subrange(0, ws@.len() as int) =~= views(ws@));
    out
}

/// The integrations of one platform, for the platform list.
#[derive(Debug)]
pub struct PlatformSummary {
    pub platform: String,
    pub rooms: usize,
    pub webhooks: usize,
    pub has_ws: bool,
}

/// The summary of one platform: its room and webhook counts (when not zero)
/// and `ws` when a WebSocket client is connected, or `no integrations`.
pub open spec fn summary_text(p: PlatformSummary) -> Seq<char> {
    let parts = (if p.rooms > 0 {
        seq![spec_decimal(p.rooms as nat) + " room(s)"@]
    } else {
        Seq::empty()
    }) + (if p.webhooks > 0 {
        seq![spec_decimal(p.webhooks as nat) + " webhook(s)"@]
    } else {
        Seq::empty()
    }) + (if p.has_ws {
        seq!["ws"@]
    } else {
        Seq::empty()
    });
    if parts.len() == 0 {
        "no integrations"@
    } else {
        join_with(parts, ", "@)
    }
}

fn summary(p: &PlatformSummary) -> (r: String)
    ensures
        r@ == summary_text(*p),
{
    let mut parts: Vec<String> = Vec::new();
    let ghost empty = views(parts@);
    if p.rooms > 0 {
        let mut s = decimal(p.rooms as u64);
        s.append(" room(s)");
        parts.push(s);
    }
    if p.webhooks > 0 {
        let mut s = decimal(p.webhooks as u64);
        s.append(" webhook(s)");
        parts.push(s);
    }
    if p.has_ws {
        parts.push(String::from_str("ws"));
    }
    let ghost expected = (if p.rooms > 0 {
        seq![spec_decimal(p.rooms as nat) + " room(s)"@]
    } else {
        Seq::empty()
    }) + (if p.webhooks > 0 {
        seq![spec_decimal(p.webhooks as nat) + " webhook(s)"@]
    } else {
        Seq::empty()
    }) + (if p.has_ws {
        seq!["ws"@]
    } else {
        Seq::empty()
    });
    assert(views(parts@) =~= expected);
    if parts.len() == 0 {
        String::from_str("no integrations")
    } else {
        join_strings(&parts, ", ")
    }
}

/// One line of the platform list.
pub open spec fn platform_line(p: PlatformSummary) -> Seq<char> {
    "\n  "@ + p.platform@ + " \u{2014} "@ + summary_text(p)
}

pub open spec fn platform_lines(ps: Seq<PlatformSummary>, n: int) -> Seq<char>
    decreases n,
{
    if n <= 0 {
        Seq::empty()
    } else {
        platform_lines(ps, n - 1) + platform_line(ps[n - 1])
    }
}

/// The reply to `!platforms`: a header with the number of platforms and a
/// line per platform, or `No platforms registered.`.
pub fn platforms_reply(platforms: &Vec<PlatformSummary>) -> (r: String)
    ensures
        r@ == (if platforms@.len() == 0 {
            "No platforms registered."@
        } else {
            "Platforms ("@ + spec_decimal(platforms@.len() as nat) + "):"@ + platform_lines(
                platforms@,
                platforms@.len() as int,
            )
        }),
{
    if platforms.len() == 0 {
        return String::from_str("No platforms registered.");
    }
    let mut s = String::from_str("Platforms (");
    let n = decimal(platforms.len() as u64);
    s.append(n.as_str());
    s.append("):");
    let ghost head = s@;
    let mut i: usize = 0;
    while i < platforms.len()
        invariant
            i <= platforms@.len(),
            s@ == head + platform_lines(platforms@, i as int),
        decreases platforms@.len() - i,
    {
        let p = &platforms[i];
        s.append("\n  ");
        s.append(p.platform.as_str());
        s.append(" \u{2014} ");
        let t = summary(p);
        s.append(t.as_str());
        assert(s@ =~= head + platform_lines(platforms@, i + 1));
        i = i + 1;
    }
    s
}

/// The reply to `!<platform>`: its integrations, rooms, space and
/// capabilities, one per line.
pub fn platform_info_reply(
    platform: &str,
    webhooks: usize,
    has_ws: bool,
    rooms: usize,
    space: Option<&str>,
    capabilities: &Vec<String>,
) -> (r: String)
    ensures
        r@ == "Platform: "@ + platform@ + "\n  Integrations: "@ + spec_decimal(webhooks as nat)
            + " webhook(s)"@ + (if has_ws { ", ws connected"@ } else { ""@ }) + "\n  Rooms: "@
            + spec_decimal(rooms as nat) + (match space {
            Some(sid) => "\n  Space: "@ + sid@,
            None => ""@,
        }) + (if capabilities@.len() == 0 {
            "\n  Capabilities: (none declared)"@
        } else {
            "\n  Capabilities: "@ + join_with(views(capabilities@), ", "@)
        }),
{
    let mut s = String::from_str("Platform: ");
    s.append(platform);
    s.append("\n  Integrations: ");
    let w = decimal(webhooks as u64);
    s.append(w.as_str());
    s.append(" webhook(s)");
    s.append(if has_ws { ", ws connected" } else { "" });
    s.append("\n  Rooms: ");
    let r = decimal(rooms as u64);
    s.append(r.as_str());
    match space {
        Some(sid) => {
            s.append("\n  Space: ");
            s.append(sid);
        },
        None => {
            s.append("");
        },
    }
    if capabilities.len() == 0 {
        s.append("\n  Capabilities: (none declared)");
    } else {
        s.append("\n  Capabilities: ");
        let c = join_strings(capabilities, ", ");
        s.append(c.as_str());
    }
    s
}

} // verus!
