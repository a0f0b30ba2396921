//! Properties of the bridge as a whole, each proved over the specifications
//! that the functions' contracts use.
use vstd::prelude::*;

use crate::api::{basename, is_path_sep, spec_incoming_message};
use crate::attachment::EncryptedAttachment;
use crate::matrix_content::{MatrixContentFields, ParsedContentView, spec_parse_message_content};
use crate::platform_events::{MediaSourceView, spec_matrix_content};
use crate::config::{PermissionLevel, PermissionsConfig, any_pattern_matches, pattern_matches};
use crate::dispatch::{RoomMappingView, spec_membership_plan, spec_plan_prefix};
use crate::media::{leading_dots, sanitize_char, spec_filename_from_url, last_segment, url_decode_view};
use crate::message::{
    BridgeMessageView, ExternalUserView, MessageContent, MessageContentView, SendMessageRequest, opt_view,
};
use crate::net::spec_is_private_ip;
use crate::platform::{
    first_index_of, lemma_first_index_of, spec_localpart, spec_puppet_localpart,
    spec_puppet_source_platform,
};
use crate::text::{is_ascii_lower, is_first_index, seq_starts_with, trim_seq};
use crate::webhook::{ParsedUrlView, UrlHostView, WebhookVerdict, is_blocked_host_name, spec_webhook_verdict};
use crate::ws::{ClientView, spec_should_forward_source, without};

verus! {

/// With both permission lists empty (open mode), every user is an admin.
pub proof fn open_mode_everyone_is_admin(p: PermissionsConfig, sender: Seq<char>)
    requires
        p.admin@.len() == 0,
        p.relay@.len() == 0,
    ensures
        p.spec_permission_level(sender) == PermissionLevel::Admin,
{
}

/// A user covered by an admin pattern is an admin, whatever the relay
/// list says.
pub proof fn admin_pattern_wins(p: PermissionsConfig, sender: Seq<char>, i: int)
    requires
        0 <= i < p.admin@.len(),
        pattern_matches(p.admin@[i]@, sender),
    ensures
        p.spec_permission_level(sender) == PermissionLevel::Admin,
{
    assert(any_pattern_matches(p.admin@, sender));
}

/// A user covered by no pattern, outside open mode, has no access.
pub proof fn unlisted_user_has_no_access(p: PermissionsConfig, sender: Seq<char>)
    requires
        p.admin@.len() > 0 || p.relay@.len() > 0,
        forall|i: int| 0 <= i < p.admin@.len() ==> !pattern_matches(#[trigger] p.admin@[i]@, sender),
        forall|i: int| 0 <= i < p.relay@.len() ==> !pattern_matches(#[trigger] p.relay@[i]@, sender),
    ensures
        p.spec_permission_level(sender) == PermissionLevel::NoAccess,
{
}

/// The bridge accepts an invitation only for its bot or one of its puppets,
/// and only from the bot itself or an admin: an invite sent by a user
/// who is not an admin is never accepted, in any room.
pub proof fn only_admin_invites_are_accepted(
    membership: Seq<char>,
    state_key: Seq<char>,
    inviter: Seq<char>,
    bot_user_id: Seq<char>,
    puppet_user_prefix: Seq<char>,
    p: PermissionsConfig,
)
    ensures
        spec_membership_plan(
            membership,
            state_key,
            inviter,
            bot_user_id,
            puppet_user_prefix,
            p,
        ).accept_invite ==> {
            &&& membership == "invite"@
            &&& (state_key == bot_user_id || seq_starts_with(state_key, puppet_user_prefix))
            &&& (inviter == bot_user_id || p.spec_permission_level(inviter) == PermissionLevel::Admin)
        },
        (inviter != bot_user_id && p.spec_permission_level(inviter) != PermissionLevel::Admin)
            ==> !spec_membership_plan(
            membership,
            state_key,
            inviter,
            bot_user_id,
            puppet_user_prefix,
            p,
        ).accept_invite,
{
}

/// A Matrix text, notice or emote message becomes the bridge message of
/// the same kind, carrying the event's body unchanged (and, for text, its
/// HTML); and a parsed text, notice or emote content only ever comes from
/// an event of that msgtype.
pub proof fn text_kinds_keep_their_msgtype(msgtype: Seq<char>, body: Seq<char>, c: MatrixContentFields)
    ensures
        msgtype == "m.emote"@ ==> spec_parse_message_content(msgtype, body, c) == Some(
            ParsedContentView {
                content: MessageContentView::Emote { body },
                encrypted_media: false,
                file_encryption: None,
            },
        ),
        msgtype == "m.notice"@ ==> spec_parse_message_content(msgtype, body, c) == Some(
            ParsedContentView {
                content: MessageContentView::Notice { body },
                encrypted_media: false,
                file_encryption: None,
            },
        ),
        msgtype == "m.text"@ ==> spec_parse_message_content(msgtype, body, c) == Some(
            ParsedContentView {
                content: MessageContentView::Text { body, formatted_body: opt_view(c.formatted_body) },
                encrypted_media: false,
                file_encryption: None,
            },
        ),
        match spec_parse_message_content(msgtype, body, c) {
            Some(p) => {
                &&& p.content is Emote ==> msgtype == "m.emote"@
                &&& p.content is Notice ==> msgtype == "m.notice"@
                &&& p.content is Text ==> msgtype == "m.text"@
            },
            None => true,
        },
{
    reveal_strlit("m.text");
    reveal_strlit("m.notice");
    reveal_strlit("m.emote");
    assert("m.emote"@.len() != "m.text"@.len());
    assert("m.emote"@.len() != "m.notice"@.len());
    assert("m.notice"@.len() != "m.text"@.len());
}

/// In Matrix, a bridged file is an `m.file` message whose body is the
/// file's name, whose `info.mimetype` is the file's MIME type, and whose
/// media is the encrypted upload when there is one and the file's URL
/// otherwise; an image or video is described by its caption when it has
/// one.
pub proof fn media_messages_keep_name_and_type(
    url: String,
    filename: String,
    mimetype: String,
    size: Option<u64>,
    enc: Option<EncryptedAttachment>,
)
    ensures
        ({
            let m = spec_matrix_content(MessageContent::File { url, filename, mimetype, size }, enc);
            &&& m.msgtype == "m.file"@
            &&& m.body == filename@
            &&& m.info_mimetype == Some(mimetype@)
            &&& m.media == Some(
                match enc {
                    Some(e) => MediaSourceView::File(e),
                    None => MediaSourceView::Url(url@),
                },
            )
        }),
        forall|c: MessageContent|
            #![trigger spec_matrix_content(c, enc)]
            (c matches MessageContent::Image { caption: Some(cap), .. } ==> spec_matrix_content(c, enc).body
                == cap@) && (c matches MessageContent::Video { caption: Some(cap), .. }
                ==> spec_matrix_content(c, enc).body == cap@),
{
}

/// A source listed anywhere in a forward-sources allowlist, or a `*`
/// anywhere in it, lets the message through.
pub proof fn listed_source_is_forwarded(sources: Seq<Seq<char>>, source: Seq<char>, i: int)
    requires
        0 <= i < sources.len(),
        sources[i] == source || sources[i] == "*"@,
    ensures
        spec_should_forward_source(sources, source),
{
}

/// A message from a platform other than Matrix is let through only when
/// some entry of the allowlist is `*` or names that platform; and adding
/// entries to an allowlist, before or after the others, never stops a
/// message that was let through.
pub proof fn forwarding_follows_the_allowlist(
    sources: Seq<Seq<char>>,
    more: Seq<Seq<char>>,
    source: Seq<char>,
)
    ensures
        source != "matrix"@ && spec_should_forward_source(sources, source) ==> exists|i: int|
            0 <= i < sources.len() && (sources[i] == "*"@ || sources[i] == source),
        spec_should_forward_source(sources, source) ==> spec_should_forward_source(sources + more, source),
        spec_should_forward_source(sources, source) ==> spec_should_forward_source(more + sources, source),
{
    if spec_should_forward_source(sources, source) && source != "matrix"@ {
        let i = choose|i: int|
            0 <= i < sources.len() && (sources[i] == "*"@ || #[trigger] sources[i] == source);
        assert((sources + more)[i] == sources[i]);
        assert((more + sources)[more.len() + i] == sources[i]);
    }
}

/// With SSRF protection on, a webhook URL whose host is an allowed name is
/// resolved at that name and at the URL's port; without an explicit port,
/// at the scheme's default port: 80 for `http`, 443 for `https`.
pub proof fn webhook_host_resolved_at_scheme_port(p: ParsedUrlView, d: Seq<char>)
    requires
        p.scheme == "http"@ || p.scheme == "https"@,
        p.host == Some(UrlHostView::Domain(d)),
        !is_blocked_host_name(d),
    ensures
        ({
            let v = spec_webhook_verdict(Some(p), true);
            &&& v matches WebhookVerdict::Resolve(h, _) && h == d
            &&& p.port matches Some(port) ==> v == WebhookVerdict::Resolve(d, port)
            &&& p.port is None && p.scheme == "http"@ ==> v == WebhookVerdict::Resolve(d, 80)
            &&& p.port is None && p.scheme == "https"@ ==> v == WebhookVerdict::Resolve(d, 443)
        }),
{
    reveal_strlit("http");
    reveal_strlit("https");
    assert("http"@.len() != "https"@.len());
}

/// A message sent through the HTTP API keeps its sender: the bridge
/// message's sender is the request's sender on the request's platform,
/// with its ID, display name and avatar unchanged, and the message lands
/// in the request's room on that platform.
pub proof fn incoming_message_keeps_its_sender(req: SendMessageRequest, id: Seq<char>, timestamp: u64)
    ensures
        ({
            let m = spec_incoming_message(req, id, timestamp);
            &&& m.sender.platform == req.platform@
            &&& m.sender.external_id == req.sender.id@
            &&& m.sender.display_name == opt_view(req.sender.display_name)
            &&& m.sender.avatar_url == opt_view(req.sender.avatar_url)
            &&& m.room.platform == req.platform@
            &&& m.room.external_id == req.room_id@
            &&& m.id == id
            &&& m.timestamp == timestamp
        }),
{
}

proof fn lemma_no_char(s: Seq<char>, c: char)
    requires
        forall|k: int| 0 <= k < s.len() ==> s[k] != c,
    ensures
        first_index_of(s, c) is None,
    decreases s.len(),
{
    if s.len() > 0 {
        lemma_no_char(s.drop_first(), c);
    }
}

/// A puppet's user ID names the platform it was created for: reading the
/// source platform of `@{prefix}_{platform}_{user}:{server}` gives the
/// platform back, for a lowercase platform name, a non-empty user part and
/// a prefix and user part without `:`.
pub proof fn puppet_user_id_names_its_platform(
    prefix: Seq<char>,
    platform: Seq<char>,
    user_id: Seq<char>,
    server: Seq<char>,
)
    requires
        platform.len() > 0,
        forall|k: int| 0 <= k < platform.len() ==> is_ascii_lower(#[trigger] platform[k]),
        user_id.len() > 0,
        forall|k: int| 0 <= k < prefix.len() ==> #[trigger] prefix[k] != ':',
        forall|k: int| 0 <= k < user_id.len() ==> #[trigger] user_id[k] != ':',
    ensures
        spec_puppet_source_platform(
            seq!['@'] + spec_puppet_localpart(prefix, platform, user_id) + seq![':'] + server,
            prefix,
        ) == Some(platform),
{
    let lp = spec_puppet_localpart(prefix, platform, user_id);
    let sender = seq!['@'] + lp + seq![':'] + server;
    let body = lp + seq![':'] + server;
    assert(sender.drop_first() =~= body);
    assert forall|k: int| 0 <= k < lp.len() implies lp[k] != ':' by {
        if k < prefix.len() {
            assert(lp[k] == prefix[k]);
        } else if k == prefix.len() {
            assert(lp[k] == '_');
        } else if k < prefix.len() + 1 + platform.len() {
            assert(lp[k] == platform[k - prefix.len() - 1]);
            assert(is_ascii_lower(platform[k - prefix.len() - 1]));
        } else if k == prefix.len() + 1 + platform.len() {
            assert(lp[k] == '_');
        } else {
            assert(lp[k] == user_id[k - prefix.len() - 2 - platform.len()]);
        }
    }
    assert(is_first_index(body, ':', lp.len() as int)) by {
        assert forall|j: int| 0 <= j < lp.len() implies body[j] != ':' by {
            assert(body[j] == lp[j]);
        }
    }
    lemma_first_index_of(body, ':', lp.len() as int);
    assert(body.take(lp.len() as int) =~= lp);
    assert(spec_localpart(sender) == lp);
    let head = prefix + seq!['_'];
    assert(lp.subrange(0, head.len() as int) =~= head);
    let rest = lp.skip(head.len() as int);
    assert(rest =~= platform + seq!['_'] + user_id);
    assert(is_first_index(rest, '_', platform.len() as int)) by {
        assert forall|j: int| 0 <= j < platform.len() implies rest[j] != '_' by {
            assert(rest[j] == platform[j]);
            assert(is_ascii_lower(platform[j]));
        }
    }
    lemma_first_index_of(rest, '_', platform.len() as int);
    assert(rest.take(platform.len() as int) =~= platform);
    assert(rest.skip(platform.len() as int + 1) =~= user_id);
}

/// Messages of Matrix users reach every subscriber, whatever its
/// forward-sources allowlist.
pub proof fn matrix_messages_always_forwarded(sources: Seq<Seq<char>>)
    ensures
        spec_should_forward_source(sources, "matrix"@),
{
}

/// A bridged message is never sent back to the platform it came from, and
/// every other mapped platform gets exactly the message for its mapping:
/// the plan lists, in order, the indices of the mappings on other
/// platforms, each with a message for that mapping's room.
pub proof fn outbound_plan_skips_source(
    ms: Seq<RoomMappingView>,
    n: int,
    source: Seq<char>,
    from: ExternalUserView,
    event_id: Seq<char>,
    content: MessageContentView,
    timestamp: u64,
)
    requires
        0 <= n <= ms.len(),
    ensures
        ({
            let plan = spec_plan_prefix(ms, n, Some(source), from, event_id, content, timestamp);
            &&& forall|j: int|
                0 <= j < plan.len() ==> {
                    let k = #[trigger] plan[j].0;
                    &&& 0 <= k < n
                    &&& ms[k].platform_id != source
                    &&& plan[j].1.room.platform == ms[k].platform_id
                    &&& plan[j].1.room.external_id == ms[k].external_room_id
                }
            &&& forall|j1: int, j2: int| 0 <= j1 < j2 < plan.len() ==> plan[j1].0 < plan[j2].0
            &&& forall|k: int|
                0 <= k < n && ms[k].platform_id != source ==> exists|j: int|
                    0 <= j < plan.len() && #[trigger] plan[j].0 == k
        }),
    decreases n,
{
    if n > 0 {
        outbound_plan_skips_source(ms, n - 1, source, from, event_id, content, timestamp);
        let prev = spec_plan_prefix(ms, n - 1, Some(source), from, event_id, content, timestamp);
        let plan = spec_plan_prefix(ms, n, Some(source), from, event_id, content, timestamp);
        if ms[n - 1].platform_id != source {
            assert forall|k: int| 0 <= k < n && ms[k].platform_id != source implies exists|j: int|
                0 <= j < plan.len() && #[trigger] plan[j].0 == k by {
                if k == n - 1 {
                    assert(plan[prev.len() as int].0 == k);
                } else {
                    let j = choose|j: int| 0 <= j < prev.len() && #[trigger] prev[j].0 == k;
                    assert(plan[j] == prev[j]);
                }
            }
            assert forall|j: int| 0 <= j < plan.len() implies ({
                let k = #[trigger] plan[j].0;
                &&& 0 <= k < n
                &&& ms[k].platform_id != source
                &&& plan[j].1.room.platform == ms[k].platform_id
                &&& plan[j].1.room.external_id == ms[k].external_room_id
            }) by {
                if j < prev.len() {
                    assert(plan[j] == prev[j]);
                }
            }
            assert forall|j1: int, j2: int| 0 <= j1 < j2 < plan.len() implies plan[j1].0
                < plan[j2].0 by {
                if j2 < prev.len() {
                    assert(plan[j1] == prev[j1]);
                    assert(plan[j2] == prev[j2]);
                } else {
                    assert(plan[j1] == prev[j1]);
                    assert(0 <= prev[j1].0 < n - 1);
                }
            }
        } else {
            assert forall|k: int| 0 <= k < n && ms[k].platform_id != source implies exists|j: int|
                0 <= j < plan.len() && #[trigger] plan[j].0 == k by {
                assert(k < n - 1);
            }
        }
    }
}

proof fn lemma_without_absent(s: Seq<ClientView>, platform: Seq<char>, id: Seq<char>)
    requires
        forall|k: int| 0 <= k < s.len() ==> !(#[trigger] s[k].platform == platform && s[k].id == id),
    ensures
        without(s, platform, id) == s,
    decreases s.len(),
{
    if s.len() > 0 {
        lemma_without_absent(s.drop_last(), platform, id);
        assert(s.drop_last().push(s.last()) =~= s);
        assert(!(s[s.len() - 1].platform == platform && s[s.len() - 1].id == id));
    }
}

/// Registering a WebSocket client under a fresh ID and unregistering it
/// again leaves the client table as it was.
pub proof fn register_then_unregister_restores(clients: Seq<ClientView>, c: ClientView)
    requires
        forall|k: int| 0 <= k < clients.len() ==> !(#[trigger] clients[k].platform == c.platform
            && clients[k].id == c.id),
    ensures
        without(clients.push(c), c.platform, c.id) == clients,
{
    lemma_without_absent(clients, c.platform, c.id);
    assert(clients.push(c).drop_last() =~= clients);
}

/// With SSRF protection on, an accepted webhook URL names neither a
/// private or reserved IP address nor a blocked host; a host name still
/// has to pass the address check after resolution.
pub proof fn ssrf_protection_accepts_only_public_hosts(p: ParsedUrlView)
    ensures
        spec_webhook_verdict(Some(p), true) is Accept ==> (p.host matches Some(UrlHostView::Ip(ip))
            && !spec_is_private_ip(ip)),
        spec_webhook_verdict(Some(p), true) matches WebhookVerdict::Resolve(h, _) ==> (p.host
            == Some(UrlHostView::Domain(h)) && !is_blocked_host_name(h)),
{
}

proof fn lemma_leading_dots(s: Seq<char>)
    ensures
        leading_dots(s) <= s.len(),
        leading_dots(s) < s.len() ==> s[leading_dots(s) as int] != '.',
    decreases s.len(),
{
    if s.len() > 0 && s[0] == '.' {
        lemma_leading_dots(s.drop_first());
        if leading_dots(s) < s.len() {
            assert(s[leading_dots(s) as int] == s.drop_first()[leading_dots(s.drop_first()) as int]);
        }
    }
}

/// A file name taken from a URL is safe to store: it is 1 to 255
/// characters long, holds no `/`, `\` or NUL, and does not start with `.`.
pub proof fn filename_from_url_is_safe(url: Seq<char>)
    ensures
        spec_filename_from_url(url) matches Some(name) ==> {
            &&& 0 < name.len() <= 255
            &&& name[0] != '.'
            &&& forall|k: int|
                0 <= k < name.len() ==> #[trigger] name[k] != '/' && name[k] != '\\' && name[k]
                    != '\0'
        },
{
    if let Some(seg) = last_segment(url) {
        if let Some(decoded) = url_decode_view(seg) {
            let name = trim_seq(decoded);
            let replaced = name.map_values(|c: char| sanitize_char(c));
            lemma_leading_dots(replaced);
            let stripped = replaced.skip(leading_dots(replaced) as int);
            if stripped.len() > 0 {
                assert(stripped[0] == replaced[leading_dots(replaced) as int]);
                assert forall|k: int| 0 <= k < stripped.len() implies #[trigger] stripped[k] != '/'
                    && stripped[k] != '\\' && stripped[k] != '\0' by {
                    assert(stripped[k] == sanitize_char(name[k + leading_dots(replaced)]));
                }
            }
        }
    }
}

proof fn lemma_basename_has_no_separator(s: Seq<char>)
    ensures
        forall|k: int| 0 <= k < basename(s).len() ==> !is_path_sep(#[trigger] basename(s)[k]),
    decreases s.len(),
{
    if s.len() > 0 && !is_path_sep(s.last()) {
        lemma_basename_has_no_separator(s.drop_last());
        let b = basename(s.drop_last());
        assert forall|k: int| 0 <= k < basename(s).len() implies !is_path_sep(
            #[trigger] basename(s)[k],
        ) by {
            if k < b.len() {
                assert(basename(s)[k] == b[k]);
            }
        }
    }
}

/// The name an uploaded file is stored under holds no path separator, so
/// a client cannot name another directory.
pub proof fn upload_name_has_no_separator(file_name: Seq<char>)
    ensures
        forall|k: int| 0 <= k < basename(file_name).len() ==> !is_path_sep(
            #[trigger] basename(file_name)[k],
        ),
{
    lemma_basename_has_no_separator(file_name);
}

} // verus!
