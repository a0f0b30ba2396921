//! WebSocket delivery: connection parameters, first-message authentication,
//! source filtering, and the table of connected clients.
use vstd::prelude::*;
use vstd::string::*;

use crate::auth::verify_token;
use crate::text::{
    is_ascii_alnum, is_ascii_alnum_char, split_char, split_seq, str_eq, to_chars, trim, trim_seq,
    utf8_len, views,
};

use crate::sorted::{insert_all_sorted, insert_sorted, sorted_distinct};

verus! {

/// Bounded channel capacity per WebSocket client.
pub const CLIENT_CHANNEL_CAPACITY: usize = 64;

/// Maximum total WebSocket connections across all platforms.
pub const MAX_WS_CLIENTS: usize = 1000;

/// Maximum length (in bytes) of a platform ID.
pub const MAX_PLATFORM_ID_LEN: usize = 64;

/// Maximum number of entries in `forward_sources`.
pub const MAX_FORWARD_SOURCES: usize = 20;

/// Maximum length (in bytes) of each `forward_sources` entry.
pub const MAX_FORWARD_SOURCE_LEN: usize = 64;

/// Close code sent when first-message authentication fails.
pub const CLOSE_AUTH_FAILED: u16 = 4001;

/// Close code sent when the connection limit is reached.
pub const CLOSE_TOO_MANY: u16 = 4002;

/// Query parameters of the WebSocket upgrade request.
#[derive(Debug)]
pub struct WsConnectParams {
    /// Platform ID to subscribe to.
    pub platform: String,
    /// Comma-separated allowlist of source platform IDs to forward.
    pub forward_sources: Option<String>,
    /// Comma-separated capabilities of the integration.
    pub capabilities: Option<String>,
}

pub open spec fn is_platform_id_char(c: char) -> bool {
    is_ascii_alnum(c) || c == '_' || c == '-' || c == '.'
}

/// A platform ID: 1 to 64 bytes of ASCII letters, digits, `_`, `-`, `.`.
pub open spec fn spec_is_valid_platform_id(s: Seq<char>) -> bool {
    s.len() > 0 && utf8_len(s) <= MAX_PLATFORM_ID_LEN && forall|i: int|
        0 <= i < s.len() ==> is_platform_id_char(#[trigger] s[i])
}

/// Validate that a platform ID contains only allowed characters and is bounded.
pub fn is_valid_platform_id(s: &str) -> (r: bool)
    ensures
        r == spec_is_valid_platform_id(s@),
{
    let v = to_chars(s);
    if v.len() == 0 || s.as_bytes().len() > MAX_PLATFORM_ID_LEN {
        return false;
    }
    let mut i: usize = 0;
    while i < v.len()
        invariant
            i <= v@.len(),
            v@ == s@,
            forall|j: int| 0 <= j < i ==> is_platform_id_char(#[trigger] v@[j]),
        decreases v@.len() - i,
    {
        let c = v[i];
        if !(is_ascii_alnum_char(c) || c == '_' || c == '-' || c == '.') {
            assert(!is_platform_id_char(v@[i as int]));
            return false;
        }
        i = i + 1;
    }
    true
}

/// The entries of a comma-separated list that are kept: trimmed,
/// non-empty, and at most 64 bytes long.
pub open spec fn kept_sources(pieces: Seq<Seq<char>>) -> Seq<Seq<char>>
    decreases pieces.len(),
{
    if pieces.len() == 0 {
        Seq::empty()
    } else {
        let rest = kept_sources(pieces.drop_last());
        let t = trim_seq(pieces.last());
        if t.len() > 0 && utf8_len(t) <= MAX_FORWARD_SOURCE_LEN {
            rest.push(t)
        } else {
            rest
        }
    }
}

/// At most the first 20 entries.
pub open spec fn take_sources(s: Seq<Seq<char>>) -> Seq<Seq<char>> {
    if s.len() > MAX_FORWARD_SOURCES {
        s.take(MAX_FORWARD_SOURCES as int)
    } else {
        s
    }
}

/// The allowlist read from the `forward_sources` parameter.
pub open spec fn spec_parse_forward_sources(raw: Option<Seq<char>>) -> Seq<Seq<char>> {
    let s = match raw {
        Some(r) => r,
        None => Seq::empty(),
    };
    take_sources(kept_sources(split_seq(s, ',')))
}

/// Parse `forward_sources` from a comma-separated string.
pub fn parse_forward_sources(raw: Option<&str>) -> (r: Vec<String>)
    ensures
        views(r@) == spec_parse_forward_sources(
            match raw {
                Some(s) => Some(s@),
                None => None,
            },
        ),
{
    proof {
        reveal_strlit("");
    }
    let s = match raw {
        Some(s) => s,
        None => "",
    };
    assert(s@ == match raw {
        Some(s) => s@,
        None => Seq::<char>::empty(),
    });
    let pieces = split_char(s, ',');
    let ghost ps = split_seq(s@, ',');
    let mut out: Vec<String> = Vec::new();
    let mut i: usize = 0;
    assert(ps.subrange(0, 0) =~= Seq::<Seq<char>>::empty());
    while i < pieces.len()
        invariant
            i <= pieces@.len(),
            views(pieces@) == ps,
            views(out@) == take_sources(kept_sources(ps.subrange(0, i as int))),
        decreases pieces@.len() - i,
    {
        let t = trim(pieces[i].as_str());
        let ghost before = views(out@);
        let ghost k = kept_sources(ps.subrange(0, i as int));
        proof {
            assert(ps.subrange(0, i + 1).drop_last() =~= ps.subrange(0, i as int));
            assert(ps.subrange(0, i + 1).last() == pieces@[i as int]@);
        }
        assert(kept_sources(ps.subrange(0, i + 1)) == if t@.len() > 0 && utf8_len(t@) <= 64nat {
            k.push(t@)
        } else {
            k
        });
        if t.as_str().unicode_len() > 0 && t.as_str().as_bytes().len() <= MAX_FORWARD_SOURCE_LEN {
            if out.len() < MAX_FORWARD_SOURCES {
                proof {
                    assert(views(out@).len() == out@.len());
                    if k.len() > 20 {
                        assert(take_sources(k).len() == 20);
                    }
                }
                assert(k.len() < 20);
                out.push(t);
                assert(views(out@) =~= before.push(t@));
                assert(take_sources(k.push(t@)) =~= k.push(t@));
            } else {
                proof {
                    assert(views(out@).len() == out@.len());
                }
                assert(k.len() >= 20);
                assert(k.push(t@).take(20) =~= k.take(20));
                proof {
                    if k.len() == 20 {
                        assert(k.take(20) =~= k);
                    }
                }
            }
        }
        i = i + 1;
    }
    assert(ps.subrange(0, pieces@.len() as int) =~= ps);
    out
}

/// Whether a subscriber with this allowlist gets a message from `source`:
/// messages from Matrix users are always forwarded; others only when the
/// list holds `*` or the source platform.
pub open spec fn spec_should_forward_source(sources: Seq<Seq<char>>, source: Seq<char>) -> bool {
    source == "matrix"@ || exists|i: int|
        0 <= i < sources.len() && (sources[i] == "*"@ || #[trigger] sources[i] == source)
}

/// Check if messages from the given source platform should be forwarded.
pub fn should_forward_source(sources: &Vec<String>, source_platform: &str) -> (r: bool)
    ensures
        r == spec_should_forward_source(views(sources@), source_platform@),
{
    proof {
        reveal_strlit("matrix");
        reveal_strlit("*");
    }
    if str_eq(source_platform, "matrix") {
        return true;
    }
    let ghost vs = views(sources@);
    let mut i: usize = 0;
    while i < sources.len()
        invariant
            i <= sources@.len(),
            vs == views(sources@),
            forall|j: int| 0 <= j < i ==> !(vs[j] == "*"@ || #[trigger] vs[j] == source_platform@),
        decreases sources@.len() - i,
    {
        let e = sources[i].as_str();
        if str_eq(e, "*") || str_eq(e, source_platform) {
            assert(vs[i as int] == sources@[i as int]@);
            return true;
        }
        i = i + 1;
    }
    false
}

/// Why WebSocket parameters are refused.
#[derive(Debug, Clone, Copy, PartialEq, Eq, Structural)]
pub enum WsParamError {
    /// The platform ID is empty, too long, or has other characters.
    InvalidPlatform,
}

/// The accepted parameters: platform, forward sources, capabilities.
pub struct WsSubscription {
    pub platform: String,
    pub forward_sources: Vec<String>,
    pub capabilities: Vec<String>,
}

/// Validate WebSocket connection parameters (before the upgrade).
pub fn validate_ws_params(params: &WsConnectParams) -> (r: Result<WsSubscription, WsParamError>)
    ensures
        spec_is_valid_platform_id(params.platform@) <==> r is Ok,
        r matches Ok(sub) ==> {
            &&& sub.platform@ == params.platform@
            &&& views(sub.forward_sources@) == spec_parse_forward_sources(
                match params.forward_sources {
                    Some(s) => Some(s@),
                    None => None,
                },
            )
            &&& views(sub.capabilities@) == spec_parse_forward_sources(
                match params.capabilities {
                    Some(s) => Some(s@),
                    None => None,
                },
            )
        },
        r matches Err(e) ==> e == WsParamError::InvalidPlatform,
{
    if !is_valid_platform_id(params.platform.as_str()) {
        return Err(WsParamError::InvalidPlatform);
    }
    let forward_sources = match &params.forward_sources {
        Some(s) => parse_forward_sources(Some(s.as_str())),
        None => parse_forward_sources(None),
    };
    let capabilities = match &params.capabilities {
        Some(s) => parse_forward_sources(Some(s.as_str())),
        None => parse_forward_sources(None),
    };
    Ok(WsSubscription { platform: params.platform.clone(), forward_sources, capabilities })
}

/// A frame received from the client while waiting for authentication.
pub enum WsAuthFrame {
    /// A text frame; `token` is the `access_token` of its JSON body when it
    /// parses as `{"access_token": ...}`.
    Text { token: Option<String> },
    /// The client closed the connection.
    Close,
    /// Any other frame (binary, ping, pong).
    Other,
}

/// The state of first-message authentication after a frame.
#[derive(Debug, Clone, Copy, PartialEq, Eq, Structural)]
pub enum WsAuthStep {
    /// Keep waiting for a text frame.
    Continue,
    /// The token matches: the session may proceed.
    Authenticated,
    /// Close the connection with code 4001.
    Rejected,
}

/// First-message authentication: the first text frame decides; a close
/// frame or the end of the stream rejects; other frames are skipped.
pub open spec fn spec_ws_auth_step(expected: Seq<char>, frame: Option<WsAuthFrame>) -> WsAuthStep {
    match frame {
        None => WsAuthStep::Rejected,
        Some(WsAuthFrame::Close) => WsAuthStep::Rejected,
        Some(WsAuthFrame::Other) => WsAuthStep::Continue,
        Some(WsAuthFrame::Text { token }) => match token {
            Some(t) => if t@ == expected {
                WsAuthStep::Authenticated
            } else {
                WsAuthStep::Rejected
            },
            None => WsAuthStep::Rejected,
        },
    }
}

/// Decide on a frame (or the end of the stream, `None`) received before
/// authentication.
pub fn ws_auth_step(expected: &str, frame: Option<WsAuthFrame>) -> (r: WsAuthStep)
    ensures
        r == spec_ws_auth_step(expected@, frame),
{
    match frame {
        None => WsAuthStep::Rejected,
        Some(WsAuthFrame::Close) => WsAuthStep::Rejected,
        Some(WsAuthFrame::Other) => WsAuthStep::Continue,
        Some(WsAuthFrame::Text { token }) => match token {
            Some(t) => if verify_token(t.as_str(), expected) {
                WsAuthStep::Authenticated
            } else {
                WsAuthStep::Rejected
            },
            None => WsAuthStep::Rejected,
        },
    }
}

/// The close reason sent when authentication fails.
pub fn ws_auth_failure_reason(timed_out: bool) -> (r: &'static str)
    ensures
        r@ == (if timed_out { "auth timeout"@ } else { "invalid or missing access_token"@ }),
{
    if timed_out {
        "auth timeout"
    } else {
        "invalid or missing access_token"
    }
}

/// A connected WebSocket client.
pub struct WsClientEntry {
    pub platform: String,
    pub id: String,
    pub forward_sources: Vec<String>,
    pub capabilities: Vec<String>,
}

/// What the table knows of a client.
pub struct ClientView {
    pub platform: Seq<char>,
    pub id: Seq<char>,
    pub forward_sources: Seq<Seq<char>>,
    pub capabilities: Seq<Seq<char>>,
}

impl View for WsClientEntry {
    type V = ClientView;

    open spec fn view(&self) -> ClientView {
        ClientView {
            platform: self.platform@,
            id: self.id@,
            forward_sources: views(self.forward_sources@),
            capabilities: views(self.capabilities@),
        }
    }
}

/// The connected WebSocket clients, in connection order.
pub struct WsClientTable {
    clients: Vec<WsClientEntry>,
}

/// The entries of a table view, without those matching a predicate.
pub open spec fn without(s: Seq<ClientView>, platform: Seq<char>, id: Seq<char>) -> Seq<ClientView>
    decreases s.len(),
{
    if s.len() == 0 {
        Seq::empty()
    } else {
        let rest = without(s.drop_last(), platform, id);
        if s.last().platform == platform && s.last().id == id {
            rest
        } else {
            rest.push(s.last())
        }
    }
}

/// The ids of the clients subscribed to `platform` that forward `source`, in order.
pub open spec fn targets(s: Seq<ClientView>, platform: Seq<char>, source: Seq<char>) -> Seq<Seq<char>>
    decreases s.len(),
{
    if s.len() == 0 {
        Seq::empty()
    } else {
        let rest = targets(s.drop_last(), platform, source);
        let c = s.last();
        if c.platform == platform && spec_should_forward_source(c.forward_sources, source) {
            rest.push(c.id)
        } else {
            rest
        }
    }
}

proof fn lemma_without_len(s: Seq<ClientView>, platform: Seq<char>, id: Seq<char>)
    ensures
        without(s, platform, id).len() <= s.len(),
    decreases s.len(),
{
    if s.len() > 0 {
        lemma_without_len(s.drop_last(), platform, id);
    }
}

impl WsClientTable {
    /// The clients, in connection order.
    pub closed spec fn spec_clients(&self) -> Seq<ClientView> {
        self.clients@.map_values(|c: WsClientEntry| c@)
    }

    /// An empty table.
    pub fn new() -> (r: Self)
        ensures
            r.spec_clients().len() == 0,
    {
        let r = WsClientTable { clients: Vec::new() };
        assert(r.spec_clients() =~= Seq::<ClientView>::empty());
        r
    }

    /// Total number of connected WebSocket clients across all platforms.
    pub fn total_clients(&self) -> (r: usize)
        ensures
            r == self.spec_clients().len(),
    {
        self.clients.len()
    }

    /// Register a client unless `max_clients` clients are already connected.
    pub fn try_register(
        &mut self,
        platform_id: &str,
        client_id: String,
        forward_sources: Vec<String>,
        capabilities: Vec<String>,
        max_clients: usize,
    ) -> (r: bool)
        ensures
            r == (old(self).spec_clients().len() < max_clients),
            r ==> final(self).spec_clients() == old(self).spec_clients().push(
                ClientView {
                    platform: platform_id@,
                    id: client_id@,
                    forward_sources: views(forward_sources@),
                    capabilities: views(capabilities@),
                },
            ),
            !r ==> final(self).spec_clients() == old(self).spec_clients(),
    {
        if self.clients.len() >= max_clients {
            return false;
        }
        let entry = WsClientEntry {
            platform: String::from_str(platform_id),
            id: client_id,
            forward_sources,
            capabilities,
        };
        let ghost before = self.spec_clients();
        self.clients.push(entry);
        assert(self.spec_clients() =~= before.push(entry@));
        true
    }

    /// Remove the client with this id from this platform.
    pub fn unregister(&mut self, platform_id: &str, client_id: &str)
        ensures
            final(self).spec_clients() == without(old(self).spec_clients(), platform_id@, client_id@),
    {
        let ghost orig = self.spec_clients();
        let mut kept: Vec<WsClientEntry> = Vec::new();
        let mut old_clients: Vec<WsClientEntry> = Vec::new();
        std::mem::swap(&mut old_clients, &mut self.clients);
        let ghost all = old_clients@;
        assert(all.map_values(|c: WsClientEntry| c@) == orig);
        // Reverse so that popping yields the clients in order.
        let mut rev: Vec<WsClientEntry> = Vec::new();
        let n = old_clients.len();
        while old_clients.len() > 0
            invariant
                old_clients@.len() + rev@.len() == n,
                n == all.len(),
                forall|k: int| 0 <= k < old_clients@.len() ==> old_clients@[k] == all[k],
                forall|k: int| 0 <= k < rev@.len() ==> rev@[k] == all[n - 1 - k],
            decreases old_clients@.len(),
        {
            let c = old_clients.pop().unwrap();
            rev.push(c);
        }
        assert(orig.subrange(0, 0) =~= Seq::<ClientView>::empty());
        while rev.len() > 0
            invariant
                n == all.len(),
                orig == all.map_values(|c: WsClientEntry| c@),
                rev@.len() <= n,
                forall|k: int| 0 <= k < rev@.len() ==> rev@[k] == all[n - 1 - k],
                kept@.map_values(|c: WsClientEntry| c@) == without(
                    orig.subrange(0, n - rev@.len()),
                    platform_id@,
                    client_id@,
                ),
            decreases rev@.len(),
        {
            let c = rev.pop().unwrap();
            let ghost i = n - 1 - rev@.len();
            proof {
                assert(orig.subrange(0, i + 1).drop_last() =~= orig.subrange(0, i));
                assert(orig.subrange(0, i + 1).last() == c@);
            }
            let same = str_eq(c.platform.as_str(), platform_id) && str_eq(c.id.as_str(), client_id);
            if !same {
                let ghost before = kept@.map_values(|c: WsClientEntry| c@);
                kept.push(c);
                assert(kept@.map_values(|c: WsClientEntry| c@) =~= before.push(c@));
            }
        }
        assert(orig.subrange(0, n as int) =~= orig);
        self.clients = kept;
    }

    /// The ids of the clients of `platform_id` that get a message from
    /// `source_platform` (a Matrix user when `None`).
    pub fn broadcast_targets(&self, platform_id: &str, source_platform: Option<&str>) -> (r: Vec<String>)
        ensures
            views(r@) == targets(
                self.spec_clients(),
                platform_id@,
                match source_platform {
                    Some(s) => s@,
                    None => "matrix"@,
                },
            ),
    {
        let source = match source_platform {
            Some(s) => s,
            None => "matrix",
        };
        let ghost all = self.spec_clients();
        let mut out: Vec<String> = Vec::new();
        let mut i: usize = 0;
        assert(all.subrange(0, 0) =~= Seq::<ClientView>::empty());
        while i < self.clients.len()
            invariant
                i <= self.clients@.len(),
                all == self.spec_clients(),
                all.len() == self.clients@.len(),
                views(out@) == targets(all.subrange(0, i as int), platform_id@, source@),
            decreases self.clients@.len() - i,
        {
            let c = &self.clients[i];
            proof {
                assert(all.subrange(0, i + 1).drop_last() =~= all.subrange(0, i as int));
                assert(all.subrange(0, i + 1).last() == c@);
            }
            if str_eq(c.platform.as_str(), platform_id) && should_forward_source(
                &c.forward_sources,
                source,
            ) {
                let ghost before = views(out@);
                out.push(c.id.clone());
                assert(views(out@) =~= before.push(c.id@));
            }
            i = i + 1;
        }
        assert(all.subrange(0, all.len() as int) =~= all);
        out
    }
}


impl WsClientTable {
    /// Whether a client of this platform is connected.
    pub fn has_clients(&self, platform_id: &str) -> (r: bool)
        ensures
            r == exists|i: int|
                0 <= i < self.spec_clients().len() && #[trigger] self.spec_clients()[i].platform
                    == platform_id@,
    {
        let mut i: usize = 0;
        while i < self.clients.len()
            invariant
                i <= self.clients@.len(),
                forall|j: int| 0 <= j < i ==> #[trigger] self.spec_clients()[j].platform != platform_id@,
            decreases self.clients@.len() - i,
        {
            assert(self.spec_clients()[i as int] == self.clients@[i as int]@);
            if str_eq(self.clients[i].platform.as_str(), platform_id) {
                assert(self.spec_clients()[i as int].platform == platform_id@);
                return true;
            }
            i = i + 1;
        }
        false
    }

    /// The platforms of the connected clients, each once, sorted.
    pub fn platforms(&self) -> (r: Vec<String>)
        ensures
            sorted_distinct(views(r@)),
            forall|s: Seq<char>| #[trigger]
                views(r@).contains(s) <==> exists|i: int|
                    0 <= i < self.spec_clients().len() && #[trigger] self.spec_clients()[i].platform
                        == s,
    {
        let mut out: Vec<String> = Vec::new();
        assert(views(out@) =~= Seq::<Seq<char>>::empty());
        let mut i: usize = 0;
        while i < self.clients.len()
            invariant
                i <= self.clients@.len(),
                sorted_distinct(views(out@)),
                forall|s: Seq<char>| #[trigger]
                    views(out@).contains(s) <==> exists|j: int|
                        0 <= j < i && #[trigger] self.spec_clients()[j].platform == s,
            decreases self.clients@.len() - i,
        {
            let ghost p = self.clients@[i as int].platform@;
            assert(self.spec_clients()[i as int] == self.clients@[i as int]@);
            insert_sorted(&mut out, self.clients[i].platform.clone());
            assert forall|s: Seq<char>| #[trigger]
                views(out@).contains(s) <==> exists|j: int|
                    0 <= j < i + 1 && #[trigger] self.spec_clients()[j].platform == s by {
                if s == p {
                    assert(self.spec_clients()[i as int].platform == s);
                }
            }
            i = i + 1;
        }
        out
    }

    /// The capabilities declared by the clients of a platform, each once,
    /// sorted.
    pub fn capabilities(&self, platform_id: &str) -> (r: Vec<String>)
        ensures
            sorted_distinct(views(r@)),
            forall|s: Seq<char>| #[trigger]
                views(r@).contains(s) <==> exists|i: int|
                    0 <= i < self.spec_clients().len() && self.spec_clients()[i].platform
                        == platform_id@ && #[trigger] self.spec_clients()[i].capabilities.contains(s),
    {
        let mut out: Vec<String> = Vec::new();
        assert(views(out@) =~= Seq::<Seq<char>>::empty());
        let mut i: usize = 0;
        while i < self.clients.len()
            invariant
                i <= self.clients@.len(),
                sorted_distinct(views(out@)),
                forall|s: Seq<char>| #[trigger]
                    views(out@).contains(s) <==> exists|j: int|
                        0 <= j < i && self.spec_clients()[j].platform == platform_id@
                            && #[trigger] self.spec_clients()[j].capabilities.contains(s),
            decreases self.clients@.len() - i,
        {
            let c = &self.clients[i];
            assert(self.spec_clients()[i as int] == c@);
            if str_eq(c.platform.as_str(), platform_id) {
                insert_all_sorted(&mut out, &c.capabilities);
            }
            assert forall|s: Seq<char>| #[trigger]
                views(out@).contains(s) <==> exists|j: int|
                    0 <= j < i + 1 && self.spec_clients()[j].platform == platform_id@
                        && #[trigger] self.spec_clients()[j].capabilities.contains(s) by {
                if c@.platform == platform_id@ && c@.capabilities.contains(s) {
                    assert(self.spec_clients()[i as int].capabilities.contains(s));
                }
            }
            i = i + 1;
        }
        out
    }
}

impl Default for WsClientTable {
    fn default() -> (r: Self)
        ensures
            r.spec_clients().len() == 0,
    {
        WsClientTable::new()
    }
}

} // verus!
