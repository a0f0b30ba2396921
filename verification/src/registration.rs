//! The appservice registration that the homeserver loads.
use vstd::prelude::*;
use vstd::string::*;

use crate::config::AppserviceConfig;
use crate::text::{push_char, to_chars, views};

verus! {

/// The registration file contents.
#[derive(Debug)]
pub struct Registration {
    pub id: String,
    pub url: String,
    pub as_token: String,
    pub hs_token: String,
    pub sender_localpart: String,
    pub namespaces: Namespaces,
    pub rate_limited: Option<bool>,
    pub protocols: Option<Vec<String>>,
    /// MSC2409: receive to-device events via /transactions.
    pub push_ephemeral: Option<bool>,
    /// MSC3202: receive device list changes and OTK counts via /transactions.
    pub msc3202: Option<bool>,
    /// MSC4190: device management for appservices.
    pub msc4190: Option<bool>,
}

#[derive(Debug)]
pub struct Namespaces {
    pub users: Vec<NamespaceEntry>,
    pub aliases: Vec<NamespaceEntry>,
    pub rooms: Vec<NamespaceEntry>,
}

#[derive(Debug)]
pub struct NamespaceEntry {
    pub exclusive: bool,
    pub regex: String,
}

/// Characters with a meaning in regular expressions.
pub open spec fn is_regex_special(c: char) -> bool {
    c == '.' || c == '*' || c == '+' || c == '?' || c == '(' || c == ')' || c == '[' || c == ']'
        || c == '{' || c == '}' || c == '\\' || c == '^' || c == '$' || c == '|'
}

/// `s` with a backslash before every regex special character.
pub open spec fn spec_regex_escape(s: Seq<char>) -> Seq<char>
    decreases s.len(),
{
    if s.len() == 0 {
        Seq::empty()
    } else {
        let c = s.last();
        spec_regex_escape(s.drop_last()) + if is_regex_special(c) {
            seq!['\\', c]
        } else {
            seq![c]
        }
    }
}

/// The decimal digit for `d < 10`.
pub open spec fn digit_char(d: nat) -> char {
    (d + 48) as char
}

/// Decimal representation of a natural number, without leading zeros.
pub open spec fn spec_decimal(n: nat) -> Seq<char>
    decreases n,
{
    if n < 10 {
        seq![digit_char(n)]
    } else {
        spec_decimal(n / 10).push(digit_char(n % 10))
    }
}

/// Decimal representation of `n`.
pub fn decimal(n: u64) -> (r: String)
    ensures
        r@ == spec_decimal(n as nat),
    decreases n,
{
    if n < 10 {
        let mut r = String::new();
        push_char(&mut r, ((n as u8) + 48) as char);
        assert(r@ =~= spec_decimal(n as nat));
        r
    } else {
        let mut r = decimal(n / 10);
        push_char(&mut r, (((n % 10) as u8) + 48) as char);
        r
    }
}

/// Escape regex special characters with a backslash.
pub fn regex_escape(s: &str) -> (r: String)
    ensures
        r@ == spec_regex_escape(s@),
{
    let v = to_chars(s);
    let mut r = String::new();
    let mut i: usize = 0;
    assert(v@.subrange(0, 0) =~= Seq::<char>::empty());
    while i < v.len()
        invariant
            i <= v@.len(),
            v@ == s@,
            r@ == spec_regex_escape(v@.subrange(0, i as int)),
        decreases v@.len() - i,
    {
        let c = v[i];
        let ghost before = r@;
        if c == '.' || c == '*' || c == '+' || c == '?' || c == '(' || c == ')' || c == '[' || c
            == ']' || c == '{' || c == '}' || c == '\\' || c == '^' || c == '$' || c == '|' {
            push_char(&mut r, '\\');
        }
        push_char(&mut r, c);
        proof {
            let t = v@.subrange(0, i + 1);
            assert(t.drop_last() =~= v@.subrange(0, i as int));
            assert(t.last() == c);
            if is_regex_special(c) {
                assert(r@ =~= before + seq!['\\', c]);
            } else {
                assert(r@ =~= before + seq![c]);
            }
        }
        i = i + 1;
    }
    assert(v@.subrange(0, v@.len() as int) =~= v@);
    r
}

/// The homeserver-facing URL of the bridge: `http://bridge:{port}`.
pub open spec fn spec_bridge_url(port: u16) -> Seq<char> {
    "http://bridge:"@ + spec_decimal(port as nat)
}

/// The user namespace that the bridge bot itself occupies: `@{escaped}:.*`.
pub open spec fn spec_sender_namespace(sender_localpart: Seq<char>) -> Seq<char> {
    seq!['@'] + spec_regex_escape(sender_localpart) + seq![':', '.', '*']
}

/// Every entry is exclusive and carries the given regexes, in order.
pub open spec fn entries_match(entries: Seq<NamespaceEntry>, regexes: Seq<Seq<char>>) -> bool {
    entries.len() == regexes.len() && forall|i: int|
        0 <= i < entries.len() ==> (#[trigger] entries[i]).exclusive && entries[i].regex@
            == regexes[i]
}

/// Exclusive namespace entries for a list of regexes, in order.
pub fn exclusive_entries(regexes: Vec<String>) -> (r: Vec<NamespaceEntry>)
    ensures
        entries_match(r@, views(regexes@)),
{
    let mut r: Vec<NamespaceEntry> = Vec::new();
    let mut regexes = regexes;
    let ghost orig = views(regexes@);
    let n = regexes.len();
    let mut rev: Vec<String> = Vec::new();
    // Reverse, so that popping yields the regexes in their original order.
    while regexes.len() > 0
        invariant
            regexes@.len() + rev@.len() == n,
            n == orig.len(),
            forall|k: int| 0 <= k < regexes@.len() ==> (#[trigger] regexes@[k])@ == orig[k],
            forall|k: int| 0 <= k < rev@.len() ==> (#[trigger] rev@[k])@ == orig[n - 1 - k],
        decreases regexes@.len(),
    {
        let x = regexes.pop().unwrap();
        rev.push(x);
    }
    while rev.len() > 0
        invariant
            rev@.len() + r@.len() == n,
            n == orig.len(),
            forall|k: int| 0 <= k < rev@.len() ==> (#[trigger] rev@[k])@ == orig[n - 1 - k],
            entries_match(r@, orig.subrange(0, r@.len() as int)),
        decreases rev@.len(),
    {
        let x = rev.pop().unwrap();
        let ghost k = r@.len();
        r.push(NamespaceEntry { exclusive: true, regex: x });
        assert(orig.subrange(0, r@.len() as int).subrange(0, k as int) =~= orig.subrange(0, k as int));
    }
    assert(orig.subrange(0, n as int) =~= orig);
    r
}

/// Build a registration from appservice config and platform namespace regexes.
pub fn build_registration(
    config: &AppserviceConfig,
    user_regexes: Vec<String>,
    alias_regexes: Vec<String>,
    encryption_enabled: bool,
) -> (r: Registration)
    ensures
        r.id@ == config.id@,
        r.url@ == spec_bridge_url(config.port),
        r.as_token@ == config.as_token@,
        r.hs_token@ == config.hs_token@,
        r.sender_localpart@ == config.sender_localpart@,
        r.namespaces.users@.len() == user_regexes@.len() + 1,
        entries_match(
            r.namespaces.users@.subrange(0, user_regexes@.len() as int),
            views(user_regexes@),
        ),
        r.namespaces.users@[user_regexes@.len() as int].exclusive,
        r.namespaces.users@[user_regexes@.len() as int].regex@ == spec_sender_namespace(
            config.sender_localpart@,
        ),
        entries_match(r.namespaces.aliases@, views(alias_regexes@)),
        r.namespaces.rooms@.len() == 0,
        r.rate_limited == Some(false),
        r.protocols is None,
        r.push_ephemeral == (if encryption_enabled { Some(true) } else { None }),
        r.msc3202 == (if encryption_enabled { Some(true) } else { None }),
        r.msc4190 == (if encryption_enabled { Some(true) } else { None }),
{
    let mut url = String::from_str("http://bridge:");
    let port = decimal(config.port as u64);
    url.append(port.as_str());
    let ghost n = user_regexes@.len();
    let ghost uv = views(user_regexes@);
    let mut users = exclusive_entries(user_regexes);
    let mut regex = String::new();
    push_char(&mut regex, '@');
    let escaped = regex_escape(config.sender_localpart.as_str());
    regex.append(escaped.as_str());
    push_char(&mut regex, ':');
    push_char(&mut regex, '.');
    push_char(&mut regex, '*');
    assert(regex@ =~= spec_sender_namespace(config.sender_localpart@));
    users.push(NamespaceEntry { exclusive: true, regex });
    assert(users@.subrange(0, n as int) =~= users@.drop_last());
    let aliases = exclusive_entries(alias_regexes);
    Registration {
        id: config.id.clone(),
        url,
        as_token: config.as_token.clone(),
        hs_token: config.hs_token.clone(),
        sender_localpart: config.sender_localpart.clone(),
        namespaces: Namespaces { users, aliases, rooms: Vec::new() },
        rate_limited: Some(false),
        protocols: None,
        push_ephemeral: if encryption_enabled {
            Some(true)
        } else {
            None
        },
        msc3202: if encryption_enabled {
            Some(true)
        } else {
            None
        },
        msc4190: if encryption_enabled {
            Some(true)
        } else {
            None
        },
    }
}

} // verus!
