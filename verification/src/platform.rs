//! Puppet user naming and Matrix identifier checks.
use vstd::prelude::*;
use vstd::string::*;

use crate::text::{find_char_from, is_ascii_digit, is_ascii_lower, is_first_index, push_char, seq_starts_with, string_of, to_chars};

verus! {

/// The first position of `c` in `s`, if any.
pub open spec fn first_index_of(s: Seq<char>, c: char) -> Option<int>
    decreases s.len(),
{
    if s.len() == 0 {
        None
    } else if s[0] == c {
        Some(0)
    } else {
        match first_index_of(s.drop_first(), c) {
            Some(i) => Some(i + 1),
            None => None,
        }
    }
}

/// `s` up to (not including) the first `c`, or all of `s`
/// (`s.split(c).next()`).
pub open spec fn take_until(s: Seq<char>, c: char) -> Seq<char> {
    match first_index_of(s, c) {
        Some(i) => s.take(i),
        None => s,
    }
}

pub proof fn lemma_first_index_of(s: Seq<char>, c: char, i: int)
    requires
        is_first_index(s, c, i),
    ensures
        first_index_of(s, c) == Some(i),
    decreases s.len(),
{
    if i > 0 {
        assert(is_first_index(s.drop_first(), c, i - 1));
        lemma_first_index_of(s.drop_first(), c, i - 1);
    }
}

pub proof fn lemma_first_index_of_none(s: Seq<char>, c: char)
    requires
        forall|j: int| 0 <= j < s.len() ==> s[j] != c,
    ensures
        first_index_of(s, c) is None,
    decreases s.len(),
{
    if s.len() > 0 {
        lemma_first_index_of_none(s.drop_first(), c);
    }
}

/// The first position of `c` in `v[from..]`, relative to `from`.
pub fn first_index_in(v: &[char], from: usize, c: char) -> (r: Option<usize>)
    requires
        from <= v@.len(),
    ensures
        first_index_of(v@.subrange(from as int, v@.len() as int), c) == match r {
            Some(i) => Some(i - from),
            None => None::<int>,
        },
        match r {
            Some(i) => from <= i < v@.len() && v@[i as int] == c && forall|j: int|
                from <= j < i ==> v@[j] != c,
            None => forall|j: int| from <= j < v@.len() ==> v@[j] != c,
        },
{
    let ghost t = v@.subrange(from as int, v@.len() as int);
    match find_char_from(v, from, c) {
        Some(i) => {
            proof {
                assert(is_first_index(t, c, i - from));
                lemma_first_index_of(t, c, i - from);
            }
            Some(i)
        },
        None => {
            proof {
                lemma_first_index_of_none(t, c);
            }
            None
        },
    }
}

/// The localpart of a Matrix user ID: between the leading `@` and the
/// first `:`. Empty when `sender` does not start with `@`.
pub open spec fn spec_localpart(sender: Seq<char>) -> Seq<char> {
    if sender.len() > 0 && sender[0] == '@' {
        take_until(sender.drop_first(), ':')
    } else {
        Seq::empty()
    }
}

/// The localpart of a puppet user: `{prefix}_{platform}_{user_id}`.
pub open spec fn spec_puppet_localpart(prefix: Seq<char>, platform: Seq<char>, user_id: Seq<char>) -> Seq<char> {
    prefix + seq!['_'] + platform + seq!['_'] + user_id
}

/// The source platform encoded in a puppet user ID `@{prefix}_{platform}_{user}:...`:
/// the platform must be non-empty lowercase ASCII letters and the user part
/// non-empty.
pub open spec fn spec_puppet_source_platform(sender: Seq<char>, prefix: Seq<char>) -> Option<Seq<char>> {
    let lp = spec_localpart(sender);
    let head = prefix + seq!['_'];
    if !seq_starts_with(lp, head) {
        None
    } else {
        let rest = lp.skip(head.len() as int);
        match first_index_of(rest, '_') {
            None => None,
            Some(pos) => {
                let platform = rest.take(pos);
                let user_part = rest.skip(pos + 1);
                if platform.len() > 0 && (forall|k: int| 0 <= k < platform.len() ==> is_ascii_lower(platform[k]))
                    && user_part.len() > 0 {
                    Some(platform)
                } else {
                    None
                }
            },
        }
    }
}

/// Build a puppet user localpart from prefix, platform, and external user ID.
///
/// Format: `{prefix}_{platform}_{user_id}`, e.g. `bot_telegram_12345`.
pub fn puppet_localpart(prefix: &str, platform: &str, user_id: &str) -> (r: String)
    ensures
        r@ == spec_puppet_localpart(prefix@, platform@, user_id@),
{
    let mut r = String::from_str(prefix);
    push_char(&mut r, '_');
    r.append(platform);
    push_char(&mut r, '_');
    r.append(user_id);
    r
}

/// The localpart of `sender` as a range `[from, to)` of its characters.
fn localpart_bounds(v: &[char]) -> (r: (usize, usize))
    ensures
        r.0 <= r.1 <= v@.len(),
        v@.subrange(r.0 as int, r.1 as int) == spec_localpart(v@),
{
    if v.len() == 0 || v[0] != '@' {
        return (0, 0);
    }
    let ghost t = v@.drop_first();
    assert(v@.subrange(1, v@.len() as int) =~= t);
    match first_index_in(v, 1, ':') {
        Some(i) => {
            assert(first_index_of(t, ':') == Some(i - 1));
            assert(v@.subrange(1, i as int) =~= t.take(i - 1));
            (1, i)
        },
        None => {
            assert(first_index_of(t, ':') is None);
            assert(v@.subrange(1, v@.len() as int) =~= t);
            (1, v.len())
        },
    }
}

/// The localpart of a Matrix user ID (between the leading `@` and the
/// first `:`).
pub fn localpart_of(user_id: &str) -> (r: String)
    ensures
        r@ == spec_localpart(user_id@),
{
    let v = to_chars(user_id);
    let (a, b) = localpart_bounds(v.as_slice());
    string_of(v.as_slice(), a, b)
}

/// Extract the source platform from a puppet user's Matrix ID.
///
/// Given `@bot_telegram_12345:domain` with prefix `"bot"`, returns `Some("telegram")`.
/// Returns `None` for non-puppet users.
pub fn puppet_source_platform(sender: &str, prefix: &str) -> (r: Option<String>)
    ensures
        match spec_puppet_source_platform(sender@, prefix@) {
            Some(p) => r is Some && r->0@ == p,
            None => r is None,
        },
{
    let v = to_chars(sender);
    let (a, b) = localpart_bounds(v.as_slice());
    let ghost lp = v@.subrange(a as int, b as int);
    let mut head = to_chars(prefix);
    head.push('_');
    let ghost h = head@;
    assert(h =~= prefix@ + seq!['_']);
    let lpv = v.as_slice();
    // Does the localpart start with `{prefix}_`?
    if head.len() > b - a {
        return None;
    }
    let mut k: usize = 0;
    while k < head.len()
        invariant
            a <= b <= v@.len(),
            lpv@ == v@,
            v@ == sender@,
            lp == v@.subrange(a as int, b as int),
            lp == spec_localpart(sender@),
            h == head@,
            h == prefix@ + seq!['_'],
            head@.len() <= b - a,
            k <= head@.len(),
            forall|j: int| 0 <= j < k ==> v@[a + j] == head@[j],
        decreases head@.len() - k,
    {
        if lpv[a + k] != head[k] {
            assert(lp.subrange(0, h.len() as int)[k as int] != h[k as int]);
            return None;
        }
        k = k + 1;
    }
    assert(lp.subrange(0, h.len() as int) =~= h);
    let rs = a + head.len();
    let ghost rest = lp.skip(h.len() as int);
    assert(rest =~= v@.subrange(rs as int, b as int));
    // Find the '_' that ends the platform name (within the localpart).
    let lv = string_of(lpv, rs, b);
    let lc = to_chars(lv.as_str());
    assert(lc@ =~= rest);
    assert(lc@.subrange(0, lc@.len() as int) =~= lc@);
    let pos = match first_index_in(lc.as_slice(), 0, '_') {
        Some(p) => p,
        None => return None,
    };
    let ghost platform = rest.take(pos as int);
    let ghost user_part = rest.skip(pos + 1);
    if pos == 0 || pos + 1 >= lc.len() {
        return None;
    }
    let mut j: usize = 0;
    while j < pos
        invariant
            pos < lc@.len(),
            j <= pos,
            lc@ == rest,
            platform == rest.take(pos as int),
            seq_starts_with(spec_localpart(sender@), prefix@ + seq!['_']),
            rest == spec_localpart(sender@).skip((prefix@ + seq!['_']).len() as int),
            first_index_of(rest, '_') == Some(pos as int),
            forall|t: int| 0 <= t < j ==> is_ascii_lower(lc@[t]),
        decreases pos - j,
    {
        let c = lc[j];
        if !('a' <= c && c <= 'z') {
            assert(platform[j as int] == c);
            assert(!is_ascii_lower(platform[j as int]));
            return None;
        }
        j = j + 1;
    }
    let out = string_of(lc.as_slice(), 0, pos);
    assert(out@ =~= platform);
    assert(forall|t: int| 0 <= t < platform.len() ==> is_ascii_lower(platform[t]));
    assert(user_part.len() > 0);
    Some(out)
}

/// Whether a localpart only uses characters allowed in Matrix user IDs.
pub open spec fn spec_is_valid_localpart(s: Seq<char>) -> bool {
    s.len() > 0 && forall|i: int| 0 <= i < s.len() ==> is_localpart_char(#[trigger] s[i])
}

/// `[a-z0-9._\-=/]`
pub open spec fn is_localpart_char(c: char) -> bool {
    is_ascii_lower(c) || is_ascii_digit(c) || c == '.' || c == '_' || c == '-' || c == '=' || c == '/'
}

/// Validate that a localpart only contains allowed Matrix user ID characters.
/// Per the Matrix spec, localparts must match `[a-z0-9._\-=/]+`.
pub fn is_valid_localpart(localpart: &str) -> (r: bool)
    ensures
        r == spec_is_valid_localpart(localpart@),
{
    let v = to_chars(localpart);
    if v.len() == 0 {
        return false;
    }
    let mut i: usize = 0;
    while i < v.len()
        invariant
            i <= v@.len(),
            v@ == localpart@,
            forall|j: int| 0 <= j < i ==> is_localpart_char(#[trigger] v@[j]),
        decreases v@.len() - i,
    {
        let c = v[i];
        if !(('a' <= c && c <= 'z') || ('0' <= c && c <= '9') || c == '.' || c == '_' || c == '-'
            || c == '=' || c == '/') {
            assert(!is_localpart_char(v@[i as int]));
            return false;
        }
        i = i + 1;
    }
    true
}

/// A Matrix user ID of the shape `@localpart:domain`: a leading `@`, a
/// non-empty localpart before the first `:`, and a non-empty domain after it.
pub open spec fn spec_is_valid_matrix_user_id(s: Seq<char>) -> bool {
    s.len() > 0 && s[0] == '@' && match first_index_of(s.drop_first(), ':') {
        Some(i) => i > 0 && i + 2 < s.len(),
        None => false,
    }
}

/// Whether `user_id` has the shape `@localpart:domain`.
pub fn is_valid_matrix_user_id(user_id: &str) -> (r: bool)
    ensures
        r == spec_is_valid_matrix_user_id(user_id@),
{
    let v = to_chars(user_id);
    if v.len() == 0 || v[0] != '@' {
        return false;
    }
    let ghost t = v@.drop_first();
    assert(v@.subrange(1, v@.len() as int) =~= t);
    match first_index_in(v.as_slice(), 1, ':') {
        Some(i) => {
            assert(first_index_of(t, ':') == Some(i - 1));
            i > 1 && i + 1 < v.len()
        },
        None => {
            assert(first_index_of(t, ':') is None);
            false
        },
    }
}

/// The user namespace regex a webhook platform claims: `@{platform}_.*`.
pub open spec fn spec_user_namespace_regex(platform: Seq<char>) -> Seq<char> {
    seq!['@'] + platform + seq!['_', '.', '*']
}

/// The alias namespace regex a webhook platform claims: `#{platform}_.*`.
pub open spec fn spec_alias_namespace_regex(platform: Seq<char>) -> Seq<char> {
    seq!['#'] + platform + seq!['_', '.', '*']
}

/// User namespace regex of a webhook platform.
pub fn user_namespace_regex(platform_id: &str) -> (r: String)
    ensures
        r@ == spec_user_namespace_regex(platform_id@),
{
    let mut r = String::new();
    push_char(&mut r, '@');
    r.append(platform_id);
    push_char(&mut r, '_');
    push_char(&mut r, '.');
    push_char(&mut r, '*');
    assert(r@ =~= spec_user_namespace_regex(platform_id@));
    r
}

/// Alias namespace regex of a webhook platform.
pub fn alias_namespace_regex(platform_id: &str) -> (r: String)
    ensures
        r@ == spec_alias_namespace_regex(platform_id@),
{
    let mut r = String::new();
    push_char(&mut r, '#');
    r.append(platform_id);
    push_char(&mut r, '_');
    push_char(&mut r, '.');
    push_char(&mut r, '*');
    assert(r@ =~= spec_alias_namespace_regex(platform_id@));
    r
}

/// The synthetic external message ID a webhook platform reports for a
/// delivered message: `wh_{platform}_{message_id}`.
pub open spec fn spec_webhook_message_id(platform: Seq<char>, message_id: Seq<char>) -> Seq<char> {
    seq!['w', 'h', '_'] + platform + seq!['_'] + message_id
}

/// Synthetic external message ID for a message delivered via webhooks.
pub fn webhook_message_id(platform_id: &str, message_id: &str) -> (r: String)
    ensures
        r@ == spec_webhook_message_id(platform_id@, message_id@),
{
    let mut r = String::new();
    push_char(&mut r, 'w');
    push_char(&mut r, 'h');
    push_char(&mut r, '_');
    r.append(platform_id);
    push_char(&mut r, '_');
    r.append(message_id);
    assert(r@ =~= spec_webhook_message_id(platform_id@, message_id@));
    r
}

} // verus!
