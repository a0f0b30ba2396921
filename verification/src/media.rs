//! `mxc://` URIs and media URLs in message content.
use vstd::prelude::*;
use vstd::string::*;

use crate::message::MessageContent;
use crate::platform::{first_index_in, first_index_of};
use crate::platform::take_until;
use crate::text::{
    after_last, after_last_start, find_sub_from, first_occ_from, chars_match_at, contains_str, is_ascii_alnum, is_ascii_alnum_char, occurs_at, push_char,
    seq_contains_sub, seq_starts_with, starts_with, string_of, to_chars, trim_bounds, trim_seq,
};

verus! {

/// Why an `mxc://` URI is refused.
#[derive(Debug, Clone, Copy, PartialEq, Eq, Structural)]
pub enum MxcError {
    /// It does not start with `mxc://`.
    NotMxc,
    /// There is no `/` after the server name.
    MissingMediaId,
    /// The server name or the media ID is empty.
    EmptyComponent,
    /// A component holds `..` or a character outside `[A-Za-z0-9._:-]`.
    UnsafeCharacters,
}

pub open spec fn is_mxc_char(c: char) -> bool {
    is_ascii_alnum(c) || c == '-' || c == '_' || c == '.' || c == ':'
}

/// An mxc component holds no `..` and only `[A-Za-z0-9._:-]`.
pub open spec fn spec_is_safe_mxc_component(s: Seq<char>) -> bool {
    !seq_contains_sub(s, seq!['.', '.']) && forall|i: int| 0 <= i < s.len() ==> is_mxc_char(#[trigger] s[i])
}

/// Check that an mxc URI component contains only safe characters.
/// Rejects path traversal sequences (`..`, `/`, `\`, `%`, NUL).
pub fn is_safe_mxc_component(s: &str) -> (r: bool)
    ensures
        r == spec_is_safe_mxc_component(s@),
{
    proof {
        reveal_strlit("..");
        assert(".."@ =~= seq!['.', '.']);
    }
    if contains_str(s, "..") {
        return false;
    }
    let v = to_chars(s);
    let mut i: usize = 0;
    while i < v.len()
        invariant
            i <= v@.len(),
            v@ == s@,
            forall|j: int| 0 <= j < i ==> is_mxc_char(#[trigger] v@[j]),
        decreases v@.len() - i,
    {
        let c = v[i];
        if !(is_ascii_alnum_char(c) || c == '-' || c == '_' || c == '.' || c == ':') {
            assert(!is_mxc_char(v@[i as int]));
            return false;
        }
        i = i + 1;
    }
    true
}

/// `mxc://`
pub open spec fn mxc_scheme() -> Seq<char> {
    seq!['m', 'x', 'c', ':', '/', '/']
}

/// The server name and media ID of an `mxc://server/media` URI.
pub open spec fn spec_parse_mxc(uri: Seq<char>) -> Result<(Seq<char>, Seq<char>), MxcError> {
    if !seq_starts_with(uri, mxc_scheme()) {
        Err(MxcError::NotMxc)
    } else {
        let rest = uri.skip(6);
        match first_index_of(rest, '/') {
            None => Err(MxcError::MissingMediaId),
            Some(i) => {
                let server = rest.take(i);
                let media = rest.skip(i + 1);
                if server.len() == 0 || media.len() == 0 {
                    Err(MxcError::EmptyComponent)
                } else if !spec_is_safe_mxc_component(server) || !spec_is_safe_mxc_component(media) {
                    Err(MxcError::UnsafeCharacters)
                } else {
                    Ok((server, media))
                }
            },
        }
    }
}

/// Parse an `mxc://server_name/media_id` URI into its components.
pub fn parse_mxc(mxc_uri: &str) -> (r: Result<(String, String), MxcError>)
    ensures
        match spec_parse_mxc(mxc_uri@) {
            Ok((s, m)) => r is Ok && r->Ok_0.0@ == s && r->Ok_0.1@ == m,
            Err(e) => r == Err::<(String, String), MxcError>(e),
        },
{
    proof {
        reveal_strlit("mxc://");
        assert("mxc://"@ =~= mxc_scheme());
    }
    if !starts_with(mxc_uri, "mxc://") {
        return Err(MxcError::NotMxc);
    }
    let v = to_chars(mxc_uri);
    let ghost rest = mxc_uri@.skip(6);
    assert(v@.subrange(6, v@.len() as int) =~= rest);
    let i = match first_index_in(v.as_slice(), 6, '/') {
        Some(i) => i,
        None => return Err(MxcError::MissingMediaId),
    };
    let server = string_of(v.as_slice(), 6, i);
    let media = string_of(v.as_slice(), i + 1, v.len());
    assert(server@ =~= rest.take(i - 6));
    assert(media@ =~= rest.skip(i - 6 + 1));
    if i == 6 || i + 1 == v.len() {
        return Err(MxcError::EmptyComponent);
    }
    if !is_safe_mxc_component(server.as_str()) || !is_safe_mxc_component(media.as_str()) {
        return Err(MxcError::UnsafeCharacters);
    }
    Ok((server, media))
}

/// `/_matrix/media/v3/download/`
pub open spec fn download_path() -> Seq<char> {
    "/_matrix/media/v3/download/"@
}

/// The homeserver download URL of an `mxc://` URI.
pub open spec fn spec_mxc_to_download_url(homeserver_url: Seq<char>, mxc_uri: Seq<char>) -> Option<Seq<char>> {
    match spec_parse_mxc(mxc_uri) {
        Ok((server, media)) => Some(homeserver_url + download_path() + server + seq!['/'] + media),
        Err(_) => None,
    }
}

/// Convert an `mxc://` URI to a publicly downloadable HTTP URL on the
/// homeserver.
pub fn mxc_to_download_url(homeserver_url: &str, mxc_uri: &str) -> (r: Option<String>)
    ensures
        match spec_mxc_to_download_url(homeserver_url@, mxc_uri@) {
            Some(u) => r is Some && r->0@ == u,
            None => r is None,
        },
{
    match parse_mxc(mxc_uri) {
        Ok((server, media)) => {
            let mut u = String::from_str(homeserver_url);
            u.append("/_matrix/media/v3/download/");
            u.append(server.as_str());
            push_char(&mut u, '/');
            u.append(media.as_str());
            Some(u)
        },
        Err(_) => None,
    }
}

/// The URL external platforms can fetch: the download URL of an `mxc://`
/// URI, or the URL unchanged when it is not one (or is not valid).
pub open spec fn spec_mxc_to_http(homeserver_url: Seq<char>, url: Seq<char>) -> Seq<char> {
    if !seq_starts_with(url, mxc_scheme()) {
        url
    } else {
        match spec_mxc_to_download_url(homeserver_url, url) {
            Some(u) => u,
            None => url,
        }
    }
}

/// Convert a single `mxc://` URI to an HTTP download URL, or return it
/// as-is if it is not a valid mxc URI.
pub fn mxc_to_http(homeserver_url: &str, url: &str) -> (r: String)
    ensures
        r@ == spec_mxc_to_http(homeserver_url@, url@),
{
    proof {
        reveal_strlit("mxc://");
        assert("mxc://"@ =~= mxc_scheme());
    }
    if !starts_with(url, "mxc://") {
        return String::from_str(url);
    }
    match mxc_to_download_url(homeserver_url, url) {
        Some(u) => u,
        None => String::from_str(url),
    }
}

/// `http://` or `https://`.
pub open spec fn spec_is_external_url(url: Seq<char>) -> bool {
    seq_starts_with(url, "http://"@) || seq_starts_with(url, "https://"@)
}

/// Whether a media URL points outside the Matrix media repository.
pub fn is_external_url(url: &str) -> (r: bool)
    ensures
        r == spec_is_external_url(url@),
{
    starts_with(url, "http://") || starts_with(url, "https://")
}

/// The media URL of a content, for the media variants.
pub open spec fn media_url(c: MessageContent) -> Option<Seq<char>> {
    match c {
        MessageContent::Image { url, .. } => Some(url@),
        MessageContent::File { url, .. } => Some(url@),
        MessageContent::Video { url, .. } => Some(url@),
        MessageContent::Audio { url, .. } => Some(url@),
        _ => None,
    }
}

/// `c` and `d` are the same content except, for media, the URL: `d` has
/// the URL `f(url of c)`.
pub open spec fn same_but_url(c: MessageContent, d: MessageContent, new_url: Seq<char>) -> bool {
    match (c, d) {
        (
            MessageContent::Image { caption, mimetype, filename, width, height, size, .. },
            MessageContent::Image { url: u2, caption: c2, mimetype: m2, filename: f2, width: w2, height: h2, size: s2 },
        ) => u2@ == new_url && c2 == caption && m2 == mimetype && f2 == filename && w2 == width && h2 == height
            && s2 == size,
        (
            MessageContent::File { filename, mimetype, size, .. },
            MessageContent::File { url: u2, filename: f2, mimetype: m2, size: s2 },
        ) => u2@ == new_url && f2 == filename && m2 == mimetype && s2 == size,
        (
            MessageContent::Video { caption, mimetype, filename, width, height, size, duration, .. },
            MessageContent::Video {
                url: u2,
                caption: c2,
                mimetype: m2,
                filename: f2,
                width: w2,
                height: h2,
                size: s2,
                duration: d2,
            },
        ) => u2@ == new_url && c2 == caption && m2 == mimetype && f2 == filename && w2 == width && h2 == height
            && s2 == size && d2 == duration,
        (
            MessageContent::Audio { mimetype, filename, size, duration, .. },
            MessageContent::Audio { url: u2, mimetype: m2, filename: f2, size: s2, duration: d2 },
        ) => u2@ == new_url && m2 == mimetype && f2 == filename && s2 == size && d2 == duration,
        _ => false,
    }
}

/// Replace the media URL in a `MessageContent`; other contents are returned
/// unchanged.
pub fn replace_media_url(content: MessageContent, new_url: &str) -> (r: MessageContent)
    ensures
        media_url(content) is Some ==> same_but_url(content, r, new_url@),
        media_url(content) is None ==> r == content,
{
    match content {
        MessageContent::Image { caption, mimetype, filename, width, height, size, .. } =>
            MessageContent::Image {
            url: String::from_str(new_url),
            caption,
            mimetype,
            filename,
            width,
            height,
            size,
        },
        MessageContent::File { filename, mimetype, size, .. } => MessageContent::File {
            url: String::from_str(new_url),
            filename,
            mimetype,
            size,
        },
        MessageContent::Video { caption, mimetype, filename, width, height, size, duration, .. } =>
            MessageContent::Video {
            url: String::from_str(new_url),
            caption,
            mimetype,
            filename,
            width,
            height,
            size,
            duration,
        },
        MessageContent::Audio { mimetype, filename, size, duration, .. } => MessageContent::Audio {
            url: String::from_str(new_url),
            mimetype,
            filename,
            size,
            duration,
        },
        other => other,
    }
}

/// Convert the mxc:// URL of a media content to an HTTP download URL.
pub fn convert_mxc_urls(homeserver_url: &str, content: MessageContent) -> (r: MessageContent)
    ensures
        match media_url(content) {
            Some(u) => same_but_url(content, r, spec_mxc_to_http(homeserver_url@, u)),
            None => r == content,
        },
{
    let new_url = match &content {
        MessageContent::Image { url, .. } => Some(mxc_to_http(homeserver_url, url.as_str())),
        MessageContent::File { url, .. } => Some(mxc_to_http(homeserver_url, url.as_str())),
        MessageContent::Video { url, .. } => Some(mxc_to_http(homeserver_url, url.as_str())),
        MessageContent::Audio { url, .. } => Some(mxc_to_http(homeserver_url, url.as_str())),
        _ => None,
    };
    match new_url {
        Some(u) => replace_media_url(content, u.as_str()),
        None => content,
    }
}

/// What `urlencoding::decode` makes of a string: the percent-decoded
/// text, or `None` when the decoded bytes are not UTF-8.
pub uninterp spec fn url_decode_view(s: Seq<char>) -> Option<Seq<char>>;

/// Percent-decodes a string with `urlencoding::decode`.
///
/// The contract names the result (`url_decode_view`) and states one fact the
/// crate's source shows: a string without `%` decodes to itself.
#[verifier::external_body]
fn url_decode(s: &str) -> (r: Option<String>)
    ensures
        match r {
            Some(d) => url_decode_view(s@) == Some(d@),
            None => url_decode_view(s@) is None,
        },
        (forall|i: int| 0 <= i < s@.len() ==> s@[i] != '%') ==> r is Some && r->0@ == s@,
{
    match urlencoding::decode(s) {
        Ok(d) => Some(d.into_owned()),
        Err(_) => None,
    }
}

/// `:` `/` `/`
pub open spec fn scheme_sep() -> Seq<char> {
    seq![':', '/', '/']
}

/// The authority and path of a URL: after the first `://`, up to the next
/// one if any (`url.split("://").nth(1)`).
pub open spec fn after_scheme(url: Seq<char>) -> Option<Seq<char>> {
    match first_occ_from(url, scheme_sep(), 0) {
        None => None,
        Some(i) => {
            let rest = url.skip(i + 3);
            Some(
                match first_occ_from(rest, scheme_sep(), 0) {
                    Some(j) => rest.take(j),
                    None => rest,
                },
            )
        },
    }
}

/// The last path segment of a URL, without query string or fragment.
pub open spec fn last_segment(url: Seq<char>) -> Option<Seq<char>> {
    match after_scheme(url) {
        None => None,
        Some(a) => match first_index_of(a, '/') {
            None => None,
            Some(k) => Some(after_last(take_until(take_until(a.skip(k), '?'), '#'), '/')),
        },
    }
}

/// `/`, `\` and NUL become `_`.
pub open spec fn sanitize_char(c: char) -> char {
    if c == '/' || c == '\\' || c == '\0' {
        '_'
    } else {
        c
    }
}

/// The number of leading `.` characters.
pub open spec fn leading_dots(s: Seq<char>) -> nat
    decreases s.len(),
{
    if s.len() > 0 && s[0] == '.' {
        1 + leading_dots(s.drop_first())
    } else {
        0
    }
}

/// A file name taken from a URL: the percent-decoded, trimmed last path
/// segment, with `/`, `\` and NUL replaced by `_`, leading dots removed,
/// and at most 255 characters; `None` when nothing remains.
pub open spec fn spec_filename_from_url(url: Seq<char>) -> Option<Seq<char>> {
    match last_segment(url) {
        None => None,
        Some(seg) => match url_decode_view(seg) {
            None => None,
            Some(decoded) => {
                let name = trim_seq(decoded);
                if name.len() == 0 {
                    None
                } else {
                    let replaced = name.map_values(|c: char| sanitize_char(c));
                    let stripped = replaced.skip(leading_dots(replaced) as int);
                    if stripped.len() == 0 {
                        None
                    } else if stripped.len() > 255 {
                        Some(stripped.take(255))
                    } else {
                        Some(stripped)
                    }
                }
            },
        },
    }
}

fn skip_dots(v: &[char], from: usize) -> (r: usize)
    requires
        from <= v@.len(),
    ensures
        from <= r <= v@.len(),
        r - from == leading_dots(v@.subrange(from as int, v@.len() as int)),
    decreases v@.len() - from,
{
    if from < v.len() && v[from] == '.' {
        assert(v@.subrange(from as int, v@.len() as int).drop_first() =~= v@.subrange(
            from + 1,
            v@.len() as int,
        ));
        skip_dots(v, from + 1)
    } else {
        from
    }
}

/// The characters of `after_scheme(url)`.
fn after_scheme_chars(url: &str) -> (r: Option<Vec<char>>)
    ensures
        match after_scheme(url@) {
            Some(a) => r is Some && r->0@ == a,
            None => r is None,
        },
{
    let v = to_chars(url);
    let sep: Vec<char> = vec![':', '/', '/'];
    assert(sep@ =~= scheme_sep());
    let i = match find_sub_from(v.as_slice(), 0, sep.as_slice()) {
        Some(i) => i,
        None => return None,
    };
    assert(v@.len() == v.len());
    let rs = i + 3;
    let rest_s = string_of(v.as_slice(), rs, v.len());
    let rest = to_chars(rest_s.as_str());
    assert(rest@ =~= url@.skip(i + 3));
    let end = match find_sub_from(rest.as_slice(), 0, sep.as_slice()) {
        Some(j) => j,
        None => rest.len(),
    };
    proof {
        if end == rest@.len() {
            assert(rest@.subrange(0, end as int) =~= rest@);
        }
    }
    let a_str = string_of(rest.as_slice(), 0, end);
    let av = to_chars(a_str.as_str());
    assert(av@ =~= after_scheme(url@)->0);
    Some(av)
}

/// `take_until(v, c)`, as characters.
fn take_until_chars(v: &[char], c: char) -> (r: Vec<char>)
    ensures
        r@ == take_until(v@, c),
{
    assert(v@.subrange(0, v@.len() as int) =~= v@);
    let e = match first_index_in(v, 0, c) {
        Some(q) => q,
        None => v.len(),
    };
    let s = string_of(v, 0, e);
    let r = to_chars(s.as_str());
    assert(r@ =~= take_until(v@, c));
    r
}

/// The characters of `last_segment(url)`.
fn last_segment_string(url: &str) -> (r: Option<String>)
    ensures
        match last_segment(url@) {
            Some(seg) => r is Some && r->0@ == seg,
            None => r is None,
        },
{
    let av = match after_scheme_chars(url) {
        Some(av) => av,
        None => return None,
    };
    let ghost a = av@;
    assert(av@.subrange(0, av@.len() as int) =~= av@);
    let k = match first_index_in(av.as_slice(), 0, '/') {
        Some(k) => k,
        None => return None,
    };
    let p1 = string_of(av.as_slice(), k, av.len());
    let pv = to_chars(p1.as_str());
    assert(pv@ =~= a.skip(k as int));
    let p2v = take_until_chars(pv.as_slice(), '?');
    let p3v = take_until_chars(p2v.as_slice(), '#');
    let st = after_last_start(p3v.as_slice(), 0, p3v.len(), '/');
    assert(p3v@.subrange(0, p3v@.len() as int) =~= p3v@);
    let seg = string_of(p3v.as_slice(), st, p3v.len());
    Some(seg)
}

/// `v` with `/`, `\\` and NUL replaced by `_`.
fn sanitize_chars(v: &[char], from: usize, to: usize) -> (r: Vec<char>)
    requires
        from <= to <= v@.len(),
    ensures
        r@ == v@.subrange(from as int, to as int).map_values(|c: char| sanitize_char(c)),
{
    let mut replaced: Vec<char> = Vec::new();
    let mut j = from;
    while j < to
        invariant
            from <= j <= to <= v@.len(),
            replaced@ == v@.subrange(from as int, j as int).map_values(|c: char| sanitize_char(c)),
        decreases to - j,
    {
        let c = v[j];
        let d = if c == '/' || c == '\\' || c == '\0' {
            '_'
        } else {
            c
        };
        replaced.push(d);
        j = j + 1;
        assert(replaced@ =~= v@.subrange(from as int, j as int).map_values(|c: char| sanitize_char(c)));
    }
    replaced
}

/// Extract a filename from a URL path, stripping query strings and fragments.
/// The result is sanitized: path traversal characters are replaced, leading
/// dots removed, and the length capped at 255 characters.
pub fn filename_from_url(url: &str) -> (r: Option<String>)
    ensures
        match spec_filename_from_url(url@) {
            Some(n) => r is Some && r->0@ == n,
            None => r is None,
        },
{
    let seg = match last_segment_string(url) {
        Some(s) => s,
        None => return None,
    };
    let decoded = match url_decode(seg.as_str()) {
        Some(d) => d,
        None => return None,
    };
    let dv = to_chars(decoded.as_str());
    let (t0, t1) = trim_bounds(dv.as_slice(), 0, dv.len());
    assert(dv@.subrange(0, dv@.len() as int) =~= dv@);
    let ghost name = trim_seq(decoded@);
    if t0 == t1 {
        return None;
    }
    let replaced = sanitize_chars(dv.as_slice(), t0, t1);
    let ghost rep = name.map_values(|c: char| sanitize_char(c));
    assert(replaced@ =~= rep);
    let d0 = skip_dots(replaced.as_slice(), 0);
    assert(replaced@.subrange(0, replaced@.len() as int) =~= rep);
    if d0 == replaced.len() {
        return None;
    }
    let stop = if replaced.len() - d0 > 255 {
        d0 + 255
    } else {
        replaced.len()
    };
    let out = string_of(replaced.as_slice(), d0, stop);
    proof {
        let stripped = rep.skip(leading_dots(rep) as int);
        if stripped.len() > 255 {
            assert(out@ =~= stripped.take(255));
        } else {
            assert(out@ =~= stripped);
        }
    }
    Some(out)
}

} // verus!
