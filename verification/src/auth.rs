//! Token authentication for the appservice and Bridge API routes.
use vstd::prelude::*;
use vstd::string::*;
use vstd::utf8::*;

use crate::text::{seq_starts_with, split_char, split_seq, starts_with, string_of, to_chars, views};

verus! {

/// Newtype for the homeserver token (homeserver <-> appservice).
#[derive(Clone)]
pub struct HsToken(pub String);

/// Newtype for the Bridge API key (external services <-> bridge).
#[derive(Clone)]
pub struct ApiKey(pub String);

/// Compares two byte slices in constant time (`subtle::ConstantTimeEq` on
/// slices, turned into a `bool`).
///
/// The crate's documentation and source show that the comparison yields 1
/// exactly when the slices have the same length and the same bytes, which
/// is what the contract states.
#[verifier::external_body]
pub(crate) fn ct_eq_bytes(a: &[u8], b: &[u8]) -> (r: bool)
    ensures
        r == (a@ == b@),
{
    bool::from(subtle::ConstantTimeEq::ct_eq(a, b))
}

/// Verify that a provided token equals the expected one (constant-time
/// comparison of the bytes).
pub fn verify_token(provided: &str, expected: &str) -> (r: bool)
    ensures
        r == (provided@ == expected@),
{
    proof {
        encode_utf8_decode_utf8(provided@);
        encode_utf8_decode_utf8(expected@);
    }
    if provided.len() != expected.len() {
        return false;
    }
    ct_eq_bytes(provided.as_bytes(), expected.as_bytes())
}

/// `access_token=`
pub open spec fn access_token_key() -> Seq<char> {
    seq!['a', 'c', 'c', 'e', 's', 's', '_', 't', 'o', 'k', 'e', 'n', '=']
}

/// Position of the first piece that starts with `p`.
pub open spec fn first_prefixed(pieces: Seq<Seq<char>>, p: Seq<char>) -> Option<int>
    decreases pieces.len(),
{
    if pieces.len() == 0 {
        None
    } else if seq_starts_with(pieces[0], p) {
        Some(0)
    } else {
        match first_prefixed(pieces.drop_first(), p) {
            Some(i) => Some(i + 1),
            None => None,
        }
    }
}

proof fn lemma_first_prefixed(pieces: Seq<Seq<char>>, p: Seq<char>, i: int)
    requires
        0 <= i < pieces.len(),
        seq_starts_with(pieces[i], p),
        forall|j: int| 0 <= j < i ==> !seq_starts_with(#[trigger] pieces[j], p),
    ensures
        first_prefixed(pieces, p) == Some(i),
    decreases pieces.len(),
{
    if i > 0 {
        assert(!seq_starts_with(pieces[0], p));
        let rest = pieces.drop_first();
        assert forall|j: int| 0 <= j < i - 1 implies !seq_starts_with(#[trigger] rest[j], p) by {
            assert(rest[j] == pieces[j + 1]);
        }
        lemma_first_prefixed(rest, p, i - 1);
    }
}

proof fn lemma_first_prefixed_none(pieces: Seq<Seq<char>>, p: Seq<char>)
    requires
        forall|j: int| 0 <= j < pieces.len() ==> !seq_starts_with(#[trigger] pieces[j], p),
    ensures
        first_prefixed(pieces, p) is None,
    decreases pieces.len(),
{
    if pieces.len() > 0 {
        assert(!seq_starts_with(pieces[0], p));
        let rest = pieces.drop_first();
        assert forall|j: int| 0 <= j < rest.len() implies !seq_starts_with(#[trigger] rest[j], p) by {
            assert(rest[j] == pieces[j + 1]);
        }
        lemma_first_prefixed_none(rest, p);
    }
}

/// The value of the first `access_token=` pair of a query string.
pub open spec fn spec_parse_access_token(query: Seq<char>) -> Option<Seq<char>> {
    let pieces = split_seq(query, '&');
    match first_prefixed(pieces, access_token_key()) {
        Some(i) => Some(pieces[i].skip(13)),
        None => None,
    }
}

/// Find the `access_token` parameter in a URL query string.
pub fn parse_access_token(query: &str) -> (r: Option<String>)
    ensures
        match spec_parse_access_token(query@) {
            Some(v) => r is Some && r->0@ == v,
            None => r is None,
        },
{
    let pieces = split_char(query, '&');
    let ghost ps = split_seq(query@, '&');
    proof {
        reveal_strlit("access_token=");
        assert("access_token="@ =~= access_token_key());
    }
    let mut i: usize = 0;
    while i < pieces.len()
        invariant
            i <= pieces@.len(),
            views(pieces@) == ps,
            ps == split_seq(query@, '&'),
            "access_token="@ == access_token_key(),
            forall|j: int| 0 <= j < i ==> !seq_starts_with(#[trigger] ps[j], access_token_key()),
        decreases pieces@.len() - i,
    {
        assert(ps[i as int] == pieces@[i as int]@);
        if starts_with(pieces[i].as_str(), "access_token=") {
            let v = to_chars(pieces[i].as_str());
            let value = string_of(v.as_slice(), 13, v.len());
            proof {
                lemma_first_prefixed(ps, access_token_key(), i as int);
                assert(v@ == ps[i as int]);
                assert(value@ =~= ps[i as int].skip(13));
                assert(first_prefixed(ps, access_token_key()) == Some(i as int));
                assert(ps == split_seq(query@, '&'));
                assert(spec_parse_access_token(query@) == Some(ps[i as int].skip(13)));
            }
            return Some(value);
        }
        i = i + 1;
    }
    proof {
        assert(ps.len() == pieces@.len());
        lemma_first_prefixed_none(ps, access_token_key());
    }
    None
}

/// `Bearer `
pub open spec fn bearer_prefix() -> Seq<char> {
    seq!['B', 'e', 'a', 'r', 'e', 'r', ' ']
}

/// The token of an `Authorization` header value, if it uses the
/// (case-sensitive) `Bearer ` scheme.
pub open spec fn spec_bearer_from_header(value: Seq<char>) -> Option<Seq<char>> {
    if seq_starts_with(value, bearer_prefix()) {
        Some(value.skip(7))
    } else {
        None
    }
}

/// The token carried by an `Authorization: Bearer {token}` header value.
pub fn bearer_from_header(value: &str) -> (r: Option<String>)
    ensures
        match spec_bearer_from_header(value@) {
            Some(v) => r is Some && r->0@ == v,
            None => r is None,
        },
{
    proof {
        reveal_strlit("Bearer ");
        assert("Bearer "@ =~= bearer_prefix());
    }
    if starts_with(value, "Bearer ") {
        let v = to_chars(value);
        let t = string_of(v.as_slice(), 7, v.len());
        assert(t@ =~= value@.skip(7));
        Some(t)
    } else {
        None
    }
}

/// The token a request carries: from the `Authorization` header if it is a
/// bearer token, else from the `access_token` query parameter.
pub open spec fn spec_extract_bearer_token(header: Option<Seq<char>>, query: Option<Seq<char>>) -> Option<Seq<char>> {
    let from_header = match header {
        Some(h) => spec_bearer_from_header(h),
        None => None,
    };
    match from_header {
        Some(t) => Some(t),
        None => spec_parse_access_token(
            match query {
                Some(q) => q,
                None => Seq::empty(),
            },
        ),
    }
}

/// The token of a request, from its `Authorization` header value (when it
/// is valid text) and its query string.
pub fn extract_bearer_token(header: Option<&str>, query: Option<&str>) -> (r: Option<String>)
    ensures
        match spec_extract_bearer_token(
            match header { Some(h) => Some(h@), None => None },
            match query { Some(q) => Some(q@), None => None },
        ) {
            Some(v) => r is Some && r->0@ == v,
            None => r is None,
        },
{
    let from_header = match header {
        Some(h) => bearer_from_header(h),
        None => None,
    };
    match from_header {
        Some(t) => Some(t),
        None => match query {
            Some(q) => parse_access_token(q),
            None => {
                proof {
                    reveal_strlit("");
                }
                let r = parse_access_token("");
                assert(""@ =~= Seq::<char>::empty());
                r
            },
        },
    }
}

/// What the authentication middleware answers.
#[derive(Debug, Clone, Copy, PartialEq, Eq, Structural)]
pub enum AuthOutcome {
    /// The token matches: the request proceeds.
    Pass,
    /// No token was supplied (401).
    Unauthorized,
    /// A token was supplied but does not match (403).
    Forbidden,
    /// The expected token is not configured on the route (500).
    Misconfigured,
}

/// The decision of the token middleware, given the configured token and
/// the token the request carries.
pub open spec fn spec_auth_outcome(expected: Option<Seq<char>>, provided: Option<Seq<char>>) -> AuthOutcome {
    match expected {
        None => AuthOutcome::Misconfigured,
        Some(e) => match provided {
            None => AuthOutcome::Unauthorized,
            Some(p) => if p == e {
                AuthOutcome::Pass
            } else {
                AuthOutcome::Forbidden
            },
        },
    }
}

/// Decide a request on a token-protected route (`hs_token` or API key).
pub fn auth_outcome(expected: Option<&str>, provided: Option<&str>) -> (r: AuthOutcome)
    ensures
        r == spec_auth_outcome(
            match expected { Some(e) => Some(e@), None => None },
            match provided { Some(p) => Some(p@), None => None },
        ),
{
    match expected {
        None => AuthOutcome::Misconfigured,
        Some(e) => match provided {
            None => AuthOutcome::Unauthorized,
            Some(p) => if verify_token(p, e) {
                AuthOutcome::Pass
            } else {
                AuthOutcome::Forbidden
            },
        },
    }
}

} // verus!
