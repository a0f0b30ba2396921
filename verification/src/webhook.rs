//! Webhook registration checks (scheme, SSRF protection) and the routing of
//! outbound messages to webhooks.
use vstd::prelude::*;
use vstd::string::*;

use crate::net::{is_private_ip, spec_is_private_ip, IpAddress};
use crate::text::{str_eq, to_chars, trim, trim_seq, split_char, split_seq, views};

verus! {

/// Declares the `url` crate's parse error, carried through unchanged.
#[verifier::external_type_specification]
#[verifier::external_body]
pub struct ExUrlParseError(url::ParseError);

/// The host of a parsed URL.
#[derive(Debug, Clone)]
pub enum UrlHost {
    Domain(String),
    Ip(IpAddress),
}

/// The parts of a parsed URL that the bridge reads.
#[derive(Debug, Clone)]
pub struct ParsedUrl {
    pub scheme: String,
    pub host: Option<UrlHost>,
    /// The explicit port, absent when it is the scheme's default.
    pub port: Option<u16>,
}

pub enum UrlHostView {
    Domain(Seq<char>),
    Ip(IpAddress),
}

pub struct ParsedUrlView {
    pub scheme: Seq<char>,
    pub host: Option<UrlHostView>,
    pub port: Option<u16>,
}

impl View for UrlHost {
    type V = UrlHostView;

    open spec fn view(&self) -> UrlHostView {
        match self {
            UrlHost::Domain(d) => UrlHostView::Domain(d@),
            UrlHost::Ip(ip) => UrlHostView::Ip(*ip),
        }
    }
}

impl View for ParsedUrl {
    type V = ParsedUrlView;

    open spec fn view(&self) -> ParsedUrlView {
        ParsedUrlView {
            scheme: self.scheme@,
            host: match self.host {
                Some(h) => Some(h@),
                None => None,
            },
            port: self.port,
        }
    }
}

/// What `url::Url::parse` makes of a string: its scheme, host and
/// explicit port, or `None` when it is not a valid URL.
pub uninterp spec fn url_parse_view(s: Seq<char>) -> Option<ParsedUrlView>;

/// Parses a URL with `url::Url::parse` and reads its scheme, host (domain,
/// IPv4 or IPv6) and explicit port.
///
/// The contract names the result (`url_parse_view`) and claims only that
/// parsing depends on the input string alone; the WHATWG URL grammar that
/// decides it is not restated.
#[verifier::external_body]
fn parse_url(s: &str) -> (r: Result<ParsedUrl, url::ParseError>)
    ensures
        match r {
            Ok(p) => url_parse_view(s@) == Some(p@),
            Err(_) => url_parse_view(s@) is None,
        },
{
    match url::Url::parse(s) {
        Ok(u) => Ok(ParsedUrl {
            scheme: u.scheme().to_string(),
            host: match u.host() {
                None => None,
                Some(url::Host::Domain(d)) => Some(UrlHost::Domain(d.to_string())),
                Some(url::Host::Ipv4(a)) => Some(UrlHost::Ip(IpAddress::V4(a.octets()))),
                Some(url::Host::Ipv6(a)) => Some(UrlHost::Ip(IpAddress::V6(a.segments()))),
            },
            port: u.port(),
        }),
        Err(e) => Err(e),
    }
}

/// Why a webhook URL is refused.
#[derive(Debug)]
pub enum WebhookUrlError {
    /// The string is not a URL.
    InvalidUrl(url::ParseError),
    /// The scheme is neither `http` nor `https`.
    UnsupportedScheme(String),
    /// The URL has no host.
    MissingHost,
    /// A well-known internal host name (`localhost`, cloud metadata).
    BlockedHost(String),
    /// The host is a private/reserved IP address.
    BlockedIp(IpAddress),
    /// The host name resolves to a private/reserved IP address.
    ResolvesToBlockedIp(String, IpAddress),
}

/// What remains to be done for an accepted webhook URL.
#[derive(Debug)]
pub enum WebhookUrlCheck {
    /// The URL is acceptable as it is.
    Accept,
    /// The URL is acceptable unless `host:port` resolves to a private address.
    Resolve { host: String, port: u16 },
}

/// Spec-level outcome of the static webhook URL checks.
pub enum WebhookVerdict {
    InvalidUrl,
    UnsupportedScheme(Seq<char>),
    MissingHost,
    BlockedHost(Seq<char>),
    BlockedIp(IpAddress),
    Accept,
    Resolve(Seq<char>, u16),
}

pub open spec fn is_blocked_host_name(h: Seq<char>) -> bool {
    h == "localhost"@ || h == "metadata.google.internal"@
}

/// The decision on a webhook URL, given how it parsed and whether SSRF
/// protection is on.
pub open spec fn spec_webhook_verdict(parsed: Option<ParsedUrlView>, ssrf: bool) -> WebhookVerdict {
    match parsed {
        None => WebhookVerdict::InvalidUrl,
        Some(p) => if !(p.scheme == "http"@ || p.scheme == "https"@) {
            WebhookVerdict::UnsupportedScheme(p.scheme)
        } else if !ssrf {
            WebhookVerdict::Accept
        } else {
            match p.host {
                None => WebhookVerdict::MissingHost,
                Some(UrlHostView::Domain(d)) => if is_blocked_host_name(d) {
                    WebhookVerdict::BlockedHost(d)
                } else {
                    WebhookVerdict::Resolve(
                        d,
                        match p.port {
                            Some(port) => port,
                            None => if p.scheme == "https"@ {
                                443u16
                            } else {
                                80u16
                            },
                        },
                    )
                },
                Some(UrlHostView::Ip(ip)) => if spec_is_private_ip(ip) {
                    WebhookVerdict::BlockedIp(ip)
                } else {
                    WebhookVerdict::Accept
                },
            }
        },
    }
}

/// Whether an exec outcome is the spec verdict.
pub open spec fn verdict_is(r: Result<WebhookUrlCheck, WebhookUrlError>, v: WebhookVerdict) -> bool {
    match v {
        WebhookVerdict::InvalidUrl => r matches Err(WebhookUrlError::InvalidUrl(_)),
        WebhookVerdict::UnsupportedScheme(s) => r matches Err(WebhookUrlError::UnsupportedScheme(x))
            && x@ == s,
        WebhookVerdict::MissingHost => r matches Err(WebhookUrlError::MissingHost),
        WebhookVerdict::BlockedHost(h) => r matches Err(WebhookUrlError::BlockedHost(x)) && x@ == h,
        WebhookVerdict::BlockedIp(ip) => r matches Err(WebhookUrlError::BlockedIp(x)) && ip_eq(x, ip),
        WebhookVerdict::Accept => r matches Ok(WebhookUrlCheck::Accept),
        WebhookVerdict::Resolve(h, port) => r matches Ok(WebhookUrlCheck::Resolve { host, port: p })
            && host@ == h && p == port,
    }
}

/// Two addresses are the same address.
pub open spec fn ip_eq(a: IpAddress, b: IpAddress) -> bool {
    match (a, b) {
        (IpAddress::V4(x), IpAddress::V4(y)) => x@ == y@,
        (IpAddress::V6(x), IpAddress::V6(y)) => x@ == y@,
        _ => false,
    }
}

/// Static checks of a webhook URL once parsed.
pub fn check_parsed_webhook_url(parsed: Result<ParsedUrl, url::ParseError>, ssrf_protection: bool) -> (r: Result<WebhookUrlCheck, WebhookUrlError>)
    ensures
        verdict_is(
            r,
            spec_webhook_verdict(
                match parsed {
                    Ok(p) => Some(p@),
                    Err(_) => None,
                },
                ssrf_protection,
            ),
        ),
{
    let p = match parsed {
        Ok(p) => p,
        Err(e) => return Err(WebhookUrlError::InvalidUrl(e)),
    };
    proof {
        reveal_strlit("http");
        reveal_strlit("https");
        reveal_strlit("localhost");
        reveal_strlit("metadata.google.internal");
    }
    let is_http = str_eq(p.scheme.as_str(), "http");
    let is_https = str_eq(p.scheme.as_str(), "https");
    if !(is_http || is_https) {
        return Err(WebhookUrlError::UnsupportedScheme(p.scheme));
    }
    if !ssrf_protection {
        return Ok(WebhookUrlCheck::Accept);
    }
    match p.host {
        None => Err(WebhookUrlError::MissingHost),
        Some(UrlHost::Domain(d)) => {
            if str_eq(d.as_str(), "localhost") || str_eq(d.as_str(), "metadata.google.internal") {
                return Err(WebhookUrlError::BlockedHost(d));
            }
            let port = match p.port {
                Some(port) => port,
                None => if is_https {
                    443u16
                } else {
                    80u16
                },
            };
            Ok(WebhookUrlCheck::Resolve { host: d, port })
        },
        Some(UrlHost::Ip(ip)) => {
            if is_private_ip(ip) {
                Err(WebhookUrlError::BlockedIp(ip))
            } else {
                Ok(WebhookUrlCheck::Accept)
            }
        },
    }
}

/// Validate that a webhook URL uses an allowed scheme and, when
/// `ssrf_protection` is on, does not target a well-known internal host or a
/// private/reserved IP address. When the host is a name, the caller must
/// still check what it resolves to (`check_resolved_addresses`).
pub fn validate_webhook_url(url: &str, ssrf_protection: bool) -> (r: Result<WebhookUrlCheck, WebhookUrlError>)
    ensures
        verdict_is(r, spec_webhook_verdict(url_parse_view(url@), ssrf_protection)),
{
    let parsed = parse_url(url);
    check_parsed_webhook_url(parsed, ssrf_protection)
}

/// The first private/reserved address among those a host name resolved to.
pub open spec fn first_private(addrs: Seq<IpAddress>) -> Option<int>
    decreases addrs.len(),
{
    if addrs.len() == 0 {
        None
    } else if spec_is_private_ip(addrs[0]) {
        Some(0)
    } else {
        match first_private(addrs.drop_first()) {
            Some(i) => Some(i + 1),
            None => None,
        }
    }
}

proof fn lemma_first_private(addrs: Seq<IpAddress>, i: int)
    requires
        0 <= i < addrs.len(),
        spec_is_private_ip(addrs[i]),
        forall|j: int| 0 <= j < i ==> !spec_is_private_ip(#[trigger] addrs[j]),
    ensures
        first_private(addrs) == Some(i),
    decreases addrs.len(),
{
    if i > 0 {
        assert(!spec_is_private_ip(addrs[0]));
        let rest = addrs.drop_first();
        assert forall|j: int| 0 <= j < i - 1 implies !spec_is_private_ip(#[trigger] rest[j]) by {
            assert(rest[j] == addrs[j + 1]);
        }
        lemma_first_private(rest, i - 1);
    }
}

proof fn lemma_first_private_none(addrs: Seq<IpAddress>)
    requires
        forall|j: int| 0 <= j < addrs.len() ==> !spec_is_private_ip(#[trigger] addrs[j]),
    ensures
        first_private(addrs) is None,
    decreases addrs.len(),
{
    if addrs.len() > 0 {
        let rest = addrs.drop_first();
        assert forall|j: int| 0 <= j < rest.len() implies !spec_is_private_ip(#[trigger] rest[j]) by {
            assert(rest[j] == addrs[j + 1]);
        }
        lemma_first_private_none(rest);
    }
}

/// Refuse a webhook host whose name resolves to a private/reserved address
/// (DNS rebinding protection): the first such address is reported.
pub fn check_resolved_addresses(host: &str, addrs: &Vec<IpAddress>) -> (r: Result<(), WebhookUrlError>)
    ensures
        match first_private(addrs@) {
            Some(i) => r matches Err(WebhookUrlError::ResolvesToBlockedIp(h, ip)) && h@ == host@
                && ip_eq(ip, addrs@[i]),
            None => r is Ok,
        },
{
    let mut i: usize = 0;
    while i < addrs.len()
        invariant
            i <= addrs@.len(),
            forall|j: int| 0 <= j < i ==> !spec_is_private_ip(#[trigger] addrs@[j]),
        decreases addrs@.len() - i,
    {
        let a = addrs[i];
        if is_private_ip(a) {
            proof {
                lemma_first_private(addrs@, i as int);
            }
            return Err(WebhookUrlError::ResolvesToBlockedIp(String::from_str(host), a));
        }
        i = i + 1;
    }
    proof {
        lemma_first_private_none(addrs@);
    }
    Ok(())
}

} // verus!
