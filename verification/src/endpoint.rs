//! Push endpoints: parsing a URL and deciding whether a push may go there.

use crate::net::{is_ip_safe, public_ip, IpAddr};
use crate::text::same_text;
use vstd::prelude::*;

verus! {

/// The host of a URL.
#[derive(Debug)]
pub enum Host {
    Domain(String),
    Ip(IpAddr),
}

/// What the proxy reads of a parsed URL. `href` is the URL as it is serialized.
#[derive(Debug)]
pub struct UrlParts {
    pub href: String,
    pub scheme: String,
    pub username: String,
    pub password: Option<String>,
    pub host: Option<Host>,
}

/// The host of a URL, with the name as its characters.
#[verifier::ext_equal]
pub enum HostView {
    Domain(Seq<char>),
    Ip(IpAddr),
}

/// A parsed URL, with each text as its characters.
#[verifier::ext_equal]
pub struct UrlView {
    pub href: Seq<char>,
    pub scheme: Seq<char>,
    pub username: Seq<char>,
    pub password: Option<Seq<char>>,
    pub host: Option<HostView>,
}

impl View for Host {
    type V = HostView;

    open spec fn view(&self) -> HostView {
        match self {
            Host::Domain(name) => HostView::Domain(name@),
            Host::Ip(ip) => HostView::Ip(*ip),
        }
    }
}

impl View for UrlParts {
    type V = UrlView;

    open spec fn view(&self) -> UrlView {
        UrlView {
            href: self.href@,
            scheme: self.scheme@,
            username: self.username@,
            password: match self.password {
                Some(p) => Some(p@),
                None => None,
            },
            host: match self.host {
                Some(h) => Some(h@),
                None => None,
            },
        }
    }
}

/// What `url` makes of `input`: the parsed URL, or the text of its error.
pub uninterp spec fn parsed_url(input: Seq<char>) -> Result<UrlView, Seq<char>>;

/// The characters of a parse result.
pub open spec fn parts_view(parsed: Result<UrlParts, String>) -> Result<UrlView, Seq<char>> {
    match parsed {
        Ok(parts) => Ok(parts@),
        Err(fault) => Err(fault@),
    }
}

/// Whether the characters of `name` from `start` up to `end` are one of its
/// dot-separated labels.
pub open spec fn is_label(name: Seq<char>, start: int, end: int) -> bool {
    &&& 0 <= start <= end <= name.len()
    &&& start == 0 || name[start - 1] == '.'
    &&& end == name.len() || name[end] == '.'
    &&& !name.subrange(start, end).contains('.')
}

/// Whether a URL parser reads `label`: of the encoded form of an international
/// label, no more than 2000 characters behind the mark `xn--`.
pub open spec fn readable_label(label: Seq<char>) -> bool {
    "xn--"@.is_prefix_of(label) ==> label.len() <= 2004
}

/// Whether the serialized form of `url` is sure to be parsed to `url` again: an
/// http or https URL without credentials, whose host is an address or a name of
/// readable labels. A URL parser may encode an international label in more
/// characters than it reads.
pub open spec fn settled(url: UrlView) -> bool {
    &&& url.scheme == "https"@ || url.scheme == "http"@
    &&& url.username.len() == 0 && url.password is None
    &&& match url.host {
        None => false,
        Some(HostView::Domain(name)) => forall|start: int, end: int| #[trigger]
            is_label(name, start, end) ==> readable_label(name.subrange(start, end)),
        Some(HostView::Ip(_)) => true,
    }
}

/// `url::Url::parse`, with the URL handed on as what its accessors `as_str`,
/// `scheme`, `username`, `password` and `host` return, and an error as its text.
/// The outcome is a function of the input. Of that function one thing is claimed,
/// the invariant that `url::Url::check_invariants` tests: the serialized form is
/// parsed to the same URL again. It is claimed of settled URLs only.
#[verifier::external_body]
pub(crate) fn parse_url(input: &str) -> (parsed: Result<UrlParts, String>)
    ensures
        parts_view(parsed) == parsed_url(input@),
        parsed is Ok && settled(parsed->Ok_0@) ==> parsed_url(parsed->Ok_0@.href) == parts_view(
            parsed,
        ),
{
    let url = url::Url::parse(input).map_err(|e| e.to_string())?;
    let host = url.host().map(|h| match h {
        url::Host::Domain(name) => Host::Domain(name.to_owned()),
        url::Host::Ipv4(ip) => Host::Ip(IpAddr::V4(ip.octets())),
        url::Host::Ipv6(ip) => Host::Ip(IpAddr::V6(ip.octets())),
    });
    let scheme = url.scheme().to_owned();
    let username = url.username().to_owned();
    let password = url.password().map(|p| p.to_owned());
    Ok(UrlParts { href: url.into(), scheme, username, password, host })
}

/// A URL in its serialized form. [`Url::parse`], [`validate_endpoint`] and
/// [`crate::fcm::send_url`] make one from what a URL parser gave them; of any other
/// value nothing is known but its text.
#[derive(Debug)]
pub struct Url {
    pub href: String,
}

impl View for Url {
    type V = Seq<char>;

    open spec fn view(&self) -> Seq<char> {
        self.href@
    }
}

impl Url {
    /// Parses `input`, or returns the text of what is wrong with it.
    pub fn parse(input: &str) -> (url: Result<Url, String>)
        ensures
            match url {
                Ok(u) => parsed_url(input@) matches Ok(parts) && parts.href == u@,
                Err(fault) => parsed_url(input@) == Err::<UrlView, Seq<char>>(fault@),
            },
    {
        match parse_url(input) {
            Ok(parts) => Ok(Url { href: parts.href }),
            Err(fault) => Err(fault),
        }
    }

    /// The serialized URL.
    pub fn as_str(&self) -> (s: &str)
        ensures
            s@ == self@,
    {
        self.href.as_str()
    }

    /// The same URL once more.
    pub fn copy(&self) -> (url: Url)
        ensures
            url@ == self@,
    {
        Url { href: self.href.clone() }
    }
}

/// Why an endpoint was refused.
#[derive(Debug)]
pub enum Rejection {
    /// It is not a URL; the text says why.
    InvalidUrl(String),
    /// Its scheme, given here, is neither `http` nor `https`.
    Scheme(String),
    /// It carries a user name or a password.
    Credentials,
    /// It has no host.
    NoHost,
    /// Its host is an address literal that is not public.
    NonPublicIp(IpAddr),
}

/// Why an endpoint was refused, with each text as its characters.
#[verifier::ext_equal]
pub enum RejectionView {
    InvalidUrl(Seq<char>),
    Scheme(Seq<char>),
    Credentials,
    NoHost,
    NonPublicIp(IpAddr),
}

impl View for Rejection {
    type V = RejectionView;

    open spec fn view(&self) -> RejectionView {
        match self {
            Rejection::InvalidUrl(fault) => RejectionView::InvalidUrl(fault@),
            Rejection::Scheme(scheme) => RejectionView::Scheme(scheme@),
            Rejection::Credentials => RejectionView::Credentials,
            Rejection::NoHost => RejectionView::NoHost,
            Rejection::NonPublicIp(ip) => RejectionView::NonPublicIp(*ip),
        }
    }
}

/// Whether a push may go to `url`: over http or https, without credentials, to a
/// named host or a public address. Otherwise the first of these that fails.
pub open spec fn endpoint_verdict(
    parsed: Result<UrlView, Seq<char>>,
) -> Result<Seq<char>, RejectionView> {
    match parsed {
        Err(fault) => Err(RejectionView::InvalidUrl(fault)),
        Ok(url) => if url.scheme != "https"@ && url.scheme != "http"@ {
            Err(RejectionView::Scheme(url.scheme))
        } else if url.username.len() > 0 || url.password is Some {
            Err(RejectionView::Credentials)
        } else {
            match url.host {
                None => Err(RejectionView::NoHost),
                Some(HostView::Ip(ip)) if !public_ip(ip) => Err(RejectionView::NonPublicIp(ip)),
                Some(_) => Ok(url.href),
            }
        },
    }
}

/// The characters of a verdict.
pub open spec fn verdict_view(
    verdict: Result<Url, Rejection>,
) -> Result<Seq<char>, RejectionView> {
    match verdict {
        Ok(url) => Ok(url@),
        Err(why) => Err(why@),
    }
}

/// Decides on an endpoint from what it parsed to.
pub fn check_endpoint(parsed: Result<UrlParts, String>) -> (verdict: Result<Url, Rejection>)
    ensures
        verdict_view(verdict) == endpoint_verdict(parts_view(parsed)),
{
    let parts = match parsed {
        Ok(parts) => parts,
        Err(fault) => return Err(Rejection::InvalidUrl(fault)),
    };
    if !same_text(parts.scheme.as_str(), "https") && !same_text(parts.scheme.as_str(), "http") {
        return Err(Rejection::Scheme(parts.scheme));
    }
    if !parts.username.as_str().is_empty() || parts.password.is_some() {
        return Err(Rejection::Credentials);
    }
    match parts.host {
        None => Err(Rejection::NoHost),
        Some(Host::Ip(ip)) => if is_ip_safe(ip) {
            Ok(Url { href: parts.href })
        } else {
            Err(Rejection::NonPublicIp(ip))
        },
        Some(Host::Domain(_)) => Ok(Url { href: parts.href }),
    }
}

/// Validates that `endpoint` uses http or https, has a host, carries no
/// credentials and, where its host is an address literal, names a public one.
/// Returns the parsed URL on success. The addresses of a host name are checked
/// when a connection is made.
///
/// Validating once more what was returned changes nothing, but where a label of an
/// international host name has been encoded in more characters than a URL parser
/// reads.
pub fn validate_endpoint(endpoint: &str) -> (verdict: Result<Url, Rejection>)
    ensures
        verdict_view(verdict) == endpoint_verdict(parsed_url(endpoint@)),
        verdict is Ok && settled(parsed_url(endpoint@)->Ok_0) ==> endpoint_verdict(
            parsed_url(verdict->Ok_0@),
        ) == verdict_view(verdict),
{
    check_endpoint(parse_url(endpoint))
}

/// An endpoint is accepted exactly where it is an http or https URL without
/// credentials whose host is a name or a public address, and it is then used in
/// its serialized form.
pub proof fn law_accepted_endpoints(endpoint: Seq<char>)
    ensures
        endpoint_verdict(parsed_url(endpoint)) is Ok <==> (parsed_url(endpoint) matches Ok(url) && {
            &&& url.scheme == "https"@ || url.scheme == "http"@
            &&& url.username.len() == 0 && url.password is None
            &&& match url.host {
                None => false,
                Some(HostView::Domain(_)) => true,
                Some(HostView::Ip(ip)) => public_ip(ip),
            }
        }),
        endpoint_verdict(parsed_url(endpoint)) matches Ok(href) ==> parsed_url(endpoint)->Ok_0.href
            == href,
{
}

/// An endpoint is refused for the first thing that is wrong with it, whatever it
/// was parsed to: for being no URL, with the text of the parser; for its scheme, for
/// its credentials, for having no host, or for an address that is not public.
/// Anything else is accepted, in its serialized form.
pub proof fn law_endpoints_are_refused_for_a_reason(parsed: Result<UrlView, Seq<char>>)
    ensures
        ({
            let web = parsed->Ok_0.scheme == "http"@ || parsed->Ok_0.scheme == "https"@;
            let bare = parsed->Ok_0.username.len() == 0 && parsed->Ok_0.password is None;
            match endpoint_verdict(parsed) {
                Err(RejectionView::InvalidUrl(fault)) => parsed == Err::<UrlView, Seq<char>>(fault),
                Err(RejectionView::Scheme(scheme)) => parsed is Ok && !web && scheme
                    == parsed->Ok_0.scheme,
                Err(RejectionView::Credentials) => parsed is Ok && web && !bare,
                Err(RejectionView::NoHost) => parsed is Ok && web && bare
                    && parsed->Ok_0.host is None,
                Err(RejectionView::NonPublicIp(ip)) => parsed is Ok && web && bare
                    && parsed->Ok_0.host == Some(HostView::Ip(ip)) && !public_ip(ip),
                Ok(href) => parsed is Ok && web && bare && href == parsed->Ok_0.href && match
                parsed->Ok_0.host {
                    None => false,
                    Some(HostView::Ip(ip)) => public_ip(ip),
                    Some(HostView::Domain(_)) => true,
                },
            }
        }),
{
}

/// An http or https URL without credentials is accepted whatever else it holds,
/// where its host is a name, and stands for itself in its serialized form.
pub proof fn law_named_hosts_are_accepted(url: UrlView, name: Seq<char>)
    requires
        url.scheme == "http"@ || url.scheme == "https"@,
        url.username.len() == 0,
        url.password is None,
        url.host == Some(HostView::Domain(name)),
    ensures
        endpoint_verdict(Ok(url)) == Ok::<Seq<char>, RejectionView>(url.href),
{
}

/// A verdict is seen as what it holds: the text of an accepted URL, and of a
/// rejection its kind with the text or the address in it.
pub proof fn law_verdicts_show_what_they_hold(url: Url, text: String, ip: IpAddr)
    ensures
        verdict_view(Ok(url)) == Ok::<Seq<char>, RejectionView>(url.href@),
        verdict_view(Err(Rejection::InvalidUrl(text))) == Err::<Seq<char>, RejectionView>(
            RejectionView::InvalidUrl(text@),
        ),
        verdict_view(Err(Rejection::Scheme(text))) == Err::<Seq<char>, RejectionView>(
            RejectionView::Scheme(text@),
        ),
        verdict_view(Err(Rejection::Credentials)) == Err::<Seq<char>, RejectionView>(
            RejectionView::Credentials,
        ),
        verdict_view(Err(Rejection::NoHost)) == Err::<Seq<char>, RejectionView>(
            RejectionView::NoHost,
        ),
        verdict_view(Err(Rejection::NonPublicIp(ip))) == Err::<Seq<char>, RejectionView>(
            RejectionView::NonPublicIp(ip),
        ),
{
}

/// Parsed parts are seen as what they hold, each text character for character and
/// the host as it is.
pub proof fn law_parts_show_what_they_hold(parts: UrlParts, name: String, ip: IpAddr)
    ensures
        parts@.href == parts.href@,
        parts@.scheme == parts.scheme@,
        parts@.username == parts.username@,
        parts@.password is Some <==> parts.password is Some,
        parts.password is Some ==> parts@.password->0 == parts.password->0@,
        parts@.host is Some <==> parts.host is Some,
        parts.host == Some(Host::Domain(name)) ==> parts@.host == Some(HostView::Domain(name@)),
        parts.host == Some(Host::Ip(ip)) ==> parts@.host == Some(HostView::Ip(ip)),
{
}

} // verus!
