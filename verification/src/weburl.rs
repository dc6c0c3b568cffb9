//! URLs, as the `url` crate parses, joins and edits them.
//!
//! A `WebUrl` keeps the parsed `url::Url` together with the parts of it that
//! the library reads; it is only ever built from a `url::Url`.
use vstd::prelude::*;

verus! {

/// The `url` crate's parsed URL.
#[verifier::external_type_specification]
#[verifier::external_body]
pub struct ExUrl(url::Url);

/// The `url` crate's parse error.
#[verifier::external_type_specification]
#[verifier::external_body]
pub struct ExParseError(url::ParseError);

/// `url::Url`'s `Clone`: a copy of the URL. Nothing is stated of the copy;
/// `WebUrl::copy` keeps the parts that the library reads by copying them itself.
pub assume_specification[ <url::Url as Clone>::clone ](u: &url::Url) -> url::Url;

/// The ways in which parsing a URL can fail (`url::ParseError`).
#[derive(Debug, Clone, Copy, PartialEq, Eq, Structural)]
pub enum UrlError {
    EmptyHost,
    IdnaError,
    InvalidPort,
    InvalidIpv4Address,
    InvalidIpv6Address,
    InvalidDomainCharacter,
    RelativeUrlWithoutBase,
    RelativeUrlWithCannotBeABaseBase,
    SetHostOnCannotBeABaseUrl,
    Overflow,
    /// A kind of parse error that this library does not know by name.
    Other,
}

/// The message that `url::ParseError`'s `Display` gives for each kind.
pub open spec fn url_error_text(e: UrlError) -> Seq<char> {
    match e {
        UrlError::EmptyHost => "empty host"@,
        UrlError::IdnaError => "invalid international domain name"@,
        UrlError::InvalidPort => "invalid port number"@,
        UrlError::InvalidIpv4Address => "invalid IPv4 address"@,
        UrlError::InvalidIpv6Address => "invalid IPv6 address"@,
        UrlError::InvalidDomainCharacter => "invalid domain character"@,
        UrlError::RelativeUrlWithoutBase => "relative URL without a base"@,
        UrlError::RelativeUrlWithCannotBeABaseBase => "relative URL with a cannot-be-a-base base"@,
        UrlError::SetHostOnCannotBeABaseUrl => "a cannot-be-a-base URL doesn’t have a host to set"@,
        UrlError::Overflow => "URLs more than 4 GB are not supported"@,
        UrlError::Other => "invalid URL"@,
    }
}

impl UrlError {
    /// The message of the error, as `url::ParseError` displays it.
    pub fn message(&self) -> (s: String)
        ensures
            s@ == url_error_text(*self),
    {
        let text = match self {
            UrlError::EmptyHost => "empty host",
            UrlError::IdnaError => "invalid international domain name",
            UrlError::InvalidPort => "invalid port number",
            UrlError::InvalidIpv4Address => "invalid IPv4 address",
            UrlError::InvalidIpv6Address => "invalid IPv6 address",
            UrlError::InvalidDomainCharacter => "invalid domain character",
            UrlError::RelativeUrlWithoutBase => "relative URL without a base",
            UrlError::RelativeUrlWithCannotBeABaseBase => "relative URL with a cannot-be-a-base base",
            UrlError::SetHostOnCannotBeABaseUrl => "a cannot-be-a-base URL doesn’t have a host to set",
            UrlError::Overflow => "URLs more than 4 GB are not supported",
            UrlError::Other => "invalid URL",
        };
        String::from_str(text)
    }
}

/// A parsed absolute URL.
#[derive(Debug, Clone)]
pub struct WebUrl {
    url: url::Url,
    text: String,
    scheme: String,
    host: Option<String>,
    port: Option<u16>,
    path: String,
}

/// What the library reads of a URL: its serialization, scheme, host, port
/// (or the scheme's default port) and path.
pub struct WebUrlView {
    pub text: Seq<char>,
    pub scheme: Seq<char>,
    pub host: Option<Seq<char>>,
    pub port: Option<u16>,
    pub path: Seq<char>,
}

impl View for WebUrl {
    type V = WebUrlView;

    closed spec fn view(&self) -> WebUrlView {
        WebUrlView {
            text: self.text@,
            scheme: self.scheme@,
            host: crate::api::models::opt_text(self.host),
            port: self.port,
            path: self.path@,
        }
    }
}

/// What `url::Url::parse` gives for a text.
pub uninterp spec fn url_parse_result(input: Seq<char>) -> Result<WebUrlView, UrlError>;

/// What `url::Url::join` gives for a base URL and a (possibly relative) text.
pub uninterp spec fn url_join_result(base: WebUrlView, input: Seq<char>) -> Result<
    WebUrlView,
    UrlError,
>;

/// The URL that `url::Url::set_path` leaves behind.
pub uninterp spec fn url_with_path(url: WebUrlView, path: Seq<char>) -> WebUrlView;

/// The URL after `url::Url::query_pairs_mut().extend_pairs(..)` appended the pairs.
pub uninterp spec fn url_with_query(url: WebUrlView, pairs: Seq<(Seq<char>, Seq<char>)>) -> WebUrlView;

/// The texts of a list of name/value pairs.
pub open spec fn pairs_view(pairs: Seq<(String, String)>) -> Seq<(Seq<char>, Seq<char>)> {
    pairs.map_values(|p: (String, String)| (p.0@, p.1@))
}

/// Turns the `url` crate's URL into a `WebUrl`, copying the parts that the
/// library reads (`as_str`, `scheme`, `host_str`, `port_or_known_default`,
/// `path`). Nothing is stated of the copy here: the callers' contracts name
/// what the whole call gives.
#[verifier::external_body]
fn web_url_of(u: url::Url) -> WebUrl {
    WebUrl {
        text: u.as_str().to_string(),
        scheme: u.scheme().to_string(),
        host: u.host_str().map(|h| h.to_string()),
        port: u.port_or_known_default(),
        path: u.path().to_string(),
        url: u,
    }
}

/// Turns `url::ParseError` into `UrlError`, one variant for one variant;
/// nothing is stated of it here.
#[verifier::external_body]
fn url_error_of(e: url::ParseError) -> UrlError {
    match e {
        url::ParseError::EmptyHost => UrlError::EmptyHost,
        url::ParseError::IdnaError => UrlError::IdnaError,
        url::ParseError::InvalidPort => UrlError::InvalidPort,
        url::ParseError::InvalidIpv4Address => UrlError::InvalidIpv4Address,
        url::ParseError::InvalidIpv6Address => UrlError::InvalidIpv6Address,
        url::ParseError::InvalidDomainCharacter => UrlError::InvalidDomainCharacter,
        url::ParseError::RelativeUrlWithoutBase => UrlError::RelativeUrlWithoutBase,
        url::ParseError::RelativeUrlWithCannotBeABaseBase => UrlError::RelativeUrlWithCannotBeABaseBase,
        url::ParseError::SetHostOnCannotBeABaseUrl => UrlError::SetHostOnCannotBeABaseUrl,
        url::ParseError::Overflow => UrlError::Overflow,
        _ => UrlError::Other,
    }
}

/// `url::Url::parse`: parses an absolute URL. The result is named, not
/// stated: it is whatever the `url` crate's WHATWG parser gives for the text.
#[verifier::external_body]
fn parse_with_url_crate(input: &str) -> (r: Result<WebUrl, UrlError>)
    ensures
        match r {
            Ok(u) => url_parse_result(input@) == Ok::<WebUrlView, UrlError>(u@),
            Err(e) => url_parse_result(input@) == Err::<WebUrlView, UrlError>(e),
        },
{
    match url::Url::parse(input) {
        Ok(u) => Ok(web_url_of(u)),
        Err(e) => Err(url_error_of(e)),
    }
}

/// Parses an absolute URL.
pub fn parse_url(input: &str) -> (r: Result<WebUrl, UrlError>)
    ensures
        match r {
            Ok(u) => url_parse_result(input@) == Ok::<WebUrlView, UrlError>(u@),
            Err(e) => url_parse_result(input@) == Err::<WebUrlView, UrlError>(e),
        },
{
    parse_with_url_crate(input)
}

/// `url::Url::join`: resolves a (possibly relative) text against a base URL;
/// the result is named, as for `parse_url`.
#[verifier::external_body]
pub(crate) fn join_url(base: &WebUrl, input: &str) -> (r: Result<WebUrl, UrlError>)
    ensures
        match r {
            Ok(u) => url_join_result(base@, input@) == Ok::<WebUrlView, UrlError>(u@),
            Err(e) => url_join_result(base@, input@) == Err::<WebUrlView, UrlError>(e),
        },
{
    match base.url.join(input) {
        Ok(u) => Ok(web_url_of(u)),
        Err(e) => Err(url_error_of(e)),
    }
}

/// `url::Url::set_path`: the URL with another path; the result is named.
#[verifier::external_body]
pub(crate) fn set_url_path(u: &WebUrl, path: &str) -> (r: WebUrl)
    ensures
        r@ == url_with_path(u@, path@),
{
    let mut v = u.url.clone();
    v.set_path(path);
    web_url_of(v)
}

/// `url::Url::query_pairs_mut().extend_pairs(..)`: the URL with the pairs
/// appended to its query, form-encoded; the result is named.
#[verifier::external_body]
pub(crate) fn append_query_pairs(u: &WebUrl, pairs: &Vec<(String, String)>) -> (r: WebUrl)
    ensures
        r@ == url_with_query(u@, pairs_view(pairs@)),
{
    let mut v = u.url.clone();
    v.query_pairs_mut().extend_pairs(pairs);
    web_url_of(v)
}

impl WebUrl {
    /// The serialization of the URL.
    pub fn as_str(&self) -> (s: &str)
        ensures
            s@ == self@.text,
    {
        self.text.as_str()
    }

    /// The scheme (`https`, ...).
    pub fn scheme(&self) -> (s: &str)
        ensures
            s@ == self@.scheme,
    {
        self.scheme.as_str()
    }

    /// The host, if the URL has one.
    pub fn host_str(&self) -> (h: Option<&str>)
        ensures
            crate::dry_run::opt_str(h) == self@.host,
    {
        match &self.host {
            Some(h) => Some(h.as_str()),
            None => None,
        }
    }

    /// The port, or the default port of the scheme.
    pub fn port_or_known_default(&self) -> (p: Option<u16>)
        ensures
            p == self@.port,
    {
        self.port
    }

    /// The path.
    pub fn path(&self) -> (s: &str)
        ensures
            s@ == self@.path,
    {
        self.path.as_str()
    }

    /// A copy of the URL.
    pub fn copy(&self) -> (r: WebUrl)
        ensures
            r@ == self@,
    {
        WebUrl {
            url: self.url.clone(),
            text: self.text.clone(),
            scheme: self.scheme.clone(),
            host: crate::api::models::copy_opt_text(&self.host),
            port: self.port,
            path: self.path.clone(),
        }
    }
}

} // verus!
