//! The addresses a device uses to reach the relay.
use vstd::prelude::*;

use crate::client::ClientConfig;
use crate::text::{chars_equal, chars_of};

verus! {

/// The kind of endpoint an address is for.
#[derive(Debug, Clone, Copy, PartialEq, Eq, Structural)]
pub enum Scheme {
    WebSocket,
    HTTP,
}

/// Why no request address could be made.
#[derive(Debug, Clone, Copy, PartialEq, Eq, Structural)]
pub enum UrlError {
    /// The configured server address is no URL.
    InvalidServerUrl,
    /// The server address has a scheme that maps to neither kind of endpoint.
    InvalidScheme,
}

pub open spec fn http_chars() -> Seq<char> {
    seq!['h', 't', 't', 'p']
}

pub open spec fn https_chars() -> Seq<char> {
    seq!['h', 't', 't', 'p', 's']
}

pub open spec fn ws_chars() -> Seq<char> {
    seq!['w', 's']
}

pub open spec fn wss_chars() -> Seq<char> {
    seq!['w', 's', 's']
}

/// The scheme an address of kind `kind` gets when the server's address has
/// the scheme `current`: the plain or secure variant to match, secure when
/// there is none, and nothing for any other scheme.
pub open spec fn matching_scheme(kind: Scheme, current: Seq<char>) -> Option<Seq<char>> {
    let secure = current == https_chars() || current == wss_chars() || current.len() == 0;
    let plain = current == http_chars() || current == ws_chars();
    if !secure && !plain {
        None
    } else {
        match kind {
            Scheme::WebSocket => Some(
                if secure {
                    wss_chars()
                } else {
                    ws_chars()
                },
            ),
            Scheme::HTTP => Some(
                if secure {
                    https_chars()
                } else {
                    http_chars()
                },
            ),
        }
    }
}

/// Whether `current` is one of the four schemes and which variant it is.
fn classify(current: &str) -> (r: (bool, bool))
    ensures
        r.0 == (current@ == https_chars() || current@ == wss_chars() || current@.len() == 0),
        r.1 == (current@ == http_chars() || current@ == ws_chars()),
{
    let cs = chars_of(current);
    let http = chars_of("http");
    let https = chars_of("https");
    let ws = chars_of("ws");
    let wss = chars_of("wss");
    proof {
        reveal_strlit("http");
        reveal_strlit("https");
        reveal_strlit("ws");
        reveal_strlit("wss");
        assert(http@ =~= http_chars());
        assert(https@ =~= https_chars());
        assert(ws@ =~= ws_chars());
        assert(wss@ =~= wss_chars());
    }
    let secure = chars_equal(&cs, &https) || chars_equal(&cs, &wss) || cs.len() == 0;
    let plain = chars_equal(&cs, &http) || chars_equal(&cs, &ws);
    (secure, plain)
}

impl Scheme {
    fn get_matching_ws_scheme(&self, current_scheme: &str) -> (r: Result<&'static str, UrlError>)
        ensures
            match r {
                Ok(s) => matching_scheme(Scheme::WebSocket, current_scheme@) == Some(s@),
                Err(e) => matching_scheme(Scheme::WebSocket, current_scheme@).is_none() && e
                    == UrlError::InvalidScheme,
            },
    {
        let (secure, plain) = classify(current_scheme);
        proof {
            reveal_strlit("ws");
            reveal_strlit("wss");
        }
        if secure {
            Ok("wss")
        } else if plain {
            Ok("ws")
        } else {
            Err(UrlError::InvalidScheme)
        }
    }

    fn get_matching_http_scheme(&self, current_scheme: &str) -> (r: Result<&'static str, UrlError>)
        ensures
            match r {
                Ok(s) => matching_scheme(Scheme::HTTP, current_scheme@) == Some(s@),
                Err(e) => matching_scheme(Scheme::HTTP, current_scheme@).is_none() && e
                    == UrlError::InvalidScheme,
            },
    {
        let (secure, plain) = classify(current_scheme);
        proof {
            reveal_strlit("http");
            reveal_strlit("https");
        }
        if secure {
            Ok("https")
        } else if plain {
            Ok("http")
        } else {
            Err(UrlError::InvalidScheme)
        }
    }

    /// The scheme an address of this kind gets when the server's address
    /// has the scheme `current_scheme`.
    pub fn get_matching_scheme(&self, current_scheme: &str) -> (r: Result<&'static str, UrlError>)
        ensures
            match r {
                Ok(s) => matching_scheme(*self, current_scheme@) == Some(s@),
                Err(e) => matching_scheme(*self, current_scheme@).is_none() && e
                    == UrlError::InvalidScheme,
            },
    {
        match self {
            Scheme::WebSocket => self.get_matching_ws_scheme(current_scheme),
            Scheme::HTTP => self.get_matching_http_scheme(current_scheme),
        }
    }
}

#[verifier::external_type_specification]
#[verifier::external_body]
pub struct ExUrl(url::Url);

/// What `url::Url::parse` reads from `s`: the URL's scheme, its host as
/// `Url::host_str` gives it, and its port as `Url::port` gives it (none
/// where the port is absent or the scheme's default); `None` where `s` is no
/// URL. It depends on the text alone.
pub uninterp spec fn parsed_url(s: Seq<char>) -> Option<(Seq<char>, Option<Seq<char>>, Option<u16>)>;

/// The path that `url::Url::set_path` gives a URL of a special scheme (such
/// as http, https, ws or wss) when asked for the path `p`: `p` with the
/// characters that need it percent-encoded. It depends on the text alone.
pub uninterp spec fn special_path(p: Seq<char>) -> Seq<char>;

/// Whether `s` is one of the schemes a relay address may have.
pub open spec fn is_web_scheme(s: Seq<char>) -> bool {
    s == http_chars() || s == https_chars() || s == ws_chars() || s == wss_chars()
}

/// The default port of a web scheme.
pub open spec fn default_port(s: Seq<char>) -> u16 {
    if s == https_chars() || s == wss_chars() {
        443
    } else {
        80
    }
}

/// The port a URL keeps when its scheme becomes `scheme`: none where its
/// port is the new scheme's default.
pub open spec fn port_after_scheme(port: Option<u16>, scheme: Seq<char>) -> Option<u16> {
    if port == Some(default_port(scheme)) {
        None
    } else {
        port
    }
}

/// A URL being made into a request address, with what the contracts know of
/// it: its scheme, host and port, its path once set, and the query pairs
/// appended to it, in order.
pub struct RequestUrl {
    url: url::Url,
    scheme: Ghost<Seq<char>>,
    host: Ghost<Option<Seq<char>>>,
    port: Ghost<Option<u16>>,
    path: Ghost<Option<Seq<char>>>,
    appended: Ghost<Seq<(Seq<char>, Seq<char>)>>,
}

impl RequestUrl {
    /// The URL's scheme.
    pub closed spec fn scheme(&self) -> Seq<char> {
        self.scheme@
    }

    /// The URL's host.
    pub closed spec fn host(&self) -> Option<Seq<char>> {
        self.host@
    }

    /// The URL's port, none where it is the scheme's default.
    pub closed spec fn port(&self) -> Option<u16> {
        self.port@
    }

    /// The URL's path, where it was set through `set_url_path`.
    pub closed spec fn path(&self) -> Option<Seq<char>> {
        self.path@
    }

    /// The `name=value` pairs that end the URL's query, in order.
    pub closed spec fn appended(&self) -> Seq<(Seq<char>, Seq<char>)> {
        self.appended@
    }

    /// The URL itself.
    pub fn into_url(self) -> url::Url {
        self.url
    }
}

/// Relies on `url::Url::parse`: parses an absolute URL, failing on text
/// that is none. A URL always has a scheme, and one of a special scheme
/// other than `file` always has a host that is not empty.
#[verifier::external_body]
fn parse_url(s: &str) -> (r: Option<RequestUrl>)
    ensures
        r is Some <==> parsed_url(s@) is Some,
        r matches Some(u) ==> {
            &&& parsed_url(s@) == Some((u.scheme(), u.host(), u.port()))
            &&& u.scheme().len() > 0
            &&& is_web_scheme(u.scheme()) ==> (u.host() matches Some(h) && h.len() > 0)
            &&& u.path() is None
            &&& u.appended().len() == 0
        },
{
    let parts = Ghost(parsed_url(s@)->Some_0);
    let (scheme, host, port) = (Ghost(parts@.0), Ghost(parts@.1), Ghost(parts@.2));
    match url::Url::parse(s) {
        Ok(url) => Some(RequestUrl { url, scheme, host, port, path: Ghost(None), appended: Ghost(Seq::empty()) }),
        Err(_) => None,
    }
}

/// Relies on `url::Url::set_path`: replaces the path of a URL and keeps the
/// rest; for a URL of a special scheme the new path is `special_path` of
/// the text given.
#[verifier::external_body]
fn set_url_path(u: &mut RequestUrl, path: &str)
    requires
        is_web_scheme(old(u).scheme()),
    ensures
        final(u).scheme() == old(u).scheme(),
        final(u).host() == old(u).host(),
        final(u).port() == old(u).port(),
        final(u).path() == Some(special_path(path@)),
        final(u).appended() == old(u).appended(),
{
    u.url.set_path(path);
    u.path = Ghost(Some(special_path(path@)));
}

/// Relies on `url::Url::scheme`: the URL's scheme.
#[verifier::external_body]
fn url_scheme(u: &RequestUrl) -> (r: String)
    ensures
        r@ == u.scheme(),
{
    u.url.scheme().to_string()
}

/// Relies on `url::Url::set_scheme`: a change between two special schemes
/// of a URL with a host that is not empty is allowed. The host, path and
/// query stay; a port equal to the new scheme's default is dropped.
#[verifier::external_body]
fn set_url_scheme(u: &mut RequestUrl, scheme: &str)
    requires
        is_web_scheme(scheme@),
        is_web_scheme(old(u).scheme()),
        old(u).host() matches Some(h) && h.len() > 0,
    ensures
        final(u).scheme() == scheme@,
        final(u).host() == old(u).host(),
        final(u).port() == port_after_scheme(old(u).port(), scheme@),
        final(u).path() == old(u).path(),
        final(u).appended() == old(u).appended(),
{
    let _ = u.url.set_scheme(scheme);
    u.scheme = Ghost(scheme@);
    u.port = Ghost(port_after_scheme(u.port@, scheme@));
}

/// Relies on `url::form_urlencoded::Serializer::append_pair`, reached
/// through `url::Url::query_pairs_mut`: appends an encoded `name=value`
/// pair at the end of the URL's query and keeps the rest.
#[verifier::external_body]
fn append_query_pair(u: &mut RequestUrl, name: &str, value: &str)
    ensures
        final(u).scheme() == old(u).scheme(),
        final(u).host() == old(u).host(),
        final(u).port() == old(u).port(),
        final(u).path() == old(u).path(),
        final(u).appended() == old(u).appended().push((name@, value@)),
{
    u.url.query_pairs_mut().append_pair(name, value);
    u.appended = Ghost(u.appended@.push((name@, value@)));
}

/// The address of `path` on the configured server, for an endpoint of
/// kind `scheme`, carrying the token and the device's name at the end of
/// its query. The host stays the server's; the scheme is mapped as
/// `get_matching_scheme` says, and the port stays unless it is the new
/// scheme's default. An address that does not parse, or whose scheme maps
/// to nothing, is refused.
pub fn generate_request_url(cfg: &ClientConfig, path: &str, scheme: Scheme, device_name: &str) -> (r:
    Result<RequestUrl, UrlError>)
    ensures
        parsed_url(cfg.server_host@) is None <==> r is Err && r->Err_0
            == UrlError::InvalidServerUrl,
        parsed_url(cfg.server_host@) matches Some((current, host, port)) ==> match matching_scheme(
            scheme,
            current,
        ) {
            None => r is Err && r->Err_0 == UrlError::InvalidScheme,
            Some(next) => r matches Ok(u) && u.scheme() == next && u.host() == host && u.port()
                == port_after_scheme(port, next) && u.path() == Some(special_path(path@))
                && u.appended() == seq![
                ("token"@, cfg.token@),
                ("device_name"@, device_name@),
            ],
        },
{
    let mut server_url = match parse_url(cfg.server_host.as_str()) {
        Some(u) => u,
        None => return Err(UrlError::InvalidServerUrl),
    };
    let current = url_scheme(&server_url);
    let next = match scheme.get_matching_scheme(current.as_str()) {
        Ok(s) => s,
        Err(e) => return Err(e),
    };
    proof {
        reveal_strlit("http");
        reveal_strlit("https");
        reveal_strlit("ws");
        reveal_strlit("wss");
        assert(is_web_scheme(current@));
        assert(is_web_scheme(next@));
    }
    set_url_path(&mut server_url, path);
    set_url_scheme(&mut server_url, next);
    append_query_pair(&mut server_url, "token", cfg.token.as_str());
    append_query_pair(&mut server_url, "device_name", device_name);
    proof {
        assert(server_url.appended() =~= seq![
            ("token"@, cfg.token@),
            ("device_name"@, device_name@),
        ]);
    }
    Ok(server_url)
}

} // verus!
