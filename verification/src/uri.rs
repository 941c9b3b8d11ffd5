//! The parts of a URI that the proxy reads, parsing through the `http`
//! crate, the default port of a scheme, and `host:port` authorities.
use vstd::prelude::*;
use vstd::string::StringExecFns;

use crate::text::{decimal, u16_to_decimal};

verus! {

/// The components of a URI as `http::Uri`'s accessors report them.
///
/// `path_and_query` is the text (`as_str`) of `Uri::path_and_query`,
/// `None` where the accessor gives `None`.
#[derive(Clone, Debug)]
pub struct UriParts {
    pub scheme: Option<String>,
    pub authority: Option<String>,
    pub host: Option<String>,
    pub port: Option<u16>,
    pub path_and_query: Option<String>,
}

/// The mathematical value of a [`UriParts`].
pub struct UriView {
    pub scheme: Option<Seq<char>>,
    pub authority: Option<Seq<char>>,
    pub host: Option<Seq<char>>,
    pub port: Option<u16>,
    pub path_and_query: Option<Seq<char>>,
}

/// A URI parsed from text: its parts, and the text of `Uri::path`.
#[derive(Clone, Debug)]
pub struct ParsedUri {
    pub uri: UriParts,
    pub path: String,
}

/// The mathematical value of a [`ParsedUri`].
pub struct ParsedView {
    pub uri: UriView,
    pub path: Seq<char>,
}

impl View for ParsedUri {
    type V = ParsedView;

    open spec fn view(&self) -> ParsedView {
        ParsedView { uri: self.uri@, path: self.path@ }
    }
}

/// The view of an optional string.
pub open spec fn opt_view(o: Option<String>) -> Option<Seq<char>> {
    match o {
        Some(s) => Some(s@),
        None => None,
    }
}

impl View for UriParts {
    type V = UriView;

    open spec fn view(&self) -> UriView {
        UriView {
            scheme: opt_view(self.scheme),
            authority: opt_view(self.authority),
            host: opt_view(self.host),
            port: self.port,
            path_and_query: opt_view(self.path_and_query),
        }
    }
}

/// What `http::Uri::try_from` makes of a text: the accessors' values of
/// the parsed URI, or the message of the parse error.
pub uninterp spec fn uri_parse_outcome(text: Seq<char>) -> Result<ParsedView, Seq<char>>;

/// The view of a parse result.
pub open spec fn parse_view(r: Result<ParsedUri, String>) -> Result<ParsedView, Seq<char>> {
    match r {
        Ok(u) => Ok(u@),
        Err(e) => Err(e@),
    }
}

/// Parses a text with `http::Uri::try_from`.
///
/// Trusted: the result is the one that `uri_parse_outcome` names for the
/// text. Beyond that, only this is claimed: a non-empty path of a parsed
/// URI parses again, by itself, as a path-and-query with the same text
/// (it is `/`, `*`, or the part before the query of a path-and-query that
/// `http` has already scanned, which starts with `/`).
#[verifier::external_body]
pub(crate) fn parse_uri(text: &str) -> (r: Result<ParsedUri, String>)
    ensures
        parse_view(r) == uri_parse_outcome(text@),
        r matches Ok(u) ==> (u.path@.len() > 0 ==> crate::paths::path_and_query_parse_outcome(
            u.path@,
        ) == Ok::<Seq<char>, Seq<char>>(u.path@)),
{
    match http::Uri::try_from(text) {
        Ok(u) => Ok(ParsedUri {
            uri: UriParts {
                scheme: u.scheme_str().map(String::from),
                authority: u.authority().map(|a| String::from(a.as_str())),
                host: u.host().map(String::from),
                port: u.port_u16(),
                path_and_query: u.path_and_query().map(|p| String::from(p.as_str())),
            },
            path: String::from(u.path()),
        }),
        Err(e) => Err(e.to_string()),
    }
}

/// The port used where a URI names none: 443 for `https`, 80 otherwise
/// (a missing scheme counts as `http`).
pub open spec fn default_port_text(scheme: Option<Seq<char>>) -> Seq<char> {
    if scheme == Some("https"@) {
        "443"@
    } else {
        "80"@
    }
}

/// The port of a URI as text: its own port in decimal, else the default.
pub open spec fn port_text(u: UriView) -> Seq<char> {
    match u.port {
        Some(p) => decimal(p as nat),
        None => default_port_text(u.scheme),
    }
}

/// `host:port` of a URI, where it has a host.
pub open spec fn host_and_port_text(u: UriView) -> Option<Seq<char>> {
    match u.host {
        Some(h) => Some(h + ":"@ + port_text(u)),
        None => None,
    }
}

/// Whether an optional scheme is exactly `https`.
pub fn is_https(scheme: &Option<String>) -> (r: bool)
    ensures
        r == (opt_view(*scheme) == Some("https"@)),
{
    match scheme {
        Some(s) => {
            let https = String::from_str("https");
            *s == https
        },
        None => false,
    }
}

/// The port text of a URI.
pub fn port_string(uri: &UriParts) -> (s: String)
    ensures
        s@ == port_text(uri@),
{
    match uri.port {
        Some(p) => u16_to_decimal(p),
        None => {
            proof {
                reveal_strlit("443");
                reveal_strlit("80");
            }
            if is_https(&uri.scheme) {
                String::from_str("443")
            } else {
                String::from_str("80")
            }
        },
    }
}

/// `host:port` of a URI, or `None` where it has no host.
pub fn host_and_port(uri: &UriParts) -> (r: Option<String>)
    ensures
        opt_view(r) == host_and_port_text(uri@),
{
    match &uri.host {
        Some(h) => {
            let mut s = h.clone();
            s.append(":");
            let port = port_string(uri);
            s.append(port.as_str());
            proof {
                reveal_strlit(":");
            }
            Some(s)
        },
        None => None,
    }
}

} // verus!
