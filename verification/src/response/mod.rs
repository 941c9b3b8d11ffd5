//! Routing an incoming request: finding its host, looking up the upstream
//! target, rewriting its URI, and choosing how to reach the upstream.
use vstd::prelude::*;
use vstd::string::StringExecFns;

use crate::address_map::{AddressMap, AddressView};
use crate::text::{header_text, header_value_to_str};
use crate::uri::{is_https, parse_uri, uri_parse_outcome, UriParts, UriView};

pub mod requests;

use self::requests::{
    create_fallback_response, fallback, FallbackResponse, FallbackView, BAD_GATEWAY,
    BAD_REQUEST, INTERNAL_SERVER_ERROR,
};

verus! {

/// HTTP protocol versions.
#[derive(PartialEq, Eq, Structural, Clone, Copy, Debug)]
pub enum HttpVersion {
    Http09,
    Http10,
    Http11,
    Http2,
    Http3,
}

/// What the proxy reads of an incoming request: its version, its URI, and
/// the bytes of its first `Host` header.
pub struct RequestHead {
    pub version: HttpVersion,
    pub uri: UriParts,
    pub host_header: Option<Vec<u8>>,
}

/// The mathematical value of a [`RequestHead`].
pub struct RequestView {
    pub version: HttpVersion,
    pub uri: UriView,
    pub host_header: Option<Seq<u8>>,
}

impl View for RequestHead {
    type V = RequestView;

    open spec fn view(&self) -> RequestView {
        RequestView {
            version: self.version,
            uri: self.uri@,
            host_header: match self.host_header {
                Some(b) => Some(b@),
                None => None,
            },
        }
    }
}

/// The body of the answer where no upstream can be found for a request.
pub open spec fn uri_from_request_error() -> Seq<char> {
    "unable to parse upstream URI from request"@
}

/// The body of the answer where the request's URI cannot be rewritten.
pub open spec fn upstream_uri_error() -> Seq<char> {
    "falied to update request with upstream URI"@
}

/// The host a request is for: the host of its URI (as in HTTP/2), else
/// the host of its `Host` header read as a URI (as in HTTP/1).
pub open spec fn host_of_request(r: RequestView) -> Option<Seq<char>> {
    match r.uri.host {
        Some(h) => Some(h),
        None => match r.host_header {
            None => None,
            Some(bytes) => match header_text(bytes) {
                None => None,
                Some(text) => match uri_parse_outcome(text) {
                    Ok(u) => u.uri.host,
                    Err(_) => None,
                },
            },
        },
    }
}

/// The host a request is for.
pub fn get_host(req: &RequestHead) -> (r: Option<String>)
    ensures
        crate::uri::opt_view(r) == host_of_request(req@),
{
    if let Some(host) = &req.uri.host {
        return Some(host.clone());
    }
    let host_header = match &req.host_header {
        Some(h) => h,
        None => return None,
    };
    let host_str = match header_value_to_str(host_header) {
        Some(s) => s,
        None => return None,
    };
    match parse_uri(host_str.as_str()) {
        Ok(host_as_uri) => host_as_uri.uri.host,
        Err(_) => None,
    }
}

/// Why the parts of a URI do not make a URI, as `http::Uri::from_parts`
/// reports it.
#[derive(PartialEq, Eq, Structural, Clone, Copy, Debug)]
pub enum UriPartsError {
    /// A scheme without an authority.
    AuthorityMissing,
    /// A scheme without a path.
    PathAndQueryMissing,
    /// An authority and a path without a scheme.
    SchemeMissing,
}

/// The URI of a request sent on to `target`: the target's scheme and
/// authority with the request's path and query, as `Uri::from_parts`
/// assembles them; or why the parts do not make a URI.
pub open spec fn rewritten_uri(req: UriView, target: UriView) -> Result<UriView, UriPartsError> {
    let pq = req.path_and_query;
    if target.scheme is Some && target.authority is None {
        Err(UriPartsError::AuthorityMissing)
    } else if target.scheme is Some && pq is None {
        Err(UriPartsError::PathAndQueryMissing)
    } else if target.scheme is None && target.authority is Some && pq is Some {
        Err(UriPartsError::SchemeMissing)
    } else {
        let new_pq = if target.scheme is Some || target.authority is None {
            Some(
                match pq {
                    Some(q) => q,
                    None => "/"@,
                },
            )
        } else {
            None
        };
        Ok(
            UriView {
                scheme: target.scheme,
                authority: target.authority,
                host: target.host,
                port: target.port,
                path_and_query: new_pq,
            },
        )
    }
}

/// Gives `req` the scheme and authority of `target_uri`, keeping its own
/// path and query; leaves it as it was where the parts do not make a URI.
pub fn update_request_with_dest_uri(req: &mut RequestHead, target_uri: &UriParts) -> (r: Result<
    (),
    UriPartsError,
>)
    ensures
        match rewritten_uri(old(req)@.uri, target_uri@) {
            Ok(u) => r is Ok && final(req)@ == RequestView { uri: u, ..old(req)@ },
            Err(e) => r == Err::<(), UriPartsError>(e) && final(req)@ == old(req)@,
        },
{
    let has_scheme = target_uri.scheme.is_some();
    let has_authority = target_uri.authority.is_some();
    let has_pq = req.uri.path_and_query.is_some();
    if has_scheme && !has_authority {
        return Err(UriPartsError::AuthorityMissing);
    }
    if has_scheme && !has_pq {
        return Err(UriPartsError::PathAndQueryMissing);
    }
    if !has_scheme && has_authority && has_pq {
        return Err(UriPartsError::SchemeMissing);
    }
    let path_and_query = if has_scheme || !has_authority {
        proof {
            reveal_strlit("/");
        }
        match &req.uri.path_and_query {
            Some(q) => Some(q.clone()),
            None => Some(String::from_str("/")),
        }
    } else {
        None
    };
    req.uri = UriParts {
        scheme: target_uri.scheme.clone(),
        authority: target_uri.authority.clone(),
        host: target_uri.host.clone(),
        port: target_uri.port,
        path_and_query,
    };
    Ok(())
}

/// How a request reaches its upstream: HTTP/2 or HTTP/1, with or without
/// TLS; over TLS, whether the upstream's certificate goes unchecked.
#[derive(PartialEq, Eq, Structural, Clone, Copy, Debug)]
pub enum Upstream {
    Http2Tls { is_dangerous: bool },
    Http2,
    Http1Tls { is_dangerous: bool },
    Http1,
}

/// The way to the upstream: HTTP/2 for an HTTP/2 request, HTTP/1
/// otherwise; TLS where the scheme is `https`.
pub open spec fn upstream_for(version: HttpVersion, scheme: Option<Seq<char>>, is_dangerous: bool) -> Upstream {
    let tls = scheme == Some("https"@);
    if version == HttpVersion::Http2 {
        if tls {
            Upstream::Http2Tls { is_dangerous }
        } else {
            Upstream::Http2
        }
    } else {
        if tls {
            Upstream::Http1Tls { is_dangerous }
        } else {
            Upstream::Http1
        }
    }
}

/// Chooses how to send a (rewritten) request to its upstream.
pub fn get_response(req: &RequestHead, is_dangerous: bool) -> (u: Upstream)
    ensures
        u == upstream_for(req.version, req@.uri.scheme, is_dangerous),
{
    let tls = is_https(&req.uri.scheme);
    match (req.version, tls) {
        (HttpVersion::Http2, true) => Upstream::Http2Tls { is_dangerous },
        (HttpVersion::Http2, false) => Upstream::Http2,
        (_, true) => Upstream::Http1Tls { is_dangerous },
        _ => Upstream::Http1,
    }
}

/// What to do with an incoming request: send it on, rewritten, by the
/// given way; or answer it with a response of the proxy's own.
pub enum ResponsePlan {
    Forward { request: RequestHead, upstream: Upstream },
    Fallback(FallbackResponse),
}

/// The mathematical value of a [`ResponsePlan`].
pub enum PlanView {
    Forward { request: RequestView, upstream: Upstream },
    Fallback(FallbackView),
}

impl View for ResponsePlan {
    type V = PlanView;

    open spec fn view(&self) -> PlanView {
        match self {
            ResponsePlan::Forward { request, upstream } => PlanView::Forward {
                request: request@,
                upstream: *upstream,
            },
            ResponsePlan::Fallback(f) => PlanView::Fallback(f@),
        }
    }
}

/// The plan for a request given the address table: 400 where it names no
/// host, 502 where its host has no target, 500 where its URI cannot take
/// the target's scheme and authority; else forwarding the rewritten
/// request the way its version and the target's scheme call for.
pub open spec fn response_plan(req: RequestView, addresses: Map<Seq<char>, AddressView>) -> PlanView {
    match host_of_request(req) {
        None => PlanView::Fallback(fallback(BAD_REQUEST, uri_from_request_error())),
        Some(host) => if !addresses.contains_key(host) {
            PlanView::Fallback(fallback(BAD_GATEWAY, uri_from_request_error()))
        } else {
            let params = addresses[host];
            match rewritten_uri(req.uri, params.uri) {
                Err(_) => PlanView::Fallback(fallback(INTERNAL_SERVER_ERROR, upstream_uri_error())),
                Ok(u) => PlanView::Forward {
                    request: RequestView { uri: u, ..req },
                    upstream: upstream_for(req.version, u.scheme, params.is_dangerous),
                },
            }
        },
    }
}

/// The answer where a request's URI cannot take its target's scheme and
/// authority: 500 with [`upstream_uri_error`].
pub fn rewrite_failure_response() -> (r: FallbackResponse)
    ensures
        r@ == fallback(INTERNAL_SERVER_ERROR, upstream_uri_error()),
{
    create_fallback_response(INTERNAL_SERVER_ERROR, "falied to update request with upstream URI")
}

/// Decides what to do with an incoming request.
pub fn build_response(req: RequestHead, addresses: &AddressMap) -> (r: ResponsePlan)
    ensures
        r@ == response_plan(req@, addresses@),
{
    let mut req = req;
    let host = match get_host(&req) {
        Some(h) => h,
        None => return ResponsePlan::Fallback(
            create_fallback_response(BAD_REQUEST, "unable to parse upstream URI from request"),
        ),
    };
    let address_params = match addresses.get(host.as_str()) {
        Some(params) => params,
        None => return ResponsePlan::Fallback(
            create_fallback_response(BAD_GATEWAY, "unable to parse upstream URI from request"),
        ),
    };
    if let Err(_) = update_request_with_dest_uri(&mut req, &address_params.uri) {
        return ResponsePlan::Fallback(rewrite_failure_response());
    }
    let upstream = get_response(&req, address_params.is_dangerous);
    ResponsePlan::Forward { request: req, upstream }
}

} // verus!
