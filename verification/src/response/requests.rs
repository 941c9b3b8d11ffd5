//! What the proxy answers when it cannot forward a request, and where it
//! connects to forward one.
use vstd::prelude::*;
use vstd::string::StringExecFns;

use crate::uri::{host_and_port, host_and_port_text, UriParts};

verus! {

/// 400 Bad Request.
pub const BAD_REQUEST: u16 = 400;

/// 500 Internal Server Error.
pub const INTERNAL_SERVER_ERROR: u16 = 500;

/// 502 Bad Gateway.
pub const BAD_GATEWAY: u16 = 502;

/// 503 Service Unavailable.
pub const SERVICE_UNAVAILABLE: u16 = 503;

/// A response that the proxy makes itself: a status, a content type and
/// a text body.
pub struct FallbackResponse {
    pub status: u16,
    pub content_type: String,
    pub body: String,
}

/// The mathematical value of a [`FallbackResponse`].
pub struct FallbackView {
    pub status: u16,
    pub content_type: Seq<char>,
    pub body: Seq<char>,
}

impl View for FallbackResponse {
    type V = FallbackView;

    open spec fn view(&self) -> FallbackView {
        FallbackView { status: self.status, content_type: self.content_type@, body: self.body@ }
    }
}

/// The content type of every fallback response.
pub open spec fn html_content_type() -> Seq<char> {
    "text/html; charset=utf-8"@
}

/// The fallback response with the given status and body.
pub open spec fn fallback(status: u16, body: Seq<char>) -> FallbackView {
    FallbackView { status, content_type: html_content_type(), body }
}

/// A response with the given status, an HTML content type and `body_str`
/// as its body.
pub fn create_fallback_response(status_code: u16, body_str: &str) -> (r: FallbackResponse)
    requires
        100 <= status_code <= 999,
    ensures
        r@ == fallback(status_code, body_str@),
{
    FallbackResponse {
        status: status_code,
        content_type: String::from_str("text/html; charset=utf-8"),
        body: String::from_str(body_str),
    }
}

/// The message where the upstream URI has no host.
pub open spec fn no_upstream_host_error() -> Seq<char> {
    "failed to retrieve URI from upstream URI"@
}

/// The host of an upstream URI and its `host:port` authority, with 443 as
/// the port of `https` and 80 of any other scheme where the URI names no
/// port.
pub fn get_host_and_authority(uri: &UriParts) -> (r: Result<(String, String), &'static str>)
    ensures
        match r {
            Ok((host, authority)) => uri@.host == Some(host@) && host_and_port_text(uri@) == Some(
                authority@,
            ),
            Err(e) => uri@.host is None && e@ == no_upstream_host_error(),
        },
{
    let host = match &uri.host {
        Some(h) => h.clone(),
        None => return Err("failed to retrieve URI from upstream URI"),
    };
    match host_and_port(uri) {
        Some(authority) => Ok((host, authority)),
        None => Err("failed to retrieve URI from upstream URI"),
    }
}

/// Where to connect for an upstream URI: its host (for the TLS server
/// name) and its `host:port` address; or the 400 response that names why
/// there is none.
pub fn connection_target(uri: &UriParts) -> (r: Result<(String, String), FallbackResponse>)
    ensures
        match r {
            Ok((host, address)) => uri@.host == Some(host@) && host_and_port_text(uri@) == Some(
                address@,
            ),
            Err(f) => uri@.host is None && f@ == fallback(BAD_REQUEST, no_upstream_host_error()),
        },
{
    match get_host_and_authority(uri) {
        Ok(target) => Ok(target),
        Err(e) => Err(create_fallback_response(BAD_REQUEST, e)),
    }
}

/// Ways in which opening a connection to the upstream fails.
pub enum ConnectError {
    /// The plain TCP connection could not be made.
    TcpConnect,
    /// The TLS connector could not be built.
    TlsBuild,
    /// The TCP connection under TLS could not be made.
    TlsTcpConnect,
    /// The TLS handshake failed.
    TlsHandshake,
}

/// The message of a connection failure.
pub open spec fn connect_error_text(e: ConnectError) -> Seq<char> {
    match e {
        ConnectError::TcpConnect => "failed to establish tcp connection"@,
        ConnectError::TlsBuild => "failed to build TLS connection"@,
        ConnectError::TlsTcpConnect => "failed to establish TCP connection"@,
        ConnectError::TlsHandshake => "failed to establish TLS connection"@,
    }
}

/// The message of a connection failure.
pub fn connect_error_message(e: &ConnectError) -> (m: &'static str)
    ensures
        m@ == connect_error_text(*e),
{
    match e {
        ConnectError::TcpConnect => "failed to establish tcp connection",
        ConnectError::TlsBuild => "failed to build TLS connection",
        ConnectError::TlsTcpConnect => "failed to establish TCP connection",
        ConnectError::TlsHandshake => "failed to establish TLS connection",
    }
}

/// The stage at which forwarding a request to the upstream failed.
pub enum SendFailure {
    /// No connection could be opened.
    Connect(ConnectError),
    /// The HTTP handshake over the connection failed.
    Handshake,
    /// The upstream did not answer the request.
    Request,
}

/// The message where the upstream HTTP handshake fails.
pub open spec fn upstream_handshake_error() -> Seq<char> {
    "upstream handshake failed"@
}

/// The message where the upstream does not answer.
pub open spec fn failed_to_process_request_error() -> Seq<char> {
    "failed to process request"@
}

/// The response to a failure: 503 where no connection or handshake could
/// be made, 502 where the upstream did not answer.
pub open spec fn failure_fallback(f: SendFailure) -> FallbackView {
    match f {
        SendFailure::Connect(e) => fallback(SERVICE_UNAVAILABLE, connect_error_text(e)),
        SendFailure::Handshake => fallback(SERVICE_UNAVAILABLE, upstream_handshake_error()),
        SendFailure::Request => fallback(BAD_GATEWAY, failed_to_process_request_error()),
    }
}

/// The response that the proxy gives when forwarding fails.
pub fn failure_response(f: &SendFailure) -> (r: FallbackResponse)
    ensures
        r@ == failure_fallback(*f),
{
    match f {
        SendFailure::Connect(e) => create_fallback_response(
            SERVICE_UNAVAILABLE,
            connect_error_message(e),
        ),
        SendFailure::Handshake => create_fallback_response(
            SERVICE_UNAVAILABLE,
            "upstream handshake failed",
        ),
        SendFailure::Request => create_fallback_response(BAD_GATEWAY, "failed to process request"),
    }
}

} // verus!
