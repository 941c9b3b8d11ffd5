use reverse_proxy::address_map::{AddressMap, AddressParams};
use reverse_proxy::response::requests::{
    connect_error_message, connection_target, create_fallback_response, failure_response,
    ConnectError, SendFailure,
};
use reverse_proxy::response::{
    build_response, get_host, get_response, rewrite_failure_response, update_request_with_dest_uri,
    HttpVersion, RequestHead, ResponsePlan, Upstream, UriPartsError,
};
use reverse_proxy::uri::UriParts;
use reverse_proxy::config::Config;
use reverse_proxy::reverse_proxy::addresses::create_address_map;

fn parts(text: &str) -> UriParts {
    let u: http::Uri = text.parse().unwrap();
    UriParts {
        scheme: u.scheme_str().map(String::from),
        authority: u.authority().map(|a| a.as_str().to_string()),
        host: u.host().map(String::from),
        port: u.port_u16(),
        path_and_query: u.path_and_query().map(|p| p.as_str().to_string()),
    }
}

fn head(version: HttpVersion, uri: &str, host: Option<&str>) -> RequestHead {
    RequestHead { version, uri: parts(uri), host_header: host.map(|h| h.as_bytes().to_vec()) }
}

fn table() -> AddressMap {
    let mut m = AddressMap::new();
    m.insert("app.example".to_string(), AddressParams { uri: parts("http://127.0.0.1:3000"), is_dangerous: false });
    m.insert("secure.example".to_string(), AddressParams { uri: parts("https://10.0.0.5"), is_dangerous: true });
    m.insert("pathless.example".to_string(), AddressParams { uri: parts("backend:9000"), is_dangerous: false });
    m
}

#[test]
fn host_from_http2_uri() {
    let h = head(HttpVersion::Http2, "https://app.example/x", Some("other.example"));
    assert_eq!(get_host(&h), Some("app.example".to_string()));
}

#[test]
fn host_from_http1_header_without_port() {
    let h = head(HttpVersion::Http11, "/x?y=1", Some("app.example:8443"));
    assert_eq!(get_host(&h), Some("app.example".to_string()));
}

#[test]
fn host_missing_everywhere() {
    assert_eq!(get_host(&head(HttpVersion::Http11, "/x", None)), None);
    assert_eq!(get_host(&head(HttpVersion::Http11, "/x", Some(""))), None);
    let mut h = head(HttpVersion::Http11, "/x", None);
    h.host_header = Some(vec![b'a', 0xff]);
    assert_eq!(get_host(&h), None);
}

#[test]
fn rewrite_takes_target_scheme_and_authority() {
    let mut h = head(HttpVersion::Http11, "/api/v1?x=2", Some("app.example"));
    assert_eq!(update_request_with_dest_uri(&mut h, &parts("https://10.0.0.5:8443/ignored")), Ok(()));
    assert_eq!(h.uri.scheme.as_deref(), Some("https"));
    assert_eq!(h.uri.authority.as_deref(), Some("10.0.0.5:8443"));
    assert_eq!(h.uri.host.as_deref(), Some("10.0.0.5"));
    assert_eq!(h.uri.port, Some(8443));
    assert_eq!(h.uri.path_and_query.as_deref(), Some("/api/v1?x=2"));
}

#[test]
fn rewrite_without_target_scheme_fails() {
    let mut h = head(HttpVersion::Http11, "/api", None);
    assert_eq!(update_request_with_dest_uri(&mut h, &parts("backend:9000")), Err(UriPartsError::SchemeMissing));
    assert_eq!(h.uri.path_and_query.as_deref(), Some("/api"));
    assert!(h.uri.scheme.is_none());
}

#[test]
fn rewrite_agrees_with_http_from_parts() {
    let target: http::Uri = "http://up:81".parse().unwrap();
    let req: http::Uri = "/p?q".parse().unwrap();
    let mut p = target.clone().into_parts();
    p.path_and_query = req.path_and_query().cloned();
    let expected = http::Uri::from_parts(p).unwrap();
    let mut h = RequestHead { version: HttpVersion::Http11, uri: parts("/p?q"), host_header: None };
    update_request_with_dest_uri(&mut h, &parts("http://up:81")).unwrap();
    assert_eq!(h.uri.scheme.as_deref(), expected.scheme_str());
    assert_eq!(h.uri.authority.as_deref(), expected.authority().map(|a| a.as_str()));
    assert_eq!(h.uri.path_and_query.as_deref(), expected.path_and_query().map(|a| a.as_str()));
}

#[test]
fn upstream_choice_table() {
    let tls = head(HttpVersion::Http2, "https://x/", None);
    let plain = head(HttpVersion::Http11, "http://x/", None);
    assert_eq!(get_response(&tls, true), Upstream::Http2Tls { is_dangerous: true });
    assert_eq!(get_response(&plain, true), Upstream::Http1);
    let h2_plain = head(HttpVersion::Http2, "http://x/", None);
    assert_eq!(get_response(&h2_plain, false), Upstream::Http2);
    let h1_tls = head(HttpVersion::Http10, "https://x/", None);
    assert_eq!(get_response(&h1_tls, false), Upstream::Http1Tls { is_dangerous: false });
    let no_scheme = head(HttpVersion::Http2, "/x", None);
    assert_eq!(get_response(&no_scheme, true), Upstream::Http2);
}

fn expect_fallback(plan: ResponsePlan, status: u16, body: &str) {
    match plan {
        ResponsePlan::Fallback(f) => {
            assert_eq!(f.status, status);
            assert_eq!(f.body, body);
            assert_eq!(f.content_type, "text/html; charset=utf-8");
        }
        ResponsePlan::Forward { .. } => panic!("expected a fallback"),
    }
}

#[test]
fn build_response_without_host_is_400() {
    let plan = build_response(head(HttpVersion::Http11, "/x", None), &table());
    expect_fallback(plan, 400, "unable to parse upstream URI from request");
}

#[test]
fn build_response_unknown_host_is_502() {
    let plan = build_response(head(HttpVersion::Http11, "/x", Some("nobody.example")), &table());
    expect_fallback(plan, 502, "unable to parse upstream URI from request");
}

#[test]
fn build_response_unrewritable_is_500() {
    let plan = build_response(head(HttpVersion::Http11, "/x", Some("pathless.example")), &table());
    expect_fallback(plan, 500, "falied to update request with upstream URI");
}

#[test]
fn build_response_forwards_http1() {
    let plan = build_response(head(HttpVersion::Http11, "/items?page=2", Some("app.example")), &table());
    match plan {
        ResponsePlan::Forward { request, upstream } => {
            assert_eq!(upstream, Upstream::Http1);
            assert_eq!(request.uri.authority.as_deref(), Some("127.0.0.1:3000"));
            assert_eq!(request.uri.scheme.as_deref(), Some("http"));
            assert_eq!(request.uri.path_and_query.as_deref(), Some("/items?page=2"));
            assert_eq!(request.host_header, Some(b"app.example".to_vec()));
        }
        ResponsePlan::Fallback(_) => panic!("expected forwarding"),
    }
}

#[test]
fn build_response_forwards_http2_to_dangerous_tls() {
    let plan = build_response(head(HttpVersion::Http2, "https://secure.example/", None), &table());
    match plan {
        ResponsePlan::Forward { request, upstream } => {
            assert_eq!(upstream, Upstream::Http2Tls { is_dangerous: true });
            assert_eq!(request.uri.host.as_deref(), Some("10.0.0.5"));
            assert_eq!(request.uri.path_and_query.as_deref(), Some("/"));
        }
        ResponsePlan::Fallback(_) => panic!("expected forwarding"),
    }
}

#[test]
fn fallback_response_fields() {
    let f = create_fallback_response(418, "teapot");
    assert_eq!(f.status, 418);
    assert_eq!(f.body, "teapot");
    assert_eq!(f.content_type, "text/html; charset=utf-8");
}

#[test]
fn connection_target_cases() {
    assert_eq!(
        connection_target(&parts("https://up.example/x")).ok(),
        Some(("up.example".to_string(), "up.example:443".to_string()))
    );
    match connection_target(&parts("/x")) {
        Err(f) => {
            assert_eq!(f.status, 400);
            assert_eq!(f.body, "failed to retrieve URI from upstream URI");
        }
        Ok(_) => panic!("expected a fallback"),
    }
}

#[test]
fn failure_responses() {
    let f = failure_response(&SendFailure::Connect(ConnectError::TcpConnect));
    assert_eq!((f.status, f.body.as_str()), (503, "failed to establish tcp connection"));
    let f = failure_response(&SendFailure::Connect(ConnectError::TlsBuild));
    assert_eq!((f.status, f.body.as_str()), (503, "failed to build TLS connection"));
    let f = failure_response(&SendFailure::Connect(ConnectError::TlsTcpConnect));
    assert_eq!((f.status, f.body.as_str()), (503, "failed to establish TCP connection"));
    let f = failure_response(&SendFailure::Connect(ConnectError::TlsHandshake));
    assert_eq!((f.status, f.body.as_str()), (503, "failed to establish TLS connection"));
    let f = failure_response(&SendFailure::Handshake);
    assert_eq!((f.status, f.body.as_str()), (503, "upstream handshake failed"));
    let f = failure_response(&SendFailure::Request);
    assert_eq!((f.status, f.body.as_str()), (502, "failed to process request"));
    assert_eq!(connect_error_message(&ConnectError::TlsHandshake), "failed to establish TLS connection");
}

#[test]
fn rewrite_twice_is_rewrite_once() {
    let target = parts("https://10.0.0.5:8443");
    let mut once = head(HttpVersion::Http11, "/a?b", None);
    update_request_with_dest_uri(&mut once, &target).unwrap();
    let mut twice = head(HttpVersion::Http11, "/a?b", None);
    update_request_with_dest_uri(&mut twice, &target).unwrap();
    update_request_with_dest_uri(&mut twice, &target).unwrap();
    assert_eq!(once.uri.scheme, twice.uri.scheme);
    assert_eq!(once.uri.authority, twice.uri.authority);
    assert_eq!(once.uri.path_and_query, twice.uri.path_and_query);
}

#[test]
fn configured_plain_host_is_forwarded_to_last_target() {
    let c = Config {
        host_and_port: "0.0.0.0:443".to_string(),
        key_filepath: "/k".to_string(),
        cert_filepath: "/c".to_string(),
        addresses: vec![
            ("shop.example".to_string(), "https://old-backend".to_string()),
            ("https://shop.example".to_string(), "https://new-backend:8443".to_string()),
        ],
        dangerous_self_signed_addresses: Some(vec![("lab.example".to_string(), "https://lab:9443".to_string())]),
    };
    let m = create_address_map(&c).unwrap();
    match build_response(head(HttpVersion::Http11, "/cart", Some("shop.example")), &m) {
        ResponsePlan::Forward { request, upstream } => {
            assert_eq!(upstream, Upstream::Http1Tls { is_dangerous: false });
            assert_eq!(request.uri.authority.as_deref(), Some("new-backend:8443"));
            assert_eq!(request.uri.path_and_query.as_deref(), Some("/cart"));
        }
        ResponsePlan::Fallback(_) => panic!("expected forwarding"),
    }
    match build_response(head(HttpVersion::Http2, "https://lab.example/x", None), &m) {
        ResponsePlan::Forward { upstream, .. } => {
            assert_eq!(upstream, Upstream::Http2Tls { is_dangerous: true });
        }
        ResponsePlan::Fallback(_) => panic!("expected forwarding"),
    }
}

fn rewritten_like_http(request: &str, target: &str) {
    let t: http::Uri = target.parse().unwrap();
    let r: http::Uri = request.parse().unwrap();
    let mut p = t.clone().into_parts();
    p.path_and_query = r.path_and_query().cloned();
    let expected = http::Uri::from_parts(p);
    let mut h = RequestHead { version: HttpVersion::Http11, uri: parts(request), host_header: None };
    let ours = update_request_with_dest_uri(&mut h, &parts(target));
    match expected {
        Ok(u) => {
            assert_eq!(ours, Ok(()));
            assert_eq!(h.uri.scheme.as_deref(), u.scheme_str());
            assert_eq!(h.uri.authority.as_deref(), u.authority().map(|a| a.as_str()));
            assert_eq!(h.uri.host.as_deref(), u.host());
            assert_eq!(h.uri.port, u.port_u16());
            assert_eq!(h.uri.path_and_query.as_deref(), u.path_and_query().map(|a| a.as_str()));
        }
        Err(_) => assert!(ours.is_err()),
    }
}

#[test]
fn rewrite_agrees_with_http_on_edge_cases() {
    rewritten_like_http("example.com:443", "/only/a/path");
    rewritten_like_http("example.com:443", "https://up:8443");
    rewritten_like_http("http://host", "/only/a/path");
    rewritten_like_http("http://host", "https://up");
    rewritten_like_http("*", "http://up");
    rewritten_like_http("/a?b", "up:81");
    rewritten_like_http("example.com:443", "up:81");
}

#[test]
fn rewrite_of_authority_form_for_path_only_target() {
    let mut h = head(HttpVersion::Http11, "example.com:443", None);
    assert_eq!(update_request_with_dest_uri(&mut h, &parts("/only/a/path")), Ok(()));
    assert!(h.uri.scheme.is_none());
    assert!(h.uri.authority.is_none());
    assert_eq!(h.uri.path_and_query.as_deref(), Some("/"));
}

#[test]
fn rewrite_failure_answer() {
    let f = rewrite_failure_response();
    assert_eq!((f.status, f.body.as_str()), (500, "falied to update request with upstream URI"));
}
