use reverse_proxy::config::get_host_and_port;
use reverse_proxy::response::requests::get_host_and_authority;
use reverse_proxy::uri::UriParts;

fn parts(text: &str) -> UriParts {
    let u: http::Uri = text.parse().unwrap();
    UriParts {
        scheme: u.scheme_str().map(String::from),
        authority: u.authority().map(|a| a.as_str().to_string()),
        host: u.host().map(String::from),
        port: u.port_u16(),
        path_and_query: u.path_and_query().map(|p| p.as_str().to_string()),
    }
}

#[test]
fn https_defaults_to_443() {
    assert_eq!(get_host_and_port(&parts("https://example.com/a")), Some("example.com:443".to_string()));
}

#[test]
fn http_defaults_to_80() {
    assert_eq!(get_host_and_port(&parts("http://example.com")), Some("example.com:80".to_string()));
}

#[test]
fn missing_scheme_defaults_to_80() {
    assert_eq!(get_host_and_port(&parts("example.com")), Some("example.com:80".to_string()));
}

#[test]
fn other_scheme_defaults_to_80() {
    assert_eq!(get_host_and_port(&parts("ws://example.com")), Some("example.com:80".to_string()));
}

#[test]
fn explicit_port_is_kept() {
    assert_eq!(get_host_and_port(&parts("https://example.com:8443/")), Some("example.com:8443".to_string()));
    assert_eq!(get_host_and_port(&parts("localhost:3000")), Some("localhost:3000".to_string()));
}

#[test]
fn explicit_port_is_rendered_as_a_number() {
    assert_eq!(get_host_and_port(&parts("http://example.com:0080")), Some("example.com:80".to_string()));
}

#[test]
fn no_host_gives_none() {
    assert_eq!(get_host_and_port(&parts("/only/a/path")), None);
}

#[test]
fn host_and_authority_of_upstream() {
    assert_eq!(
        get_host_and_authority(&parts("https://upstream.local/x?y")),
        Ok(("upstream.local".to_string(), "upstream.local:443".to_string()))
    );
    assert_eq!(
        get_host_and_authority(&parts("http://10.0.0.1:9000")),
        Ok(("10.0.0.1".to_string(), "10.0.0.1:9000".to_string()))
    );
}

#[test]
fn host_and_authority_without_host() {
    assert_eq!(
        get_host_and_authority(&parts("/index.html")),
        Err("failed to retrieve URI from upstream URI")
    );
}
