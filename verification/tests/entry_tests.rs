use reverse_proxy::config::port_entry_of;
use reverse_proxy::reverse_proxy::addresses::host_entry_of;
use reverse_proxy::uri::{ParsedUri, UriParts};

fn uri(scheme: Option<&str>, host: Option<&str>, port: Option<u16>) -> ParsedUri {
    let authority = host.map(|h| match port {
        Some(p) => format!("{}:{}", h, p),
        None => h.to_string(),
    });
    ParsedUri {
        uri: UriParts {
            scheme: scheme.map(String::from),
            authority,
            host: host.map(String::from),
            port,
            path_and_query: Some("/".to_string()),
        },
        path: "/".to_string(),
    }
}

#[test]
fn host_entry_takes_source_host() {
    let (key, target) = host_entry_of(
        Ok(uri(Some("https"), Some("a.example"), Some(8443))),
        Ok(uri(Some("http"), Some("backend"), None)),
    )
    .unwrap();
    assert_eq!(key, "a.example");
    assert_eq!(target.host.as_deref(), Some("backend"));
}

#[test]
fn host_entry_errors_in_order() {
    let bad = || Err::<ParsedUri, String>("invalid format".to_string());
    assert_eq!(host_entry_of(bad(), Err("other".to_string())).err(), Some("invalid format".to_string()));
    assert_eq!(
        host_entry_of(Ok(uri(None, None, None)), bad()).err(),
        Some("could not parse host from source uri".to_string())
    );
    assert_eq!(host_entry_of(Ok(uri(None, Some("a"), None)), bad()).err(), Some("invalid format".to_string()));
}

#[test]
fn port_entry_takes_source_host_and_port() {
    let target = || Ok(uri(Some("http"), Some("backend"), Some(81)));
    assert_eq!(port_entry_of(Ok(uri(Some("https"), Some("a"), None)), target()).unwrap().0, "a:443");
    assert_eq!(port_entry_of(Ok(uri(None, Some("a"), None)), target()).unwrap().0, "a:80");
    assert_eq!(port_entry_of(Ok(uri(Some("http"), Some("a"), Some(7))), target()).unwrap().0, "a:7");
}

#[test]
fn port_entry_errors_in_order() {
    assert_eq!(
        port_entry_of(Ok(uri(Some("http"), None, None)), Err("x".to_string())).err(),
        Some("could not parse host and port from address".to_string())
    );
    assert_eq!(
        port_entry_of(Ok(uri(Some("http"), Some("a"), None)), Err("x".to_string())).err(),
        Some("x".to_string())
    );
}
