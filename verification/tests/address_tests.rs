use reverse_proxy::config::{create_address_map as create_port_address_map, Config};
use reverse_proxy::reverse_proxy::addresses::create_address_map;

fn config(addresses: &[(&str, &str)], dangerous: Option<&[(&str, &str)]>) -> Config {
    let to_pairs = |ps: &[(&str, &str)]| -> Vec<(String, String)> {
        ps.iter().map(|(a, b)| (a.to_string(), b.to_string())).collect()
    };
    Config {
        host_and_port: "0.0.0.0:443".to_string(),
        key_filepath: "/k.pem".to_string(),
        cert_filepath: "/c.pem".to_string(),
        addresses: to_pairs(addresses),
        dangerous_self_signed_addresses: dangerous.map(to_pairs),
    }
}

#[test]
fn host_table_keys_by_source_host() {
    let c = config(&[("https://a.example", "http://localhost:8080"), ("b.example:444", "https://10.0.0.2")], None);
    let m = create_address_map(&c).unwrap();
    assert_eq!(m.len(), 2);
    let a = m.get("a.example").unwrap();
    assert_eq!(a.uri.authority.as_deref(), Some("localhost:8080"));
    assert_eq!(a.uri.port, Some(8080));
    assert!(!a.is_dangerous);
    let b = m.get("b.example").unwrap();
    assert_eq!(b.uri.scheme.as_deref(), Some("https"));
    assert!(m.get("b.example:444").is_none());
}

#[test]
fn host_table_later_pair_wins() {
    let c = config(&[("a.example", "http://one"), ("https://a.example", "http://two")], None);
    let m = create_address_map(&c).unwrap();
    assert_eq!(m.len(), 1);
    assert_eq!(m.get("a.example").unwrap().uri.host.as_deref(), Some("two"));
}

#[test]
fn host_table_dangerous_pair_overrides_plain() {
    let c = config(&[("a.example", "https://one")], Some(&[("a.example", "https://self-signed")]));
    let m = create_address_map(&c).unwrap();
    let a = m.get("a.example").unwrap();
    assert_eq!(a.uri.host.as_deref(), Some("self-signed"));
    assert!(a.is_dangerous);
}

#[test]
fn host_table_source_without_host() {
    let c = config(&[("/just/a/path", "http://one")], None);
    assert_eq!(create_address_map(&c).err(), Some("could not parse host from source uri".to_string()));
}

#[test]
fn host_table_bad_source_uri() {
    let c = config(&[("", "http://one")], None);
    assert_eq!(create_address_map(&c).err(), Some("empty string".to_string()));
}

#[test]
fn host_table_bad_target_uri() {
    let c = config(&[("a.example", "http://one"), ("b.example", "http://bad host")], None);
    assert_eq!(create_address_map(&c).err(), Some("invalid uri character".to_string()));
}

#[test]
fn host_table_bad_dangerous_pair() {
    let c = config(&[("a.example", "http://one")], Some(&[("/x", "http://two")]));
    assert_eq!(create_address_map(&c).err(), Some("could not parse host from source uri".to_string()));
}

#[test]
fn host_table_empty_config() {
    let c = config(&[], Some(&[]));
    assert_eq!(create_address_map(&c).unwrap().len(), 0);
}

#[test]
fn port_table_keys_by_host_and_port() {
    let c = config(
        &[("https://a.example", "http://localhost:8080/app/"), ("http://b.example", "http://x")],
        Some(&[("c.example:8443", "https://self-signed")]),
    );
    let m = create_port_address_map(&c).unwrap();
    assert_eq!(m.len(), 3);
    assert_eq!(m.get("a.example:443").unwrap().uri.path_and_query.as_deref(), Some("/app/"));
    assert!(!m.get("b.example:80").unwrap().is_dangerous);
    assert!(m.get("c.example:8443").unwrap().is_dangerous);
    assert!(m.get("a.example").is_none());
}

#[test]
fn port_table_source_without_host() {
    let c = config(&[("/x", "http://one")], None);
    assert_eq!(
        create_port_address_map(&c).err(),
        Some("could not parse host and port from address".to_string())
    );
}

#[test]
fn port_table_bad_target() {
    let c = config(&[("a.example", "")], None);
    assert_eq!(create_port_address_map(&c).err(), Some("empty string".to_string()));
}

#[test]
fn port_table_later_pair_wins() {
    let c = config(&[("http://a.example", "http://one"), ("a.example:80", "http://two")], None);
    let m = create_port_address_map(&c).unwrap();
    assert_eq!(m.len(), 1);
    assert_eq!(m.get("a.example:80").unwrap().uri.host.as_deref(), Some("two"));
}
