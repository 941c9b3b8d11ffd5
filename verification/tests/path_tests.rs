use reverse_proxy::config::{
    config_dir, config_file_path, config_relative_paths, finish_config, get_target_path,
    get_target_uri, resolve_config_paths, Config,
};
use reverse_proxy::paths::join_path;
use reverse_proxy::reverse_proxy::config::resolve_relative_paths;
use reverse_proxy::uri::{ParsedUri, UriParts};

fn base_config() -> Config {
    Config {
        host_and_port: "127.0.0.1:8443".to_string(),
        key_filepath: "key.pem".to_string(),
        cert_filepath: "/etc/tls/cert.pem".to_string(),
        addresses: vec![("a".to_string(), "http://b".to_string())],
        dangerous_self_signed_addresses: None,
    }
}

#[test]
fn relative_paths_join_the_config_directory() {
    let c = resolve_relative_paths(base_config(), "/srv/proxy");
    assert_eq!(c.key_filepath, "/srv/proxy/key.pem");
    assert_eq!(c.cert_filepath, "/etc/tls/cert.pem");
    assert_eq!(c.host_and_port, "127.0.0.1:8443");
    assert_eq!(c.addresses.len(), 1);
}

#[test]
fn target_path_of_a_directory_path() {
    assert_eq!(get_target_path("/app/", false), Ok("/app/".to_string()));
}

#[test]
fn target_path_of_a_file_is_its_parent() {
    assert_eq!(get_target_path("/app/index.html", true), Ok("/app".to_string()));
    assert_eq!(get_target_path("/index.html", true), Ok("/".to_string()));
}

#[test]
fn target_path_of_root_file_has_no_parent() {
    assert_eq!(get_target_path("/", true), Err("path has no parent path".to_string()));
}

#[test]
fn target_path_with_invalid_character() {
    assert_eq!(get_target_path("/a b", false), Err("invalid uri character".to_string()));
}

#[test]
fn target_uri_of_existing_file_uses_parent() {
    let u = ParsedUri {
        uri: UriParts {
            scheme: Some("http".to_string()),
            authority: Some("x".to_string()),
            host: Some("x".to_string()),
            port: None,
            path_and_query: Some("/proc/self/exe".to_string()),
        },
        path: "/proc/self/exe".to_string(),
    };
    assert_eq!(get_target_uri(&u), Ok("/proc/self".to_string()));
}

#[test]
fn target_uri_of_missing_file_keeps_path() {
    let u = ParsedUri {
        uri: UriParts {
            scheme: Some("http".to_string()),
            authority: Some("x".to_string()),
            host: Some("x".to_string()),
            port: None,
            path_and_query: Some("/no/such/place.html".to_string()),
        },
        path: "/no/such/place.html".to_string(),
    };
    assert_eq!(get_target_uri(&u), Ok("/no/such/place.html".to_string()));
}

#[test]
fn finish_config_keeps_fields_and_takes_paths() {
    let c = finish_config(base_config(), Ok("/a/key.pem".to_string()), false, Ok("/a/cert.pem".to_string()), false).unwrap();
    assert_eq!(c.key_filepath, "/a/key.pem");
    assert_eq!(c.cert_filepath, "/a/cert.pem");
    assert_eq!(c.host_and_port, "127.0.0.1:8443");
}

#[test]
fn finish_config_reports_key_first() {
    let r = finish_config(base_config(), Err("bad key".to_string()), false, Err("bad cert".to_string()), true);
    assert_eq!(r.err(), Some("bad key".to_string()));
    let r = finish_config(base_config(), Ok("/k".to_string()), true, Err("bad cert".to_string()), true);
    assert_eq!(r.err(), Some("failed to create absolute path from relative path for key_filepath".to_string()));
}

#[test]
fn finish_config_reports_cert() {
    let r = finish_config(base_config(), Ok("/k".to_string()), false, Err("bad cert".to_string()), true);
    assert_eq!(r.err(), Some("bad cert".to_string()));
    let r = finish_config(base_config(), Ok("/k".to_string()), false, Ok("/c".to_string()), true);
    assert_eq!(r.err(), Some("failed to create absolute path from relative path for cert_filepath".to_string()));
}

#[test]
fn join_path_matches_std_join() {
    let cases = [
        ("/srv/proxy", "key.pem"),
        ("/srv/proxy/", "key.pem"),
        ("/srv/proxy", "/etc/key.pem"),
        ("", "key.pem"),
        ("/srv", ""),
        ("/", "a/b"),
        ("rel/dir", "../x"),
        ("/a//", "b"),
    ];
    for (base, rel) in cases {
        let expected = std::path::Path::new(base).join(rel).to_string_lossy().into_owned();
        assert_eq!(join_path(base, rel), expected, "joining {:?} and {:?}", base, rel);
    }
}

#[test]
fn config_dir_of_a_file_path() {
    assert_eq!(config_dir("/etc/proxy/config.json"), Ok("/etc/proxy".to_string()));
    assert_eq!(config_dir("/"), Err("parent directory of config not found".to_string()));
}

#[test]
fn config_relative_paths_join_the_file_directory() {
    let c = base_config();
    assert_eq!(
        config_relative_paths("/srv/proxy/config.json", &c),
        Ok(("/srv/proxy".to_string(), "/srv/proxy/key.pem".to_string(), "/etc/tls/cert.pem".to_string()))
    );
    assert_eq!(config_relative_paths("/", &c), Err("parent directory of config not found".to_string()));
}

#[test]
fn config_file_path_is_absolute() {
    assert_eq!(config_file_path("/home/u", "conf/proxy.json"), Ok("/home/u/conf/proxy.json".to_string()));
    assert_eq!(config_file_path("/home/u", "./proxy.json"), Ok("/home/u/proxy.json".to_string()));
    assert_eq!(config_file_path("/home/u", "/etc/proxy.json"), Ok("/etc/proxy.json".to_string()));
}

#[test]
fn resolve_config_paths_makes_paths_absolute() {
    let c = resolve_config_paths(base_config(), "/no/such/dir/config.json").unwrap();
    assert_eq!(c.key_filepath, "/no/such/dir/key.pem");
    assert_eq!(c.cert_filepath, "/etc/tls/cert.pem");
    assert_eq!(c.host_and_port, "127.0.0.1:8443");
}

#[test]
fn resolve_config_paths_refuses_a_directory() {
    let mut c = base_config();
    c.key_filepath = "..".to_string();
    assert_eq!(
        resolve_config_paths(c, "/proc/config.json").err(),
        Some("failed to create absolute path from relative path for key_filepath".to_string())
    );
    let mut c = base_config();
    c.key_filepath = "/no/such/key.pem".to_string();
    c.cert_filepath = "/".to_string();
    assert_eq!(
        resolve_config_paths(c, "/etc/x/config.json").err(),
        Some("failed to create absolute path from relative path for cert_filepath".to_string())
    );
}

#[test]
fn resolve_config_paths_without_parent() {
    assert_eq!(
        resolve_config_paths(base_config(), "/").err(),
        Some("parent directory of config not found".to_string())
    );
}
