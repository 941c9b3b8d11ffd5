//! Proxy configuration, and the table that maps `host:port` to upstream
//! targets, with a check that each target's path is usable.
use vstd::prelude::*;
use vstd::string::StringExecFns;

use crate::address_map::{insert_outcomes, AddressMap, AddressParams, AddressView, EntryOutcome};
use crate::paths::{
    is_absolute_text, join_path, names_no_file, joined_path, lemma_join_keeps_absolute, parse_path_and_query,
    path_absolute, path_absolute_result, path_and_query_parse_outcome, path_is_dir, path_is_file,
    path_parent, path_parent_result, text_result_view,
};
use crate::uri::{
    host_and_port, host_and_port_text, parse_uri, parse_view, uri_parse_outcome, ParsedUri,
    ParsedView, UriParts,
};

verus! {

/// The proxy's configuration: where it listens, its TLS identity, and
/// the source/target address pairs it forwards between.
///
/// `dangerous_self_signed_addresses` are pairs whose upstream certificate
/// is accepted without validation.
#[derive(Clone, Debug)]
pub struct Config {
    pub host_and_port: String,
    pub key_filepath: String,
    pub cert_filepath: String,
    pub addresses: Vec<(String, String)>,
    pub dangerous_self_signed_addresses: Option<Vec<(String, String)>>,
}

/// `host:port` of a URI, with 443 as the port of `https` and 80 of any
/// other scheme where the URI names no port; `None` where it has no host.
pub fn get_host_and_port(uri: &UriParts) -> (r: Option<String>)
    ensures
        crate::uri::opt_view(r) == host_and_port_text(uri@),
{
    host_and_port(uri)
}

/// The message where a file path has no parent.
pub open spec fn no_parent_error() -> Seq<char> {
    "path has no parent path"@
}

/// The path-and-query component of a target path: the path itself, or
/// its parent where a file stands at it, parsed by `http`.
pub open spec fn target_path_outcome(path: Seq<char>, is_file: bool) -> Result<Seq<char>, Seq<char>> {
    if is_file {
        match path_parent_result(path) {
            Some(parent) => path_and_query_parse_outcome(parent),
            None => Err(no_parent_error()),
        }
    } else {
        path_and_query_parse_outcome(path)
    }
}

/// The path-and-query component of `path`, given whether a file stands
/// at it.
pub fn get_target_path(path: &str, is_file: bool) -> (r: Result<String, String>)
    ensures
        text_result_view(r) == target_path_outcome(path@, is_file),
{
    let candidate = if is_file {
        match path_parent(path) {
            Some(parent) => parent,
            None => return Err(String::from_str("path has no parent path")),
        }
    } else {
        String::from_str(path)
    };
    parse_path_and_query(candidate)
}

/// The path-and-query component for a target URI: its path, or that
/// path's parent where a regular file stands at the path on this machine.
pub fn get_target_uri(dest_uri: &ParsedUri) -> (r: Result<String, String>)
    ensures
        exists|is_file: bool| text_result_view(r) == target_path_outcome(dest_uri@.path, is_file),
{
    let is_file = path_is_file(dest_uri.path.as_str());
    let r = get_target_path(dest_uri.path.as_str(), is_file);
    assert(text_result_view(r) == target_path_outcome(dest_uri@.path, is_file));
    r
}

/// The message where a source address has no host.
pub open spec fn no_host_and_port_error() -> Seq<char> {
    "could not parse host and port from address"@
}

/// The key and target of a pair from the parse results of its source and
/// target: the source's `host:port` and the target, or the first error.
pub open spec fn port_entry_from(
    source: Result<ParsedView, Seq<char>>,
    target: Result<ParsedView, Seq<char>>,
) -> Result<(Seq<char>, ParsedView), Seq<char>> {
    match source {
        Err(e) => Err(e),
        Ok(s) => match host_and_port_text(s.uri) {
            None => Err(no_host_and_port_error()),
            Some(key) => match target {
                Err(e) => Err(e),
                Ok(t) => Ok((key, t)),
            },
        },
    }
}

/// The key and target of a configured pair of texts, or its error.
pub open spec fn port_entry(pair: (String, String)) -> Result<(Seq<char>, ParsedView), Seq<char>> {
    port_entry_from(uri_parse_outcome(pair.0@), uri_parse_outcome(pair.1@))
}

/// What a configured pair contributes to the table keyed by `host:port`,
/// given whether a file stands at the path of its target: the key and
/// target where its target path is usable, else the first error.
pub open spec fn port_outcome(pair: (String, String), is_file: bool) -> EntryOutcome {
    match port_entry(pair) {
        Err(e) => Err(e),
        Ok((key, target)) => match target_path_outcome(target.path, is_file) {
            Err(e) => Err(e),
            Ok(_) => Ok((key, target.uri)),
        },
    }
}

/// Whether `files` says that a file stands at the `i`-th target's path
/// (no, past its end).
pub open spec fn file_at(files: Seq<bool>, i: int) -> bool {
    if 0 <= i < files.len() {
        files[i]
    } else {
        false
    }
}

/// What each configured pair contributes, where `files[i]` tells whether a
/// file stands at the path of the `i`-th target.
pub open spec fn port_outcomes(pairs: Seq<(String, String)>, files: Seq<bool>) -> Seq<EntryOutcome> {
    Seq::new(pairs.len(), |i: int| port_outcome(pairs[i], file_at(files, i)))
}

/// Inserting `pairs` in order into `m`, where `files[i]` tells whether a
/// file stands at the path of the `i`-th target: the table when the pairs
/// run out or one fails, and the error of the one that failed.
pub open spec fn insert_port_entries(
    m: Map<Seq<char>, AddressView>,
    pairs: Seq<(String, String)>,
    files: Seq<bool>,
    is_dangerous: bool,
) -> (Map<Seq<char>, AddressView>, Option<Seq<char>>) {
    insert_outcomes(m, port_outcomes(pairs, files), is_dangerous)
}

/// The key and target of a pair from the results of parsing its source
/// and target.
pub fn port_entry_of(source: Result<ParsedUri, String>, target: Result<ParsedUri, String>) -> (r:
    Result<(String, ParsedUri), String>)
    ensures
        match r {
            Ok((key, t)) => port_entry_from(parse_view(source), parse_view(target)) == Ok::<
                (Seq<char>, ParsedView),
                Seq<char>,
            >((key@, t@)),
            Err(e) => port_entry_from(parse_view(source), parse_view(target)) == Err::<
                (Seq<char>, ParsedView),
                Seq<char>,
            >(e@),
        },
{
    let source_uri = match source {
        Ok(parsed) => parsed.uri,
        Err(e) => return Err(e),
    };
    let key = match get_host_and_port(&source_uri) {
        Some(h) => h,
        None => return Err(String::from_str("could not parse host and port from address")),
    };
    match target {
        Ok(t) => Ok((key, t)),
        Err(e) => Err(e),
    }
}

/// The table built from a configuration, where `files` and
/// `dangerous_files` tell, pair by pair, whether a file stands at the path
/// of the target: the plain pairs go in first, then the pairs whose
/// upstream certificate goes unchecked.
pub open spec fn port_map_outcome(
    c: Config,
    files: Seq<bool>,
    dangerous_files: Seq<bool>,
) -> Result<Map<Seq<char>, AddressView>, Seq<char>> {
    let (plain, plain_error) = insert_port_entries(Map::empty(), c.addresses@, files, false);
    match plain_error {
        Some(e) => Err(e),
        None => match c.dangerous_self_signed_addresses {
            None => Ok(plain),
            Some(ds) => {
                let (all, error) = insert_port_entries(plain, ds@, dangerous_files, true);
                match error {
                    Some(e) => Err(e),
                    None => Ok(all),
                }
            },
        },
    }
}

/// The view of a table result.
pub open spec fn map_result_view(r: Result<AddressMap, String>) -> Result<
    Map<Seq<char>, AddressView>,
    Seq<char>,
> {
    match r {
        Ok(m) => Ok(m@),
        Err(e) => Err(e@),
    }
}

/// The pairs of the configuration's dangerous list (none where it has no
/// such list).
pub open spec fn dangerous_pairs(c: Config) -> Seq<(String, String)> {
    match c.dangerous_self_signed_addresses {
        Some(ds) => ds@,
        None => Seq::empty(),
    }
}

/// A configured pair whose source has a `host:port` and whose target
/// parses with a non-empty path.
pub open spec fn pair_usable(pair: (String, String)) -> bool {
    port_entry(pair) matches Ok((_, t)) && t.path.len() > 0
}

/// Every pair is usable.
pub open spec fn all_usable(pairs: Seq<(String, String)>) -> bool {
    forall|i: int| 0 <= i < pairs.len() ==> pair_usable(#[trigger] pairs[i])
}

/// No answer from the disk says that a file stands at a target's path.
pub open spec fn no_files(files: Seq<bool>) -> bool {
    forall|i: int| 0 <= i < files.len() ==> !#[trigger] files[i]
}

/// A pair whose target parses with a path at which no regular file can
/// stand.
pub open spec fn target_names_no_file(pair: (String, String)) -> bool {
    port_entry(pair) matches Ok((_, t)) && names_no_file(t.path)
}

/// The disk answers `files` are possible for `pairs`: none says that a
/// regular file stands at a target path where none can.
pub open spec fn possible_answers(pairs: Seq<(String, String)>, files: Seq<bool>) -> bool {
    forall|i: int|
        0 <= i < files.len() && #[trigger] files[i] ==> i < pairs.len() && !target_names_no_file(
            pairs[i],
        )
}

/// A pair whose source has a `host:port` and whose target parses with a
/// path that ends in `/`, a directory path.
pub open spec fn directory_target(pair: (String, String)) -> bool {
    port_entry(pair) matches Ok((_, t)) && t.path.len() > 0 && t.path.last() == '/'
}

/// Every pair has a directory target path.
pub open spec fn all_directory_targets(pairs: Seq<(String, String)>) -> bool {
    forall|i: int| 0 <= i < pairs.len() ==> directory_target(#[trigger] pairs[i])
}

/// Where every target has a directory path, every possible disk answer
/// says that no file stands there, and every pair is usable.
pub proof fn lemma_directory_targets_have_no_files(pairs: Seq<(String, String)>, files: Seq<bool>)
    requires
        all_directory_targets(pairs),
        possible_answers(pairs, files),
    ensures
        no_files(files),
        all_usable(pairs),
{
    assert forall|i: int| 0 <= i < files.len() implies !#[trigger] files[i] by {
        if files[i] {
            assert(directory_target(pairs[i]));
        }
    }
    assert forall|i: int| 0 <= i < pairs.len() implies pair_usable(#[trigger] pairs[i]) by {
        assert(directory_target(pairs[i]));
    }
}

/// The length of the optional dangerous list (0 where there is none).
pub open spec fn dangerous_len(c: Config) -> nat {
    match c.dangerous_self_signed_addresses {
        Some(ds) => ds@.len(),
        None => 0,
    }
}

/// Builds the table from `host:port` of each source to its target.
pub fn create_address_map(config: &Config) -> (r: Result<AddressMap, String>)
    ensures
        exists|files: Seq<bool>, dangerous_files: Seq<bool>|
            #![trigger port_map_outcome(*config, files, dangerous_files)]
            files.len() == config.addresses@.len() && dangerous_files.len() == dangerous_len(*config)
                && map_result_view(r) == port_map_outcome(*config, files, dangerous_files) && (
            all_usable(config.addresses@) && all_usable(dangerous_pairs(*config)) && no_files(files)
                && no_files(dangerous_files) ==> r is Ok) && possible_answers(
                config.addresses@,
                files,
            ) && possible_answers(dangerous_pairs(*config), dangerous_files),
        all_directory_targets(config.addresses@) && all_directory_targets(dangerous_pairs(*config))
            ==> r is Ok,
{
    let mut hashmap = AddressMap::new();
    let first = add_addresses_to_map(&mut hashmap, &config.addresses, false);
    let ghost files = choose|files: Seq<bool>|
        #![trigger insert_port_entries(Map::<Seq<char>, AddressView>::empty(), config.addresses@, files, false)]
        files.len() == config.addresses@.len() && {
            let (m, e) = insert_port_entries(Map::<Seq<char>, AddressView>::empty(), config.addresses@, files, false);
            &&& hashmap@ == m
            &&& match first {
                Ok(_) => e is None,
                Err(x) => e == Some(x@),
            }
            &&& (all_usable(config.addresses@) && no_files(files) ==> first is Ok)
            &&& possible_answers(config.addresses@, files)
        };
    if let Err(e) = first {
        let ghost none: Seq<bool> = Seq::new(dangerous_len(*config), |j: int| false);
        assert(map_result_view(Err(e)) == port_map_outcome(*config, files, none));
        assert(!(all_usable(config.addresses@) && no_files(files)));
        assert(possible_answers(dangerous_pairs(*config), none));
        proof {
            if all_directory_targets(config.addresses@) {
                lemma_directory_targets_have_no_files(config.addresses@, files);
            }
        }
        return Err(e);
    }
    if let Some(self_signed_addresses) = &config.dangerous_self_signed_addresses {
        let ghost plain = hashmap@;
        let second = add_addresses_to_map(&mut hashmap, self_signed_addresses, true);
        let ghost dangerous_files = choose|dfiles: Seq<bool>|
            #![trigger insert_port_entries(plain, self_signed_addresses@, dfiles, true)]
            dfiles.len() == self_signed_addresses@.len() && {
                let (m, e) = insert_port_entries(plain, self_signed_addresses@, dfiles, true);
                &&& hashmap@ == m
                &&& match second {
                    Ok(_) => e is None,
                    Err(x) => e == Some(x@),
                }
                &&& (all_usable(self_signed_addresses@) && no_files(dfiles) ==> second is Ok)
                &&& possible_answers(self_signed_addresses@, dfiles)
            };
        proof {
            if all_directory_targets(config.addresses@) && all_directory_targets(dangerous_pairs(*config)) {
                lemma_directory_targets_have_no_files(config.addresses@, files);
                lemma_directory_targets_have_no_files(self_signed_addresses@, dangerous_files);
            }
        }
        if let Err(e) = second {
            assert(map_result_view(Err(e)) == port_map_outcome(*config, files, dangerous_files));
            return Err(e);
        }
        assert(map_result_view(Ok(hashmap)) == port_map_outcome(*config, files, dangerous_files));
        return Ok(hashmap);
    }
    let ghost none: Seq<bool> = Seq::empty();
    assert(map_result_view(Ok(hashmap)) == port_map_outcome(*config, files, none));
    assert(no_files(none));
    assert(possible_answers(dangerous_pairs(*config), none));
    Ok(hashmap)
}

/// The message where the key path names a directory.
pub open spec fn key_is_dir_error() -> Seq<char> {
    "failed to create absolute path from relative path for key_filepath"@
}

/// The message where the certificate path names a directory.
pub open spec fn cert_is_dir_error() -> Seq<char> {
    "failed to create absolute path from relative path for cert_filepath"@
}

/// The outcome of resolving the key and certificate paths, from the
/// absolute forms of the two paths (or the errors that making them
/// absolute gave) and whether a directory stands at each: the first
/// failure in the order key, then certificate; else the two paths.
pub open spec fn resolved_paths_outcome(
    key_path: Result<Seq<char>, Seq<char>>,
    key_is_dir: bool,
    cert_path: Result<Seq<char>, Seq<char>>,
    cert_is_dir: bool,
) -> Result<(Seq<char>, Seq<char>), Seq<char>> {
    match key_path {
        Err(e) => Err(e),
        Ok(key) => if key_is_dir {
            Err(key_is_dir_error())
        } else {
            match cert_path {
                Err(e) => Err(e),
                Ok(cert) => if cert_is_dir {
                    Err(cert_is_dir_error())
                } else {
                    Ok((key, cert))
                },
            }
        },
    }
}

/// Finishes a configuration read from disk: puts in the absolute key and
/// certificate paths, or gives the first failure in resolving them.
pub fn finish_config(
    config: Config,
    key_path: Result<String, String>,
    key_is_dir: bool,
    cert_path: Result<String, String>,
    cert_is_dir: bool,
) -> (r: Result<Config, String>)
    ensures
        match r {
            Ok(c) => {
                &&& resolved_paths_outcome(
                    text_result_view(key_path),
                    key_is_dir,
                    text_result_view(cert_path),
                    cert_is_dir,
                ) == Ok::<(Seq<char>, Seq<char>), Seq<char>>((c.key_filepath@, c.cert_filepath@))
                &&& c.host_and_port == config.host_and_port
                &&& c.addresses == config.addresses
                &&& c.dangerous_self_signed_addresses == config.dangerous_self_signed_addresses
            },
            Err(e) => resolved_paths_outcome(
                text_result_view(key_path),
                key_is_dir,
                text_result_view(cert_path),
                cert_is_dir,
            ) == Err::<(Seq<char>, Seq<char>), Seq<char>>(e@),
        },
{
    let key_filepath = match key_path {
        Ok(k) => k,
        Err(e) => return Err(e),
    };
    if key_is_dir {
        return Err(
            String::from_str("failed to create absolute path from relative path for key_filepath"),
        );
    }
    let cert_filepath = match cert_path {
        Ok(c) => c,
        Err(e) => return Err(e),
    };
    if cert_is_dir {
        return Err(
            String::from_str("failed to create absolute path from relative path for cert_filepath"),
        );
    }
    Ok(Config {
        host_and_port: config.host_and_port,
        key_filepath,
        cert_filepath,
        addresses: config.addresses,
        dangerous_self_signed_addresses: config.dangerous_self_signed_addresses,
    })
}

/// The message where the configuration file's path has no parent.
pub open spec fn config_dir_error() -> Seq<char> {
    "parent directory of config not found"@
}

/// The directory of the configuration file: the parent of its path.
pub open spec fn config_dir_outcome(config_path: Seq<char>) -> Result<Seq<char>, Seq<char>> {
    match path_parent_result(config_path) {
        Some(dir) => Ok(dir),
        None => Err(config_dir_error()),
    }
}

/// The directory that holds the configuration file at `config_path`.
pub fn config_dir(config_path: &str) -> (r: Result<String, String>)
    ensures
        text_result_view(r) == config_dir_outcome(config_path@),
        is_absolute_text(config_path@) ==> (r matches Ok(d) ==> is_absolute_text(d@)),
{
    match path_parent(config_path) {
        Some(dir) => Ok(dir),
        None => Err(String::from_str("parent directory of config not found")),
    }
}

/// The directory of the configuration file at `config_path`, and the key
/// and certificate paths of `config` joined onto it.
pub fn config_relative_paths(config_path: &str, config: &Config) -> (r: Result<
    (String, String, String),
    String,
>)
    ensures
        match r {
            Ok((dir, key, cert)) => {
                &&& path_parent_result(config_path@) == Some(dir@)
                &&& key@ == joined_path(dir@, config.key_filepath@)
                &&& cert@ == joined_path(dir@, config.cert_filepath@)
            },
            Err(e) => path_parent_result(config_path@) is None && e@ == config_dir_error(),
        },
        is_absolute_text(config_path@) ==> (r matches Ok((dir, key, cert)) ==> {
            &&& is_absolute_text(dir@)
            &&& is_absolute_text(key@)
            &&& is_absolute_text(cert@)
        }),
{
    let dir = config_dir(config_path)?;
    let key = join_path(dir.as_str(), config.key_filepath.as_str());
    let cert = join_path(dir.as_str(), config.cert_filepath.as_str());
    proof {
        if is_absolute_text(config_path@) {
            lemma_join_keeps_absolute(dir@, config.key_filepath@);
            lemma_join_keeps_absolute(dir@, config.cert_filepath@);
        }
    }
    Ok((dir, key, cert))
}

/// The absolute path of the configuration file named `filepath`, taken
/// relative to `current_dir`; exact where `current_dir` is absolute.
pub fn config_file_path(current_dir: &str, filepath: &str) -> (r: Result<String, String>)
    ensures
        is_absolute_text(current_dir@) ==> text_result_view(r) == path_absolute_result(
            joined_path(current_dir@, filepath@),
        ),
{
    let joined = join_path(current_dir, filepath);
    proof {
        if is_absolute_text(current_dir@) {
            lemma_join_keeps_absolute(current_dir@, filepath@);
        }
    }
    path_absolute(joined.as_str())
}

/// What resolving the paths of `config`, read from the file at
/// `config_path`, gives: `key_path` and `cert_path` are the outcomes of
/// making the joined paths absolute (named where they are absolute), and
/// `key_is_dir`, `cert_is_dir` whether a directory stands at each.
pub open spec fn resolve_config_outcome(
    r: Result<Config, String>,
    config: Config,
    config_path: Seq<char>,
    key_path: Result<Seq<char>, Seq<char>>,
    key_is_dir: bool,
    cert_path: Result<Seq<char>, Seq<char>>,
    cert_is_dir: bool,
) -> bool {
    match config_dir_outcome(config_path) {
        Err(e) => r matches Err(x) && x@ == e,
        Ok(dir) => {
            let key = joined_path(dir, config.key_filepath@);
            let cert = joined_path(dir, config.cert_filepath@);
            &&& (is_absolute_text(key) ==> key_path == path_absolute_result(key))
            &&& (is_absolute_text(cert) ==> cert_path == path_absolute_result(cert))
            &&& match r {
                Ok(c) => {
                    &&& resolved_paths_outcome(key_path, key_is_dir, cert_path, cert_is_dir)
                        == Ok::<(Seq<char>, Seq<char>), Seq<char>>(
                        (c.key_filepath@, c.cert_filepath@),
                    )
                    &&& c.host_and_port == config.host_and_port
                    &&& c.addresses == config.addresses
                    &&& c.dangerous_self_signed_addresses == config.dangerous_self_signed_addresses
                },
                Err(e) => resolved_paths_outcome(key_path, key_is_dir, cert_path, cert_is_dir)
                    == Err::<(Seq<char>, Seq<char>), Seq<char>>(e@),
            }
        },
    }
}

/// The key path of `config` joined onto the directory of the file at
/// `config_path`.
pub open spec fn config_key_text(config: Config, config_path: Seq<char>) -> Seq<char> {
    joined_path(config_dir_outcome(config_path)->Ok_0, config.key_filepath@)
}

/// The certificate path of `config` joined onto the directory of the file
/// at `config_path`.
pub open spec fn config_cert_text(config: Config, config_path: Seq<char>) -> Seq<char> {
    joined_path(config_dir_outcome(config_path)->Ok_0, config.cert_filepath@)
}

/// Finishes a configuration read from the file at `config_path`: its key
/// and certificate paths are joined onto the file's directory and made
/// absolute, and a directory at either is refused. Where the file's
/// directory is absolute, so are the joined paths, and the outcome is
/// exact up to what stands on disk.
pub fn resolve_config_paths(config: Config, config_path: &str) -> (r: Result<Config, String>)
    ensures
        r matches Ok(c) ==> is_absolute_text(c.key_filepath@) && is_absolute_text(c.cert_filepath@),
        is_absolute_text(config_path@) ==> exists|key_is_dir: bool, cert_is_dir: bool|
            #[trigger] resolve_config_outcome(
                r,
                config,
                config_path@,
                path_absolute_result(config_key_text(config, config_path@)),
                key_is_dir,
                path_absolute_result(config_cert_text(config, config_path@)),
                cert_is_dir,
            ),
        exists|
            key_path: Result<Seq<char>, Seq<char>>,
            key_is_dir: bool,
            cert_path: Result<Seq<char>, Seq<char>>,
            cert_is_dir: bool,
        |
            #[trigger] resolve_config_outcome(
                r,
                config,
                config_path@,
                key_path,
                key_is_dir,
                cert_path,
                cert_is_dir,
            ),
{
    let ghost original = config;
    let (dir, key, cert) = match config_relative_paths(config_path, &config) {
        Ok(paths) => paths,
        Err(e) => {
            let r: Result<Config, String> = Err(e);
            assert(resolve_config_outcome(r, original, config_path@, Ok(Seq::empty()), false, Ok(Seq::empty()), false));
            assert(resolve_config_outcome(
                r,
                original,
                config_path@,
                path_absolute_result(config_key_text(original, config_path@)),
                false,
                path_absolute_result(config_cert_text(original, config_path@)),
                false,
            ));
            return r;
        },
    };
    let key_path = path_absolute(key.as_str());
    let key_is_dir = match &key_path {
        Ok(k) => path_is_dir(k.as_str()),
        Err(_) => false,
    };
    let cert_path = path_absolute(cert.as_str());
    let cert_is_dir = match &cert_path {
        Ok(c) => path_is_dir(c.as_str()),
        Err(_) => false,
    };
    let ghost kp = text_result_view(key_path);
    let ghost cp = text_result_view(cert_path);
    assert(kp is Ok ==> is_absolute_text(kp->Ok_0));
    assert(cp is Ok ==> is_absolute_text(cp->Ok_0));
    let r = finish_config(config, key_path, key_is_dir, cert_path, cert_is_dir);
    assert(resolve_config_outcome(r, original, config_path@, kp, key_is_dir, cp, cert_is_dir));
    proof {
        if is_absolute_text(config_path@) {
            assert(key@ == config_key_text(original, config_path@));
            assert(cert@ == config_cert_text(original, config_path@));
            assert(resolve_config_outcome(
                r,
                original,
                config_path@,
                path_absolute_result(config_key_text(original, config_path@)),
                key_is_dir,
                path_absolute_result(config_cert_text(original, config_path@)),
                cert_is_dir,
            ));
        }
    }
    r
}

pub(crate) proof fn lemma_skip_step<A>(s: Seq<A>, i: int)
    requires
        0 <= i < s.len(),
    ensures
        s.skip(i)[0] == s[i],
        s.skip(i).drop_first() == s.skip(i + 1),
{
    assert(s.skip(i).drop_first() =~= s.skip(i + 1));
}

/// Inserts each pair of `addresses` under its source's `host:port`;
/// stops at the first pair whose source, target or target path fails.
fn add_addresses_to_map(
    url_map: &mut AddressMap,
    addresses: &Vec<(String, String)>,
    is_dangerous: bool,
) -> (r: Result<(), String>)
    ensures
        exists|files: Seq<bool>|
            #![trigger insert_port_entries(old(url_map)@, addresses@, files, is_dangerous)]
            files.len() == addresses@.len() && {
                let (m, e) = insert_port_entries(old(url_map)@, addresses@, files, is_dangerous);
                &&& final(url_map)@ == m
                &&& match r {
                    Ok(_) => e is None,
                    Err(x) => e == Some(x@),
                }
                &&& (all_usable(addresses@) && no_files(files) ==> r is Ok)
                &&& possible_answers(addresses@, files)
            },
{
    let ghost start = url_map@;
    let ghost mut seen: Seq<bool> = Seq::empty();
    let mut i: usize = 0;
    assert forall|rest: Seq<bool>|
        insert_port_entries(start, addresses@, seen + rest, is_dangerous)
            == #[trigger] insert_outcomes(url_map@, port_outcomes(addresses@.skip(i as int), rest), is_dangerous)
    by {
        assert(seen + rest =~= rest);
        assert(addresses@.skip(0) =~= addresses@);
    }
    while i < addresses.len()
        invariant
            i <= addresses.len(),
            seen.len() == i,
            start == old(url_map)@,
            possible_answers(addresses@, seen),
            forall|rest: Seq<bool>|
                insert_port_entries(start, addresses@, seen + rest, is_dangerous)
                    == #[trigger] insert_outcomes(url_map@, port_outcomes(addresses@.skip(i as int), rest), is_dangerous),
        decreases addresses.len() - i,
    {
        proof {
            lemma_skip_step(addresses@, i as int);
        }
        let ghost current = url_map@;
        let pair = &addresses[i];
        let source = parse_uri(pair.0.as_str());
        let target = parse_uri(pair.1.as_str());
        let ghost target_view = parse_view(target);
        let (key, target) = match port_entry_of(source, target) {
            Ok(k) => k,
            Err(e) => {
                proof {
                    assert(!pair_usable(addresses@[i as int]));
                    let pad = Seq::new((addresses@.len() - i) as nat, |j: int| false);
                    let outs = port_outcomes(addresses@.skip(i as int), pad);
                    assert(outs[0] == port_outcome(addresses@[i as int], false));
                    assert(insert_outcomes(current, outs, is_dangerous) == (current, Some(e@)));
                    assert(insert_port_entries(start, addresses@, seen + pad, is_dangerous)
                        == (current, Some(e@)));
                }
                return Err(e);
            },
        };
        let is_file = path_is_file(target.path.as_str());
        match get_target_path(target.path.as_str(), is_file) {
            Ok(_) => {},
            Err(e) => {
                proof {
                    let pad = Seq::new((addresses@.len() - i) as nat, |j: int| false).update(0, is_file);
                    let outs = port_outcomes(addresses@.skip(i as int), pad);
                    assert(outs[0] == port_outcome(addresses@[i as int], is_file));
                    assert(insert_outcomes(current, outs, is_dangerous) == (current, Some(e@)));
                    assert(insert_port_entries(start, addresses@, seen + pad, is_dangerous)
                        == (current, Some(e@)));
                    assert(target_view == Ok::<ParsedView, Seq<char>>(target@));
                    if is_file {
                        assert((seen + pad)[i as int] == is_file);
                    } else {
                        assert(!pair_usable(addresses@[i as int]));
                    }
                }
                return Err(e);
            },
        }
        url_map.insert(key, AddressParams { uri: target.uri, is_dangerous });
        proof {
            assert forall|rest: Seq<bool>|
                insert_port_entries(start, addresses@, seen.push(is_file) + rest, is_dangerous)
                    == #[trigger] insert_outcomes(url_map@, port_outcomes(addresses@.skip(i + 1), rest), is_dangerous)
            by {
                let longer = seq![is_file] + rest;
                assert(seen.push(is_file) + rest =~= seen + longer);
                let outs = port_outcomes(addresses@.skip(i as int), longer);
                assert(outs[0] == port_outcome(addresses@[i as int], is_file));
                assert forall|j: int| 0 <= j < outs.len() - 1 implies outs.drop_first()[j]
                    == #[trigger] port_outcomes(addresses@.skip(i + 1), rest)[j] by {
                    assert(addresses@.skip(i as int)[j + 1] == addresses@.skip(i + 1)[j]);
                    assert(file_at(longer, j + 1) == file_at(rest, j));
                }
                assert(outs.drop_first() =~= port_outcomes(addresses@.skip(i + 1), rest));
                assert(insert_outcomes(current, outs, is_dangerous)
                    == insert_outcomes(url_map@, port_outcomes(addresses@.skip(i + 1), rest), is_dangerous));
            }
            seen = seen.push(is_file);
        }
        i = i + 1;
    }
    proof {
        let none: Seq<bool> = Seq::empty();
        assert(seen + none =~= seen);
        assert(port_outcomes(addresses@.skip(i as int), none).len() == 0);
        assert(insert_outcomes(url_map@, port_outcomes(addresses@.skip(i as int), none), is_dangerous)
            == (url_map@, None::<Seq<char>>));
        assert(insert_port_entries(start, addresses@, seen, is_dangerous) == (url_map@, None::<Seq<char>>));
    }
    Ok(())
}

} // verus!
