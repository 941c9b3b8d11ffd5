//! The table that maps a source host to its upstream target.
use vstd::prelude::*;
use vstd::string::StringExecFns;

use crate::address_map::{insert_outcomes, AddressMap, AddressParams, AddressView, EntryOutcome};
use crate::config::{lemma_skip_step, map_result_view, Config};
use crate::uri::{parse_uri, parse_view, uri_parse_outcome, ParsedUri, ParsedView, UriParts};

verus! {

/// The message where a source address has no host.
pub open spec fn no_source_host_error() -> Seq<char> {
    "could not parse host from source uri"@
}

/// The key and target of a pair from the parse results of its source and
/// target: the source's host and the target, or the first error.
pub open spec fn host_entry_from(
    source: Result<ParsedView, Seq<char>>,
    target: Result<ParsedView, Seq<char>>,
) -> EntryOutcome {
    match source {
        Err(e) => Err(e),
        Ok(s) => match s.uri.host {
            None => Err(no_source_host_error()),
            Some(h) => match target {
                Err(e) => Err(e),
                Ok(t) => Ok((h, t.uri)),
            },
        },
    }
}

/// The key and target of a configured pair of texts, or its error.
pub open spec fn host_entry(pair: (String, String)) -> EntryOutcome {
    host_entry_from(uri_parse_outcome(pair.0@), uri_parse_outcome(pair.1@))
}

/// What each configured pair contributes to the table keyed by host.
pub open spec fn host_outcomes(pairs: Seq<(String, String)>) -> Seq<EntryOutcome> {
    pairs.map_values(|p: (String, String)| host_entry(p))
}

/// Inserting `pairs` in order into `m`: the table when the pairs run out
/// or one fails, and the error of the one that failed.
pub open spec fn insert_host_entries(
    m: Map<Seq<char>, AddressView>,
    pairs: Seq<(String, String)>,
    is_dangerous: bool,
) -> (Map<Seq<char>, AddressView>, Option<Seq<char>>) {
    insert_outcomes(m, host_outcomes(pairs), is_dangerous)
}

/// The table built from a configuration: the plain pairs first, then the
/// pairs whose upstream certificate goes unchecked.
pub open spec fn host_map_outcome(c: Config) -> Result<Map<Seq<char>, AddressView>, Seq<char>> {
    let (plain, plain_error) = insert_host_entries(Map::empty(), c.addresses@, false);
    match plain_error {
        Some(e) => Err(e),
        None => match c.dangerous_self_signed_addresses {
            None => Ok(plain),
            Some(ds) => {
                let (all, error) = insert_host_entries(plain, ds@, true);
                match error {
                    Some(e) => Err(e),
                    None => Ok(all),
                }
            },
        },
    }
}

/// The key and target of a pair from the results of parsing its source
/// and target.
pub fn host_entry_of(source: Result<ParsedUri, String>, target: Result<ParsedUri, String>) -> (r:
    Result<(String, UriParts), String>)
    ensures
        match r {
            Ok((key, t)) => host_entry_from(parse_view(source), parse_view(target)) == Ok::<
                (Seq<char>, crate::uri::UriView),
                Seq<char>,
            >((key@, t@)),
            Err(e) => host_entry_from(parse_view(source), parse_view(target)) == Err::<
                (Seq<char>, crate::uri::UriView),
                Seq<char>,
            >(e@),
        },
{
    let source_uri = match source {
        Ok(parsed) => parsed.uri,
        Err(e) => return Err(e),
    };
    let source_host = match source_uri.host {
        Some(h) => h,
        None => return Err(String::from_str("could not parse host from source uri")),
    };
    match target {
        Ok(t) => Ok((source_host, t.uri)),
        Err(e) => Err(e),
    }
}

/// Inserts each pair of `addresses` under its source's host; stops at the
/// first pair whose source or target fails.
fn add_addresses_to_map(
    url_map: &mut AddressMap,
    addresses: &Vec<(String, String)>,
    is_dangerous: bool,
) -> (r: Result<(), String>)
    ensures
        ({
            let (m, e) = insert_host_entries(old(url_map)@, addresses@, is_dangerous);
            &&& final(url_map)@ == m
            &&& match r {
                Ok(_) => e is None,
                Err(x) => e == Some(x@),
            }
        }),
{
    let ghost start = url_map@;
    let mut i: usize = 0;
    assert(host_outcomes(addresses@.skip(0)) =~= host_outcomes(addresses@));
    while i < addresses.len()
        invariant
            i <= addresses.len(),
            start == old(url_map)@,
            insert_host_entries(start, addresses@, is_dangerous)
                == insert_outcomes(url_map@, host_outcomes(addresses@.skip(i as int)), is_dangerous),
        decreases addresses.len() - i,
    {
        proof {
            lemma_skip_step(addresses@, i as int);
            assert(host_outcomes(addresses@.skip(i as int)).drop_first() =~= host_outcomes(
                addresses@.skip(i + 1),
            ));
        }
        let pair = &addresses[i];
        let source = parse_uri(pair.0.as_str());
        let target = parse_uri(pair.1.as_str());
        let (key, target) = match host_entry_of(source, target) {
            Ok(k) => k,
            Err(e) => return Err(e),
        };
        url_map.insert(key, AddressParams { uri: target, is_dangerous });
        i = i + 1;
    }
    assert(host_outcomes(addresses@.skip(i as int)).len() == 0);
    Ok(())
}

/// Builds the table from the host of each source to its target.
pub fn create_address_map(config: &Config) -> (r: Result<AddressMap, String>)
    ensures
        map_result_view(r) == host_map_outcome(*config),
{
    let mut hashmap = AddressMap::new();
    if let Err(e) = add_addresses_to_map(&mut hashmap, &config.addresses, false) {
        return Err(e);
    }
    if let Some(self_signed_addresses) = &config.dangerous_self_signed_addresses {
        if let Err(e) = add_addresses_to_map(&mut hashmap, self_signed_addresses, true) {
            return Err(e);
        }
    }
    Ok(hashmap)
}

} // verus!
