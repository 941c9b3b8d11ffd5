//! Properties of the library as a whole: which target a configured host
//! gets, and what a forwarded request looks like.
use vstd::prelude::*;

use crate::address_map::{insert_outcomes, AddressView, EntryOutcome};
use crate::config::{
    dangerous_pairs, file_at, port_entry, port_entry_from, port_map_outcome, port_outcome,
    port_outcomes, possible_answers, Config,
};
use crate::paths::{names_no_file, path_and_query_parse_outcome};
use crate::response::{
    host_of_request, response_plan, rewritten_uri, upstream_for, upstream_uri_error,
    uri_from_request_error, PlanView, RequestView, Upstream, UriPartsError,
};
use crate::text::header_text;
use crate::uri::{host_and_port_text, uri_parse_outcome, ParsedView};
use crate::response::requests::{fallback, BAD_GATEWAY, BAD_REQUEST, INTERNAL_SERVER_ERROR};
use crate::reverse_proxy::addresses::{
    host_entry, host_entry_from, host_map_outcome, host_outcomes, no_source_host_error,
};
use crate::text::{decimal, digit_char};
use crate::uri::UriView;

verus! {

/// The key under which an entry goes into a table, if it goes in at all.
pub open spec fn outcome_key(o: EntryOutcome) -> Option<Seq<char>> {
    match o {
        Ok((k, _)) => Some(k),
        Err(_) => None,
    }
}

/// The target of an entry.
pub open spec fn outcome_target(o: EntryOutcome) -> UriView {
    match o {
        Ok((_, t)) => t,
        Err(_) => arbitrary(),
    }
}

/// The table value that an entry makes.
pub open spec fn outcome_view(o: EntryOutcome, is_dangerous: bool) -> AddressView {
    AddressView { uri: outcome_target(o), is_dangerous }
}

/// `j` is the last index of `outcomes` whose entry goes in under `k`.
pub open spec fn is_last_with_key(outcomes: Seq<EntryOutcome>, k: Seq<char>, j: int) -> bool {
    &&& 0 <= j < outcomes.len()
    &&& outcome_key(outcomes[j]) == Some(k)
    &&& forall|i: int| j < i < outcomes.len() ==> #[trigger] outcome_key(outcomes[i]) != Some(k)
}

/// Whether some entry goes in under `k`.
pub open spec fn has_key(outcomes: Seq<EntryOutcome>, k: Seq<char>) -> bool {
    exists|j: int| 0 <= j < outcomes.len() && #[trigger] outcome_key(outcomes[j]) == Some(k)
}

/// Inserting entries: where none fails, a key is in the table afterwards
/// exactly when it was before or some entry goes in under it; the last
/// entry under a key gives its target; a key that no entry names keeps
/// what it had.
pub proof fn lemma_last_entry_wins(
    m: Map<Seq<char>, AddressView>,
    outcomes: Seq<EntryOutcome>,
    is_dangerous: bool,
    k: Seq<char>,
)
    requires
        insert_outcomes(m, outcomes, is_dangerous).1 is None,
    ensures
        ({
            let after = insert_outcomes(m, outcomes, is_dangerous).0;
            &&& after.contains_key(k) <==> (m.contains_key(k) || has_key(outcomes, k))
            &&& has_key(outcomes, k) ==> exists|j: int|
                #[trigger] is_last_with_key(outcomes, k, j) && after[k] == outcome_view(
                    outcomes[j],
                    is_dangerous,
                )
            &&& !has_key(outcomes, k) && m.contains_key(k) ==> after[k] == m[k]
        }),
    decreases outcomes.len(),
{
    if outcomes.len() == 0 {
        return;
    }
    let tail = outcomes.drop_first();
    match outcomes[0] {
        Err(_) => {},
        Ok((h, t)) => {
            let m1 = m.insert(h, AddressView { uri: t, is_dangerous });
            lemma_last_entry_wins(m1, tail, is_dangerous, k);
            let after = insert_outcomes(m, outcomes, is_dangerous).0;
            assert(after == insert_outcomes(m1, tail, is_dangerous).0);
            assert(has_key(outcomes, k) <==> (outcome_key(outcomes[0]) == Some(k) || has_key(tail, k))) by {
                if has_key(tail, k) {
                    let j = choose|j: int| 0 <= j < tail.len() && #[trigger] outcome_key(tail[j]) == Some(k);
                    assert(outcome_key(outcomes[j + 1]) == Some(k));
                }
                if has_key(outcomes, k) {
                    let j = choose|j: int| 0 <= j < outcomes.len() && #[trigger] outcome_key(outcomes[j]) == Some(k);
                    if j > 0 {
                        assert(outcome_key(tail[j - 1]) == Some(k));
                    }
                }
            }
            if has_key(tail, k) {
                let j = choose|j: int|
                    #[trigger] is_last_with_key(tail, k, j) && after[k] == outcome_view(tail[j], is_dangerous);
                assert(outcome_key(outcomes[j + 1]) == Some(k));
                assert forall|i: int| j + 1 < i < outcomes.len() implies #[trigger] outcome_key(outcomes[i]) != Some(k) by {
                    assert(outcomes[i] == tail[i - 1]);
                }
                assert(is_last_with_key(outcomes, k, j + 1));
            } else if h == k {
                assert(outcome_key(outcomes[0]) == Some(k));
                assert forall|i: int| 0 < i < outcomes.len() implies #[trigger] outcome_key(outcomes[i]) != Some(k) by {
                    assert(outcomes[i] == tail[i - 1]);
                    if outcome_key(tail[i - 1]) == Some(k) {
                        assert(has_key(tail, k));
                    }
                }
                assert(is_last_with_key(outcomes, k, 0));
            }
        },
    }
}

/// Which target a table built from two entry lists gives a key, where the
/// plain entries go in first and the dangerous ones after them: a key of
/// a dangerous entry has the last such entry's target and skips
/// certificate checks; a key of plain entries only has the last of those
/// and keeps certificate checks; no other key is in the table.
pub open spec fn table_targets(
    m: Map<Seq<char>, AddressView>,
    plain: Seq<EntryOutcome>,
    dangerous: Seq<EntryOutcome>,
    k: Seq<char>,
) -> bool {
    &&& m.contains_key(k) <==> (has_key(plain, k) || has_key(dangerous, k))
    &&& has_key(dangerous, k) ==> exists|j: int|
        #[trigger] is_last_with_key(dangerous, k, j) && m[k] == outcome_view(dangerous[j], true)
    &&& !has_key(dangerous, k) && has_key(plain, k) ==> exists|j: int|
        #[trigger] is_last_with_key(plain, k, j) && m[k] == outcome_view(plain[j], false)
}

proof fn lemma_two_lists(
    plain: Seq<EntryOutcome>,
    dangerous: Seq<EntryOutcome>,
    m: Map<Seq<char>, AddressView>,
    k: Seq<char>,
)
    requires
        insert_outcomes(Map::empty(), plain, false).1 is None,
        insert_outcomes(insert_outcomes(Map::empty(), plain, false).0, dangerous, true).1 is None,
        m == insert_outcomes(insert_outcomes(Map::empty(), plain, false).0, dangerous, true).0,
    ensures
        table_targets(m, plain, dangerous, k),
{
    let empty = Map::<Seq<char>, AddressView>::empty();
    lemma_last_entry_wins(empty, plain, false, k);
    lemma_last_entry_wins(insert_outcomes(empty, plain, false).0, dangerous, true, k);
}

/// In the table keyed by host built from a configuration, each host has
/// the target that [`table_targets`] describes for the plain pairs and the
/// dangerous pairs.
pub proof fn lemma_configured_targets(c: Config, m: Map<Seq<char>, AddressView>, k: Seq<char>)
    requires
        host_map_outcome(c) == Ok::<Map<Seq<char>, AddressView>, Seq<char>>(m),
    ensures
        table_targets(m, host_outcomes(c.addresses@), host_outcomes(dangerous_pairs(c)), k),
{
    let empty = Map::<Seq<char>, AddressView>::empty();
    let none: Seq<EntryOutcome> = Seq::empty();
    assert(host_outcomes(Seq::<(String, String)>::empty()) =~= none);
    lemma_two_lists(host_outcomes(c.addresses@), host_outcomes(dangerous_pairs(c)), m, k);
}

/// In the table keyed by `host:port` built from a configuration, whatever
/// stands on disk at the target paths (`files`, `dangerous_files`), each
/// key has the target that [`table_targets`] describes for the plain pairs
/// and the dangerous pairs.
pub proof fn lemma_configured_port_targets(
    c: Config,
    files: Seq<bool>,
    dangerous_files: Seq<bool>,
    m: Map<Seq<char>, AddressView>,
    k: Seq<char>,
)
    requires
        port_map_outcome(c, files, dangerous_files) == Ok::<Map<Seq<char>, AddressView>, Seq<char>>(m),
    ensures
        table_targets(
            m,
            port_outcomes(c.addresses@, files),
            port_outcomes(dangerous_pairs(c), dangerous_files),
            k,
        ),
{
    let none: Seq<EntryOutcome> = Seq::empty();
    assert(port_outcomes(Seq::<(String, String)>::empty(), dangerous_files) =~= none);
    lemma_two_lists(port_outcomes(c.addresses@, files), port_outcomes(dangerous_pairs(c), dangerous_files), m, k);
}

/// A forwarded request goes to the target that the table holds for its
/// host: it takes the target's scheme and authority, keeps its version and
/// `Host` header, keeps its path and query where the target has a scheme,
/// and goes over TLS exactly when that scheme is `https`, over HTTP/2
/// exactly when it came over HTTP/2, skipping certificate checks exactly
/// for a dangerous `https` target. A request that is not forwarded is
/// answered with 400 (no host), 502 (host not in the table) or 500 (URI
/// not rewritable).
pub open spec fn routed_as_configured(req: RequestView, addresses: Map<Seq<char>, AddressView>) -> bool {
    match response_plan(req, addresses) {
        PlanView::Forward { request, upstream } => {
            &&& host_of_request(req) is Some
            &&& addresses.contains_key(host_of_request(req)->0)
            &&& {
                let target = addresses[host_of_request(req)->0];
                let tls = target.uri.scheme == Some("https"@);
                &&& request.uri.scheme == target.uri.scheme
                &&& request.uri.authority == target.uri.authority
                &&& request.uri.host == target.uri.host
                &&& request.uri.port == target.uri.port
                &&& request.version == req.version
                &&& request.host_header == req.host_header
                &&& (target.uri.scheme is Some ==> request.uri.path_and_query
                    == req.uri.path_and_query)
                &&& ((upstream is Http2Tls || upstream is Http1Tls) <==> tls)
                &&& ((upstream is Http2Tls || upstream is Http2) <==> req.version
                    == crate::response::HttpVersion::Http2)
                &&& (upstream matches Upstream::Http2Tls { is_dangerous } ==> is_dangerous
                    == target.is_dangerous)
                &&& (upstream matches Upstream::Http1Tls { is_dangerous } ==> is_dangerous
                    == target.is_dangerous)
            }
        },
        PlanView::Fallback(f) => {
            ||| host_of_request(req) is None && f == fallback(BAD_REQUEST, uri_from_request_error())
            ||| host_of_request(req) is Some && !addresses.contains_key(host_of_request(req)->0)
                && f == fallback(BAD_GATEWAY, uri_from_request_error())
            ||| host_of_request(req) is Some && addresses.contains_key(host_of_request(req)->0)
                && rewritten_uri(req.uri, addresses[host_of_request(req)->0].uri) is Err
                && f == fallback(INTERNAL_SERVER_ERROR, upstream_uri_error())
        },
    }
}

/// Every request is routed as [`routed_as_configured`] describes.
pub proof fn lemma_forwarding(req: RequestView, addresses: Map<Seq<char>, AddressView>)
    ensures
        routed_as_configured(req, addresses),
{
}

/// The plan for a request for a host that only plain pairs of a
/// configuration name, where the last such pair has index `j`.
pub open spec fn plain_route(c: Config, m: Map<Seq<char>, AddressView>, req: RequestView, j: int) -> bool {
    match rewritten_uri(req.uri, outcome_target(host_outcomes(c.addresses@)[j])) {
        Ok(u) => response_plan(req, m) == PlanView::Forward {
            request: RequestView { uri: u, ..req },
            upstream: crate::response::upstream_for(req.version, u.scheme, false),
        },
        Err(_) => response_plan(req, m) == PlanView::Fallback(
            fallback(INTERNAL_SERVER_ERROR, upstream_uri_error()),
        ),
    }
}

/// A request for a host that only plain pairs of a configuration name is
/// forwarded, where its URI can take the target's scheme and authority, to
/// the target of the last such pair, keeping certificate checks.
pub proof fn lemma_plain_host_routing(c: Config, m: Map<Seq<char>, AddressView>, req: RequestView)
    requires
        host_map_outcome(c) == Ok::<Map<Seq<char>, AddressView>, Seq<char>>(m),
        host_of_request(req) is Some,
        has_key(host_outcomes(c.addresses@), host_of_request(req)->0),
        !has_key(host_outcomes(dangerous_pairs(c)), host_of_request(req)->0),
    ensures
        exists|j: int|
            #[trigger] is_last_with_key(host_outcomes(c.addresses@), host_of_request(req)->0, j)
                && plain_route(c, m, req, j),
{
    let k = host_of_request(req)->0;
    lemma_configured_targets(c, m, k);
}

/// Rewriting a request's URI for a target a second time changes nothing:
/// a request that has been sent on keeps its URI if sent on again.
pub proof fn lemma_rewrite_idempotent(req: UriView, target: UriView)
    requires
        rewritten_uri(req, target) is Ok,
    ensures
        rewritten_uri(rewritten_uri(req, target)->Ok_0, target) == rewritten_uri(req, target),
{
}

/// A decimal rendering is a non-empty run of digits that starts with `0`
/// only for zero.
pub proof fn lemma_decimal_digits(n: nat)
    ensures
        decimal(n).len() >= 1,
        forall|i: int| 0 <= i < decimal(n).len() ==> '0' <= #[trigger] decimal(n)[i] <= '9',
        n >= 10 ==> decimal(n)[0] != '0',
    decreases n,
{
    if n >= 10 {
        lemma_decimal_digits(n / 10);
        let prefix = decimal(n / 10);
        assert(decimal(n) == prefix.push(digit_char(n % 10)));
        assert forall|i: int| 0 <= i < decimal(n).len() implies '0' <= #[trigger] decimal(n)[i] <= '9' by {
            if i < prefix.len() {
                assert(decimal(n)[i] == prefix[i]);
            }
        }
        if n / 10 < 10 {
            assert(prefix == seq![digit_char(n / 10)]);
        }
        assert(decimal(n)[0] == prefix[0]);
    }
}


/// A request sent on to a target that has a scheme and an authority takes
/// the target's scheme, authority, host and port and keeps its own path
/// and query, whatever its own scheme, authority and port were.
pub proof fn lemma_rewrite_onto_full_target(req: UriView, target: UriView)
    requires
        target.scheme is Some,
        target.authority is Some,
        req.path_and_query is Some,
    ensures
        rewritten_uri(req, target) == Ok::<UriView, UriPartsError>(
            UriView {
                scheme: target.scheme,
                authority: target.authority,
                host: target.host,
                port: target.port,
                path_and_query: req.path_and_query,
            },
        ),
{
}

/// A rewrite fails in exactly three cases, decided by the target and by
/// whether the request has a path and query: a target scheme without an
/// authority; a target scheme and a request without a path; a target
/// authority without a scheme and a request with a path.
pub proof fn lemma_rewrite_failures(req: UriView, target: UriView)
    ensures
        (rewritten_uri(req, target) == Err::<UriView, UriPartsError>(UriPartsError::AuthorityMissing))
            <==> (target.scheme is Some && target.authority is None),
        (rewritten_uri(req, target) == Err::<UriView, UriPartsError>(
            UriPartsError::PathAndQueryMissing,
        )) <==> (target.scheme is Some && target.authority is Some && req.path_and_query is None),
        (rewritten_uri(req, target) == Err::<UriView, UriPartsError>(UriPartsError::SchemeMissing))
            <==> (target.scheme is None && target.authority is Some && req.path_and_query is Some),
{
}

/// Two requests with the same path and query are rewritten alike for any
/// target: the request's own scheme, authority, host and port play no
/// part.
pub proof fn lemma_rewrite_ignores_request_authority(r1: UriView, r2: UriView, target: UriView)
    requires
        r1.path_and_query == r2.path_and_query,
    ensures
        rewritten_uri(r1, target) == rewritten_uri(r2, target),
{
}

/// A request whose host has a target with a scheme and an authority in the
/// table, and which has a path, is forwarded: its URI takes the target's
/// scheme, authority, host and port with its own path and query, and it
/// goes the way its version and the target's scheme call for.
pub proof fn lemma_full_target_forwards(req: RequestView, addresses: Map<Seq<char>, AddressView>)
    requires
        host_of_request(req) is Some,
        addresses.contains_key(host_of_request(req)->0),
        addresses[host_of_request(req)->0].uri.scheme is Some,
        addresses[host_of_request(req)->0].uri.authority is Some,
        req.uri.path_and_query is Some,
    ensures
        ({
            let target = addresses[host_of_request(req)->0];
            response_plan(req, addresses) == PlanView::Forward {
                request: RequestView {
                    uri: UriView {
                        scheme: target.uri.scheme,
                        authority: target.uri.authority,
                        host: target.uri.host,
                        port: target.uri.port,
                        path_and_query: req.uri.path_and_query,
                    },
                    ..req
                },
                upstream: upstream_for(req.version, target.uri.scheme, target.is_dangerous),
            }
        }),
{
    lemma_rewrite_onto_full_target(req.uri, addresses[host_of_request(req)->0].uri);
}

/// The host of a request is decided by its URI and its `Host` header
/// alone: two requests that differ only in their version are for the same
/// host.
pub proof fn lemma_host_ignores_version(r1: RequestView, r2: RequestView)
    requires
        r1.uri == r2.uri,
        r1.host_header == r2.host_header,
    ensures
        host_of_request(r1) == host_of_request(r2),
{
}

/// A request whose URI names a host is for that host.
pub proof fn lemma_host_from_uri(r: RequestView)
    requires
        r.uri.host is Some,
    ensures
        host_of_request(r) == r.uri.host,
{
}

/// A request whose URI names no host, and whose `Host` header is visible
/// text that parses as a URI, is for the host of that URI, over every
/// version of HTTP.
pub proof fn lemma_host_from_header(r: RequestView, bytes: Seq<u8>, text: Seq<char>, u: ParsedView)
    requires
        r.uri.host is None,
        r.host_header == Some(bytes),
        header_text(bytes) == Some(text),
        uri_parse_outcome(text) == Ok::<ParsedView, Seq<char>>(u),
    ensures
        host_of_request(r) == u.uri.host,
{
}

/// A request with neither a URI host nor a readable `Host` header names no
/// host.
pub proof fn lemma_no_host(r: RequestView)
    requires
        r.uri.host is None,
        r.host_header is None || header_text(r.host_header->0) is None,
    ensures
        host_of_request(r) is None,
{
}

/// A pair whose source parsed with a host and whose target parsed goes in
/// under the source's host with the parsed target, whatever the target's
/// path.
pub proof fn lemma_host_entry_accepts(source: ParsedView, target: ParsedView)
    requires
        source.uri.host is Some,
    ensures
        host_entry_from(Ok(source), Ok(target)) == Ok::<(Seq<char>, UriView), Seq<char>>(
            (source.uri.host->0, target.uri),
        ),
{
}

/// A pair is refused in three cases only: its source does not parse (with
/// that error), its source has no host, or its target does not parse (with
/// that error).
pub proof fn lemma_host_entry_errors(
    source: Result<ParsedView, Seq<char>>,
    target: Result<ParsedView, Seq<char>>,
)
    ensures
        source is Err ==> host_entry_from(source, target) == Err::<(Seq<char>, UriView), Seq<char>>(
            source->Err_0,
        ),
        source is Ok && source->Ok_0.uri.host is None ==> host_entry_from(source, target) == Err::<
            (Seq<char>, UriView),
            Seq<char>,
        >(no_source_host_error()),
        source is Ok && source->Ok_0.uri.host is Some && target is Err ==> host_entry_from(
            source,
            target,
        ) == Err::<(Seq<char>, UriView), Seq<char>>(target->Err_0),
        host_entry_from(source, target) is Err <==> (source is Err || source->Ok_0.uri.host is None
            || target is Err),
{
}

/// A configured pair that is ready for the table keyed by host: its
/// source parses with a host, and its target parses.
pub open spec fn host_pair_ready(pair: (String, String)) -> bool {
    &&& uri_parse_outcome(pair.0@) is Ok
    &&& uri_parse_outcome(pair.0@)->Ok_0.uri.host is Some
    &&& uri_parse_outcome(pair.1@) is Ok
}

/// Inserting entries none of which fails gives no error, and every entry's
/// key is in the table afterwards.
proof fn lemma_all_entries_go_in(m: Map<Seq<char>, AddressView>, outcomes: Seq<EntryOutcome>, is_dangerous: bool)
    requires
        forall|i: int| 0 <= i < outcomes.len() ==> #[trigger] outcomes[i] is Ok,
    ensures
        insert_outcomes(m, outcomes, is_dangerous).1 is None,
        forall|i: int|
            0 <= i < outcomes.len() ==> insert_outcomes(m, outcomes, is_dangerous).0.contains_key(
                #[trigger] outcomes[i]->Ok_0.0,
            ),
    decreases outcomes.len(),
{
    if outcomes.len() > 0 {
        let tail = outcomes.drop_first();
        assert(outcomes[0] is Ok);
        let (k, t) = outcomes[0]->Ok_0;
        let m1 = m.insert(k, AddressView { uri: t, is_dangerous });
        assert forall|i: int| 0 <= i < tail.len() implies #[trigger] tail[i] is Ok by {
            assert(tail[i] == outcomes[i + 1]);
        }
        lemma_all_entries_go_in(m1, tail, is_dangerous);
        assert forall|i: int|
            0 <= i < outcomes.len() implies insert_outcomes(m, outcomes, is_dangerous).0.contains_key(
            #[trigger] outcomes[i]->Ok_0.0,
        ) by {
            lemma_last_entry_wins(m1, tail, is_dangerous, outcomes[i]->Ok_0.0);
            if i > 0 {
                assert(tail[i - 1] == outcomes[i]);
            }
        }
    }
}

/// Where every pair of a configuration, plain or dangerous, is ready, the
/// table keyed by host is built, and the host of every source is in it.
pub proof fn lemma_ready_pairs_build_host_table(c: Config)
    requires
        forall|i: int| 0 <= i < c.addresses@.len() ==> host_pair_ready(#[trigger] c.addresses@[i]),
        forall|i: int| 0 <= i < dangerous_pairs(c).len() ==> host_pair_ready(#[trigger] dangerous_pairs(c)[i]),
    ensures
        host_map_outcome(c) is Ok,
        forall|i: int|
            0 <= i < c.addresses@.len() ==> host_map_outcome(c)->Ok_0.contains_key(
                uri_parse_outcome((#[trigger] c.addresses@[i]).0@)->Ok_0.uri.host->0,
            ),
        forall|i: int|
            0 <= i < dangerous_pairs(c).len() ==> host_map_outcome(c)->Ok_0.contains_key(
                uri_parse_outcome((#[trigger] dangerous_pairs(c)[i]).0@)->Ok_0.uri.host->0,
            ),
{
    let plain = host_outcomes(c.addresses@);
    let dangerous = host_outcomes(dangerous_pairs(c));
    let empty = Map::<Seq<char>, AddressView>::empty();
    assert forall|i: int| 0 <= i < plain.len() implies #[trigger] plain[i] is Ok by {
        assert(host_pair_ready(c.addresses@[i]));
    }
    assert forall|i: int| 0 <= i < dangerous.len() implies #[trigger] dangerous[i] is Ok by {
        assert(host_pair_ready(dangerous_pairs(c)[i]));
    }
    lemma_all_entries_go_in(empty, plain, false);
    let first = insert_outcomes(empty, plain, false).0;
    lemma_all_entries_go_in(first, dangerous, true);
    let m = insert_outcomes(first, dangerous, true).0;
    assert(host_outcomes(Seq::<(String, String)>::empty()) =~= Seq::<EntryOutcome>::empty());
    assert(host_map_outcome(c) == Ok::<Map<Seq<char>, AddressView>, Seq<char>>(m));
    assert forall|i: int| 0 <= i < c.addresses@.len() implies m.contains_key(
        uri_parse_outcome((#[trigger] c.addresses@[i]).0@)->Ok_0.uri.host->0,
    ) by {
        assert(host_pair_ready(c.addresses@[i]));
        assert(plain[i] == host_entry(c.addresses@[i]));
        assert(first.contains_key(plain[i]->Ok_0.0));
        lemma_last_entry_wins(first, dangerous, true, plain[i]->Ok_0.0);
    }
    assert forall|i: int| 0 <= i < dangerous_pairs(c).len() implies m.contains_key(
        uri_parse_outcome((#[trigger] dangerous_pairs(c)[i]).0@)->Ok_0.uri.host->0,
    ) by {
        assert(host_pair_ready(dangerous_pairs(c)[i]));
        assert(dangerous[i] == host_entry(dangerous_pairs(c)[i]));
        assert(m.contains_key(dangerous[i]->Ok_0.0));
    }
}


/// A pair whose source parsed with a `host:port` and whose target parsed
/// goes in under that `host:port` with the parsed target, whatever the
/// target's path.
pub proof fn lemma_port_entry_accepts(source: ParsedView, target: ParsedView)
    requires
        host_and_port_text(source.uri) is Some,
    ensures
        port_entry_from(Ok(source), Ok(target)) == Ok::<(Seq<char>, ParsedView), Seq<char>>(
            (host_and_port_text(source.uri)->0, target),
        ),
{
}

/// A configured pair whose source parses with a `host:port` and whose
/// target parses with a path that `http` takes as a path-and-query.
pub open spec fn port_pair_ready(pair: (String, String)) -> bool {
    &&& port_entry(pair) is Ok
    &&& path_and_query_parse_outcome(port_entry(pair)->Ok_0.1.path) is Ok
}

/// A ready pair at whose target path no regular file stands goes in under
/// its source's `host:port` with its target: its target path is used as it
/// is, and is never refused for want of a parent.
pub proof fn lemma_no_file_target_accepted(pair: (String, String))
    requires
        port_pair_ready(pair),
    ensures
        port_outcome(pair, false) == Ok::<(Seq<char>, UriView), Seq<char>>(
            (port_entry(pair)->Ok_0.0, port_entry(pair)->Ok_0.1.uri),
        ),
{
}

/// Where every pair of a configuration is ready and the disk says that no
/// regular file stands at any target path, the table keyed by `host:port`
/// is built, and the `host:port` of every source is in it.
pub proof fn lemma_no_file_targets_build_port_table(
    c: Config,
    files: Seq<bool>,
    dangerous_files: Seq<bool>,
)
    requires
        forall|i: int| 0 <= i < c.addresses@.len() ==> port_pair_ready(#[trigger] c.addresses@[i]),
        forall|i: int| 0 <= i < dangerous_pairs(c).len() ==> port_pair_ready(#[trigger] dangerous_pairs(c)[i]),
        forall|i: int| 0 <= i < files.len() ==> !#[trigger] files[i],
        forall|i: int| 0 <= i < dangerous_files.len() ==> !#[trigger] dangerous_files[i],
    ensures
        port_map_outcome(c, files, dangerous_files) is Ok,
        forall|i: int|
            0 <= i < c.addresses@.len() ==> port_map_outcome(c, files, dangerous_files)->Ok_0.contains_key(
                port_entry(#[trigger] c.addresses@[i])->Ok_0.0,
            ),
        forall|i: int|
            0 <= i < dangerous_pairs(c).len() ==> port_map_outcome(c, files, dangerous_files)->Ok_0.contains_key(
                port_entry(#[trigger] dangerous_pairs(c)[i])->Ok_0.0,
            ),
{
    let plain = port_outcomes(c.addresses@, files);
    let dangerous = port_outcomes(dangerous_pairs(c), dangerous_files);
    let empty = Map::<Seq<char>, AddressView>::empty();
    assert forall|i: int| 0 <= i < plain.len() implies #[trigger] plain[i] is Ok by {
        assert(port_pair_ready(c.addresses@[i]));
        assert(!file_at(files, i));
    }
    assert forall|i: int| 0 <= i < dangerous.len() implies #[trigger] dangerous[i] is Ok by {
        assert(port_pair_ready(dangerous_pairs(c)[i]));
        assert(!file_at(dangerous_files, i));
    }
    lemma_all_entries_go_in(empty, plain, false);
    let first = insert_outcomes(empty, plain, false).0;
    lemma_all_entries_go_in(first, dangerous, true);
    let m = insert_outcomes(first, dangerous, true).0;
    assert(port_outcomes(Seq::<(String, String)>::empty(), dangerous_files) =~= Seq::<EntryOutcome>::empty());
    assert(port_map_outcome(c, files, dangerous_files) == Ok::<Map<Seq<char>, AddressView>, Seq<char>>(m));
    assert forall|i: int| 0 <= i < c.addresses@.len() implies m.contains_key(
        port_entry(#[trigger] c.addresses@[i])->Ok_0.0,
    ) by {
        assert(port_pair_ready(c.addresses@[i]));
        assert(!file_at(files, i));
        assert(plain[i] is Ok);
        assert(first.contains_key(plain[i]->Ok_0.0));
        lemma_last_entry_wins(first, dangerous, true, plain[i]->Ok_0.0);
    }
    assert forall|i: int| 0 <= i < dangerous_pairs(c).len() implies m.contains_key(
        port_entry(#[trigger] dangerous_pairs(c)[i])->Ok_0.0,
    ) by {
        assert(port_pair_ready(dangerous_pairs(c)[i]));
        assert(!file_at(dangerous_files, i));
        assert(dangerous[i] is Ok);
        assert(m.contains_key(dangerous[i]->Ok_0.0));
    }
}

/// Every possible disk answer for a ready pair whose target path ends in
/// `/` says that no regular file stands there, so the pair goes in under
/// its `host:port` with its target.
pub proof fn lemma_directory_target_accepted(pairs: Seq<(String, String)>, files: Seq<bool>, i: int)
    requires
        possible_answers(pairs, files),
        0 <= i < pairs.len(),
        port_pair_ready(pairs[i]),
        names_no_file(port_entry(pairs[i])->Ok_0.1.path),
    ensures
        port_outcomes(pairs, files)[i] == Ok::<(Seq<char>, UriView), Seq<char>>(
            (port_entry(pairs[i])->Ok_0.0, port_entry(pairs[i])->Ok_0.1.uri),
        ),
{
    assert(!file_at(files, i));
}

} // verus!
