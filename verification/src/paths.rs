//! Filesystem paths as text: joining, parents, file tests, and the
//! `path-and-query` component that `http` accepts.
use vstd::prelude::*;
use vstd::string::{StrSliceExecFns, StringExecFns};

verus! {

/// Whether a path text is absolute: it starts with `/`.
pub open spec fn is_absolute_text(p: Seq<char>) -> bool {
    p.len() > 0 && p[0] == '/'
}

/// `rel` joined onto `base`, as `Path::join` does on Unix: an absolute
/// `rel` replaces `base`; otherwise `rel` follows `base`, with a `/`
/// between them unless `base` is empty or already ends in one.
pub open spec fn joined_path(base: Seq<char>, rel: Seq<char>) -> Seq<char> {
    if is_absolute_text(rel) {
        rel
    } else if base.len() == 0 || base.last() == '/' {
        base + rel
    } else {
        base + "/"@ + rel
    }
}

/// Joins `rel` onto `base` as `Path::join` does on Unix.
pub fn join_path(base: &str, rel: &str) -> (r: String)
    ensures
        r@ == joined_path(base@, rel@),
{
    let rel_len = rel.unicode_len();
    if rel_len > 0 && rel.get_char(0) == '/' {
        return String::from_str(rel);
    }
    let base_len = base.unicode_len();
    let mut r = String::from_str(base);
    if base_len > 0 && base.get_char(base_len - 1) != '/' {
        proof {
            reveal_strlit("/");
        }
        r.append("/");
    }
    r.append(rel);
    r
}

/// A path joined onto an absolute base is absolute.
pub proof fn lemma_join_keeps_absolute(base: Seq<char>, rel: Seq<char>)
    requires
        is_absolute_text(base),
    ensures
        is_absolute_text(joined_path(base, rel)),
{
    reveal_strlit("/");
    if !is_absolute_text(rel) {
        if base.last() == '/' {
            assert((base + rel)[0] == base[0]);
        } else {
            assert((base + "/"@ + rel)[0] == base[0]);
        }
    }
}

/// The view of a text result.
pub open spec fn text_result_view(r: Result<String, String>) -> Result<Seq<char>, Seq<char>> {
    match r {
        Ok(s) => Ok(s@),
        Err(e) => Err(e@),
    }
}

/// What `std::path::absolute` gives for an absolute path text, as text.
pub uninterp spec fn path_absolute_result(p: Seq<char>) -> Result<Seq<char>, Seq<char>>;

/// `std::path::absolute`.
///
/// Trusted, for Unix: a path it gives is absolute (it starts with `/`);
/// for a path that already starts with `/`, the result is the one that
/// `path_absolute_result` names (such a path is made absolute without
/// looking at the working directory). For a relative path the result
/// depends on the working directory, and nothing more is claimed.
#[verifier::external_body]
pub(crate) fn path_absolute(p: &str) -> (r: Result<String, String>)
    ensures
        is_absolute_text(p@) ==> text_result_view(r) == path_absolute_result(p@),
        r matches Ok(q) ==> is_absolute_text(q@),
{
    match std::path::absolute(p) {
        Ok(a) => Ok(a.to_string_lossy().into_owned()),
        Err(e) => Err(e.to_string()),
    }
}

/// `std::path::Path::is_dir`: whether a directory stands at the path.
///
/// Nothing is claimed of the result: it depends on what is on disk.
#[verifier::external_body]
pub(crate) fn path_is_dir(p: &str) -> (r: bool) {
    std::path::Path::new(p).is_dir()
}

/// What `Path::new(p).parent()` gives, as text.
pub uninterp spec fn path_parent_result(p: Seq<char>) -> Option<Seq<char>>;

/// `std::path::Path::parent`.
///
/// Trusted: the result is the one `path_parent_result` names for the text;
/// the parent of an absolute path keeps its root, so it is absolute too.
#[verifier::external_body]
pub(crate) fn path_parent(p: &str) -> (r: Option<String>)
    ensures
        match r {
            Some(q) => path_parent_result(p@) == Some(q@),
            None => path_parent_result(p@) is None,
        },
        is_absolute_text(p@) ==> (r matches Some(q) ==> is_absolute_text(q@)),
{
    std::path::Path::new(p).parent().map(|q| q.to_string_lossy().into_owned())
}

/// A path text at which no regular file can stand: the empty path, and a
/// path that ends in `/` (on Unix, a trailing `/` resolves only to a
/// directory).
pub open spec fn names_no_file(p: Seq<char>) -> bool {
    p.len() == 0 || p.last() == '/'
}

/// `std::path::Path::is_file`: whether a regular file stands at the path.
///
/// Trusted, for Unix: the answer is `false` for the empty path and for a
/// path that ends in `/` (`stat` fails on both, or finds a directory).
/// Otherwise nothing is claimed: the answer depends on what is on disk.
#[verifier::external_body]
pub(crate) fn path_is_file(p: &str) -> (r: bool)
    ensures
        names_no_file(p@) ==> !r,
{
    std::path::Path::new(p).is_file()
}

/// What `http::uri::PathAndQuery::try_from` makes of a text: the parsed
/// component's `as_str`, or the message of the parse error.
pub uninterp spec fn path_and_query_parse_outcome(text: Seq<char>) -> Result<Seq<char>, Seq<char>>;

/// Parses a `path-and-query` component with `http`.
///
/// Trusted: the result is the one `path_and_query_parse_outcome` names.
#[verifier::external_body]
pub(crate) fn parse_path_and_query(text: String) -> (r: Result<String, String>)
    ensures
        match r {
            Ok(p) => path_and_query_parse_outcome(text@) == Ok::<Seq<char>, Seq<char>>(p@),
            Err(e) => path_and_query_parse_outcome(text@) == Err::<Seq<char>, Seq<char>>(e@),
        },
{
    match http::uri::PathAndQuery::try_from(text) {
        Ok(p) => Ok(String::from(p.as_str())),
        Err(e) => Err(e.to_string()),
    }
}

} // verus!
