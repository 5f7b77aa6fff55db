//! Trusted boundary to the `url` crate: parsing, joining and path
//! replacement are performed by the outside crate, and their results are
//! given names that the rest of the library reasons with.

use vstd::prelude::*;

verus! {

/// Whether `s` parses as an absolute URL (`url::Url::parse` returns `Ok`).
pub uninterp spec fn url_ok(s: Seq<char>) -> bool;

/// Whether parsing `s` fails precisely for want of a base (a relative
/// fragment such as `/login`); never true of a string that parses.
pub uninterp spec fn url_relative_err(s: Seq<char>) -> bool;

/// The host of the absolute URL `s` (empty when it has none).
pub uninterp spec fn url_host(s: Seq<char>) -> Seq<char>;

/// The path of the absolute URL `s`.
pub uninterp spec fn url_path(s: Seq<char>) -> Seq<char>;

/// Whether the absolute URL `s` cannot be a base (and so has no
/// `/`-separated path segments).
pub uninterp spec fn url_cannot_be_base(s: Seq<char>) -> bool;

/// Whether resolving the fragment `link` against the absolute URL `base`
/// succeeds.
pub uninterp spec fn url_join_ok(base: Seq<char>, link: Seq<char>) -> bool;

/// Whether `base` is an absolute URL and `link` resolves against it.
pub open spec fn url_joinable(base: Seq<char>, link: Seq<char>) -> bool {
    url_ok(base) && url_join_ok(base, link)
}

/// The serialization of the fragment `link` resolved against `base`.
pub uninterp spec fn url_join(base: Seq<char>, link: Seq<char>) -> Seq<char>;

/// The serialization of the absolute URL `s` after its path is replaced by
/// `p`.
pub uninterp spec fn url_with_path(s: Seq<char>, p: Seq<char>) -> Seq<char>;

/// The path of the absolute URL `s` after its path is replaced by `p` (the
/// replacement may percent-encode or otherwise normalize `p`).
pub uninterp spec fn url_path_after_set(s: Seq<char>, p: Seq<char>) -> Seq<char>;

/// What the library reads off a parsed absolute URL: plain values only.
pub struct UrlInfo {
    /// The URL's host, or empty when it has none.
    pub host: String,
    /// The URL's path.
    pub path: String,
    /// Whether the URL cannot be a base.
    pub cannot_be_base: bool,
}

/// The outcome of parsing a candidate string: an absolute URL, a fragment
/// that merely lacks a base, or anything else.
pub enum UrlParse {
    Absolute(UrlInfo),
    Relative,
    Invalid,
}

/// A URL whose path has been replaced, read back as plain values.
pub struct UrlParts {
    /// The full serialization, ready to be fetched.
    pub serialized: String,
    /// The host, or empty when there is none.
    pub host: String,
    /// The path.
    pub path: String,
    /// Whether the URL cannot be a base.
    pub cannot_be_base: bool,
}

/// A character that `url::Url::set_path` copies into the path unchanged:
/// unreserved, never percent-encoded, and no separator.
pub open spec fn plain_name_char(c: char) -> bool {
    ('a' <= c && c <= 'z') || ('A' <= c && c <= 'Z') || ('0' <= c && c <= '9') || c == '.' || c
        == '-' || c == '_'
}

/// An absolute path of one plain segment, such as the well-known robots
/// file: a leading slash, then plain characters only, the segment being
/// neither `.` nor `..`. `url::Url::set_path` keeps such a path exactly.
pub open spec fn simple_abs_path(p: Seq<char>) -> bool {
    &&& p.len() >= 2
    &&& p[0] == '/'
    &&& (forall|i: int| 1 <= i < p.len() ==> plain_name_char(#[trigger] p[i]))
    &&& p.skip(1) != seq!['.']
    &&& p.skip(1) != seq!['.', '.']
}

/// Relies on `url::Url::parse`, and on `host_str`, `path` and
/// `cannot_be_a_base` of the parsed value: which strings are absolute URLs,
/// their host and path, and whether they can serve as a base; a failure for
/// want of a base is told apart from every other failure. The path of a URL
/// that can be a base is empty or starts with a slash (a non-special URL
/// with an authority and no path keeps an empty path).
#[verifier::external_body]
pub(crate) fn parse_absolute_url(s: &str) -> (r: UrlParse)
    ensures
        r is Absolute <==> url_ok(s@),
        r is Relative <==> url_relative_err(s@),
        r matches UrlParse::Absolute(info) ==> info.host@ == url_host(s@),
        r matches UrlParse::Absolute(info) ==> info.path@ == url_path(s@),
        r matches UrlParse::Absolute(info) ==> info.cannot_be_base == url_cannot_be_base(s@),
        r matches UrlParse::Absolute(info) ==> !info.cannot_be_base ==> info.path@.len() == 0
            || info.path@[0] == '/',
{
    match url::Url::parse(s) {
        Ok(u) => UrlParse::Absolute(
            UrlInfo {
                host: u.host_str().unwrap_or("").to_string(),
                path: u.path().to_string(),
                cannot_be_base: u.cannot_be_a_base(),
            },
        ),
        Err(url::ParseError::RelativeUrlWithoutBase) => UrlParse::Relative,
        Err(_) => UrlParse::Invalid,
    }
}

/// Relies on `url::Url::join` (after `url::Url::parse` of the base): the
/// standard resolution of a possibly-relative fragment against a base URL,
/// a function of the two strings alone.
#[verifier::external_body]
pub(crate) fn join_urls(base: &str, link: &str) -> (r: Option<String>)
    ensures
        r is Some <==> url_joinable(base@, link@),
        r is Some ==> url_join_ok(base@, link@),
        r matches Some(u) ==> u@ == url_join(base@, link@),
{
    match url::Url::parse(base) {
        Ok(b) => match b.join(link) {
            Ok(u) => Some(u.as_str().to_string()),
            Err(_) => None,
        },
        Err(_) => None,
    }
}

/// Relies on `url::Url::set_path` (after `url::Url::parse`), and on
/// `host_str`, `path` and `cannot_be_a_base` of the changed value: replacing
/// the path never touches scheme, host or port; whether the URL can be a
/// base is kept when the new path is non-empty and starts with a slash
/// (whether it can be one is exactly whether the serialization carries a
/// slash at the path start, and such a path always puts one there); and a
/// simple absolute path on a URL that can be a base is kept letter for
/// letter.
#[verifier::external_body]
pub(crate) fn set_url_path(u: &str, p: &str) -> (r: Option<UrlParts>)
    ensures
        r is Some <==> url_ok(u@),
        r matches Some(parts) ==> parts.serialized@ == url_with_path(u@, p@),
        r matches Some(parts) ==> parts.host@ == url_host(u@),
        r matches Some(parts) ==> parts.path@ == url_path_after_set(u@, p@),
        r matches Some(parts) ==> p@.len() > 0 && p@[0] == '/' ==> parts.cannot_be_base
            == url_cannot_be_base(u@),
        r matches Some(parts) ==> !parts.cannot_be_base && simple_abs_path(p@) ==> parts.path@
            == p@,
{
    match url::Url::parse(u) {
        Ok(mut parsed) => {
            parsed.set_path(p);
            Some(
                UrlParts {
                    serialized: parsed.as_str().to_string(),
                    host: parsed.host_str().unwrap_or("").to_string(),
                    path: parsed.path().to_string(),
                    cannot_be_base: parsed.cannot_be_a_base(),
                },
            )
        },
        Err(_) => None,
    }
}

} // verus!
