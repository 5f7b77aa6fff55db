//! The two scanning patterns and the trusted boundary to the `regex` crate.
//!
//! The link-finding pattern is the classic client-side link discovery
//! expression: quoted absolute URLs, quoted absolute or relative paths, and
//! quoted bare filenames with a well-known extension. The robots pattern
//! pulls the path out of `Allow`/`Disallow` directives.

use vstd::prelude::*;

verus! {

/// Whether the pattern compiles (`regex::Regex::new` returns `Ok`).
pub uninterp spec fn regex_ok(pattern: Seq<char>) -> bool;

/// The full text of every non-overlapping match of `pattern` in `text`, in
/// order of appearance.
pub uninterp spec fn regex_matches(pattern: Seq<char>, text: Seq<char>) -> Seq<Seq<char>>;

/// The text of the capture group named `group` in every non-overlapping
/// match of `pattern` in `text` in which that group participates, in order
/// of appearance.
pub uninterp spec fn regex_group_matches(
    pattern: Seq<char>,
    group: Seq<char>,
    text: Seq<char>,
) -> Seq<Seq<char>>;

/// The link-finding pattern, as a specification-level sequence.
pub open spec fn spec_link_pattern() -> Seq<char> {
    r#"(?:"|')(((?:[a-zA-Z]{1,10}://|//)[^"'/]{1,}\.[a-zA-Z]{2,}[^"']{0,})|((?:/|\.\./|\./)[^"'><,;| *()(%%$^/\\\[\]][^"'><,;|()]{1,})|([a-zA-Z0-9_\-/]{1,}/[a-zA-Z0-9_\-/]{1,}\.(?:[a-zA-Z]{1,4}|action)(?:[\?|#][^"|']{0,}|))|([a-zA-Z0-9_\-/]{1,}/[a-zA-Z0-9_\-/]{3,}(?:[\?|#][^"|']{0,}|))|([a-zA-Z0-9_\-]{1,}\.(?:php|asp|aspx|jsp|json|action|html|js|txt|xml)(?:[\?|#][^"|']{0,}|)))(?:"|')"#@
}

/// The link-finding pattern, for the executable scan.
pub fn link_pattern() -> (r: &'static str)
    ensures
        r@ == spec_link_pattern(),
{
    r#"(?:"|')(((?:[a-zA-Z]{1,10}://|//)[^"'/]{1,}\.[a-zA-Z]{2,}[^"']{0,})|((?:/|\.\./|\./)[^"'><,;| *()(%%$^/\\\[\]][^"'><,;|()]{1,})|([a-zA-Z0-9_\-/]{1,}/[a-zA-Z0-9_\-/]{1,}\.(?:[a-zA-Z]{1,4}|action)(?:[\?|#][^"|']{0,}|))|([a-zA-Z0-9_\-/]{1,}/[a-zA-Z0-9_\-/]{3,}(?:[\?|#][^"|']{0,}|))|([a-zA-Z0-9_\-]{1,}\.(?:php|asp|aspx|jsp|json|action|html|js|txt|xml)(?:[\?|#][^"|']{0,}|)))(?:"|')"#
}

/// The robots directive pattern, as a specification-level sequence.
pub open spec fn spec_robots_pattern() -> Seq<char> {
    r#"(?m)^ *(Allow|Disallow): *(?P<url_path>[a-zA-Z0-9._/?#@!&'()+,;%=~-]+)"#@
}

/// The robots directive pattern, for the executable scan.
pub fn robots_pattern() -> (r: &'static str)
    ensures
        r@ == spec_robots_pattern(),
{
    r#"(?m)^ *(Allow|Disallow): *(?P<url_path>[a-zA-Z0-9._/?#@!&'()+,;%=~-]+)"#
}

/// The name of the capture group that carries a directive's path, as a
/// specification-level sequence.
pub open spec fn spec_path_group() -> Seq<char> {
    "url_path"@
}

/// The name of the capture group that carries a directive's path.
pub fn path_group() -> (r: &'static str)
    ensures
        r@ == spec_path_group(),
{
    "url_path"
}

/// Relies on `regex::Regex::new` and `regex::Regex::captures_iter`: whether
/// the pattern compiles, and the full text of each non-overlapping match in
/// order; both depend on the pattern and the text alone.
#[verifier::external_body]
pub(crate) fn regex_find_all(pattern: &str, text: &str) -> (r: Option<Vec<String>>)
    ensures
        r is Some <==> regex_ok(pattern@),
        r matches Some(v) ==> v.deep_view() == regex_matches(pattern@, text@),
{
    match regex::Regex::new(pattern) {
        Ok(re) => {
            let mut v: Vec<String> = Vec::new();
            for c in re.captures_iter(text) {
                v.push(c[0].to_string());
            }
            Some(v)
        },
        Err(_) => None,
    }
}

/// Relies on `regex::Regex::new`, `regex::Regex::captures_iter` and
/// `regex::Captures::name`: the text of the named group in each match in
/// which it participates, in order; a function of pattern, group and text
/// alone.
#[verifier::external_body]
pub(crate) fn regex_find_group(pattern: &str, group: &str, text: &str) -> (r: Option<Vec<String>>)
    ensures
        r is Some <==> regex_ok(pattern@),
        r matches Some(v) ==> v.deep_view() == regex_group_matches(pattern@, group@, text@),
{
    match regex::Regex::new(pattern) {
        Ok(re) => {
            let mut v: Vec<String> = Vec::new();
            for c in re.captures_iter(text) {
                if let Some(m) = c.name(group) {
                    v.push(m.as_str().to_string());
                }
            }
            Some(v)
        },
        Err(_) => None,
    }
}

} // verus!
