//! The extraction engine: finds link candidates in a response body or a
//! robots.txt file, expands each into its enclosing directory prefixes,
//! resolves them against the originating URL into a deduplicated set of
//! absolute targets, and decides what becomes of each probed candidate.

use vstd::prelude::*;

use crate::ledger::UrlSet;
use crate::paths::expansion;
use crate::paths::split_segments;
use crate::paths::trim_quote_chars;
use crate::paths::trim_quotes;
use crate::patterns::link_pattern;
use crate::patterns::path_group;
use crate::patterns::regex_find_all;
use crate::patterns::regex_find_group;
use crate::patterns::regex_group_matches;
use crate::patterns::regex_matches;
use crate::patterns::regex_ok;
use crate::patterns::robots_pattern;
use crate::patterns::spec_link_pattern;
use crate::patterns::spec_path_group;
use crate::patterns::spec_robots_pattern;
use crate::urls::parse_absolute_url;
use crate::urls::set_url_path;
use crate::urls::simple_abs_path;
use crate::urls::url_cannot_be_base;
use crate::urls::url_host;
use crate::urls::url_join;
use crate::urls::url_joinable;
use crate::urls::url_ok;
use crate::urls::url_path;
use crate::urls::url_path_after_set;
use crate::urls::url_relative_err;
use crate::urls::url_with_path;
use crate::urls::UrlParse;
use crate::urls::UrlParts;

verus! {

/// Which source an extraction pass scans, and so which base-URL resolution
/// rule applies.
#[derive(Debug, PartialEq, Eq, Structural, Clone, Copy)]
pub enum ExtractionTarget {
    /// The body of an ordinary HTTP response.
    ResponseBody,
    /// A robots.txt file fetched from the origin's root.
    RobotsTxt,
}

/// The completed response an extraction pass scans: its URL and its text.
pub struct SourceResponse {
    /// The response's own URL, the base against which fragments resolve.
    pub url: String,
    /// The response's body text.
    pub text: String,
}

/// The errors of one extraction pass. Failures on a single candidate are
/// not errors: they merely shrink the result set.
#[derive(Debug, PartialEq, Eq, Structural, Clone, Copy)]
pub enum ExtractError {
    /// The scanning pattern does not compile.
    BadPattern,
    /// The pass's own base URL does not parse as an absolute URL.
    InvalidBase,
    /// A fragment could not be resolved against the base URL.
    JoinFailed,
}

/// One statistics event: how many links a pass extracted, and how many
/// further responses the scan should expect for them.
#[derive(Debug, PartialEq, Eq, Structural, Clone, Copy)]
pub struct StatsUpdate {
    /// The number of links extracted by the pass.
    pub links_extracted: usize,
    /// The extracted count times the number of configured extensions (at
    /// least one), saturated at the machine limit.
    pub total_expected: usize,
}

/// What one extraction pass produces: the deduplicated set of absolute
/// target URLs, and the statistics event to emit for it.
#[derive(Debug)]
pub struct Extraction {
    /// The deduplicated absolute target URLs.
    pub links: UrlSet,
    /// The statistics event for this pass.
    pub stats: StatsUpdate,
}

/// A new recursive scan target: a directory URL and the depth of the scan
/// that discovered it.
pub struct RecursionEntry {
    /// The directory URL, trailing-slash canonical.
    pub url: String,
    /// The depth at which the originating scan runs.
    pub depth: usize,
}

/// A probed candidate as the downstream collaborators classified it.
pub struct ProbedResponse {
    /// The probed URL.
    pub url: String,
    /// The response's status code.
    pub status: u16,
    /// Whether the response-filter predicate discards the response.
    pub filtered: bool,
    /// Whether the response is shaped like a file.
    pub file: bool,
}

/// What probing one candidate came to.
pub enum ProbeOutcome {
    /// The request failed at the network level.
    RequestFailed,
    /// The ledger already held the candidate.
    AlreadySeen,
    /// A response arrived and was classified.
    Probed(ProbedResponse),
}

/// What the engine decides for one probed candidate.
pub enum CandidateAction {
    /// Drop the candidate silently.
    Skip,
    /// Register and report the URL as a discovered file; never recurse
    /// into it.
    ReportFile(String),
    /// Enqueue the entry as a new recursive scan target.
    Recurse(RecursionEntry),
}

/// The multiplier for expected responses: one probe per configured
/// extension, and at least one probe.
pub open spec fn expected_multiplier(n_ext: nat) -> nat {
    if n_ext == 0 {
        1nat
    } else {
        n_ext
    }
}

/// The statistics event for `n` extracted links under `n_ext` configured
/// extensions; the expected-responses product saturates at the machine
/// limit.
pub open spec fn spec_stats(n: nat, n_ext: nat) -> StatsUpdate {
    StatsUpdate {
        links_extracted: n as usize,
        total_expected: if n * expected_multiplier(n_ext) > usize::MAX {
            usize::MAX
        } else {
            (n * expected_multiplier(n_ext)) as usize
        },
    }
}

/// Resolve each fragment against `base` in order and insert the results
/// into `s`, stopping at the first fragment that does not resolve.
pub open spec fn insert_joined(base: Seq<char>, frags: Seq<Seq<char>>, s: Set<Seq<char>>) -> Set<
    Seq<char>,
>
    decreases frags.len(),
{
    if frags.len() == 0 {
        s
    } else if url_joinable(base, frags.first()) {
        insert_joined(base, frags.drop_first(), s.insert(url_join(base, frags.first())))
    } else {
        s
    }
}

/// Whether every fragment resolves against `base`.
pub open spec fn all_joinable(base: Seq<char>, frags: Seq<Seq<char>>) -> bool
    decreases frags.len(),
{
    frags.len() == 0 || (url_joinable(base, frags.first()) && all_joinable(
        base,
        frags.drop_first(),
    ))
}

/// The sub-path fragments one trimmed body candidate contributes: an
/// absolute URL on the base's own host contributes the expansion of its
/// path; a cross-origin absolute URL contributes nothing; a fragment that
/// lacks only a base contributes the expansion of itself; anything else is
/// dropped.
pub open spec fn body_frags(c: Seq<char>, base_host: Seq<char>) -> Seq<Seq<char>> {
    if url_ok(c) {
        if url_host(c) == base_host {
            expansion(url_path(c))
        } else {
            Seq::<Seq<char>>::empty()
        }
    } else if url_relative_err(c) {
        expansion(c)
    } else {
        Seq::<Seq<char>>::empty()
    }
}

/// Process the raw body matches in order, trimming quotes and inserting
/// each candidate's resolved sub-paths.
pub open spec fn add_body_candidates(
    cands: Seq<Seq<char>>,
    base: Seq<char>,
    s: Set<Seq<char>>,
) -> Set<Seq<char>>
    decreases cands.len(),
{
    if cands.len() == 0 {
        s
    } else {
        add_body_candidates(
            cands.drop_first(),
            base,
            insert_joined(base, body_frags(trim_quotes(cands.first()), url_host(base)), s),
        )
    }
}

/// The full link set extracted from a body `text` whose response URL is
/// `base`.
pub open spec fn body_link_set(text: Seq<char>, base: Seq<char>) -> Set<Seq<char>> {
    add_body_candidates(regex_matches(spec_link_pattern(), text), base, Set::empty())
}

/// The sub-path fragments one robots directive path contributes: the
/// expansion of the original URL's path after it is replaced by the
/// captured path.
pub open spec fn robots_frags(origin: Seq<char>, cap: Seq<char>) -> Seq<Seq<char>> {
    expansion(url_path_after_set(origin, cap))
}

/// Process the captured robots directive paths in order.
pub open spec fn add_robots_candidates(
    caps: Seq<Seq<char>>,
    origin: Seq<char>,
    s: Set<Seq<char>>,
) -> Set<Seq<char>>
    decreases caps.len(),
{
    if caps.len() == 0 {
        s
    } else {
        add_robots_candidates(
            caps.drop_first(),
            origin,
            insert_joined(origin, robots_frags(origin, caps.first()), s),
        )
    }
}

/// The full link set extracted from a robots.txt `text` for the original
/// target `origin`.
pub open spec fn robots_link_set(text: Seq<char>, origin: Seq<char>) -> Set<Seq<char>> {
    add_robots_candidates(
        regex_group_matches(spec_robots_pattern(), spec_path_group(), text),
        origin,
        Set::empty(),
    )
}

/// Whether a status code lies in the success range.
pub open spec fn is_success_status(status: u16) -> bool {
    200 <= status < 300
}

/// Whether a status marks a plausible directory worth recursing into: a
/// success, or forbidden — a protected directory is still a directory,
/// and some false-positive recursion is accepted rather than missing it.
pub open spec fn recursion_worthy(status: u16) -> bool {
    is_success_status(status) || status == 403
}

/// The recursion gate's decision: under global recursion, a worthy status
/// forwards the URL at the originating depth, trailing-slash corrected
/// when the URL does not already end in one; everything else is dropped.
pub open spec fn spec_gate(no_recursion: bool, url: Seq<char>, status: u16, depth: usize) -> Option<
    (Seq<char>, usize),
> {
    if no_recursion || !recursion_worthy(status) {
        None
    } else if url.len() > 0 && url.last() == '/' {
        Some((url, depth))
    } else {
        Some((url.push('/'), depth))
    }
}

/// The unit of work for one extraction pass: the source to scan, the
/// originating URL, the configuration the pass needs, and the depth of the
/// originating scan.
pub struct Extractor {
    /// Which source this pass scans.
    pub target: ExtractionTarget,
    /// The original target URL of the pass.
    pub url: String,
    /// The completed response to scan; present whenever the target is a
    /// response body.
    pub response: Option<SourceResponse>,
    /// Whether recursion is globally disabled for this run.
    pub no_recursion: bool,
    /// The configured file extensions.
    pub extensions: Vec<String>,
    /// The depth at which the originating scan runs.
    pub depth: usize,
}

impl Extractor {
    /// A body pass always carries the response it scans.
    pub open spec fn wf(&self) -> bool {
        self.target is ResponseBody ==> self.response is Some
    }

    /// The base URL against which this pass resolves fragments.
    pub open spec fn base_url(&self) -> Seq<char> {
        match self.target {
            ExtractionTarget::ResponseBody => match self.response {
                Some(r) => r.url@,
                None => Seq::<char>::empty(),
            },
            ExtractionTarget::RobotsTxt => self.url@,
        }
    }

    /// The text this pass scans.
    pub open spec fn source_text(&self) -> Seq<char> {
        match self.response {
            Some(r) => r.text@,
            None => Seq::<char>::empty(),
        }
    }

    /// Decompose a path fragment into itself and each enclosing directory
    /// prefix, deepest first, every directory prefix slash-terminated.
    pub fn get_sub_paths_from_path(&self, path: &str) -> (paths: Vec<String>)
        ensures
            paths.deep_view() == expansion(path@),
    {
        let segs = split_segments(path);
        let n = segs.len();
        let ghost sv = segs.deep_view();
        let ghost exp = expansion(path@);
        let mut paths: Vec<String> = Vec::new();
        let mut i: usize = 0;
        while i < n
            invariant
                n == segs.len(),
                sv == segs.deep_view(),
                sv == crate::paths::segments_of(path@),
                exp == expansion(path@),
                exp.len() == n,
                sv.len() == n,
                i <= n,
                paths.deep_view() =~= exp.take(i as int),
            decreases n - i,
        {
            let cnt = n - i;
            let mut joined = String::new();
            let mut j: usize = 0;
            while j < cnt
                invariant
                    1 <= cnt <= n,
                    n == segs.len(),
                    sv == segs.deep_view(),
                    sv.len() == n,
                    j <= cnt,
                    j == 0 ==> joined@ =~= Seq::<char>::empty(),
                    0 < j < cnt ==> joined@ =~= crate::paths::join_segments(sv.take(j as int))
                        + seq!['/'],
                    j == cnt ==> joined@ =~= crate::paths::join_segments(sv.take(j as int)),
                decreases cnt - j,
            {
                proof {
                    crate::paths::lemma_join_segments_take(sv, j as int);
                    assert(segs.deep_view()[j as int] == segs@[j as int]@);
                }
                joined.append(segs[j]);
                if j + 1 < cnt {
                    joined.append("/");
                    proof {
                        reveal_strlit("/");
                        assert("/"@ =~= seq!['/']);
                    }
                }
                j = j + 1;
            }
            if i > 0 {
                joined.append("/");
                proof {
                    reveal_strlit("/");
                    assert("/"@ =~= seq!['/']);
                }
            }
            let ghost old_dv = paths.deep_view();
            paths.push(joined);
            proof {
                assert(paths.deep_view() =~= old_dv.push(joined@));
                assert(sv.take(cnt as int) == sv.take(sv.len() - i));
                assert(exp[i as int] == if i == 0 {
                    crate::paths::join_segments(sv.take(sv.len() - i))
                } else {
                    crate::paths::join_segments(sv.take(sv.len() - i)) + seq!['/']
                });
                assert(joined@ =~= exp[i as int]);
                assert(exp.take(i as int + 1) =~= exp.take(i as int).push(exp[i as int]));
            }
            i = i + 1;
        }
        proof {
            assert(exp.take(n as int) =~= exp);
        }
        paths
    }

    /// Resolve one fragment against this pass's base URL and insert the
    /// absolute result into the set; a fragment that does not resolve is
    /// reported and inserts nothing.
    pub fn add_link_to_set_of_links(&self, link: &str, links: &mut UrlSet) -> (r: Result<
        (),
        ExtractError,
    >)
        requires
            self.wf(),
            old(links).wf(),
        ensures
            final(links).wf(),
            r is Ok <==> url_joinable(self.base_url(), link@),
            r is Ok ==> final(links)@ == old(links)@.insert(url_join(self.base_url(), link@)),
            r is Err ==> final(links)@ == old(links)@,
            r is Err ==> r == Err::<(), ExtractError>(ExtractError::JoinFailed),
    {
        let base: &String = match self.target {
            ExtractionTarget::ResponseBody => {
                let resp = self.response.as_ref().unwrap();
                &resp.url
            },
            ExtractionTarget::RobotsTxt => &self.url,
        };
        match crate::urls::join_urls(base.as_str(), link) {
            Some(u) => {
                let _ = links.insert(u);
                Ok(())
            },
            None => Err(ExtractError::JoinFailed),
        }
    }

    /// Expand one path fragment and insert every resolved sub-path into the
    /// set, stopping at the first sub-path that does not resolve.
    #[verifier::loop_isolation(false)]
    pub fn add_all_sub_paths(&self, url_path: &str, links: &mut UrlSet) -> (r: Result<
        (),
        ExtractError,
    >)
        requires
            self.wf(),
            old(links).wf(),
        ensures
            final(links).wf(),
            final(links)@ == insert_joined(self.base_url(), expansion(url_path@), old(links)@),
            r is Ok <==> all_joinable(self.base_url(), expansion(url_path@)),
    {
        let subs = self.get_sub_paths_from_path(url_path);
        let ghost frags = expansion(url_path@);
        let ghost base = self.base_url();
        proof {
            assert(frags.skip(0) =~= frags);
        }
        let mut k: usize = 0;
        while k < subs.len()
            invariant
                self.wf(),
                links.wf(),
                subs.deep_view() == frags,
                k <= subs.len(),
                base == self.base_url(),
                insert_joined(base, frags, old(links)@) == insert_joined(
                    base,
                    frags.skip(k as int),
                    links@,
                ),
                all_joinable(base, frags) <==> all_joinable(base, frags.skip(k as int)),
            decreases subs.len() - k,
        {
            proof {
                assert(frags.skip(k as int).first() == frags[k as int]);
                assert(frags.skip(k as int).drop_first() =~= frags.skip(k as int + 1));
                assert(subs.deep_view()[k as int] == subs@[k as int]@);
            }
            let sub = &subs[k];
            let ghost pre_links = links@;
            match self.add_link_to_set_of_links(sub.as_str(), links) {
                Ok(_) => {
                    proof {
                        assert(insert_joined(base, frags.skip(k as int), pre_links)
                            == insert_joined(base, frags.skip(k as int + 1), links@));
                    }
                },
                Err(e) => {
                    proof {
                        assert(!url_joinable(base, frags.skip(k as int).first()));
                        assert(insert_joined(base, frags.skip(k as int), links@) == links@);
                        assert(!all_joinable(base, frags.skip(k as int)));
                    }
                    return Err(e);
                },
            }
            k = k + 1;
        }
        proof {
            assert(frags.skip(subs.len() as int) =~= Seq::<Seq<char>>::empty());
        }
        Ok(())
    }

    /// Scan the response body for link candidates, drop cross-origin
    /// absolute URLs, expand and resolve the rest against the response's
    /// own URL, and return the deduplicated set with its statistics event.
    #[verifier::loop_isolation(false)]
    pub fn extract_from_body(&self) -> (r: Result<Extraction, ExtractError>)
        requires
            self.wf(),
            self.target is ResponseBody,
        ensures
            r is Ok <==> regex_ok(spec_link_pattern()) && url_ok(self.base_url()),
            r matches Ok(ex) ==> ex.links@ == body_link_set(self.source_text(), self.base_url()),
            r matches Ok(ex) ==> ex.links.wf(),
            r matches Ok(ex) ==> ex.stats == spec_stats(ex.links@.len(), self.extensions@.len()),
            r == Err::<Extraction, ExtractError>(ExtractError::BadPattern) <==> !regex_ok(
                spec_link_pattern(),
            ),
            r == Err::<Extraction, ExtractError>(ExtractError::InvalidBase) <==> regex_ok(
                spec_link_pattern(),
            ) && !url_ok(self.base_url()),
    {
        let resp = self.response.as_ref().unwrap();
        let caps = match regex_find_all(link_pattern(), resp.text.as_str()) {
            Some(v) => v,
            None => {
                return Err(ExtractError::BadPattern);
            },
        };
        let base_info = match parse_absolute_url(resp.url.as_str()) {
            UrlParse::Absolute(info) => info,
            UrlParse::Relative => {
                return Err(ExtractError::InvalidBase);
            },
            UrlParse::Invalid => {
                return Err(ExtractError::InvalidBase);
            },
        };
        let ghost cands = caps.deep_view();
        let ghost base = self.base_url();
        let mut links = UrlSet::new();
        proof {
            assert(cands.skip(0) =~= cands);
            assert(cands.len() == caps@.len());
        }
        let mut idx: usize = 0;
        while idx < caps.len()
            invariant
                self.wf(),
                self.target is ResponseBody,
                links.wf(),
                caps.deep_view() == cands,
                cands.len() == caps@.len(),
                idx <= caps.len(),
                base == self.base_url(),
                url_ok(base),
                base_info.host@ == url_host(base),
                add_body_candidates(cands, base, Set::empty()) == add_body_candidates(
                    cands.skip(idx as int),
                    base,
                    links@,
                ),
            decreases caps.len() - idx,
        {
            let cap = &caps[idx];
            let trimmed = trim_quote_chars(cap.as_str());
            let ghost c = trim_quotes(cands[idx as int]);
            proof {
                assert(caps.deep_view()[idx as int] == caps@[idx as int]@);
                assert(trimmed@ == c);
                assert(cands.skip(idx as int).first() == cands[idx as int]);
                assert(cands.skip(idx as int).drop_first() =~= cands.skip(idx as int + 1));
            }
            match parse_absolute_url(trimmed) {
                UrlParse::Absolute(info) => {
                    let same_host = info.host == base_info.host;
                    if same_host {
                        proof {
                            assert(body_frags(c, url_host(base)) == expansion(url_path(c)));
                            assert(info.path@ == url_path(c));
                        }
                        let _ = self.add_all_sub_paths(info.path.as_str(), &mut links);
                    } else {
                        proof {
                            assert(body_frags(c, url_host(base)) =~= Seq::<Seq<char>>::empty());
                        }
                    }
                },
                UrlParse::Relative => {
                    proof {
                        assert(body_frags(c, url_host(base)) == expansion(c));
                    }
                    let _ = self.add_all_sub_paths(trimmed, &mut links);
                },
                UrlParse::Invalid => {
                    proof {
                        assert(body_frags(c, url_host(base)) =~= Seq::<Seq<char>>::empty());
                    }
                },
            }
            idx = idx + 1;
        }
        proof {
            assert(cands.skip(caps.len() as int) =~= Seq::<Seq<char>>::empty());
        }
        let n = links.len();
        let stats = self.update_stats(n);
        Ok(Extraction { links, stats })
    }

    /// Scan a fetched robots.txt for directive paths, set each on the
    /// original target URL, and expand and resolve the outcome exactly as
    /// body candidates are.
    #[verifier::loop_isolation(false)]
    pub fn extract_from_robots(&self, robots_text: &str) -> (r: Result<Extraction, ExtractError>)
        requires
            self.wf(),
            self.target is RobotsTxt,
        ensures
            r is Ok <==> regex_ok(spec_robots_pattern()) && (regex_group_matches(
                spec_robots_pattern(),
                spec_path_group(),
                robots_text@,
            ).len() == 0 || url_ok(self.url@)),
            r matches Ok(ex) ==> ex.links@ == robots_link_set(robots_text@, self.url@),
            r matches Ok(ex) ==> ex.links.wf(),
            r matches Ok(ex) ==> ex.stats == spec_stats(ex.links@.len(), self.extensions@.len()),
            r == Err::<Extraction, ExtractError>(ExtractError::BadPattern) <==> !regex_ok(
                spec_robots_pattern(),
            ),
    {
        let caps = match regex_find_group(robots_pattern(), path_group(), robots_text) {
            Some(v) => v,
            None => {
                return Err(ExtractError::BadPattern);
            },
        };
        let ghost cands = caps.deep_view();
        let ghost origin = self.url@;
        let mut links = UrlSet::new();
        proof {
            assert(cands.skip(0) =~= cands);
            assert(cands.len() == caps@.len());
        }
        let mut idx: usize = 0;
        while idx < caps.len()
            invariant
                self.wf(),
                self.target is RobotsTxt,
                links.wf(),
                caps.deep_view() == cands,
                cands.len() == caps@.len(),
                idx <= caps.len(),
                idx > 0 ==> url_ok(self.url@),
                origin == self.url@,
                add_robots_candidates(cands, origin, Set::empty()) == add_robots_candidates(
                    cands.skip(idx as int),
                    origin,
                    links@,
                ),
            decreases caps.len() - idx,
        {
            let cap = &caps[idx];
            proof {
                assert(caps.deep_view()[idx as int] == caps@[idx as int]@);
                assert(cands.skip(idx as int).first() == cands[idx as int]);
                assert(cands.skip(idx as int).drop_first() =~= cands.skip(idx as int + 1));
            }
            match set_url_path(self.url.as_str(), cap.as_str()) {
                Some(parts) => {
                    proof {
                        assert(parts.path@ == url_path_after_set(origin, cands[idx as int]));
                    }
                    let _ = self.add_all_sub_paths(parts.path.as_str(), &mut links);
                },
                None => {
                    return Err(ExtractError::InvalidBase);
                },
            }
            idx = idx + 1;
        }
        proof {
            assert(cands.skip(caps.len() as int) =~= Seq::<Seq<char>>::empty());
        }
        let n = links.len();
        let stats = self.update_stats(n);
        Ok(Extraction { links, stats })
    }

    /// The URL the robots fetch must request: the original target with its
    /// path replaced by the well-known robots file at the root — whatever
    /// depth the original path had, the host stays and the path becomes
    /// `/robots.txt`.
    pub fn robots_url(&self) -> (r: Result<UrlParts, ExtractError>)
        ensures
            r is Ok <==> url_ok(self.url@),
            r matches Ok(parts) ==> parts.serialized@ == url_with_path(
                self.url@,
                "/robots.txt"@,
            ),
            r matches Ok(parts) ==> parts.host@ == url_host(self.url@),
            r matches Ok(parts) ==> !url_cannot_be_base(self.url@) ==> parts.path@
                == "/robots.txt"@,
            r is Err ==> r == Err::<UrlParts, ExtractError>(ExtractError::InvalidBase),
    {
        proof {
            reveal_strlit("/robots.txt");
            lemma_robots_path_simple();
        }
        match set_url_path(self.url.as_str(), "/robots.txt") {
            Some(parts) => Ok(parts),
            None => Err(ExtractError::InvalidBase),
        }
    }

    /// The statistics event for a pass that extracted `num_links` links:
    /// the extracted count, and one expected response per configured
    /// extension (at least one), saturated at the machine limit.
    pub fn update_stats(&self, num_links: usize) -> (s: StatsUpdate)
        ensures
            s == spec_stats(num_links as nat, self.extensions@.len()),
    {
        let e = self.extensions.len();
        let m: usize = if e == 0 {
            1
        } else {
            e
        };
        let total: usize = match num_links.checked_mul(m) {
            Some(t) => t,
            None => usize::MAX,
        };
        StatsUpdate { links_extracted: num_links, total_expected: total }
    }

    /// Decide whether a classified directory response becomes a recursion
    /// target: never under global no-recursion; a success or forbidden
    /// status forwards the URL at this pass's depth, with a trailing slash
    /// appended when missing; any other status is dropped.
    pub fn recursion_gate(&self, url: &String, status: u16) -> (r: Option<RecursionEntry>)
        ensures
            r is Some <==> spec_gate(self.no_recursion, url@, status, self.depth) is Some,
            r matches Some(e) ==> Some((e.url@, e.depth)) == spec_gate(
                self.no_recursion,
                url@,
                status,
                self.depth,
            ),
    {
        if self.no_recursion {
            return None;
        }
        let worthy = (200 <= status && status < 300) || status == 403;
        if !worthy {
            return None;
        }
        let s = url.as_str();
        let n = s.unicode_len();
        if n > 0 && s.get_char(n - 1) == '/' {
            Some(RecursionEntry { url: url.clone(), depth: self.depth })
        } else {
            let mut slashed = url.clone();
            slashed.append("/");
            proof {
                reveal_strlit("/");
                assert("/"@ =~= seq!['/']);
                assert(slashed@ =~= url@.push('/'));
            }
            Some(RecursionEntry { url: slashed, depth: self.depth })
        }
    }

    /// Dispatch one probed candidate: failures and already-seen URLs are
    /// skipped; filtered responses are dropped silently; files are
    /// registered and reported, never recursed; everything else goes to
    /// the recursion gate.
    pub fn process_candidate(&self, outcome: &ProbeOutcome) -> (a: CandidateAction)
        ensures
            outcome is RequestFailed ==> a is Skip,
            outcome is AlreadySeen ==> a is Skip,
            outcome matches ProbeOutcome::Probed(p) ==> p.filtered ==> a is Skip,
            outcome matches ProbeOutcome::Probed(p) ==> !p.filtered && p.file ==> (a matches
                CandidateAction::ReportFile(u) && u@ == p.url@),
            outcome matches ProbeOutcome::Probed(p) ==> !p.filtered && !p.file && spec_gate(
                self.no_recursion,
                p.url@,
                p.status,
                self.depth,
            ) is None ==> a is Skip,
            outcome matches ProbeOutcome::Probed(p) ==> !p.filtered && !p.file && spec_gate(
                self.no_recursion,
                p.url@,
                p.status,
                self.depth,
            ) is Some ==> (a matches CandidateAction::Recurse(e) && Some((e.url@, e.depth))
                == spec_gate(self.no_recursion, p.url@, p.status, self.depth)),
    {
        match outcome {
            ProbeOutcome::RequestFailed => CandidateAction::Skip,
            ProbeOutcome::AlreadySeen => CandidateAction::Skip,
            ProbeOutcome::Probed(p) => {
                if p.filtered {
                    CandidateAction::Skip
                } else if p.file {
                    CandidateAction::ReportFile(p.url.clone())
                } else {
                    match self.recursion_gate(&p.url, p.status) {
                        Some(e) => CandidateAction::Recurse(e),
                        None => CandidateAction::Skip,
                    }
                }
            },
        }
    }
}

/// The robots file path is one plain segment, so replacing a URL's path
/// with it keeps it letter for letter.
proof fn lemma_robots_path_simple()
    ensures
        simple_abs_path("/robots.txt"@),
{
    reveal_strlit("/robots.txt");
    let p = "/robots.txt"@;
    assert(p =~= seq!['/', 'r', 'o', 'b', 'o', 't', 's', '.', 't', 'x', 't']);
    assert forall|i: int| 1 <= i < p.len() implies crate::urls::plain_name_char(#[trigger] p[i]) by {
        assert(seq!['/', 'r', 'o', 'b', 'o', 't', 's', '.', 't', 'x', 't'][i] == p[i]);
    }
    assert(p.skip(1).len() != 1);
    assert(p.skip(1).len() != 2);
}

/// A candidate that parses as an absolute URL on another host contributes
/// nothing to the extracted set: cross-origin links are never included.
pub proof fn lemma_cross_origin_excluded(cand: Seq<char>, base: Seq<char>, s: Set<Seq<char>>)
    requires
        url_ok(trim_quotes(cand)),
        url_host(trim_quotes(cand)) != url_host(base),
    ensures
        insert_joined(base, body_frags(trim_quotes(cand), url_host(base)), s) == s,
        add_body_candidates(seq![cand], base, s) == s,
{
    assert(body_frags(trim_quotes(cand), url_host(base)) =~= Seq::<Seq<char>>::empty());
    assert(seq![cand].drop_first() =~= Seq::<Seq<char>>::empty());
    assert(seq![cand].first() == cand);
    assert(insert_joined(base, Seq::<Seq<char>>::empty(), s) == s);
    assert(add_body_candidates(Seq::<Seq<char>>::empty(), base, s) == s);
    assert(add_body_candidates(seq![cand], base, s) == add_body_candidates(
        seq![cand].drop_first(),
        base,
        insert_joined(base, body_frags(trim_quotes(seq![cand].first()), url_host(base)), s),
    ));
}

/// Extraction is pure: the candidate set of a pass depends on the scanned
/// text and the base URL alone, so repeating a pass over an unchanged
/// ledger discovers the same new candidates.
pub proof fn lemma_extraction_deterministic(
    text1: Seq<char>,
    base1: Seq<char>,
    text2: Seq<char>,
    base2: Seq<char>,
)
    requires
        text1 == text2,
        base1 == base2,
    ensures
        body_link_set(text1, base1) == body_link_set(text2, base2),
        robots_link_set(text1, base1) == robots_link_set(text2, base2),
{
}

} // verus!
