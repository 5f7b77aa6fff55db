//! Tests for the extraction engine: path expansion, body and robots.txt
//! extraction, deduplication, and statistics.

use ferox_extractor::extractor::ExtractError;
use ferox_extractor::extractor::ExtractionTarget;
use ferox_extractor::extractor::Extractor;
use ferox_extractor::extractor::SourceResponse;
use ferox_extractor::ledger::ScanLedger;
use ferox_extractor::ledger::UrlSet;

fn body_extractor(response_url: &str, body: &str) -> Extractor {
    Extractor {
        target: ExtractionTarget::ResponseBody,
        url: response_url.to_string(),
        response: Some(SourceResponse { url: response_url.to_string(), text: body.to_string() }),
        no_recursion: false,
        extensions: Vec::new(),
        depth: 1,
    }
}

fn robots_extractor(target_url: &str) -> Extractor {
    Extractor {
        target: ExtractionTarget::RobotsTxt,
        url: target_url.to_string(),
        response: None,
        no_recursion: false,
        extensions: Vec::new(),
        depth: 1,
    }
}

fn contains(links: &UrlSet, url: &str) -> bool {
    links.contains(&url.to_string())
}

#[test]
fn expand_handshake_svg_yields_all_parents() {
    let e = body_extractor("http://localhost/", "");
    let paths = e.get_sub_paths_from_path("homepage/assets/img/icons/handshake.svg");
    assert_eq!(
        paths,
        vec![
            "homepage/assets/img/icons/handshake.svg".to_string(),
            "homepage/assets/img/icons/".to_string(),
            "homepage/assets/img/".to_string(),
            "homepage/assets/".to_string(),
            "homepage/".to_string(),
        ]
    );
}

#[test]
fn expand_empty_and_root_yield_nothing() {
    let e = body_extractor("http://localhost/", "");
    assert_eq!(e.get_sub_paths_from_path(""), Vec::<String>::new());
    assert_eq!(e.get_sub_paths_from_path("/"), Vec::<String>::new());
}

#[test]
fn expand_absolute_path_drops_empty_segments() {
    let e = body_extractor("http://localhost/", "");
    let paths = e.get_sub_paths_from_path("/api//users/");
    assert_eq!(paths, vec!["api/users".to_string(), "api/".to_string()]);
}

#[test]
fn relative_fragment_expands_against_response_url() {
    let body = "<a href=\"/homepage/assets/img/icons/handshake.svg\">x</a>";
    let e = body_extractor("http://localhost/", body);
    let ex = e.extract_from_body().unwrap();
    assert_eq!(ex.links.len(), 5);
    assert!(contains(&ex.links, "http://localhost/homepage/assets/img/icons/handshake.svg"));
    assert!(contains(&ex.links, "http://localhost/homepage/assets/img/icons/"));
    assert!(contains(&ex.links, "http://localhost/homepage/assets/img/"));
    assert!(contains(&ex.links, "http://localhost/homepage/assets/"));
    assert!(contains(&ex.links, "http://localhost/homepage/"));
    assert_eq!(ex.stats.links_extracted, 5);
    assert_eq!(ex.stats.total_expected, 5);
}

#[test]
fn cross_origin_links_are_excluded() {
    let body = "\"https://target.com/a\" and \"https://other.com/b\"";
    let e = body_extractor("https://target.com/", body);
    let ex = e.extract_from_body().unwrap();
    assert_eq!(ex.links.len(), 1);
    assert!(contains(&ex.links, "https://target.com/a"));
    for link in ex.links.items() {
        assert!(!link.contains("other.com"));
    }
}

#[test]
fn duplicate_links_deduplicate_to_one_entry() {
    let body = "\"/admin/login\" then once more \"/admin/login\"";
    let e = body_extractor("http://localhost/", body);
    let ex = e.extract_from_body().unwrap();
    assert_eq!(ex.links.len(), 2);
    assert!(contains(&ex.links, "http://localhost/admin/login"));
    assert!(contains(&ex.links, "http://localhost/admin/"));
    assert_eq!(ex.stats.links_extracted, 2);
}

#[test]
fn extraction_is_pure_over_fixed_input() {
    let body = "\"/admin/login\" \"/static/app.js\"";
    let e = body_extractor("http://localhost/", body);
    let first = e.extract_from_body().unwrap();
    let second = e.extract_from_body().unwrap();
    assert_eq!(first.links.len(), second.links.len());
    for link in first.links.items() {
        assert!(second.links.contains(link));
    }
    assert_eq!(first.stats, second.stats);
}

#[test]
fn ledger_claims_exactly_once() {
    let mut ledger = ScanLedger::new();
    let url = "http://localhost/admin/".to_string();
    assert!(ledger.insert(url.clone()));
    assert!(!ledger.insert(url.clone()));
    assert!(!ledger.insert(url.clone()));
    assert!(ledger.contains(&url));
}

#[test]
fn body_extraction_with_invalid_base_errors() {
    let e = body_extractor("not a url", "\"/admin/login\"");
    assert_eq!(e.extract_from_body().unwrap_err(), ExtractError::InvalidBase);
}

#[test]
fn robots_directives_expand_into_prefixes() {
    let e = robots_extractor("http://localhost/stuff/things");
    let text = "User-agent: *\nDisallow: /api/users\nAllow: /static/img/\n";
    let ex = e.extract_from_robots(text).unwrap();
    assert_eq!(ex.links.len(), 4);
    assert!(contains(&ex.links, "http://localhost/stuff/api/users"));
    assert!(contains(&ex.links, "http://localhost/stuff/api/"));
    assert!(contains(&ex.links, "http://localhost/stuff/static/img"));
    assert!(contains(&ex.links, "http://localhost/stuff/static/"));
    assert_eq!(ex.stats.links_extracted, 4);
}

#[test]
fn robots_extraction_with_invalid_base_errors() {
    let e = robots_extractor("not a url");
    let text = "Disallow: /api\n";
    assert_eq!(e.extract_from_robots(text).unwrap_err(), ExtractError::InvalidBase);
}

#[test]
fn robots_extraction_without_directives_is_empty() {
    let e = robots_extractor("http://localhost/");
    let ex = e.extract_from_robots("User-agent: *\n").unwrap();
    assert_eq!(ex.links.len(), 0);
    assert_eq!(ex.stats.links_extracted, 0);
    assert_eq!(ex.stats.total_expected, 0);
}

#[test]
fn robots_fetch_targets_origin_root() {
    let e = robots_extractor("http://localhost/stuff/things");
    let parts = e.robots_url().unwrap();
    assert_eq!(parts.serialized, "http://localhost/robots.txt");
    assert_eq!(parts.host, "localhost");
    assert_eq!(parts.path, "/robots.txt");
}

#[test]
fn robots_url_keeps_host_at_any_depth() {
    let e = robots_extractor("https://deep.example.com/a/b/c/d/e");
    let parts = e.robots_url().unwrap();
    assert_eq!(parts.serialized, "https://deep.example.com/robots.txt");
    assert_eq!(parts.host, "deep.example.com");
}

#[test]
fn unresolvable_fragment_reports_join_failure() {
    let e = robots_extractor("mailto:someone@example.com");
    let mut links = UrlSet::new();
    let r = e.add_link_to_set_of_links("foo/bar", &mut links);
    assert_eq!(r.unwrap_err(), ExtractError::JoinFailed);
    assert_eq!(links.len(), 0);
}

#[test]
fn update_stats_multiplies_by_extension_count() {
    let mut e = body_extractor("http://localhost/", "");
    e.extensions = vec!["php".to_string(), "html".to_string()];
    let s = e.update_stats(5);
    assert_eq!(s.links_extracted, 5);
    assert_eq!(s.total_expected, 10);
}

#[test]
fn update_stats_without_extensions_keeps_count() {
    let e = body_extractor("http://localhost/", "");
    let s = e.update_stats(5);
    assert_eq!(s.links_extracted, 5);
    assert_eq!(s.total_expected, 5);
}
