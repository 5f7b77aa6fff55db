//! Tests for the recursion gate, candidate dispatch, coloring, and the
//! path-length helper.

use ferox_extractor::colors::status_colorizer;
use ferox_extractor::extractor::CandidateAction;
use ferox_extractor::extractor::ExtractionTarget;
use ferox_extractor::extractor::Extractor;
use ferox_extractor::extractor::ProbeOutcome;
use ferox_extractor::extractor::ProbedResponse;
use ferox_extractor::urls::UrlInfo;
use ferox_extractor::utils::get_url_path_length;

fn extractor(no_recursion: bool, depth: usize) -> Extractor {
    Extractor {
        target: ExtractionTarget::RobotsTxt,
        url: "http://host/".to_string(),
        response: None,
        no_recursion,
        extensions: Vec::new(),
        depth,
    }
}

#[test]
fn directory_without_slash_is_corrected_on_success() {
    let e = extractor(false, 2);
    let entry = e.recursion_gate(&"http://host/dir".to_string(), 200).unwrap();
    assert_eq!(entry.url, "http://host/dir/");
    assert_eq!(entry.depth, 2);
}

#[test]
fn forbidden_directory_is_still_forwarded() {
    let e = extractor(false, 1);
    let entry = e.recursion_gate(&"http://host/dir".to_string(), 403).unwrap();
    assert_eq!(entry.url, "http://host/dir/");
}

#[test]
fn not_found_directory_is_not_forwarded() {
    let e = extractor(false, 1);
    assert!(e.recursion_gate(&"http://host/dir".to_string(), 404).is_none());
}

#[test]
fn directory_with_slash_is_forwarded_unchanged() {
    let e = extractor(false, 3);
    let entry = e.recursion_gate(&"http://host/dir/".to_string(), 200).unwrap();
    assert_eq!(entry.url, "http://host/dir/");
    assert_eq!(entry.depth, 3);
}

#[test]
fn disabled_recursion_never_forwards() {
    let e = extractor(true, 1);
    assert!(e.recursion_gate(&"http://host/dir".to_string(), 200).is_none());
}

#[test]
fn probe_failures_and_seen_urls_are_skipped() {
    let e = extractor(false, 1);
    assert!(matches!(e.process_candidate(&ProbeOutcome::RequestFailed), CandidateAction::Skip));
    assert!(matches!(e.process_candidate(&ProbeOutcome::AlreadySeen), CandidateAction::Skip));
}

#[test]
fn filtered_responses_are_dropped_silently() {
    let e = extractor(false, 1);
    let outcome = ProbeOutcome::Probed(ProbedResponse {
        url: "http://host/secret".to_string(),
        status: 200,
        filtered: true,
        file: true,
    });
    assert!(matches!(e.process_candidate(&outcome), CandidateAction::Skip));
}

#[test]
fn files_are_reported_and_never_recursed() {
    let e = extractor(false, 1);
    let outcome = ProbeOutcome::Probed(ProbedResponse {
        url: "http://host/app.js".to_string(),
        status: 200,
        filtered: false,
        file: true,
    });
    match e.process_candidate(&outcome) {
        CandidateAction::ReportFile(u) => assert_eq!(u, "http://host/app.js"),
        _ => panic!("a file must be reported"),
    }
}

#[test]
fn directories_go_through_the_gate() {
    let e = extractor(false, 4);
    let outcome = ProbeOutcome::Probed(ProbedResponse {
        url: "http://host/dir".to_string(),
        status: 403,
        filtered: false,
        file: false,
    });
    match e.process_candidate(&outcome) {
        CandidateAction::Recurse(entry) => {
            assert_eq!(entry.url, "http://host/dir/");
            assert_eq!(entry.depth, 4);
        },
        _ => panic!("a worthy directory must recurse"),
    }
}

#[test]
fn status_colorizer_paints_by_first_char() {
    assert_eq!(status_colorizer("100"), "\u{1b}[34m100\u{1b}[0m");
    assert_eq!(status_colorizer("200"), "\u{1b}[1;32m200\u{1b}[0m");
    assert_eq!(status_colorizer("301"), "\u{1b}[33m301\u{1b}[0m");
    assert_eq!(status_colorizer("404"), "\u{1b}[31m404\u{1b}[0m");
    assert_eq!(status_colorizer("500"), "\u{1b}[31m500\u{1b}[0m");
    assert_eq!(status_colorizer("WLD"), "\u{1b}[36mWLD\u{1b}[0m");
    assert_eq!(status_colorizer("ERR"), "\u{1b}[31mERR\u{1b}[0m");
    assert_eq!(status_colorizer("-"), "-");
    assert_eq!(status_colorizer(""), "");
}

fn info(path: &str) -> UrlInfo {
    UrlInfo { host: "localhost".to_string(), path: path.to_string(), cannot_be_base: false }
}

#[test]
fn url_path_length_measures_last_segment() {
    assert_eq!(get_url_path_length(&info("/stuff")), 5);
    assert_eq!(get_url_path_length(&info("/stuff/")), 5);
    assert_eq!(get_url_path_length(&info("/")), 0);
    assert_eq!(get_url_path_length(&info("/a/b")), 1);
    assert_eq!(get_url_path_length(&info("/a//")), 0);
    assert_eq!(get_url_path_length(&info("")), 0);
}
