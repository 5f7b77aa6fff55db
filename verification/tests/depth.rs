//! Tests for the URL depth helper.

use ferox_extractor::utils::get_current_depth;

#[test]
fn base_url_returns_1() {
    let depth = get_current_depth("http://localhost");
    assert_eq!(depth, 1);
}

#[test]
fn base_url_with_slash_returns_1() {
    let depth = get_current_depth("http://localhost/");
    assert_eq!(depth, 1);
}

#[test]
fn one_dir_returns_2() {
    let depth = get_current_depth("http://localhost/src");
    assert_eq!(depth, 2);
}

#[test]
fn one_dir_with_slash_returns_2() {
    let depth = get_current_depth("http://localhost/src/");
    assert_eq!(depth, 2);
}

#[test]
fn relative_url_returns_0() {
    let depth = get_current_depth("/wordlist");
    assert_eq!(depth, 0);
}

#[test]
fn two_dirs_returns_3() {
    let depth = get_current_depth("http://localhost/stuff/things");
    assert_eq!(depth, 3);
}
