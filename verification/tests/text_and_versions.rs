use plugin_catalogue::location::PluginLookup;
use plugin_catalogue::manifest::PluginManifest;
use plugin_catalogue::text::{compare_text, contains_text, is_normalized, same_text, Order};
use plugin_catalogue::version::{compare_versions, satisfies_range};

fn is_valid_version(version: &str) -> bool {
    PluginManifest::new(
        "demo".to_string(),
        version.to_string(),
        "MIT".to_string(),
        None,
        None,
        ">=1.0.0".to_string(),
        vec![],
    )
    .is_ok()
}

fn normalize(name: &str) -> String {
    PluginLookup::new(name, None).name
}

#[test]
fn lexical_order_goes_by_the_first_differing_byte() {
    assert_eq!(compare_text("a", "b"), Order::Less);
    assert_eq!(compare_text("b", "a"), Order::Greater);
    assert_eq!(compare_text("demo", "demo"), Order::Equal);
    assert_eq!(compare_text("abd", "abc"), Order::Greater);
}

#[test]
fn lexical_order_puts_a_prefix_first() {
    assert_eq!(compare_text("", ""), Order::Equal);
    assert_eq!(compare_text("", "a"), Order::Less);
    assert_eq!(compare_text("a", "ab"), Order::Less);
    assert_eq!(compare_text("ab", "a"), Order::Greater);
}

#[test]
fn lexical_order_agrees_with_the_order_of_strings() {
    let samples = ["", "1.0.0", "1.10.0", "1.9.0", "Demo", "demo", "é", "z", "日本"];
    for a in samples {
        for b in samples {
            let expected = match a.cmp(b) {
                std::cmp::Ordering::Less => Order::Less,
                std::cmp::Ordering::Equal => Order::Equal,
                std::cmp::Ordering::Greater => Order::Greater,
            };
            assert_eq!(compare_text(a, b), expected);
        }
    }
}

#[test]
fn same_text_tells_texts_apart() {
    assert!(same_text("demo", "demo"));
    assert!(!same_text("demo", "demo "));
    assert!(!same_text("demo", "Demo"));
    assert!(same_text("", ""));
}

#[test]
fn contains_text_finds_a_run_anywhere() {
    assert!(contains_text("demo", "de"));
    assert!(contains_text("demo", "mo"));
    assert!(contains_text("demo", "em"));
    assert!(contains_text("demo", "demo"));
    assert!(!contains_text("demo", "dm"));
    assert!(!contains_text("demo", "demos"));
    assert!(!contains_text("de", "demo"));
}

#[test]
fn contains_text_finds_the_empty_text_everywhere() {
    assert!(contains_text("demo", ""));
    assert!(contains_text("", ""));
    assert!(!contains_text("", "d"));
}

#[test]
fn contains_text_agrees_with_the_search_of_strings() {
    let hays = ["", "a", "aab", "abab", "js2wasm", "py2wasm", "héllo"];
    let needles = ["", "a", "ab", "b", "2w", "é", "ll", "wasm", "x"];
    for hay in hays {
        for needle in needles {
            assert_eq!(contains_text(hay, needle), hay.contains(needle));
        }
    }
}

#[test]
fn normalize_puts_a_name_in_lowercase() {
    assert_eq!(normalize("DeMo"), "demo");
    assert_eq!(normalize("demo"), "demo");
    assert_eq!(normalize("JS2Wasm"), "js2wasm");
}

#[test]
fn is_normalized_accepts_lowercase_only() {
    assert!(is_normalized("demo"));
    assert!(is_normalized("js2wasm-1"));
    assert!(is_normalized(""));
    assert!(!is_normalized("Demo"));
    assert!(!is_normalized("demO"));
}

#[test]
fn valid_versions_are_semantic_versions() {
    assert!(is_valid_version("1.2.0"));
    assert!(is_valid_version("0.0.1-alpha.1+build5"));
    assert!(!is_valid_version("1.2"));
    assert!(!is_valid_version("v1.2.0"));
    assert!(!is_valid_version(""));
    assert!(!is_valid_version("latest"));
}

#[test]
fn versions_compare_by_semantic_precedence() {
    assert_eq!(compare_versions("1.10.0", "1.9.0"), Order::Greater);
    assert_eq!(compare_versions("1.9.0", "1.10.0"), Order::Less);
    assert_eq!(compare_versions("2.0.0", "10.0.0"), Order::Less);
    assert_eq!(compare_versions("1.2.0", "1.2.0"), Order::Equal);
    assert_eq!(compare_versions("1.0.0-alpha", "1.0.0"), Order::Less);
    assert_eq!(compare_versions("1.0.0-alpha.2", "1.0.0-alpha.10"), Order::Less);
}

#[test]
fn versions_fall_back_to_lexical_order() {
    assert_eq!(compare_versions("abc", "1.0.0"), Order::Greater);
    assert_eq!(compare_versions("1.0.0", "abc"), Order::Less);
    assert_eq!(compare_versions("1.10", "1.9"), Order::Less);
    assert_eq!(compare_versions("1.0", "1.0.0"), Order::Less);
    assert_eq!(compare_versions("canary", "canary"), Order::Equal);
    assert_eq!(compare_versions("10.0.0", "9.0.0x"), Order::Less);
}

#[test]
fn a_version_is_equal_to_itself() {
    for v in ["1.0.0", "1.0", "", "nightly", "3.4.5-rc.1"] {
        assert_eq!(compare_versions(v, v), Order::Equal);
    }
}

#[test]
fn ranges_admit_the_versions_they_describe() {
    assert!(satisfies_range(">=1.0.0", "1.2.0"));
    assert!(satisfies_range(">=1.0.0, <2.0.0", "1.9.9"));
    assert!(satisfies_range("=1.2.0", "1.2.0"));
    assert!(!satisfies_range(">=2.0.0", "1.2.0"));
    assert!(!satisfies_range(">=1.0.0, <2.0.0", "2.0.0"));
}

#[test]
fn what_does_not_parse_satisfies_nothing() {
    assert!(!satisfies_range("not a range", "1.2.0"));
    assert!(!satisfies_range(">=1.0.0", "not a version"));
    assert!(!satisfies_range(">=1.0.0", "1.2"));
}
