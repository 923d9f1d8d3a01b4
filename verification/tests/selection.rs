use optifine_scraper::catalog::{ReleaseStub, VersionEntry};
use optifine_scraper::selection::{
    find_version, parse_index, position_of_version, release_at, select_release, select_version,
};

fn entry(identifier: &str, files: &[&str]) -> VersionEntry {
    VersionEntry {
        identifier: identifier.to_string(),
        releases: files
            .iter()
            .map(|f| ReleaseStub {
                filename: f.to_string(),
                mirror_url: format!("http://host/f={}_{}", identifier, f),
            })
            .collect(),
    }
}

fn catalog() -> Vec<VersionEntry> {
    vec![entry("1.16.5", &["a", "b"]), entry("1.17", &["c"]), entry("1.16.5", &["d"])]
}

#[test]
fn unmatched_version_then_valid_one() {
    let catalog = catalog();
    assert_eq!(select_version(&catalog, "1.20\n"), None);
    assert_eq!(select_version(&catalog, "1.17\n"), Some(&catalog[1]));
}

#[test]
fn version_is_found_by_exact_identifier() {
    let catalog = catalog();
    assert_eq!(position_of_version(&catalog, "1.17"), Some(1));
    assert_eq!(position_of_version(&catalog, "1.1"), None);
    assert_eq!(position_of_version(&catalog, "1.17 "), None);
    assert_eq!(position_of_version(&catalog, ""), None);
    assert_eq!(position_of_version(&vec![], "1.17"), None);
    assert_eq!(find_version(&catalog, "1.17"), Some(&catalog[1]));
    assert_eq!(find_version(&catalog, "1.18"), None);
}

#[test]
fn first_of_equal_identifiers_wins() {
    let catalog = catalog();
    assert_eq!(position_of_version(&catalog, "1.16.5"), Some(0));
    assert_eq!(find_version(&catalog, "1.16.5").unwrap().releases.len(), 2);
}

#[test]
fn select_version_ignores_surrounding_whitespace() {
    let catalog = catalog();
    assert_eq!(select_version(&catalog, "  1.16.5\r\n"), Some(&catalog[0]));
    assert_eq!(select_version(&catalog, "1. 17"), None);
    assert_eq!(select_version(&catalog, ""), None);
}

#[test]
fn releases_are_numbered_from_one() {
    let e = entry("1.16.5", &["a", "b", "c"]);
    assert_eq!(release_at(&e, 1), Some(&e.releases[0]));
    assert_eq!(release_at(&e, 2), Some(&e.releases[1]));
    assert_eq!(release_at(&e, 3), Some(&e.releases[2]));
    assert_eq!(release_at(&e, 0), None);
    assert_eq!(release_at(&e, 4), None);
    assert_eq!(release_at(&e, usize::MAX), None);
    assert_eq!(release_at(&entry("1.17", &[]), 1), None);
}

#[test]
fn parse_index_reads_decimal_numbers() {
    assert_eq!(parse_index("0"), Some(0));
    assert_eq!(parse_index("7"), Some(7));
    assert_eq!(parse_index("42"), Some(42));
    assert_eq!(parse_index("+42"), Some(42));
    assert_eq!(parse_index("0042"), Some(42));
    assert_eq!(parse_index(&usize::MAX.to_string()), Some(usize::MAX));
}

#[test]
fn parse_index_refuses_everything_else() {
    assert_eq!(parse_index(""), None);
    assert_eq!(parse_index("+"), None);
    assert_eq!(parse_index("-1"), None);
    assert_eq!(parse_index("++1"), None);
    assert_eq!(parse_index("1+"), None);
    assert_eq!(parse_index("4 2"), None);
    assert_eq!(parse_index(" 42"), None);
    assert_eq!(parse_index("4x"), None);
    assert_eq!(parse_index("x"), None);
    assert_eq!(parse_index("\u{663}"), None);
    assert_eq!(parse_index(&format!("{}0", usize::MAX)), None);
    assert_eq!(parse_index("340282366920938463463374607431768211456"), None);
    assert_eq!(parse_index("99999999999999999999999999999999999999999x"), None);
}

#[test]
fn parse_index_agrees_with_std_on_samples() {
    let samples = ["", "+", "-", "0", "00", "+0", "-0", "12", "+12", "1_2", "18446744073709551615",
        "18446744073709551616", "000000000000000000000000000001", "9a", "a9"];
    for s in samples {
        assert_eq!(parse_index(s), s.parse::<usize>().ok(), "{:?}", s);
    }
}

#[test]
fn select_release_takes_the_entered_number() {
    let e = entry("1.16.5", &["a", "b"]);
    assert_eq!(select_release(&e, "1\n"), Some(&e.releases[0]));
    assert_eq!(select_release(&e, " 2 \n"), Some(&e.releases[1]));
    assert_eq!(select_release(&e, "+2"), Some(&e.releases[1]));
}

#[test]
fn select_release_refuses_what_is_out_of_range() {
    let e = entry("1.16.5", &["a", "b"]);
    assert_eq!(select_release(&e, "0"), None);
    assert_eq!(select_release(&e, "3"), None);
    assert_eq!(select_release(&e, ""), None);
    assert_eq!(select_release(&e, "two"), None);
    assert_eq!(select_release(&e, "-1"), None);
    assert_eq!(select_release(&e, "1 2"), None);
    assert_eq!(select_release(&entry("1.17", &[]), "1"), None);
}
