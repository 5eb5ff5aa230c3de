use stardb_exporter::error::ExportError;
use stardb_exporter::version::{select_latest, CacheVersion, Rank};

fn dir_names(list: &[&str]) -> Vec<String> {
    list.iter().map(|s| s.to_string()).collect()
}

fn parsed(name: &str) -> CacheVersion {
    CacheVersion::parse(name).unwrap()
}

#[test]
fn latest_version_is_the_numeric_maximum() {
    let dirs = dir_names(&["1.2.3.4", "1.10.0.0", "1.9.9.9"]);
    assert_eq!(select_latest(&dirs), Ok(1));
}

#[test]
fn other_names_are_passed_over() {
    let dirs = dir_names(&["Cache", "2.0.0", "9.9.9.9.9", "2.31.0.0", "x.y.z.w", "2.4.0.0 "]);
    assert_eq!(select_latest(&dirs), Ok(3));
}

#[test]
fn cache_without_version_directory_is_missing() {
    assert_eq!(select_latest(&Vec::new()), Err(ExportError::CacheNotFound));
    let dirs = dir_names(&["Cache", "1.2.3", ""]);
    assert_eq!(select_latest(&dirs), Err(ExportError::CacheNotFound));
}

#[test]
fn first_of_equal_versions_is_picked() {
    let dirs = dir_names(&["0.5.0.0", "2.5.0.0", "02.05.00.000", "1.0.0.0"]);
    assert_eq!(select_latest(&dirs), Ok(1));
}

#[test]
fn version_names_are_four_numbers_with_dots() {
    for good in ["0.0.0.0", "1.2.3.4", "10.20.30.40", "007.1.1.1", "1.2.3.12345678901234567890123"] {
        assert!(CacheVersion::parse(good).is_some());
    }
    for bad in [
        "", ".", "...", "1", "1.2", "1.2.3", "1.2.3.", ".1.2.3", "1..2.3", "1.2.3.4.5",
        "1.2.3.4.", "a.b.c.d", "1.2.3.x", "1.2.3.4 ", " 1.2.3.4", "1,2,3,4", "-1.2.3.4",
        "1.2.3.+4", "\u{661}.\u{662}.\u{663}.\u{664}",
    ] {
        assert!(CacheVersion::parse(bad).is_none());
    }
}

#[test]
fn versions_rank_by_value() {
    assert_eq!(parsed("1.9.9.9").rank(&parsed("1.10.0.0")), Rank::Below);
    assert_eq!(parsed("1.10.0.0").rank(&parsed("1.9.9.9")), Rank::Above);
    assert_eq!(parsed("1.2.3.4").rank(&parsed("1.2.3.4")), Rank::Same);
    assert_eq!(parsed("1.2.3.4").rank(&parsed("01.002.0003.4")), Rank::Same);
    assert_eq!(parsed("0.0.0.0").rank(&parsed("000.0.00.0")), Rank::Same);
    assert_eq!(parsed("0.0.0.9").rank(&parsed("0.0.1.0")), Rank::Below);
    assert_eq!(parsed("2.0.0.0").rank(&parsed("1.99.99.99")), Rank::Above);
    assert_eq!(parsed("1.2.3.4").rank(&parsed("1.2.3.5")), Rank::Below);
}

#[test]
fn numbers_beyond_machine_width_rank_by_value() {
    let small = parsed("1.2.3.99999999999999999999999");
    let large = parsed("1.2.3.100000000000000000000000");
    assert_eq!(small.rank(&large), Rank::Below);
    assert_eq!(large.rank(&small), Rank::Above);
    let dirs = dir_names(&["1.2.3.99999999999999999999999", "1.2.3.100000000000000000000000"]);
    assert_eq!(select_latest(&dirs), Ok(1));
}
