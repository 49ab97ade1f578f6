use git_series_manager::error::SeriesError;
use git_series_manager::version_store::{
    allocate, latest_version, next_version, parse_version, version_name, Allocation,
};

fn names(v: &[&str]) -> Vec<String> {
    v.iter().map(|s| s.to_string()).collect()
}

#[test]
fn latest_version_is_the_largest_directory() {
    assert_eq!(latest_version(&names(&["1", "2", "5"])), Ok(Some(5)));
    assert_eq!(latest_version(&names(&["5", "cover-letter", "2", "1"])), Ok(Some(5)));
}

#[test]
fn latest_version_of_empty_branch_is_none() {
    assert_eq!(latest_version(&names(&[])), Ok(None));
}

#[test]
fn latest_version_with_only_template_is_zero() {
    assert_eq!(latest_version(&names(&["cover-letter"])), Ok(Some(0)));
}

#[test]
fn latest_version_rejects_foreign_entries() {
    assert_eq!(
        latest_version(&names(&["1", "notes", "2"])),
        Err(SeriesError::CorruptVersionStore("notes".to_string()))
    );
    assert_eq!(
        latest_version(&names(&["99999999999999999999"])),
        Err(SeriesError::CorruptVersionStore("99999999999999999999".to_string()))
    );
}

#[test]
fn corrupt_entry_reported_is_least_in_any_order() {
    let expected = Err(SeriesError::CorruptVersionStore("alpha".to_string()));
    assert_eq!(latest_version(&names(&["zeta", "1", "alpha", "cover-letter"])), expected);
    assert_eq!(latest_version(&names(&["alpha", "zeta", "1"])), expected);
    assert_eq!(latest_version(&names(&["1", "zeta", "beta", "alpha"])), expected);
}

#[test]
fn parse_version_reads_decimal() {
    assert_eq!(parse_version("42"), Some(42));
    assert_eq!(parse_version("007"), Some(7));
    assert_eq!(parse_version("18446744073709551615"), Some(u64::MAX));
    assert_eq!(parse_version("18446744073709551616"), None);
    assert_eq!(parse_version(""), None);
    assert_eq!(parse_version("1a"), None);
    assert_eq!(parse_version("-1"), None);
}

#[test]
fn version_name_is_decimal_and_round_trips() {
    assert_eq!(version_name(0), "0");
    assert_eq!(version_name(120), "120");
    assert_eq!(version_name(u64::MAX), "18446744073709551615");
    for v in [1u64, 9, 10, 4096, 123456789] {
        assert_eq!(parse_version(&version_name(v)), Some(v));
    }
}

#[test]
fn next_version_follows_latest() {
    assert_eq!(next_version(None), Ok(1));
    assert_eq!(next_version(Some(0)), Ok(1));
    assert_eq!(next_version(Some(5)), Ok(6));
    assert_eq!(next_version(Some(u64::MAX)), Err(SeriesError::VersionOverflow));
}

#[test]
fn allocate_existing_without_force_conflicts() {
    assert_eq!(allocate(3, true, false), Err(SeriesError::VersionConflict(3)));
}

#[test]
fn allocate_existing_with_force_replaces() {
    assert_eq!(allocate(3, true, true), Ok(Allocation::Replace));
}

#[test]
fn allocate_fresh_creates() {
    assert_eq!(allocate(3, false, false), Ok(Allocation::Create));
    assert_eq!(allocate(3, false, true), Ok(Allocation::Create));
}
