use koto::date::ReleaseDate;
use koto::spotify::{latest_release, select_latest, ReleaseEntry};
use koto::KotoError;

fn entry(id: &str, name: &str, date: ReleaseDate) -> ReleaseEntry {
    ReleaseEntry {
        id: id.to_string(),
        name: name.to_string(),
        release_date: date,
        url: None,
    }
}

#[test]
fn selects_the_maximum_date() {
    let entries = vec![
        entry("a", "first", ReleaseDate::from_full(2019, 5, 1)),
        entry("b", "second", ReleaseDate::from_full(2023, 7, 1)),
        entry("c", "third", ReleaseDate::from_full(2021, 3, 5)),
    ];
    let chosen = select_latest(&entries).unwrap();
    assert_eq!(chosen.id, "b");
}

#[test]
fn equal_dates_keep_the_first_in_input_order() {
    let entries = vec![
        entry("x", "one", ReleaseDate::from_full(2022, 2, 2)),
        entry("y", "two", ReleaseDate::from_full(2022, 2, 2)),
        entry("z", "zero", ReleaseDate::from_full(2020, 1, 1)),
    ];
    let chosen = select_latest(&entries).unwrap();
    assert_eq!(chosen.id, "x");
}

#[test]
fn year_precision_loses_to_day_precision_in_same_year() {
    let entries = vec![
        entry("day", "with day", ReleaseDate::from_full(2020, 6, 15)),
        entry("year", "year only", ReleaseDate::from_year(2020)),
    ];
    let chosen = select_latest(&entries).unwrap();
    assert_eq!(chosen.id, "day");
}

#[test]
fn empty_input_is_a_selector_error() {
    let entries: Vec<ReleaseEntry> = vec![];
    assert_eq!(select_latest(&entries).unwrap_err(), KotoError::EmptyInput);
}

#[test]
fn empty_input_is_a_catalog_failure_for_the_reconciler() {
    let entries: Vec<ReleaseEntry> = vec![];
    assert_eq!(
        latest_release(&entries).unwrap_err(),
        KotoError::CatalogUnavailable
    );
}
