use koto::date::{parse_release_date, Date, DatePrecision, ReleaseDate};

#[test]
fn parses_year_precision_as_january_first() {
    let rd = parse_release_date("2020").unwrap();
    assert_eq!(rd.precision, DatePrecision::Year);
    assert_eq!(rd.resolved(), Date { year: 2020, month: 1, day: 1 });
}

#[test]
fn parses_year_month_precision_as_first_day() {
    let rd = parse_release_date("2020-06").unwrap();
    assert_eq!(rd.precision, DatePrecision::YearMonth);
    assert_eq!(rd.resolved(), Date { year: 2020, month: 6, day: 1 });
}

#[test]
fn parses_full_date() {
    let rd = parse_release_date("2021-03-05").unwrap();
    assert_eq!(rd.precision, DatePrecision::Day);
    assert_eq!(rd.resolved(), Date { year: 2021, month: 3, day: 5 });
}

#[test]
fn year_precision_compares_before_same_year_june() {
    let year_only = parse_release_date("2020").unwrap();
    let june = parse_release_date("2020-06-15").unwrap();
    assert!(year_only.resolved().is_before(&june.resolved()));
}

#[test]
fn rejects_malformed_dates() {
    assert!(parse_release_date("").is_none());
    assert!(parse_release_date("20").is_none());
    assert!(parse_release_date("2020-13").is_none());
    assert!(parse_release_date("2020-00").is_none());
    assert!(parse_release_date("2020-06-32").is_none());
    assert!(parse_release_date("2020-06-00").is_none());
    assert!(parse_release_date("2020-6-15").is_none());
    assert!(parse_release_date("abcd-06-15").is_none());
    assert!(parse_release_date("2020-06-15x").is_none());
}

#[test]
fn formats_with_zero_padding() {
    let d = Date { year: 99, month: 1, day: 2 };
    assert_eq!(d.format(), "0099-01-02");
    let d = Date { year: 2021, month: 12, day: 31 };
    assert_eq!(d.format(), "2021-12-31");
}

#[test]
fn date_order_is_by_year_month_day() {
    let a = Date { year: 2020, month: 12, day: 31 };
    let b = Date { year: 2021, month: 1, day: 1 };
    let c = Date { year: 2021, month: 1, day: 2 };
    assert!(a.is_before(&b));
    assert!(b.is_before(&c));
    assert!(!c.is_before(&a));
    assert!(b.is_on_or_before(&b));
    assert!(!c.is_on_or_before(&b));
}

#[test]
fn widening_constructors_resolve_missing_components() {
    assert_eq!(
        ReleaseDate::from_year(1999).resolved(),
        Date { year: 1999, month: 1, day: 1 }
    );
    assert_eq!(
        ReleaseDate::from_year_month(1999, 7).resolved(),
        Date { year: 1999, month: 7, day: 1 }
    );
    assert_eq!(
        ReleaseDate::from_full(1999, 7, 23).resolved(),
        Date { year: 1999, month: 7, day: 23 }
    );
}

#[test]
fn unix_epoch_is_first_of_january_1970() {
    assert_eq!(Date::unix_epoch(), Date { year: 1970, month: 1, day: 1 });
}
