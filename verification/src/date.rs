//! Calendar dates as the catalog service reports them.
//!
//! A release date arrives as text of one of three precisions: a bare year, a
//! year and month, or a full day. Missing components are resolved to `01`, so
//! a year-only date compares as January 1st of that year. Comparison is by
//! year, then month, then day, each numerically.

use vstd::prelude::*;

verus! {

/// A full calendar date with all components resolved.
///
/// The watchlist stores dates at day resolution only; a coarser catalog
/// precision has already been widened by [`ReleaseDate::resolved`].
#[derive(Clone, Copy, Debug, PartialEq, Eq, Structural)]
pub struct Date {
    pub year: u16,
    pub month: u8,
    pub day: u8,
}

/// The granularity at which the catalog knows a release date.
#[derive(Clone, Copy, Debug, PartialEq, Eq, Structural)]
pub enum DatePrecision {
    Year,
    YearMonth,
    Day,
}

/// A catalog release date: resolved components plus the precision tag that
/// says how many of them the catalog actually reported.
#[derive(Clone, Copy, Debug, PartialEq, Eq, Structural)]
pub struct ReleaseDate {
    pub precision: DatePrecision,
    pub date: Date,
}

impl Date {
    /// Component ranges of a plausible calendar date. Years are capped at
    /// four digits so that the stored document format is fixed-width.
    pub open spec fn valid(self) -> bool {
        &&& self.year <= 9999
        &&& 1 <= self.month <= 12
        &&& 1 <= self.day <= 31
    }

    /// Strict ordering: year, then month, then day, numerically.
    pub open spec fn lt(self, other: Date) -> bool {
        if self.year != other.year {
            self.year < other.year
        } else if self.month != other.month {
            self.month < other.month
        } else {
            self.day < other.day
        }
    }

    pub open spec fn le(self, other: Date) -> bool {
        self.lt(other) || self == other
    }

    /// Whether the components are in range.
    pub fn check_valid(&self) -> (r: bool)
        ensures
            r == self.valid(),
    {
        self.year <= 9999 && 1 <= self.month && self.month <= 12 && 1 <= self.day && self.day
            <= 31
    }

    /// The first day of the Unix epoch, the fallback the tool uses when a
    /// catalog date cannot be read at all.
    pub fn unix_epoch() -> (r: Date)
        ensures
            r == (Date { year: 1970, month: 1, day: 1 }),
    {
        Date { year: 1970, month: 1, day: 1 }
    }

    /// Whether `self` is strictly before `other`.
    pub fn is_before(&self, other: &Date) -> (r: bool)
        ensures
            r == self.lt(*other),
    {
        if self.year != other.year {
            self.year < other.year
        } else if self.month != other.month {
            self.month < other.month
        } else {
            self.day < other.day
        }
    }

    /// Whether `self` is on or before `other`.
    pub fn is_on_or_before(&self, other: &Date) -> (r: bool)
        ensures
            r == self.le(*other),
    {
        if self.is_before(other) {
            true
        } else {
            self.year == other.year && self.month == other.month && self.day == other.day
        }
    }
}

/// The date order is total: of two dates, either they are equal or one is
/// strictly before the other, and never both.
pub proof fn lemma_date_order_total(a: Date, b: Date)
    ensures
        a.lt(b) || b.lt(a) || a == b,
        !(a.lt(b) && b.lt(a)),
        !a.lt(a),
{
}

impl ReleaseDate {
    /// A release date is valid when its resolved components are, and when the
    /// components beyond its precision are the resolution default `01`.
    pub open spec fn valid(self) -> bool {
        &&& self.date.valid()
        &&& self.precision is Year ==> self.date.month == 1 && self.date.day == 1
        &&& self.precision is YearMonth ==> self.date.day == 1
    }

    /// The fully resolved date this entry compares as.
    pub open spec fn spec_resolved(self) -> Date {
        self.date
    }

    /// Widens a bare year to January 1st of that year.
    pub fn from_year(year: u16) -> (r: ReleaseDate)
        requires
            year <= 9999,
        ensures
            r == (ReleaseDate {
                precision: DatePrecision::Year,
                date: Date { year, month: 1, day: 1 },
            }),
            r.valid(),
    {
        ReleaseDate { precision: DatePrecision::Year, date: Date { year, month: 1, day: 1 } }
    }

    /// Widens a year and month to the first day of that month.
    pub fn from_year_month(year: u16, month: u8) -> (r: ReleaseDate)
        requires
            year <= 9999,
            1 <= month <= 12,
        ensures
            r == (ReleaseDate {
                precision: DatePrecision::YearMonth,
                date: Date { year, month, day: 1 },
            }),
            r.valid(),
    {
        ReleaseDate { precision: DatePrecision::YearMonth, date: Date { year, month, day: 1 } }
    }

    /// A date the catalog reported in full.
    pub fn from_full(year: u16, month: u8, day: u8) -> (r: ReleaseDate)
        requires
            year <= 9999,
            1 <= month <= 12,
            1 <= day <= 31,
        ensures
            r == (ReleaseDate {
                precision: DatePrecision::Day,
                date: Date { year, month, day },
            }),
            r.valid(),
    {
        ReleaseDate { precision: DatePrecision::Day, date: Date { year, month, day } }
    }

    /// Whether the components are in range and the resolution defaults hold.
    pub fn check_valid(&self) -> (r: bool)
        ensures
            r == self.valid(),
    {
        let widened = match self.precision {
            DatePrecision::Year => self.date.month == 1 && self.date.day == 1,
            DatePrecision::YearMonth => self.date.day == 1,
            DatePrecision::Day => true,
        };
        self.date.check_valid() && widened
    }

    /// The full date this entry is compared as.
    pub fn resolved(&self) -> (r: Date)
        ensures
            r == self.spec_resolved(),
    {
        self.date
    }
}

/// The decimal digit character for `n`, which must lie in `0 ..= 9`.
pub open spec fn spec_digit(n: int) -> char {
    if n == 0 {
        '0'
    } else if n == 1 {
        '1'
    } else if n == 2 {
        '2'
    } else if n == 3 {
        '3'
    } else if n == 4 {
        '4'
    } else if n == 5 {
        '5'
    } else if n == 6 {
        '6'
    } else if n == 7 {
        '7'
    } else if n == 8 {
        '8'
    } else {
        '9'
    }
}

/// Whether `c` is a decimal digit character.
pub open spec fn is_digit(c: char) -> bool {
    c == '0' || c == '1' || c == '2' || c == '3' || c == '4' || c == '5' || c == '6' || c == '7'
        || c == '8' || c == '9'
}

/// The numeric value of the digit character `c`.
pub open spec fn spec_digit_value(c: char) -> int {
    if c == '0' {
        0
    } else if c == '1' {
        1
    } else if c == '2' {
        2
    } else if c == '3' {
        3
    } else if c == '4' {
        4
    } else if c == '5' {
        5
    } else if c == '6' {
        6
    } else if c == '7' {
        7
    } else if c == '8' {
        8
    } else {
        9
    }
}

/// The decimal digit character of a machine integer in `0 ..= 9`.
pub fn digit_char(n: u16) -> (r: char)
    requires
        n <= 9,
    ensures
        r == spec_digit(n as int),
        is_digit(r),
{
    match n {
        0 => '0',
        1 => '1',
        2 => '2',
        3 => '3',
        4 => '4',
        5 => '5',
        6 => '6',
        7 => '7',
        8 => '8',
        _ => '9',
    }
}

/// The numeric value of a digit character, or `None` for any other character.
pub fn digit_value(c: char) -> (r: Option<u16>)
    ensures
        match r {
            Some(n) => is_digit(c) && n == spec_digit_value(c) && n <= 9,
            None => !is_digit(c),
        },
{
    match c {
        '0' => Some(0),
        '1' => Some(1),
        '2' => Some(2),
        '3' => Some(3),
        '4' => Some(4),
        '5' => Some(5),
        '6' => Some(6),
        '7' => Some(7),
        '8' => Some(8),
        '9' => Some(9),
        _ => None,
    }
}

/// A four-digit year, zero-padded.
pub open spec fn spec_year_chars(y: int) -> Seq<char> {
    seq![
        spec_digit(y / 1000),
        spec_digit(y / 100 % 10),
        spec_digit(y / 10 % 10),
        spec_digit(y % 10),
    ]
}

/// A two-digit month or day, zero-padded.
pub open spec fn spec_two_chars(n: int) -> Seq<char> {
    seq![spec_digit(n / 10), spec_digit(n % 10)]
}

impl Date {
    /// The ten characters `YYYY-MM-DD` that this date displays and stores as.
    pub open spec fn spec_format(self) -> Seq<char> {
        spec_year_chars(self.year as int) + seq!['-'] + spec_two_chars(self.month as int)
            + seq!['-'] + spec_two_chars(self.day as int)
    }

    /// The `YYYY-MM-DD` characters of this date.
    pub fn format_chars(&self) -> (r: Vec<char>)
        requires
            self.valid(),
        ensures
            r@ == self.spec_format(),
            r@.len() == 10,
    {
        let y = self.year;
        let m = self.month as u16;
        let d = self.day as u16;
        let mut r: Vec<char> = Vec::new();
        r.push(digit_char(y / 1000));
        r.push(digit_char(y / 100 % 10));
        r.push(digit_char(y / 10 % 10));
        r.push(digit_char(y % 10));
        r.push('-');
        r.push(digit_char(m / 10));
        r.push(digit_char(m % 10));
        r.push('-');
        r.push(digit_char(d / 10));
        r.push(digit_char(d % 10));
        proof {
            assert(r@ =~= self.spec_format());
        }
        r
    }

    /// The `YYYY-MM-DD` text of this date.
    pub fn format(&self) -> (r: String)
        requires
            self.valid(),
        ensures
            r@ == self.spec_format(),
    {
        let chars = self.format_chars();
        crate::util::string_of_chars(&chars)
    }
}

/// Splitting a number below 10000 into its four decimal digits loses nothing.
pub proof fn lemma_four_digits(y: int)
    requires
        0 <= y <= 9999,
    ensures
        (y / 1000) * 1000 + (y / 100 % 10) * 100 + (y / 10 % 10) * 10 + y % 10 == y,
        0 <= y / 1000 <= 9,
        0 <= y / 100 % 10 <= 9,
        0 <= y / 10 % 10 <= 9,
        0 <= y % 10 <= 9,
{
    assert((y / 1000) * 1000 + (y / 100 % 10) * 100 + (y / 10 % 10) * 10 + y % 10 == y)
        by (nonlinear_arith)
        requires 0 <= y <= 9999;
    assert(0 <= y / 1000 <= 9) by (nonlinear_arith)
        requires 0 <= y <= 9999;
}

/// Splitting a number below 100 into its two decimal digits loses nothing.
pub proof fn lemma_two_digits(n: int)
    requires
        0 <= n <= 99,
    ensures
        (n / 10) * 10 + n % 10 == n,
        0 <= n / 10 <= 9,
        0 <= n % 10 <= 9,
{
}

/// The numeric value of four digit characters starting at `at`.
pub open spec fn spec_year_value(s: Seq<char>, at: int) -> int {
    spec_digit_value(s[at]) * 1000 + spec_digit_value(s[at + 1]) * 100 + spec_digit_value(
        s[at + 2],
    ) * 10 + spec_digit_value(s[at + 3])
}

/// The numeric value of two digit characters starting at `at`.
pub open spec fn spec_two_value(s: Seq<char>, at: int) -> int {
    spec_digit_value(s[at]) * 10 + spec_digit_value(s[at + 1])
}

/// Whether the characters `at .. at + n` are all decimal digits.
pub open spec fn all_digits(s: Seq<char>, at: int, n: int) -> bool {
    forall|i: int| at <= i < at + n ==> is_digit(#[trigger] s[i])
}

/// How the catalog writes a release date: `YYYY`, `YYYY-MM`, or `YYYY-MM-DD`,
/// zero-padded, with the month in `01 ..= 12` and the day in `01 ..= 31`.
/// Anything else does not parse.
pub open spec fn spec_parse_release_date(s: Seq<char>) -> Option<ReleaseDate> {
    if s.len() == 4 {
        if all_digits(s, 0, 4) {
            Some(
                ReleaseDate {
                    precision: DatePrecision::Year,
                    date: Date { year: spec_year_value(s, 0) as u16, month: 1, day: 1 },
                },
            )
        } else {
            None
        }
    } else if s.len() == 7 {
        if all_digits(s, 0, 4) && s[4] == '-' && all_digits(s, 5, 2) && 1 <= spec_two_value(s, 5)
            <= 12 {
            Some(
                ReleaseDate {
                    precision: DatePrecision::YearMonth,
                    date: Date {
                        year: spec_year_value(s, 0) as u16,
                        month: spec_two_value(s, 5) as u8,
                        day: 1,
                    },
                },
            )
        } else {
            None
        }
    } else if s.len() == 10 {
        if all_digits(s, 0, 4) && s[4] == '-' && all_digits(s, 5, 2) && 1 <= spec_two_value(s, 5)
            <= 12 && s[7] == '-' && all_digits(s, 8, 2) && 1 <= spec_two_value(s, 8) <= 31 {
            Some(
                ReleaseDate {
                    precision: DatePrecision::Day,
                    date: Date {
                        year: spec_year_value(s, 0) as u16,
                        month: spec_two_value(s, 5) as u8,
                        day: spec_two_value(s, 8) as u8,
                    },
                },
            )
        } else {
            None
        }
    } else {
        None
    }
}

/// A parsed release date is always valid.
pub proof fn lemma_parsed_release_date_valid(s: Seq<char>)
    requires
        spec_parse_release_date(s) is Some,
    ensures
        spec_parse_release_date(s).unwrap().valid(),
{
}

/// Reads four digit characters of `v` starting at `at`.
fn read_year(v: &Vec<char>, at: usize) -> (r: Option<u16>)
    requires
        at + 4 <= v@.len(),
    ensures
        match r {
            Some(y) => all_digits(v@, at as int, 4) && y == spec_year_value(v@, at as int) && y
                <= 9999,
            None => !all_digits(v@, at as int, 4),
        },
{
    let n = v.len();
    assert(at + 4 <= n);
    let d0 = digit_value(v[at]);
    let d1 = digit_value(v[at + 1]);
    let d2 = digit_value(v[at + 2]);
    let d3 = digit_value(v[at + 3]);
    match (d0, d1, d2, d3) {
        (Some(a), Some(b), Some(c), Some(d)) => {
            proof {
                assert forall|i: int| at <= i < at + 4 implies is_digit(#[trigger] v@[i]) by {
                    if i == at {
                    } else if i == at + 1 {
                    } else if i == at + 2 {
                    }
                }
            }
            Some(a * 1000 + b * 100 + c * 10 + d)
        },
        _ => None,
    }
}

/// Reads two digit characters of `v` starting at `at`.
fn read_two(v: &Vec<char>, at: usize) -> (r: Option<u8>)
    requires
        at + 2 <= v@.len(),
    ensures
        match r {
            Some(n) => all_digits(v@, at as int, 2) && n == spec_two_value(v@, at as int) && n
                <= 99,
            None => !all_digits(v@, at as int, 2),
        },
{
    let n = v.len();
    assert(at + 2 <= n);
    let d0 = digit_value(v[at]);
    let d1 = digit_value(v[at + 1]);
    match (d0, d1) {
        (Some(a), Some(b)) => {
            proof {
                assert forall|i: int| at <= i < at + 2 implies is_digit(#[trigger] v@[i]) by {
                    if i == at {
                    }
                }
            }
            Some((a * 10 + b) as u8)
        },
        _ => None,
    }
}

/// Parses a catalog release-date string at any of its three precisions.
pub fn parse_release_date(s: &str) -> (r: Option<ReleaseDate>)
    ensures
        r == spec_parse_release_date(s@),
        r is Some ==> r.unwrap().valid(),
{
    let v = crate::util::chars_of(s);
    let r = parse_release_date_chars(&v);
    proof {
        if r is Some {
            lemma_parsed_release_date_valid(s@);
        }
    }
    r
}

/// Parses a catalog release date from its characters.
pub fn parse_release_date_chars(v: &Vec<char>) -> (r: Option<ReleaseDate>)
    ensures
        r == spec_parse_release_date(v@),
{
    let n = v.len();
    if n == 4 {
        match read_year(v, 0) {
            Some(y) => Some(
                ReleaseDate { precision: DatePrecision::Year, date: Date { year: y, month: 1, day: 1 } },
            ),
            None => None,
        }
    } else if n == 7 {
        let year = read_year(v, 0);
        let month = if v[4] == '-' {
            read_two(v, 5)
        } else {
            None
        };
        match (year, month) {
            (Some(y), Some(m)) if 1 <= m && m <= 12 => Some(
                ReleaseDate {
                    precision: DatePrecision::YearMonth,
                    date: Date { year: y, month: m, day: 1 },
                },
            ),
            _ => None,
        }
    } else if n == 10 {
        let year = read_year(v, 0);
        let month = if v[4] == '-' {
            read_two(v, 5)
        } else {
            None
        };
        let day = if v[7] == '-' {
            read_two(v, 8)
        } else {
            None
        };
        match (year, month, day) {
            (Some(y), Some(m), Some(d)) if 1 <= m && m <= 12 && 1 <= d && d <= 31 => Some(
                ReleaseDate {
                    precision: DatePrecision::Day,
                    date: Date { year: y, month: m, day: d },
                },
            ),
            _ => None,
        }
    } else {
        None
    }
}

/// A valid date's `YYYY-MM-DD` text parses back to the same date, at day
/// precision: dates are stored at full day resolution once written.
pub proof fn lemma_format_parses(d: Date)
    requires
        d.valid(),
    ensures
        spec_parse_release_date(d.spec_format()) == Some(
            ReleaseDate { precision: DatePrecision::Day, date: d },
        ),
{
    let s = d.spec_format();
    let y = d.year as int;
    let m = d.month as int;
    let dd = d.day as int;
    lemma_four_digits(y);
    lemma_two_digits(m);
    lemma_two_digits(dd);
    assert(s.len() == 10);
    assert(s[0] == spec_digit(y / 1000));
    assert(s[1] == spec_digit(y / 100 % 10));
    assert(s[2] == spec_digit(y / 10 % 10));
    assert(s[3] == spec_digit(y % 10));
    assert(s[4] == '-');
    assert(s[5] == spec_digit(m / 10));
    assert(s[6] == spec_digit(m % 10));
    assert(s[7] == '-');
    assert(s[8] == spec_digit(dd / 10));
    assert(s[9] == spec_digit(dd % 10));
    assert(all_digits(s, 0, 4));
    assert(all_digits(s, 5, 2));
    assert(all_digits(s, 8, 2));
    assert(spec_year_value(s, 0) == y);
    assert(spec_two_value(s, 5) == m);
    assert(spec_two_value(s, 8) == dd);
}

/// Precision approximation: a year-precision release date compares exactly as
/// the day-precision date January 1st of the same year.
pub proof fn lemma_year_precision_resolves_to_jan_first(year: u16)
    requires
        year <= 9999,
    ensures
        (ReleaseDate {
            precision: DatePrecision::Year,
            date: Date { year, month: 1, day: 1 },
        }).spec_resolved() == (ReleaseDate {
            precision: DatePrecision::Day,
            date: Date { year, month: 1, day: 1 },
        }).spec_resolved(),
{
}

} // verus!
