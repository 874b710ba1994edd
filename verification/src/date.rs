//! Calendar dates and the text dialects in which a page shows them.

use vstd::prelude::*;
use vstd::string::*;
use crate::error::FieldKind;
use crate::error::ParseError;
use crate::text::count_char;
use crate::text::count_of;
use crate::text::lemma_padded_text_holds_digits_only;
use crate::text::only;
use crate::text::padded_text;

verus! {

/// A calendar date as plain numbers.
#[derive(Clone, Copy, Debug, PartialEq, Eq, Hash, Structural)]
pub struct Date {
    pub year: i32,
    pub month: u32,
    pub day: u32,
}

/// The way a data source writes its dates.
#[derive(Clone, Copy, Debug, PartialEq, Eq, Structural)]
pub enum DateDialect {
    /// `2023.05.17`, or `2023.05` for a whole month.
    Dotted,
    /// `2023년 05월`: always a whole month.
    Hangul,
}

/// What `chrono::NaiveDate::parse_from_str` makes of `text` under `format`:
/// year, month and day of the date, or nothing where it reports an error.
pub uninterp spec fn chrono_parse_from_str(text: Seq<char>, format: Seq<char>) -> Option<
    (int, int, int),
>;

impl Date {
    /// Year, month and day as mathematical integers.
    pub open spec fn triple(self) -> (int, int, int) {
        (self.year as int, self.month as int, self.day as int)
    }

    /// Whether month and day lie in the ranges of a calendar: 1 to 12, 1 to 31.
    pub open spec fn in_calendar_range(self) -> bool {
        1 <= self.month <= 12 && 1 <= self.day <= 31
    }

    /// Whether `self` is a day before `other`.
    pub open spec fn earlier_than(self, other: Date) -> bool {
        self.year < other.year || (self.year == other.year && (self.month < other.month || (
        self.month == other.month && self.day < other.day)))
    }

    /// The date that stands for a missing one: 1 January 1970.
    pub fn epoch() -> (d: Date)
        ensures
            d == (Date { year: 1970, month: 1, day: 1 }),
    {
        Date { year: 1970, month: 1, day: 1 }
    }

    /// Whether `self` is a day before `other`.
    pub fn is_before(&self, other: &Date) -> (r: bool)
        ensures
            r == self.earlier_than(*other),
    {
        self.year < other.year || (self.year == other.year && (self.month < other.month || (
        self.month == other.month && self.day < other.day)))
    }
}

/// Dates are strictly and totally ordered: no date lies before itself, of two
/// different dates one lies before the other, and the order is transitive.
pub proof fn lemma_dates_are_totally_ordered(a: Date, b: Date, c: Date)
    ensures
        !a.earlier_than(a),
        a != b ==> (a.earlier_than(b) || b.earlier_than(a)),
        !(a.earlier_than(b) && b.earlier_than(a)),
        a.earlier_than(b) && b.earlier_than(c) ==> a.earlier_than(c),
{
}

/// Whether a token in `dialect` names a month only, so that its day is missing.
pub open spec fn is_truncated(text: Seq<char>, dialect: DateDialect) -> bool {
    match dialect {
        DateDialect::Dotted => count_of(text, '.') == 1,
        DateDialect::Hangul => true,
    }
}

/// The token with the first day of the month appended where its day is missing.
pub open spec fn completed_text(text: Seq<char>, dialect: DateDialect) -> Seq<char> {
    match dialect {
        DateDialect::Dotted => if is_truncated(text, dialect) {
            text + ".01"@
        } else {
            text
        },
        DateDialect::Hangul => text + " 01일"@,
    }
}

/// The format under which a completed token of `dialect` is parsed.
pub open spec fn date_format(dialect: DateDialect) -> Seq<char> {
    match dialect {
        DateDialect::Dotted => "%Y.%m.%d"@,
        DateDialect::Hangul => "%Y년 %m월 %d일"@,
    }
}

/// The date that a token of `dialect` stands for: what the completed token
/// parses to, on the first day of the month where the token names none.
pub open spec fn spec_parse_date(text: Seq<char>, dialect: DateDialect) -> Option<(int, int, int)> {
    match chrono_parse_from_str(completed_text(text, dialect), date_format(dialect)) {
        Some((year, month, day)) => Some(
            (
                year,
                month,
                if is_truncated(text, dialect) {
                    1
                } else {
                    day
                },
            ),
        ),
        None => None,
    }
}

/// Whether `text` names the month `month` of the year `year` in `dialect`,
/// the year in four digits and the month in two: `2023.05` or `2023년 05월`.
pub open spec fn is_month_token(text: Seq<char>, dialect: DateDialect, year: int, month: int) -> bool {
    &&& 0 <= year <= 9999
    &&& 1 <= month <= 12
    &&& text == match dialect {
        DateDialect::Dotted => padded_text(year as nat, 4) + seq!['.'] + padded_text(
            month as nat,
            2,
        ),
        DateDialect::Hangul => padded_text(year as nat, 4) + "년 "@ + padded_text(month as nat, 2)
            + "월"@,
    }
}

/// Whether `text` writes the first day of the month `month` of the year `year`
/// as `format` asks for it, where `format` is one of the two that the dialects
/// use: the year in four digits, the month in two, and the day as `01`.
pub open spec fn is_first_day_text(text: Seq<char>, format: Seq<char>, year: int, month: int) -> bool {
    &&& 0 <= year <= 9999
    &&& 1 <= month <= 12
    &&& {
        ||| format == "%Y.%m.%d"@ && text == padded_text(year as nat, 4) + seq!['.'] + padded_text(
            month as nat,
            2,
        ) + ".01"@
        ||| format == "%Y년 %m월 %d일"@ && text == padded_text(year as nat, 4) + "년 "@
            + padded_text(month as nat, 2) + "월"@ + " 01일"@
    }
}

/// Calls `chrono::NaiveDate::parse_from_str` and reads year, month and day off
/// the date it returns. Trusted: the result is the one named by
/// `chrono_parse_from_str`; a date that chrono hands out has its month in 1 to
/// 12 and its day in 1 to 31; and under `%Y`, `%m` and `%d` chrono reads a
/// four-digit year, a two-digit month from 01 to 12 and the day `01` as that
/// year, that month and the first day.
#[verifier::external_body]
fn naive_date_from_str(text: &str, format: &str) -> (r: Option<Date>)
    ensures
        match r {
            Some(d) => chrono_parse_from_str(text@, format@) == Some(d.triple())
                && d.in_calendar_range(),
            None => chrono_parse_from_str(text@, format@) is None,
        },
        forall|year: int, month: int| #[trigger]
            is_first_day_text(text@, format@, year, month) ==> r == Some(
                Date { year: year as i32, month: month as u32, day: 1 },
            ),
{
    match chrono::NaiveDate::parse_from_str(text, format) {
        Ok(d) => Some(
            Date {
                year: chrono::Datelike::year(&d),
                month: chrono::Datelike::month(&d),
                day: chrono::Datelike::day(&d),
            },
        ),
        Err(_) => None,
    }
}

/// Completes a date token for parsing: a token without a day gets the first of
/// the month appended. Also tells whether the day was missing.
pub fn complete_date_token(date_str: &str, dialect: DateDialect) -> (r: (String, bool))
    ensures
        r.0@ == completed_text(date_str@, dialect),
        r.1 == is_truncated(date_str@, dialect),
{
    let mut completed = String::from_str(date_str);
    match dialect {
        DateDialect::Dotted => {
            let truncated: bool = count_char(date_str, '.') == 1;
            if truncated {
                completed.append(".01");
            }
            (completed, truncated)
        },
        DateDialect::Hangul => {
            completed.append(" 01일");
            (completed, true)
        },
    }
}

/// Turns what the parser made of a completed token into the result for the
/// token `date_str` itself: a date of a token without a day lies on the first
/// of its month, and a token that did not parse is reported by its text.
pub fn date_from_parsed(parsed: Option<Date>, truncated: bool, date_str: &str) -> (r: Result<
    Date,
    ParseError,
>)
    ensures
        match parsed {
            Some(d) => r matches Ok(out) && out == (Date {
                year: d.year,
                month: d.month,
                day: if truncated {
                    1
                } else {
                    d.day
                },
            }),
            None => r matches Err(e) && e.reports(FieldKind::Date, date_str@),
        },
{
    match parsed {
        Some(d) => Ok(
            Date {
                year: d.year,
                month: d.month,
                day: if truncated {
                    1
                } else {
                    d.day
                },
            },
        ),
        None => Err(ParseError::new(FieldKind::Date, date_str)),
    }
}

/// A token that names a month in four and two digits has no day, and its
/// completed form writes the first day of that month.
pub proof fn lemma_month_token_completes(
    text: Seq<char>,
    dialect: DateDialect,
    year: int,
    month: int,
)
    requires
        is_month_token(text, dialect, year, month),
    ensures
        is_truncated(text, dialect),
        is_first_day_text(completed_text(text, dialect), date_format(dialect), year, month),
{
    let y = padded_text(year as nat, 4);
    let m = padded_text(month as nat, 2);
    match dialect {
        DateDialect::Dotted => {
            lemma_padded_text_holds_digits_only(year as nat, 4, '.');
            lemma_padded_text_holds_digits_only(month as nat, 2, '.');
            let dot = seq!['.'];
            assert(dot.filter(only('.')) =~= dot) by {
                reveal(Seq::filter);
                assert(dot.drop_last() =~= Seq::<char>::empty());
                assert(dot.drop_last().filter(only('.')) =~= Seq::<char>::empty());
            }
            Seq::filter_distributes_over_add(y, dot, only('.'));
            Seq::filter_distributes_over_add(y + dot, m, only('.'));
            assert(count_of(text, '.') == 1);
        },
        DateDialect::Hangul => {},
    }
}

/// Reads a date token of `dialect`. A token without a day is completed with the
/// first of the month before it is parsed, and the result then lies on that
/// day. A token that names a month in four and two digits, such as `2023.05`
/// or `2023년 05월`, is always read, as the first day of that month.
pub fn parse_date(date_str: &str, dialect: DateDialect) -> (r: Result<Date, ParseError>)
    ensures
        match r {
            Ok(d) => spec_parse_date(date_str@, dialect) == Some(d.triple())
                && d.in_calendar_range(),
            Err(e) => spec_parse_date(date_str@, dialect) is None && e.reports(
                FieldKind::Date,
                date_str@,
            ),
        },
        is_truncated(date_str@, dialect) ==> (r matches Ok(d) ==> d.day == 1),
        forall|year: int, month: int| #[trigger]
            is_month_token(date_str@, dialect, year, month) ==> r == Ok::<Date, ParseError>(
                Date { year: year as i32, month: month as u32, day: 1 },
            ),
{
    let (completed, truncated) = complete_date_token(date_str, dialect);
    let parsed = match dialect {
        DateDialect::Dotted => naive_date_from_str(completed.as_str(), "%Y.%m.%d"),
        DateDialect::Hangul => naive_date_from_str(completed.as_str(), "%Y년 %m월 %d일"),
    };
    let r = date_from_parsed(parsed, truncated, date_str);
    proof {
        assert forall|year: int, month: int| #[trigger]
            is_month_token(date_str@, dialect, year, month) implies r == Ok::<Date, ParseError>(
            Date { year: year as i32, month: month as u32, day: 1 },
        ) by {
            lemma_month_token_completes(date_str@, dialect, year, month);
            assert(is_first_day_text(completed@, date_format(dialect), year, month));
        }
    }
    r
}

} // verus!
