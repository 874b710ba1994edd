//! Currency amounts and energy quantities as a page renders them.

use vstd::prelude::*;
use vstd::string::*;
use crate::error::FieldKind;
use crate::error::ParseError;
use crate::text::before_first;
use crate::text::find_char;
use crate::text::parse_i64;
use crate::text::remove_chars;
use crate::text::remove_text;
use crate::text::spec_parse_i64;
use crate::text::without_chars;
use crate::text::without_text;

verus! {

/// The glyph that follows a currency amount.
pub open spec fn currency_glyph() -> char {
    '원'
}

/// The digits of a rendered amount: what stands before the currency glyph,
/// without thousands separators and without decimal points.
pub open spec fn amount_digits(s: Seq<char>) -> Seq<char> {
    without_chars(before_first(s, currency_glyph()), ',', '.')
}

/// The amount that a rendered currency string stands for. A decimal point is
/// deleted, not interpreted: the digits on both sides of it run together.
pub open spec fn spec_parse_paid(s: Seq<char>) -> Option<i64> {
    spec_parse_i64(amount_digits(s))
}

/// A rendered energy quantity without thousands separators and without its
/// unit: the text that is left to be read as a number.
pub open spec fn usage_digits(s: Seq<char>) -> Seq<char> {
    without_text(without_text(s, ","@), "kWh"@)
}

/// Reads a currency amount such as `45,000원`: drops the glyph and what follows
/// it, deletes every `,` and `.`, and reads the rest as an integer.
pub fn parse_paid(amount_str: &str) -> (r: Result<i64, ParseError>)
    ensures
        match r {
            Ok(v) => spec_parse_paid(amount_str@) == Some(v),
            Err(e) => spec_parse_paid(amount_str@) is None && e.reports(
                FieldKind::Amount,
                amount_str@,
            ),
        },
{
    let end: usize = find_char(amount_str, '원');
    let amount_part = amount_str.substring_char(0, end);
    assert(amount_part@ == before_first(amount_str@, currency_glyph()));
    let digits = remove_chars(amount_part, ',', '.');
    match parse_i64(digits.as_str()) {
        Some(v) => Ok(v),
        None => Err(ParseError::new(FieldKind::Amount, amount_str)),
    }
}

/// Strips a rendered energy quantity such as `1,204kWh` down to its number:
/// first every `,` is deleted, then every `kWh`.
pub fn clean_use_kwh(kwh_str: &str) -> (r: String)
    ensures
        r@ == usage_digits(kwh_str@),
{
    let unseparated = remove_text(kwh_str, ",");
    remove_text(unseparated.as_str(), "kWh")
}

} // verus!
