//! The combined field that holds a payment's method and its date.

use vstd::prelude::*;
use vstd::string::*;
use crate::date::parse_date;
use crate::date::spec_parse_date;
use crate::date::Date;
use crate::date::DateDialect;
use crate::text::after_first;
use crate::text::before_first;
use crate::text::find_char;
use crate::text::lemma_first_index_of;

verus! {

/// What a combined payment field holds.
#[derive(Clone, Debug)]
pub struct Payment {
    /// The method's label, unless the field names none.
    pub method: Option<String>,
    /// The day of payment, unless the field holds none that can be read.
    pub date: Option<Date>,
}

/// The method label of a combined field: what stands before the first `/`,
/// unless that is empty.
pub open spec fn spec_payment_method(s: Seq<char>) -> Option<Seq<char>> {
    if before_first(s, '/').len() == 0 {
        None
    } else {
        Some(before_first(s, '/'))
    }
}

/// The payment date of a combined field: what stands after the first `/`, read
/// as a date token, unless there is no `/` or the token cannot be read.
pub open spec fn spec_payment_date(s: Seq<char>, dialect: DateDialect) -> Option<(int, int, int)> {
    match after_first(s, '/') {
        Some(token) => spec_parse_date(token, dialect),
        None => None,
    }
}

impl Payment {
    /// Whether this value is what the combined field `s` holds.
    pub open spec fn is_reading_of(self, s: Seq<char>, dialect: DateDialect) -> bool {
        &&& match self.method {
            Some(label) => spec_payment_method(s) == Some(label@),
            None => spec_payment_method(s) is None,
        }
        &&& match self.date {
            Some(d) => spec_payment_date(s, dialect) == Some(d.triple()) && d.in_calendar_range(),
            None => spec_payment_date(s, dialect) is None,
        }
    }
}

/// Splits a combined payment field such as `자동이체/2023.05.25` at its first `/`
/// into the method's label and the date of payment. A date that cannot be read
/// is left out: it never fails the field.
pub fn parse_payment(text: &str, dialect: DateDialect) -> (r: Payment)
    ensures
        r.is_reading_of(text@, dialect),
{
    let n: usize = text.unicode_len();
    let cut: usize = find_char(text, '/');
    proof {
        lemma_first_index_of(text@, '/');
    }
    let method = if cut == 0 {
        None
    } else {
        Some(String::from_str(text.substring_char(0, cut)))
    };
    let date = if cut < n {
        let token = text.substring_char(cut + 1, n);
        assert(token@ == text@.skip(cut + 1));
        match parse_date(token, dialect) {
            Ok(d) => Some(d),
            Err(_) => None,
        }
    } else {
        None
    };
    Payment { method, date }
}

} // verus!
