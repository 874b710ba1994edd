//! The range picker: which period the next window starts from, how the picker
//! writes it, and which of its options shows it.

use vstd::prelude::*;
use vstd::string::*;
use crate::date::Date;
use crate::error::NavigationError;
use crate::record::BillingRecord;
use crate::text::digit_char;
use crate::text::same_text;

verus! {

/// The decimal digits of `n`, without leading zeros.
pub open spec fn nat_text(n: nat) -> Seq<char>
    decreases n,
{
    if n < 10 {
        seq![digit_char(n as int)]
    } else {
        nat_text(n / 10).push(digit_char((n % 10) as int))
    }
}

/// `n` in decimal, with a `-` in front where it is negative.
pub open spec fn int_text(n: int) -> Seq<char> {
    if n < 0 {
        seq!['-'] + nat_text((-n) as nat)
    } else {
        nat_text(n as nat)
    }
}

/// `n` in decimal, with a `0` in front where it is a single digit.
pub open spec fn two_digit_text(n: nat) -> Seq<char> {
    if n < 10 {
        seq!['0'] + nat_text(n)
    } else {
        nat_text(n)
    }
}

/// The text under which the range picker lists the month of `d`, such as
/// `2023년 05월`.
pub open spec fn spec_pivot_label(d: Date) -> Seq<char> {
    int_text(d.year as int) + "년 "@ + two_digit_text(d.month as nat) + "월"@
}

/// Whether `period` is a period of `records` that none of them lies before.
pub open spec fn is_oldest_of(records: Seq<BillingRecord>, period: Date) -> bool {
    &&& exists|i: int| 0 <= i < records.len() && (#[trigger] records[i]).period == period
    &&& forall|j: int| 0 <= j < records.len() ==> !(#[trigger] records[j]).period.earlier_than(period)
}

/// Whether the option at `index` is the first that shows `text`.
pub open spec fn is_first_option(options: Seq<Option<String>>, text: Seq<char>, index: int) -> bool {
    &&& 0 <= index < options.len()
    &&& shows_text(options[index], text)
    &&& forall|j: int| 0 <= j < index ==> !shows_text(#[trigger] options[j], text)
}

/// Whether an option, whose text may have been unreadable, shows `text`.
pub open spec fn shows_text(option: Option<String>, text: Seq<char>) -> bool {
    option is Some && option->0@ == text
}

/// The oldest period among `records`, or nothing where there are none.
pub fn oldest_period(records: &Vec<BillingRecord>) -> (r: Option<Date>)
    ensures
        match r {
            Some(period) => is_oldest_of(records@, period),
            None => records@.len() == 0,
        },
{
    if records.len() == 0 {
        return None;
    }
    let mut oldest: Date = records[0].period;
    let mut i: usize = 1;
    while i < records.len()
        invariant
            1 <= i <= records@.len(),
            exists|k: int| 0 <= k < i && (#[trigger] records@[k]).period == oldest,
            forall|j: int| 0 <= j < i ==> !(#[trigger] records@[j]).period.earlier_than(oldest),
        decreases records@.len() - i,
    {
        if records[i].period.is_before(&oldest) {
            oldest = records[i].period;
        }
        i = i + 1;
    }
    Some(oldest)
}

/// Appends the decimal digits of `n` to `out`.
fn append_decimal(out: &mut String, n: u64)
    ensures
        final(out)@ == old(out)@ + nat_text(n as nat),
    decreases n,
{
    if n >= 10 {
        append_decimal(out, n / 10);
    }
    let d: usize = (n % 10) as usize;
    proof {
        reveal_strlit("0123456789");
    }
    let digit = "0123456789".substring_char(d, d + 1);
    assert(digit@ =~= seq![digit_char(d as int)]);
    out.append(digit);
    proof {
        if n >= 10 {
            assert(old(out)@ + nat_text((n / 10) as nat) + seq![digit_char(d as int)] =~= old(
                out,
            )@ + nat_text(n as nat));
        }
    }
}

/// The text under which the range picker lists the month of `period`: the
/// year, `년`, a blank, the month in two digits, `월`.
pub fn pivot_label(period: Date) -> (label: String)
    ensures
        label@ == spec_pivot_label(period),
{
    let mut label = String::new();
    let year: i64 = period.year as i64;
    if year < 0 {
        label.append("-");
        append_decimal(&mut label, (-year) as u64);
    } else {
        append_decimal(&mut label, year as u64);
    }
    label.append("년 ");
    if period.month < 10 {
        label.append("0");
    }
    append_decimal(&mut label, period.month as u64);
    label.append("월");
    proof {
        reveal_strlit("-");
        reveal_strlit("0");
        assert("-"@ =~= seq!['-']);
        assert("0"@ =~= seq!['0']);
        assert(label@ =~= spec_pivot_label(period));
    }
    label
}

/// The position of the first option of a picker that shows exactly `text`.
/// `options` holds the text of each option in the picker's order, `None` for
/// one whose text could not be read.
pub fn get_option_index(options: &Vec<Option<String>>, text: &str) -> (r: Result<
    usize,
    NavigationError,
>)
    ensures
        match r {
            Ok(index) => is_first_option(options@, text@, index as int),
            Err(e) => {
                &&& forall|j: int| 0 <= j < options@.len() ==> !shows_text(#[trigger] options@[j], text@)
                &&& e matches NavigationError::OptionNotFound { text: wanted }
                &&& wanted@ == text@
            },
        },
{
    let mut i: usize = 0;
    while i < options.len()
        invariant
            i <= options@.len(),
            forall|j: int| 0 <= j < i ==> !shows_text(#[trigger] options@[j], text@),
        decreases options@.len() - i,
    {
        let found: bool = match &options[i] {
            Some(shown) => same_text(shown.as_str(), text),
            None => false,
        };
        if found {
            return Ok(i);
        }
        i = i + 1;
    }
    Err(NavigationError::OptionNotFound { text: String::from_str(text) })
}

/// The position of the option from which the next, older window starts: the
/// first option that shows the label of the oldest period fetched so far.
pub fn pivot_option_index(options: &Vec<Option<String>>, pivot: Date) -> (r: Result<
    usize,
    NavigationError,
>)
    ensures
        match r {
            Ok(index) => is_first_option(options@, spec_pivot_label(pivot), index as int),
            Err(e) => {
                &&& forall|j: int|
                    0 <= j < options@.len() ==> !shows_text(
                        #[trigger] options@[j],
                        spec_pivot_label(pivot),
                    )
                &&& e matches NavigationError::OptionNotFound { text: wanted }
                &&& wanted@ == spec_pivot_label(pivot)
            },
        },
{
    let label = pivot_label(pivot);
    get_option_index(options, label.as_str())
}

} // verus!
