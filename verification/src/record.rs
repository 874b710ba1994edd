//! Billing records and how one is made from the texts of a table row.

use vstd::prelude::*;
use vstd::string::*;
use crate::amount::parse_paid;
use crate::amount::spec_parse_paid;
use crate::date::parse_date;
use crate::date::spec_parse_date;
use crate::date::Date;
use crate::date::DateDialect;
use crate::error::FieldKind;
use crate::error::ParseError;
use crate::payment::parse_payment;
use crate::payment::spec_payment_date;
use crate::payment::spec_payment_method;

verus! {

/// An energy quantity in kilowatt-hours, held as the bit pattern of its
/// double-precision value so that it can be stored and compared exactly. A
/// quantity is never below zero: see `is_non_negative`.
#[derive(Clone, Copy, Debug, PartialEq, Eq, Structural)]
pub struct Energy {
    pub bits: u64,
}

/// The sign bit of a double-precision value.
pub const SIGN_BIT: u64 = 0x8000_0000_0000_0000;

/// The exponent bits of a double-precision value.
pub const EXPONENT_BITS: u64 = 0x7FF0_0000_0000_0000;

impl Energy {
    /// Whether the bits stand for a quantity: a number that is zero or more.
    /// Either the sign bit is clear or the bits are those of negative zero,
    /// which is not below zero; that leaves out every negative number. And
    /// the exponent is not all ones, which leaves out infinity and what is no
    /// number.
    pub open spec fn is_non_negative(self) -> bool {
        (self.bits & SIGN_BIT == 0 || self.bits == SIGN_BIT) && self.bits & EXPONENT_BITS
            != EXPONENT_BITS
    }

    /// No energy at all: the bit pattern of positive zero.
    pub fn zero() -> (e: Energy)
        ensures
            e.bits == 0,
            e.is_non_negative(),
    {
        assert(0u64 & 0x8000_0000_0000_0000u64 == 0 && 0u64 & 0x7FF0_0000_0000_0000u64
            != 0x7FF0_0000_0000_0000u64) by (bit_vector);
        Energy { bits: 0 }
    }

    /// Whether the bits stand for a quantity.
    pub fn is_quantity(&self) -> (r: bool)
        ensures
            r == self.is_non_negative(),
    {
        (self.bits & SIGN_BIT == 0 || self.bits == SIGN_BIT) && self.bits & EXPONENT_BITS
            != EXPONENT_BITS
    }
}

/// The bill of one month.
#[derive(Clone, Debug)]
pub struct BillingRecord {
    /// The month that was billed. Its day is the first where the page shows none.
    pub period: Date,
    /// First and last day of the metering interval, where the page shows them.
    pub usage_window: Option<(Date, Date)>,
    /// The energy used.
    pub energy_usage: Energy,
    /// The amount billed, in whole currency units.
    pub billed_amount: i64,
    /// The amount already paid, where the page tells paid from due.
    pub amount_paid: Option<i64>,
    /// The amount still due, where the page tells paid from due.
    pub amount_unpaid: Option<i64>,
    /// How the bill was paid.
    pub payment_method: Option<String>,
    /// When the bill was paid.
    pub payment_date: Option<Date>,
}

/// A billing record with its texts as character sequences.
pub struct BillingRecordView {
    pub period: Date,
    pub usage_window: Option<(Date, Date)>,
    pub energy_usage: Energy,
    pub billed_amount: i64,
    pub amount_paid: Option<i64>,
    pub amount_unpaid: Option<i64>,
    pub payment_method: Option<Seq<char>>,
    pub payment_date: Option<Date>,
}

/// The characters of a text that may be missing.
pub open spec fn text_view(t: Option<String>) -> Option<Seq<char>> {
    match t {
        Some(s) => Some(s@),
        None => None,
    }
}

impl BillingRecord {
    /// Whether the record holds what a bill can show: a billing month within
    /// the calendar's ranges and an energy that is not negative.
    pub open spec fn wf(self) -> bool {
        self.period.in_calendar_range() && self.energy_usage.is_non_negative()
    }
}

impl View for BillingRecord {
    type V = BillingRecordView;

    open spec fn view(&self) -> BillingRecordView {
        BillingRecordView {
            period: self.period,
            usage_window: self.usage_window,
            energy_usage: self.energy_usage,
            billed_amount: self.billed_amount,
            amount_paid: self.amount_paid,
            amount_unpaid: self.amount_unpaid,
            payment_method: text_view(self.payment_method),
            payment_date: self.payment_date,
        }
    }
}

/// The texts read from one row of a billing table. A field whose element was
/// not found is `None`.
#[derive(Clone, Debug)]
pub struct RawRow {
    /// The billing month.
    pub period: Option<String>,
    /// The energy used, with its unit.
    pub usage: Option<String>,
    /// The amount billed, with its currency glyph.
    pub billed: Option<String>,
    /// The amount paid.
    pub paid: Option<String>,
    /// The amount due.
    pub unpaid: Option<String>,
    /// Payment method and payment date in one text.
    pub payment: Option<String>,
    /// First day of the metering interval.
    pub window_start: Option<String>,
    /// Last day of the metering interval.
    pub window_end: Option<String>,
}

/// A table row with its texts as character sequences.
pub struct RawRowView {
    pub period: Option<Seq<char>>,
    pub usage: Option<Seq<char>>,
    pub billed: Option<Seq<char>>,
    pub paid: Option<Seq<char>>,
    pub unpaid: Option<Seq<char>>,
    pub payment: Option<Seq<char>>,
    pub window_start: Option<Seq<char>>,
    pub window_end: Option<Seq<char>>,
}

impl View for RawRow {
    type V = RawRowView;

    open spec fn view(&self) -> RawRowView {
        RawRowView {
            period: text_view(self.period),
            usage: text_view(self.usage),
            billed: text_view(self.billed),
            paid: text_view(self.paid),
            unpaid: text_view(self.unpaid),
            payment: text_view(self.payment),
            window_start: text_view(self.window_start),
            window_end: text_view(self.window_end),
        }
    }
}

/// The field of `row` that fails the record, with its text: the first of
/// billing month, energy, amount billed, amount paid, amount due, first and
/// last day of the metering interval that is present and cannot be read. `usage_value` is the number that the cleaned
/// energy text stands for, where it stands for one; a number that is no
/// quantity, being negative or not finite, counts as unreadable.
pub open spec fn first_failure(
    row: RawRowView,
    usage_value: Option<Energy>,
    dialect: DateDialect,
) -> Option<(FieldKind, Seq<char>)> {
    if row.period is Some && spec_parse_date(row.period->0, dialect) is None {
        Some((FieldKind::Date, row.period->0))
    } else if row.usage is Some && !is_usable(usage_value) {
        Some((FieldKind::Usage, row.usage->0))
    } else if row.billed is Some && spec_parse_paid(row.billed->0) is None {
        Some((FieldKind::Amount, row.billed->0))
    } else if row.paid is Some && spec_parse_paid(row.paid->0) is None {
        Some((FieldKind::Amount, row.paid->0))
    } else if row.unpaid is Some && spec_parse_paid(row.unpaid->0) is None {
        Some((FieldKind::Amount, row.unpaid->0))
    } else if row.window_start is Some && spec_parse_date(row.window_start->0, dialect) is None {
        Some((FieldKind::Date, row.window_start->0))
    } else if row.window_end is Some && spec_parse_date(row.window_end->0, dialect) is None {
        Some((FieldKind::Date, row.window_end->0))
    } else {
        None
    }
}

/// Whether the energy text of a row stood for a quantity.
pub open spec fn is_usable(usage_value: Option<Energy>) -> bool {
    usage_value is Some && usage_value->0.is_non_negative()
}

/// The billing month of a row: 1 January 1970 where the row shows none.
pub open spec fn row_period(row: RawRowView, dialect: DateDialect) -> Option<(int, int, int)> {
    match row.period {
        Some(t) => spec_parse_date(t, dialect),
        None => Some((1970, 1, 1)),
    }
}

/// The energy of a row: zero where the row shows none.
pub open spec fn row_energy(row: RawRowView, usage_value: Option<Energy>) -> Option<Energy> {
    match row.usage {
        Some(_) => usage_value,
        None => Some(Energy { bits: 0 }),
    }
}

/// A required amount: zero where the row shows none.
pub open spec fn amount_or_zero(text: Option<Seq<char>>) -> Option<i64> {
    match text {
        Some(t) => spec_parse_paid(t),
        None => Some(0i64),
    }
}

/// An amount that only some tables show.
pub open spec fn amount_if_shown(text: Option<Seq<char>>) -> Option<i64> {
    match text {
        Some(t) => spec_parse_paid(t),
        None => None,
    }
}

/// The payment method of a row.
pub open spec fn row_payment_method(row: RawRowView) -> Option<Seq<char>> {
    match row.payment {
        Some(t) => spec_payment_method(t),
        None => None,
    }
}

/// The payment date of a row.
pub open spec fn row_payment_date(row: RawRowView, dialect: DateDialect) -> Option<
    (int, int, int),
> {
    match row.payment {
        Some(t) => spec_payment_date(t, dialect),
        None => None,
    }
}

/// A day that only some tables show.
pub open spec fn date_if_shown(text: Option<Seq<char>>, dialect: DateDialect) -> Option<
    (int, int, int),
> {
    match text {
        Some(t) => spec_parse_date(t, dialect),
        None => None,
    }
}

/// The metering interval of a row whose fields can all be read: present where
/// both of its days are shown.
pub open spec fn row_window(row: RawRowView, dialect: DateDialect) -> Option<
    ((int, int, int), (int, int, int)),
> {
    match (date_if_shown(row.window_start, dialect), date_if_shown(row.window_end, dialect)) {
        (Some(first), Some(last)) => Some((first, last)),
        _ => None,
    }
}

/// The two days of a metering interval as triples of integers.
pub open spec fn window_triples(w: Option<(Date, Date)>) -> Option<
    ((int, int, int), (int, int, int)),
> {
    match w {
        Some((a, b)) => Some((a.triple(), b.triple())),
        None => None,
    }
}

/// A date that may be missing, as a triple of integers.
pub open spec fn date_triple(d: Option<Date>) -> Option<(int, int, int)> {
    match d {
        Some(d) => Some(d.triple()),
        None => None,
    }
}

/// Whether `rec` is the record that `row` stands for, field by field.
pub open spec fn is_record_of(
    rec: BillingRecordView,
    row: RawRowView,
    usage_value: Option<Energy>,
    dialect: DateDialect,
) -> bool {
    &&& row_period(row, dialect) == Some(rec.period.triple())
    &&& window_triples(rec.usage_window) == row_window(row, dialect)
    &&& row_energy(row, usage_value) == Some(rec.energy_usage)
    &&& amount_or_zero(row.billed) == Some(rec.billed_amount)
    &&& rec.amount_paid == amount_if_shown(row.paid)
    &&& rec.amount_unpaid == amount_if_shown(row.unpaid)
    &&& rec.payment_method == row_payment_method(row)
    &&& date_triple(rec.payment_date) == row_payment_date(row, dialect)
}

/// Reads an amount that only some tables show.
fn parse_shown_amount(text: &Option<String>) -> (r: Result<Option<i64>, ParseError>)
    ensures
        match r {
            Ok(v) => v == amount_if_shown(text_view(*text)) && (text is Some ==> v is Some),
            Err(e) => text is Some && spec_parse_paid(text->0@) is None && e.reports(
                FieldKind::Amount,
                text->0@,
            ),
        },
{
    match text {
        Some(t) => match parse_paid(t.as_str()) {
            Ok(v) => Ok(Some(v)),
            Err(e) => Err(e),
        },
        None => Ok(None),
    }
}

/// Reads a day that only some tables show.
fn parse_shown_date(text: &Option<String>, dialect: DateDialect) -> (r: Result<
    Option<Date>,
    ParseError,
>)
    ensures
        match r {
            Ok(v) => date_triple(v) == date_if_shown(text_view(*text), dialect) && (text is Some
                ==> v is Some),
            Err(e) => text is Some && spec_parse_date(text->0@, dialect) is None && e.reports(
                FieldKind::Date,
                text->0@,
            ),
        },
{
    match text {
        Some(t) => match parse_date(t.as_str(), dialect) {
            Ok(d) => Ok(Some(d)),
            Err(e) => Err(e),
        },
        None => Ok(None),
    }
}

/// Makes the billing record of one table row. A missing billing month becomes
/// 1 January 1970, a missing energy or billed amount becomes zero, and a
/// missing optional field stays out. A field that is present and cannot be
/// read fails the record with an error that names its text; only a payment
/// date that cannot be read is left out instead. The metering interval is
/// given where both of its days are shown.
///
/// `usage_value` is the number that the cleaned energy text stands for, and
/// `None` where it stands for none. An energy that is negative or not finite
/// fails the record as an energy text that cannot be read.
pub fn extract_record(row: &RawRow, usage_value: Option<Energy>, dialect: DateDialect) -> (r:
    Result<BillingRecord, ParseError>)
    ensures
        match r {
            Ok(rec) => first_failure(row@, usage_value, dialect) is None && is_record_of(
                rec@,
                row@,
                usage_value,
                dialect,
            ) && rec.wf(),
            Err(e) => first_failure(row@, usage_value, dialect) == Some((e.kind, e.raw@)),
        },
{
    let period = match &row.period {
        Some(t) => match parse_date(t.as_str(), dialect) {
            Ok(d) => d,
            Err(e) => {
                return Err(e);
            },
        },
        None => Date::epoch(),
    };
    let energy_usage = match &row.usage {
        Some(t) => match usage_value {
            Some(e) if e.is_quantity() => e,
            _ => {
                return Err(ParseError::new(FieldKind::Usage, t.as_str()));
            },
        },
        None => Energy::zero(),
    };
    let billed_amount = match &row.billed {
        Some(t) => match parse_paid(t.as_str()) {
            Ok(v) => v,
            Err(e) => {
                return Err(e);
            },
        },
        None => 0,
    };
    let amount_paid = match parse_shown_amount(&row.paid) {
        Ok(v) => v,
        Err(e) => {
            return Err(e);
        },
    };
    let amount_unpaid = match parse_shown_amount(&row.unpaid) {
        Ok(v) => v,
        Err(e) => {
            return Err(e);
        },
    };
    let window_start = match parse_shown_date(&row.window_start, dialect) {
        Ok(v) => v,
        Err(e) => {
            return Err(e);
        },
    };
    let window_end = match parse_shown_date(&row.window_end, dialect) {
        Ok(v) => v,
        Err(e) => {
            return Err(e);
        },
    };
    let usage_window = match (window_start, window_end) {
        (Some(first), Some(last)) => Some((first, last)),
        _ => None,
    };
    let (payment_method, payment_date) = match &row.payment {
        Some(t) => {
            let p = parse_payment(t.as_str(), dialect);
            (p.method, p.date)
        },
        None => (None, None),
    };
    Ok(
        BillingRecord {
            period,
            usage_window,
            energy_usage,
            billed_amount,
            amount_paid,
            amount_unpaid,
            payment_method,
            payment_date,
        },
    )
}

} // verus!
