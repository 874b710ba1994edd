//! The errors that the library reports.

use vstd::prelude::*;

verus! {

/// Which kind of field a text was read as when it failed to parse.
#[derive(Clone, Copy, Debug, PartialEq, Eq, Structural)]
pub enum FieldKind {
    /// A calendar date or a billing month.
    Date,
    /// A currency amount.
    Amount,
    /// An energy quantity.
    Usage,
}

/// A text that could not be read as the field it stands for.
#[derive(Clone, Debug)]
pub struct ParseError {
    /// The kind of field that was expected.
    pub kind: FieldKind,
    /// The text as it was handed in.
    pub raw: String,
}

impl ParseError {
    /// Whether this error reports `raw` as a failed field of kind `kind`.
    pub open spec fn reports(self, kind: FieldKind, raw: Seq<char>) -> bool {
        self.kind == kind && self.raw@ == raw
    }

    /// The error for `raw` read as a field of kind `kind`.
    pub fn new(kind: FieldKind, raw: &str) -> (e: ParseError)
        ensures
            e.reports(kind, raw@),
    {
        ParseError { kind, raw: String::from_str(raw) }
    }

    /// A one-line description that names the offending text.
    pub fn message(&self) -> (m: String)
        ensures
            m@ == message_prefix(self.kind) + self.raw@,
    {
        let mut m = match self.kind {
            FieldKind::Date => String::from_str("cannot parse date: "),
            FieldKind::Amount => String::from_str("cannot parse amount: "),
            FieldKind::Usage => String::from_str("cannot parse usage: "),
        };
        m.append(self.raw.as_str());
        m
    }
}

/// The words with which the description of a failed field of kind `kind` begins.
pub open spec fn message_prefix(kind: FieldKind) -> Seq<char> {
    match kind {
        FieldKind::Date => "cannot parse date: "@,
        FieldKind::Amount => "cannot parse amount: "@,
        FieldKind::Usage => "cannot parse usage: "@,
    }
}

/// Why a navigation run was aborted.
#[derive(Clone, Debug)]
pub enum NavigationError {
    /// No element matching the locator appeared in time.
    NavigationTimeout { locator: String },
    /// An action still failed after the last permitted attempt.
    RetryExhausted { locator: String, attempts: u32 },
    /// No option of the range picker shows the wanted text.
    OptionNotFound { text: String },
}

} // verus!
