//! Dates with a time of day, as `chrono` parses them.

use chrono::Datelike;
use chrono::Timelike;
use vstd::prelude::*;

verus! {

/// A calendar date and a time of day, without a time zone.
#[derive(Clone, Copy, Debug, PartialEq, Eq, Structural)]
pub struct DateTime {
    pub year: i32,
    pub month: u32,
    pub day: u32,
    pub hour: u32,
    pub minute: u32,
    pub second: u32,
    pub nanosecond: u32,
}

impl View for DateTime {
    type V = DateTime;

    open spec fn view(&self) -> DateTime {
        *self
    }
}

impl DeepView for DateTime {
    type V = DateTime;

    open spec fn deep_view(&self) -> DateTime {
        *self
    }
}

/// What came of reading one text by one format.
pub enum DateParse {
    /// The text is a date in that format.
    Parsed(DateTime),
    /// The format itself is malformed; the text says how.
    BadFormat(String),
    /// The format is sound and the text does not fit it.
    Mismatch,
}

/// [`DateParse`] as plain values.
pub ghost enum DateParseView {
    Parsed(DateTime),
    BadFormat(Seq<char>),
    Mismatch,
}

impl View for DateParse {
    type V = DateParseView;

    open spec fn view(&self) -> DateParseView {
        match self {
            DateParse::Parsed(date) => DateParseView::Parsed(*date),
            DateParse::BadFormat(detail) => DateParseView::BadFormat(detail@),
            DateParse::Mismatch => DateParseView::Mismatch,
        }
    }
}

/// What `chrono` makes of `text` read by `format`.
pub uninterp spec fn chrono_parse(text: Seq<char>, format: Seq<char>) -> DateParseView;

/// Calls `chrono::NaiveDateTime::parse_from_str`. A date is copied out field
/// by field. Of an error only its kind is read: `BadFormat` is kept apart,
/// with the error's message, and every other kind is a mismatch.
#[verifier::external_body]
pub(crate) fn parse_date_time(text: &str, format: &str) -> (outcome: DateParse)
    ensures
        outcome@ == chrono_parse(text@, format@),
{
    match chrono::NaiveDateTime::parse_from_str(text, format) {
        Ok(date) => DateParse::Parsed(DateTime {
            year: date.year(), month: date.month(), day: date.day(),
            hour: date.hour(), minute: date.minute(), second: date.second(),
            nanosecond: date.nanosecond(),
        }),
        Err(error) => match error.kind() {
            chrono::format::ParseErrorKind::BadFormat => DateParse::BadFormat(error.to_string()),
            _ => DateParse::Mismatch,
        },
    }
}

} // verus!
