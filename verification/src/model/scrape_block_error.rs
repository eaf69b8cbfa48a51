//! The ways an extraction can fail.

use vstd::prelude::*;
use vstd::string::StringExecFns;

verus! {

/// Why an extraction failed. Each kind carries the selector, text or pattern
/// that was at fault.
#[derive(Debug)]
pub enum ScrapeBlockError {
    /// A regular expression of a rule does not compile; holds the pattern.
    InvalidRegex(String),
    /// The extracted text is no absolute URL; holds the text.
    UrlParseError(String),
    /// No element was found, or its text was empty and the rule has no
    /// default, or the cleanup expression matched nothing; holds the selector.
    ElementExpected(String),
    /// The selector led to an empty text; holds the selector.
    EmptyText(String),
    /// A value was asked for as one type and is of another.
    InvalidType { expected: String, found: String },
    /// The extracted text is no integer; holds the text.
    NotAnInteger(String),
    /// The extracted text is no floating-point number; holds the text.
    NotADouble(String),
    /// The extracted text fits none of the date formats; holds the text.
    NotADate(String),
    /// A date format of a rule is malformed; holds the format and what is
    /// wrong with it.
    InvalidDateFormat(String, String),
}

/// [`ScrapeBlockError`] as plain values.
pub ghost enum ErrorView {
    InvalidRegex(Seq<char>),
    UrlParseError(Seq<char>),
    ElementExpected(Seq<char>),
    EmptyText(Seq<char>),
    InvalidType { expected: Seq<char>, found: Seq<char> },
    NotAnInteger(Seq<char>),
    NotADouble(Seq<char>),
    NotADate(Seq<char>),
    InvalidDateFormat(Seq<char>, Seq<char>),
}

impl View for ScrapeBlockError {
    type V = ErrorView;

    open spec fn view(&self) -> ErrorView {
        match self {
            ScrapeBlockError::InvalidRegex(pattern) => ErrorView::InvalidRegex(pattern@),
            ScrapeBlockError::UrlParseError(text) => ErrorView::UrlParseError(text@),
            ScrapeBlockError::ElementExpected(selector) => ErrorView::ElementExpected(selector@),
            ScrapeBlockError::EmptyText(selector) => ErrorView::EmptyText(selector@),
            ScrapeBlockError::InvalidType { expected, found } => ErrorView::InvalidType {
                expected: expected@,
                found: found@,
            },
            ScrapeBlockError::NotAnInteger(text) => ErrorView::NotAnInteger(text@),
            ScrapeBlockError::NotADouble(text) => ErrorView::NotADouble(text@),
            ScrapeBlockError::NotADate(text) => ErrorView::NotADate(text@),
            ScrapeBlockError::InvalidDateFormat(format, detail) => ErrorView::InvalidDateFormat(
                format@,
                detail@,
            ),
        }
    }
}

/// `subject` between `before` and `after`.
pub open spec fn framed(before: Seq<char>, subject: Seq<char>, after: Seq<char>) -> Seq<char> {
    before + subject + after
}

/// What a failure says of itself, in words.
pub open spec fn message_of(error: ErrorView) -> Seq<char> {
    match error {
        ErrorView::InvalidRegex(pattern) => framed("This regex is invalid: `"@, pattern, "`"@),
        ErrorView::UrlParseError(text) => framed("This url is invalid: `"@, text, "`"@),
        ErrorView::ElementExpected(selector) => framed(
            "Expected to find an element but got None: `"@,
            selector,
            "`"@,
        ),
        ErrorView::EmptyText(selector) => framed(
            "Selector `"@,
            selector,
            "` resulted in an empty text"@,
        ),
        ErrorView::InvalidType { expected, found } => framed(
            "ScrapeBlock returned type of \""@,
            found,
            "\", but expected \""@,
        ) + expected + "\""@,
        ErrorView::NotAnInteger(text) => framed("Expected an integer, but got: `"@, text, "`"@),
        ErrorView::NotADouble(text) => framed("Expected a double, but got: `"@, text, "`"@),
        ErrorView::NotADate(text) => framed("Expected a date, but got: `"@, text, "`"@),
        ErrorView::InvalidDateFormat(format, detail) => framed(
            "Invalid date format: `"@,
            format,
            "` "@,
        ) + detail,
    }
}

/// Writes `subject` between `before` and `after`.
pub fn frame(before: &str, subject: &str, after: &str) -> (text: String)
    ensures
        text@ == framed(before@, subject@, after@),
{
    let mut text = String::from_str(before);
    text.append(subject);
    text.append(after);
    text
}

impl ScrapeBlockError {
    /// The failure in words: a fixed sentence around the selector, text or
    /// pattern that was at fault.
    pub fn message(&self) -> (text: String)
        ensures
            text@ == message_of(self@),
    {
        match self {
            ScrapeBlockError::InvalidRegex(pattern) => frame(
                "This regex is invalid: `",
                pattern.as_str(),
                "`",
            ),
            ScrapeBlockError::UrlParseError(text) => frame(
                "This url is invalid: `",
                text.as_str(),
                "`",
            ),
            ScrapeBlockError::ElementExpected(selector) => frame(
                "Expected to find an element but got None: `",
                selector.as_str(),
                "`",
            ),
            ScrapeBlockError::EmptyText(selector) => frame(
                "Selector `",
                selector.as_str(),
                "` resulted in an empty text",
            ),
            ScrapeBlockError::InvalidType { expected, found } => {
                let mut text = frame(
                    "ScrapeBlock returned type of \"",
                    found.as_str(),
                    "\", but expected \"",
                );
                text.append(expected.as_str());
                text.append("\"");
                text
            },
            ScrapeBlockError::NotAnInteger(text) => frame(
                "Expected an integer, but got: `",
                text.as_str(),
                "`",
            ),
            ScrapeBlockError::NotADouble(text) => frame(
                "Expected a double, but got: `",
                text.as_str(),
                "`",
            ),
            ScrapeBlockError::NotADate(text) => frame(
                "Expected a date, but got: `",
                text.as_str(),
                "`",
            ),
            ScrapeBlockError::InvalidDateFormat(format, detail) => {
                let mut text = frame("Invalid date format: `", format.as_str(), "` ");
                text.append(detail.as_str());
                text
            },
        }
    }
}

/// A result whose success is a text, as plain values.
pub open spec fn text_result_view(result: Result<String, ScrapeBlockError>) -> Result<
    Seq<char>,
    ErrorView,
> {
    match result {
        Ok(text) => Ok(text@),
        Err(error) => Err(error@),
    }
}

} // verus!
