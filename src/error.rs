//! Classification of extraction failures.

use vstd::prelude::*;

verus! {

/// Why a candidate record, or a whole document, was rejected.
#[derive(Debug, Clone, PartialEq, Eq)]
pub enum ParseError {
    /// The price node holds the "no price yet" placeholder (`-.--`).
    InvalidPriceError { html: String, regex: String },
    /// The update node is blank: the source has no data for the station yet.
    InvalidUpdatedError { html: String, regex: String },
    /// A field node is missing from the item.
    HtmlSelectError { html: String, selector: String },
    /// A field node's text does not have the expected shape.
    RegexMismatchError { html: String, regex: String },
    /// A digit group does not denote a byte.
    ParseIntError { text: String },
    /// The day and time read do not name a single instant in local time.
    TimestampError { html: String },
    /// The document holds no price list.
    ListNotFoundError,
    /// A pattern of the markup contract is rejected by the regex engine.
    InvalidPatternError { regex: String },
}

/// The variant of a `ParseError`, without its payload.
#[derive(Debug, Clone, Copy, PartialEq, Eq)]
pub enum ErrorKind {
    InvalidPrice,
    InvalidUpdated,
    HtmlSelect,
    RegexMismatch,
    ParseInt,
    Timestamp,
    ListNotFound,
    InvalidPattern,
}

impl ParseError {
    pub open spec fn spec_kind(&self) -> ErrorKind {
        match self {
            ParseError::InvalidPriceError { .. } => ErrorKind::InvalidPrice,
            ParseError::InvalidUpdatedError { .. } => ErrorKind::InvalidUpdated,
            ParseError::HtmlSelectError { .. } => ErrorKind::HtmlSelect,
            ParseError::RegexMismatchError { .. } => ErrorKind::RegexMismatch,
            ParseError::ParseIntError { .. } => ErrorKind::ParseInt,
            ParseError::TimestampError { .. } => ErrorKind::Timestamp,
            ParseError::ListNotFoundError => ErrorKind::ListNotFound,
            ParseError::InvalidPatternError { .. } => ErrorKind::InvalidPattern,
        }
    }

    #[verifier::when_used_as_spec(spec_kind)]
    pub fn kind(&self) -> (r: ErrorKind)
        ensures
            r == self.spec_kind(),
    {
        match self {
            ParseError::InvalidPriceError { .. } => ErrorKind::InvalidPrice,
            ParseError::InvalidUpdatedError { .. } => ErrorKind::InvalidUpdated,
            ParseError::HtmlSelectError { .. } => ErrorKind::HtmlSelect,
            ParseError::RegexMismatchError { .. } => ErrorKind::RegexMismatch,
            ParseError::ParseIntError { .. } => ErrorKind::ParseInt,
            ParseError::TimestampError { .. } => ErrorKind::Timestamp,
            ParseError::ListNotFoundError => ErrorKind::ListNotFound,
            ParseError::InvalidPatternError { .. } => ErrorKind::InvalidPattern,
        }
    }

    /// The markup that a rejection of a field reports: the field node's text,
    /// or for a missing node the entry's markup.
    pub open spec fn spec_markup(&self) -> Seq<char> {
        match self {
            ParseError::InvalidPriceError { html, .. } => html@,
            ParseError::InvalidUpdatedError { html, .. } => html@,
            ParseError::HtmlSelectError { html, .. } => html@,
            ParseError::RegexMismatchError { html, .. } => html@,
            ParseError::ParseIntError { text } => text@,
            ParseError::TimestampError { html } => html@,
            _ => Seq::empty(),
        }
    }

    /// Benign rejections: the source itself marks the field as not available
    /// yet. They are expected and logged at low severity; every other kind
    /// hints at a change of the source's markup.
    pub open spec fn spec_is_benign(&self) -> bool {
        self.spec_kind() == ErrorKind::InvalidPrice || self.spec_kind() == ErrorKind::InvalidUpdated
    }

    #[verifier::when_used_as_spec(spec_is_benign)]
    pub fn is_benign(&self) -> (r: bool)
        ensures
            r == self.spec_is_benign(),
    {
        match self {
            ParseError::InvalidPriceError { .. } | ParseError::InvalidUpdatedError { .. } => true,
            _ => false,
        }
    }

    /// A one-line description of the rejection, followed by the markup or
    /// pattern involved.
    pub fn message(&self) -> String {
        let (head, detail) = match self {
            ParseError::InvalidPriceError { html, .. } => ("invalid price detected", html.as_str()),
            ParseError::InvalidUpdatedError { html, .. } => (
                "invalid updated timestamp detected",
                html.as_str(),
            ),
            ParseError::HtmlSelectError { selector, .. } => ("html select error", selector.as_str()),
            ParseError::RegexMismatchError { html, .. } => ("regex mismatch error", html.as_str()),
            ParseError::ParseIntError { text } => ("string to number conversion error", text.as_str()),
            ParseError::TimestampError { html } => ("no single local instant for timestamp", html.as_str()),
            ParseError::ListNotFoundError => ("price list not found", ""),
            ParseError::InvalidPatternError { regex } => ("invalid pattern", regex.as_str()),
        };
        let mut out = String::from_str(head);
        out.append(": ");
        out.append(detail);
        out
    }
}

} // verus!
