//! Errors, and the text that describes each of them.

use crate::text::{joined, push_decimal, push_list, decimal_text, views};
use vstd::prelude::*;
use vstd::string::*;

verus! {

/// A place in the text of a document, counted from zero.
#[derive(Debug, Clone, Copy, PartialEq, Eq)]
pub struct TextPosition {
    pub row: u64,
    pub column: u64,
}

impl TextPosition {
    /// The position as a reader sees it, `row:column`, both counted from one.
    pub open spec fn text(self) -> Seq<char> {
        decimal_text((self.row + 1) as nat) + ":"@ + decimal_text((self.column + 1) as nat)
    }

    /// Appends `self.text()` to `out`.
    pub fn push_to(&self, out: &mut String)
        ensures
            final(out)@ == old(out)@ + self.text(),
    {
        push_decimal(out, self.row as u128 + 1);
        out.append(":");
        push_decimal(out, self.column as u128 + 1);
        assert(final(out)@ =~= old(out)@ + self.text());
    }
}

/// Why a run of digits is not a number that fits.
#[derive(Debug, Clone, Copy, PartialEq, Eq)]
pub enum IntErrorKind {
    /// There was no text at all.
    Empty,
    /// A character that is not a digit, or a sign with nothing after it.
    InvalidDigit,
    /// The number is larger than the largest that can be held.
    PosOverflow,
}

/// An integer was formatted incorrectly.
#[derive(Debug, Clone, Copy, PartialEq, Eq)]
pub struct ParseIntError {
    pub kind: IntErrorKind,
}

/// Why a text is not a decimal number.
#[derive(Debug, Clone, Copy, PartialEq, Eq)]
pub enum FloatErrorKind {
    /// There was no text at all.
    Empty,
    /// The text does not have the form of a number.
    Invalid,
}

/// A decimal number was formatted incorrectly.
#[derive(Debug, Clone, Copy, PartialEq, Eq)]
pub struct ParseFloatError {
    pub kind: FloatErrorKind,
}

/// Why a text is not a date and time.
#[derive(Debug, Clone, Copy, PartialEq, Eq)]
pub enum TimeErrorKind {
    /// A field is out of the range that it may have.
    OutOfRange,
    /// No date and time has the fields that were given.
    Impossible,
    /// The fields that were given are not enough for a date and time.
    NotEnough,
    /// The text has characters that do not belong there.
    Invalid,
    /// The text ends too early.
    TooShort,
    /// Something follows the date and time.
    TooLong,
    /// Any other failure.
    BadFormat,
}

/// A date and time was formatted incorrectly.
#[derive(Debug, Clone, Copy, PartialEq, Eq)]
pub struct TimeError {
    pub kind: TimeErrorKind,
}

/// A reference to another element did not begin with `#`.
#[derive(Debug, Clone, Copy, PartialEq, Eq)]
pub struct UriFragmentParseError;

/// The markup of the document was malformed; `message` says how.
#[derive(Debug, Clone, PartialEq, Eq)]
pub struct XmlError {
    pub message: String,
}

/// The specific error variant.
#[derive(Debug, Clone, PartialEq, Eq)]
pub enum ErrorKind {
    /// An element was missing a required attribute.
    MissingAttribute { element: &'static str, attribute: &'static str },
    /// A required child was missing. With several names in `expected`, at least
    /// one of them is required.
    MissingElement { parent: &'static str, expected: Vec<&'static str> },
    /// An element was missing required text data.
    MissingValue { element: &'static str },
    /// A decimal number was formatted incorrectly.
    ParseFloatError(ParseFloatError),
    /// An integer was formatted incorrectly.
    ParseIntError(ParseIntError),
    /// A date and time was formatted incorrectly.
    TimeError(TimeError),
    /// An element had an attribute that isn't allowed; `expected` lists the
    /// attributes that are.
    UnexpectedAttribute { element: &'static str, attribute: String, expected: Vec<&'static str> },
    /// An element that may only have children contained text.
    UnexpectedCharacterData { element: &'static str, data: String },
    /// An element had a child that isn't allowed, or that is allowed but came
    /// out of order; `expected` lists the children that `parent` may still
    /// have at that point.
    UnexpectedElement { parent: &'static str, element: String, expected: Vec<&'static str> },
    /// The document started with something other than `<COLLADA>`.
    UnexpectedRootElement { element: String },
    /// An element or attribute contained text that is not one of the values
    /// it may have.
    InvalidValue { element: &'static str, value: String },
    /// The document asked for a version of the format that is not supported.
    UnsupportedVersion { version: String },
    /// There was an invalid URI fragment in the document.
    UriFragmentParseError(UriFragmentParseError),
    /// The markup of the document was malformed.
    XmlError(XmlError),
}

/// What an [`ErrorKind`] holds, as mathematical values.
pub enum ErrorKindView {
    MissingAttribute { element: Seq<char>, attribute: Seq<char> },
    MissingElement { parent: Seq<char>, expected: Seq<Seq<char>> },
    MissingValue { element: Seq<char> },
    ParseFloatError(FloatErrorKind),
    ParseIntError(IntErrorKind),
    TimeError(TimeErrorKind),
    UnexpectedAttribute { element: Seq<char>, attribute: Seq<char>, expected: Seq<Seq<char>> },
    UnexpectedCharacterData { element: Seq<char>, data: Seq<char> },
    UnexpectedElement { parent: Seq<char>, element: Seq<char>, expected: Seq<Seq<char>> },
    UnexpectedRootElement { element: Seq<char> },
    InvalidValue { element: Seq<char>, value: Seq<char> },
    UnsupportedVersion { version: Seq<char> },
    UriFragmentParseError,
    XmlError { message: Seq<char> },
}

impl View for ErrorKind {
    type V = ErrorKindView;

    open spec fn view(&self) -> ErrorKindView {
        match *self {
            ErrorKind::MissingAttribute { element, attribute } => ErrorKindView::MissingAttribute {
                element: element@,
                attribute: attribute@,
            },
            ErrorKind::MissingElement { parent, expected } => ErrorKindView::MissingElement {
                parent: parent@,
                expected: views(expected@),
            },
            ErrorKind::MissingValue { element } => ErrorKindView::MissingValue {
                element: element@,
            },
            ErrorKind::ParseFloatError(e) => ErrorKindView::ParseFloatError(e.kind),
            ErrorKind::ParseIntError(e) => ErrorKindView::ParseIntError(e.kind),
            ErrorKind::TimeError(e) => ErrorKindView::TimeError(e.kind),
            ErrorKind::UnexpectedAttribute {
                element,
                attribute,
                expected,
            } => ErrorKindView::UnexpectedAttribute {
                element: element@,
                attribute: attribute@,
                expected: views(expected@),
            },
            ErrorKind::UnexpectedCharacterData {
                element,
                data,
            } => ErrorKindView::UnexpectedCharacterData { element: element@, data: data@ },
            ErrorKind::UnexpectedElement {
                parent,
                element,
                expected,
            } => ErrorKindView::UnexpectedElement {
                parent: parent@,
                element: element@,
                expected: views(expected@),
            },
            ErrorKind::UnexpectedRootElement { element } => ErrorKindView::UnexpectedRootElement {
                element: element@,
            },
            ErrorKind::InvalidValue { element, value } => ErrorKindView::InvalidValue {
                element: element@,
                value: value@,
            },
            ErrorKind::UnsupportedVersion { version } => ErrorKindView::UnsupportedVersion {
                version: version@,
            },
            ErrorKind::UriFragmentParseError(_) => ErrorKindView::UriFragmentParseError,
            ErrorKind::XmlError(e) => ErrorKindView::XmlError { message: e.message@ },
        }
    }
}

/// A COLLADA parsing error: where in the document it occurred, and what it was.
#[derive(Debug, Clone, PartialEq, Eq)]
pub struct Error {
    pub position: TextPosition,
    pub kind: ErrorKind,
}

/// What an [`Error`] holds, as mathematical values.
pub struct ErrorView {
    pub position: TextPosition,
    pub kind: ErrorKindView,
}

impl View for Error {
    type V = ErrorView;

    open spec fn view(&self) -> ErrorView {
        ErrorView { position: self.position, kind: self.kind@ }
    }
}

/// A specialized result type for COLLADA parsing.
pub type Result<T> = std::result::Result<T, Error>;

/// `text` as Rust writes a string for a programmer to read: in double quotes,
/// with the characters that need it escaped.
pub uninterp spec fn debug_quoted(text: Seq<char>) -> Seq<char>;

/// Calls `format!` with `{:?}` on `text`, which is `<str as Debug>::fmt`: the
/// result is a function of the characters of `text` alone.
#[verifier::external_body]
fn debug_quote(text: &str) -> (r: String)
    ensures
        r@ == debug_quoted(text@),
{
    format!("{:?}", text)
}

impl IntErrorKind {
    /// The sentence that says what is wrong.
    pub open spec fn message(self) -> Seq<char> {
        match self {
            IntErrorKind::Empty => "cannot parse integer from empty string"@,
            IntErrorKind::InvalidDigit => "invalid digit found in string"@,
            IntErrorKind::PosOverflow => "number too large to fit in target type"@,
        }
    }
}

impl FloatErrorKind {
    /// The sentence that says what is wrong.
    pub open spec fn message(self) -> Seq<char> {
        match self {
            FloatErrorKind::Empty => "cannot parse float from empty string"@,
            FloatErrorKind::Invalid => "invalid float literal"@,
        }
    }
}

impl TimeErrorKind {
    /// The sentence that says what is wrong.
    pub open spec fn message(self) -> Seq<char> {
        match self {
            TimeErrorKind::OutOfRange => "input is out of range"@,
            TimeErrorKind::Impossible => "no possible date and time matching input"@,
            TimeErrorKind::NotEnough => "input is not enough for unique date and time"@,
            TimeErrorKind::Invalid => "input contains invalid characters"@,
            TimeErrorKind::TooShort => "premature end of input"@,
            TimeErrorKind::TooLong => "trailing input"@,
            TimeErrorKind::BadFormat => "bad or unsupported format string"@,
        }
    }
}

impl ErrorKindView {
    /// The sentence that describes the error.
    pub open spec fn message(self) -> Seq<char> {
        match self {
            ErrorKindView::MissingAttribute { element, attribute } => "<"@ + element
                + "> is missing the required attribute \""@ + attribute + "\""@,
            ErrorKindView::MissingElement { parent, expected } => if expected.len() == 1 {
                "<"@ + parent + "> is missing a required child element: "@ + expected[0]
            } else {
                "<"@ + parent + "> is missing a required child element (may be one of "@ + joined(
                    expected,
                    ", "@,
                ) + ")"@
            },
            ErrorKindView::MissingValue { element } => "<"@ + element
                + "> is missing required text data"@,
            ErrorKindView::ParseFloatError(kind) => kind.message(),
            ErrorKindView::ParseIntError(kind) => kind.message(),
            ErrorKindView::TimeError(kind) => kind.message(),
            ErrorKindView::UnexpectedAttribute { element, attribute, expected } => "<"@ + element
                + "> had an an attribute \""@ + attribute
                + "\" that is not allowed, only the following attributes are allowed for <"@
                + element + ">: "@ + joined(expected, ", "@),
            ErrorKindView::UnexpectedCharacterData { element, data } => "<"@ + element
                + "> contained non-markup text data which isn't allowed"@,
            ErrorKindView::UnexpectedElement { parent, element, expected } => "<"@ + parent
                + "> had a child <"@ + element + "> which is not allowed, <"@ + parent
                + "> may only have the following children: "@ + joined(expected, ", "@),
            ErrorKindView::UnexpectedRootElement { element } => "Document began with <"@ + element
                + "> instead of <COLLADA>"@,
            ErrorKindView::InvalidValue { element, value } => "<"@ + element
                + "> contained an unexpected value "@ + debug_quoted(value),
            ErrorKindView::UnsupportedVersion { version } => "Unsupported COLLADA version "@
                + debug_quoted(version)
                + ", supported versions are \"1.4.0\", \"1.4.1\", \"1.5.0\""@,
            ErrorKindView::UriFragmentParseError => "URI fragment does not begin with '#'"@,
            ErrorKindView::XmlError { message } => message,
        }
    }
}

impl ErrorView {
    /// The sentence that describes the error and says where it was found.
    pub open spec fn message(self) -> Seq<char> {
        "Error at "@ + self.position.text() + ": "@ + self.kind.message()
    }
}

impl IntErrorKind {
    /// The sentence that says what is wrong.
    pub fn as_str(&self) -> (r: &'static str)
        ensures
            r@ == self.message(),
    {
        match self {
            IntErrorKind::Empty => "cannot parse integer from empty string",
            IntErrorKind::InvalidDigit => "invalid digit found in string",
            IntErrorKind::PosOverflow => "number too large to fit in target type",
        }
    }
}

impl FloatErrorKind {
    /// The sentence that says what is wrong.
    pub fn as_str(&self) -> (r: &'static str)
        ensures
            r@ == self.message(),
    {
        match self {
            FloatErrorKind::Empty => "cannot parse float from empty string",
            FloatErrorKind::Invalid => "invalid float literal",
        }
    }
}

impl TimeErrorKind {
    /// The sentence that says what is wrong.
    pub fn as_str(&self) -> (r: &'static str)
        ensures
            r@ == self.message(),
    {
        match self {
            TimeErrorKind::OutOfRange => "input is out of range",
            TimeErrorKind::Impossible => "no possible date and time matching input",
            TimeErrorKind::NotEnough => "input is not enough for unique date and time",
            TimeErrorKind::Invalid => "input contains invalid characters",
            TimeErrorKind::TooShort => "premature end of input",
            TimeErrorKind::TooLong => "trailing input",
            TimeErrorKind::BadFormat => "bad or unsupported format string",
        }
    }
}

impl ErrorKind {
    /// Appends the sentence that describes the error to `out`.
    pub fn push_to(&self, out: &mut String)
        ensures
            final(out)@ == old(out)@ + self@.message(),
    {
        match self {
            ErrorKind::MissingAttribute { element, attribute } => {
                out.append("<");
                out.append(element);
                out.append("> is missing the required attribute \"");
                out.append(attribute);
                out.append("\"");
            },
            ErrorKind::MissingElement { parent, expected } => {
                out.append("<");
                out.append(parent);
                if expected.len() == 1 {
                    out.append("> is missing a required child element: ");
                    out.append(expected[0]);
                    assert(views(expected@)[0] == expected@[0]@);
                } else {
                    out.append("> is missing a required child element (may be one of ");
                    push_list(out, expected.as_slice());
                    out.append(")");
                }
            },
            ErrorKind::MissingValue { element } => {
                out.append("<");
                out.append(element);
                out.append("> is missing required text data");
            },
            ErrorKind::ParseFloatError(e) => {
                out.append(e.kind.as_str());
            },
            ErrorKind::ParseIntError(e) => {
                out.append(e.kind.as_str());
            },
            ErrorKind::TimeError(e) => {
                out.append(e.kind.as_str());
            },
            ErrorKind::UnexpectedAttribute { element, attribute, expected } => {
                out.append("<");
                out.append(element);
                out.append("> had an an attribute \"");
                out.append(attribute.as_str());
                out.append("\" that is not allowed, only the following attributes are allowed for <");
                out.append(element);
                out.append(">: ");
                push_list(out, expected.as_slice());
            },
            ErrorKind::UnexpectedCharacterData { element, data } => {
                out.append("<");
                out.append(element);
                out.append("> contained non-markup text data which isn't allowed");
            },
            ErrorKind::UnexpectedElement { parent, element, expected } => {
                out.append("<");
                out.append(parent);
                out.append("> had a child <");
                out.append(element.as_str());
                out.append("> which is not allowed, <");
                out.append(parent);
                out.append("> may only have the following children: ");
                push_list(out, expected.as_slice());
            },
            ErrorKind::UnexpectedRootElement { element } => {
                out.append("Document began with <");
                out.append(element.as_str());
                out.append("> instead of <COLLADA>");
            },
            ErrorKind::InvalidValue { element, value } => {
                out.append("<");
                out.append(element);
                out.append("> contained an unexpected value ");
                let quoted = debug_quote(value.as_str());
                out.append(quoted.as_str());
            },
            ErrorKind::UnsupportedVersion { version } => {
                out.append("Unsupported COLLADA version ");
                let quoted = debug_quote(version.as_str());
                out.append(quoted.as_str());
                out.append(", supported versions are \"1.4.0\", \"1.4.1\", \"1.5.0\"");
            },
            ErrorKind::UriFragmentParseError(_) => {
                out.append("URI fragment does not begin with '#'");
            },
            ErrorKind::XmlError(e) => {
                out.append(e.message.as_str());
            },
        }
        assert(final(out)@ =~= old(out)@ + self@.message());
    }

    /// The sentence that describes the error.
    pub fn message(&self) -> (r: String)
        ensures
            r@ == self@.message(),
    {
        let mut out = String::new();
        self.push_to(&mut out);
        assert(out@ =~= self@.message());
        out
    }
}

impl Error {
    /// The sentence that describes the error and says where it was found.
    pub fn message(&self) -> (r: String)
        ensures
            r@ == self@.message(),
    {
        let mut out = String::new();
        out.append("Error at ");
        self.position.push_to(&mut out);
        out.append(": ");
        self.kind.push_to(&mut out);
        assert(out@ =~= self@.message());
        out
    }
}

/// A list of names, to be written with a comma and a space between neighbours.
pub struct StringListDisplay<'a>(pub &'a [&'static str]);

impl<'a> StringListDisplay<'a> {
    /// The names, separated by a comma and a space.
    pub fn text(&self) -> (r: String)
        ensures
            r@ == joined(views(self.0@), ", "@),
    {
        let mut out = String::new();
        push_list(&mut out, self.0);
        assert(out@ =~= joined(views(self.0@), ", "@));
        out
    }
}

} // verus!
