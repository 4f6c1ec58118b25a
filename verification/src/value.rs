//! The values that attributes and element text are decoded to.

use crate::common::DateTime;
use crate::error::{ErrorKind, ErrorKindView, ParseFloatError, ParseIntError, UriFragmentParseError};
use crate::number::{
    check_decimal, check_decimal_in, parse_decimal_list, parse_decimal_words, parse_unsigned,
    parse_unsigned_in, parse_unsigned_list, parse_unsigned_words, spans_view,
};
use crate::text::{str_eq, views};
use vstd::prelude::*;
use vstd::string::*;
use vstd::utf8::encode_utf8;

verus! {

/// What kind of value a text is to be decoded to.
#[derive(Debug, Clone, PartialEq, Eq)]
pub enum ValueKind {
    /// Any text, taken as it stands.
    Text,
    /// An unsigned integer.
    Integer,
    /// A decimal number.
    Decimal,
    /// A date and time.
    Time,
    /// A reference to another element of the document: `#` and its identifier.
    Fragment,
    /// Unsigned integers separated by white space.
    Integers,
    /// Decimal numbers separated by white space.
    Decimals,
    /// One of the given words.
    Enumerated(Vec<&'static str>),
}

/// What a [`ValueKind`] holds, as mathematical values.
pub enum ValueKindView {
    Text,
    Integer,
    Decimal,
    Time,
    Fragment,
    Integers,
    Decimals,
    Enumerated(Seq<Seq<char>>),
}

impl View for ValueKind {
    type V = ValueKindView;

    open spec fn view(&self) -> ValueKindView {
        match *self {
            ValueKind::Text => ValueKindView::Text,
            ValueKind::Integer => ValueKindView::Integer,
            ValueKind::Decimal => ValueKindView::Decimal,
            ValueKind::Time => ValueKindView::Time,
            ValueKind::Fragment => ValueKindView::Fragment,
            ValueKind::Integers => ValueKindView::Integers,
            ValueKind::Decimals => ValueKindView::Decimals,
            ValueKind::Enumerated(words) => ValueKindView::Enumerated(views(words@)),
        }
    }
}

/// Decimal numbers separated by white space: the text as it was written, and
/// for each number the bytes of the text at which it begins and ends.
#[derive(Debug, Clone, PartialEq, Eq)]
pub struct DecimalList {
    pub text: String,
    pub spans: Vec<(usize, usize)>,
}

/// A decoded value.
#[derive(Debug, Clone, PartialEq, Eq)]
pub enum Value {
    Text(String),
    Integer(usize),
    /// A decimal number, as it was written.
    Decimal(String),
    Time(DateTime),
    Integers(Vec<usize>),
    Decimals(DecimalList),
    /// Which of the words of an enumeration was written, counted from zero.
    Choice(usize),
}

/// What a [`Value`] holds, as a mathematical value.
pub enum ValueView {
    Text(Seq<char>),
    Integer(usize),
    Decimal(Seq<char>),
    Time(DateTime),
    Integers(Seq<usize>),
    Decimals { text: Seq<char>, spans: Seq<(int, int)> },
    Choice(int),
}

impl View for Value {
    type V = ValueView;

    open spec fn view(&self) -> ValueView {
        match *self {
            Value::Text(s) => ValueView::Text(s@),
            Value::Integer(n) => ValueView::Integer(n),
            Value::Decimal(s) => ValueView::Decimal(s@),
            Value::Time(t) => ValueView::Time(t),
            Value::Integers(v) => ValueView::Integers(v@),
            Value::Decimals(list) => ValueView::Decimals {
                text: list.text@,
                spans: spans_view(list.spans@),
            },
            Value::Choice(i) => ValueView::Choice(i as int),
        }
    }
}

/// The first place in `names` that holds `name`.
pub open spec fn position_of(names: Seq<Seq<char>>, name: Seq<char>) -> Option<int>
    decreases names.len(),
{
    if names.len() == 0 {
        None
    } else {
        match position_of(names.drop_last(), name) {
            Some(i) => Some(i),
            None => if names.last() == name {
                Some(names.len() - 1)
            } else {
                None
            },
        }
    }
}

/// `position_of` gives a place that holds the name and has no such place before
/// it, and gives none only where no place holds the name.
pub proof fn lemma_position_of(names: Seq<Seq<char>>, name: Seq<char>)
    ensures
        match position_of(names, name) {
            Some(i) => 0 <= i < names.len() && names[i] == name && forall|j: int|
                0 <= j < i ==> names[j] != name,
            None => forall|j: int| 0 <= j < names.len() ==> names[j] != name,
        },
    decreases names.len(),
{
    if names.len() > 0 {
        let front = names.drop_last();
        lemma_position_of(front, name);
        assert(forall|j: int| 0 <= j < front.len() ==> front[j] == names[j]);
    }
}

/// The first place in `names` that holds `name`.
pub fn find_name(names: &[&'static str], name: &str) -> (r: Option<usize>)
    ensures
        r.is_some() == position_of(views(names@), name@).is_some(),
        r matches Some(i) ==> Some(i as int) == position_of(views(names@), name@),
{
    let mut i: usize = 0;
    while i < names.len()
        invariant
            i <= names.len(),
            position_of(views(names@).take(i as int), name@).is_none(),
        decreases names.len() - i,
    {
        proof {
            lemma_position_found(views(names@), i as int, name@);
        }
        if str_eq(names[i], name) {
            return Some(i);
        }
        i += 1;
    }
    assert(views(names@).take(names.len() as int) =~= views(names@));
    None
}

/// Where no place before `i` holds the name, looking at one more place
/// decides: with the name at `i` the answer is `i` for good; without it no
/// place up to `i` holds the name.
pub proof fn lemma_position_found(names: Seq<Seq<char>>, i: int, name: Seq<char>)
    requires
        0 <= i < names.len(),
        position_of(names.take(i), name).is_none(),
    ensures
        names[i] == name ==> position_of(names, name) == Some(i),
        names[i] != name ==> position_of(names.take(i + 1), name).is_none(),
{
    assert(names.take(i + 1).drop_last() =~= names.take(i));
    lemma_position_stays(names, i + 1, name);
}

/// A name found among the first `n` places is found at the same place among
/// all of them.
pub proof fn lemma_position_stays(names: Seq<Seq<char>>, n: int, name: Seq<char>)
    requires
        0 <= n <= names.len(),
    ensures
        position_of(names.take(n), name).is_some() ==> position_of(names, name) == position_of(
            names.take(n),
            name,
        ),
    decreases names.len() - n,
{
    if n < names.len() {
        lemma_position_stays(names, n + 1, name);
        assert(names.take(n + 1).drop_last() =~= names.take(n));
    } else {
        assert(names.take(n) =~= names);
    }
}

/// What a text of the kind `kind` is decoded to. `element` is the element that
/// the text belongs to, for the error.
pub open spec fn decode_spec(kind: ValueKindView, text: Seq<char>, element: Seq<char>) -> Result<
    ValueView,
    ErrorKindView,
> {
    match kind {
        ValueKindView::Text => Ok(ValueView::Text(text)),
        ValueKindView::Integer => match parse_unsigned(encode_utf8(text)) {
            Ok(n) => Ok(ValueView::Integer(n)),
            Err(e) => Err(ErrorKindView::ParseIntError(e)),
        },
        ValueKindView::Decimal => match check_decimal(encode_utf8(text)) {
            Ok(_) => Ok(ValueView::Decimal(text)),
            Err(e) => Err(ErrorKindView::ParseFloatError(e)),
        },
        ValueKindView::Time => match DateTime::of(text) {
            Ok(t) => Ok(ValueView::Time(t)),
            Err(e) => Err(ErrorKindView::TimeError(e.kind)),
        },
        ValueKindView::Fragment => if text.len() > 0 && text[0] == '#' {
            Ok(ValueView::Text(text.skip(1)))
        } else {
            Err(ErrorKindView::UriFragmentParseError)
        },
        ValueKindView::Integers => match parse_unsigned_list(encode_utf8(text), 0) {
            Ok(list) => Ok(ValueView::Integers(list)),
            Err(e) => Err(ErrorKindView::ParseIntError(e)),
        },
        ValueKindView::Decimals => match parse_decimal_list(encode_utf8(text), 0) {
            Ok(spans) => Ok(ValueView::Decimals { text, spans }),
            Err(e) => Err(ErrorKindView::ParseFloatError(e)),
        },
        ValueKindView::Enumerated(words) => match position_of(words, text) {
            Some(i) => Ok(ValueView::Choice(i)),
            None => Err(ErrorKindView::InvalidValue { element, value: text }),
        },
    }
}

/// Whether a result holds what `expected` describes.
pub open spec fn agrees<T: View, E: View>(r: Result<T, E>, expected: Result<T::V, E::V>) -> bool {
    match expected {
        Ok(v) => r is Ok && r->Ok_0@ == v,
        Err(e) => r is Err && r->Err_0@ == e,
    }
}

/// Decodes `text` to a value of the kind `kind`.
pub fn decode(kind: &ValueKind, text: &str, element: &'static str) -> (r: Result<Value, ErrorKind>)
    ensures
        agrees(r, decode_spec(kind@, text@, element@)),
{
    match kind {
        ValueKind::Text => Ok(Value::Text(text.to_owned())),
        ValueKind::Integer => {
            let bytes = text.as_bytes();
            assert(bytes@.subrange(0, bytes@.len() as int) =~= bytes@);
            match parse_unsigned_in(bytes, 0, bytes.len()) {
                Ok(n) => Ok(Value::Integer(n)),
                Err(kind) => Err(ErrorKind::ParseIntError(ParseIntError { kind })),
            }
        },
        ValueKind::Decimal => {
            let bytes = text.as_bytes();
            assert(bytes@.subrange(0, bytes@.len() as int) =~= bytes@);
            match check_decimal_in(bytes, 0, bytes.len()) {
                Ok(_) => Ok(Value::Decimal(text.to_owned())),
                Err(kind) => Err(ErrorKind::ParseFloatError(ParseFloatError { kind })),
            }
        },
        ValueKind::Time => match DateTime::from_str(text) {
            Ok(t) => Ok(Value::Time(t)),
            Err(e) => Err(ErrorKind::TimeError(e)),
        },
        ValueKind::Fragment => {
            let n = text.unicode_len();
            if n > 0 && text.get_char(0) == '#' {
                let rest = text.substring_char(1, n);
                assert(rest@ =~= text@.skip(1));
                Ok(Value::Text(rest.to_owned()))
            } else {
                Err(ErrorKind::UriFragmentParseError(UriFragmentParseError))
            }
        },
        ValueKind::Integers => match parse_unsigned_words(text.as_bytes()) {
            Ok(list) => Ok(Value::Integers(list)),
            Err(kind) => Err(ErrorKind::ParseIntError(ParseIntError { kind })),
        },
        ValueKind::Decimals => match parse_decimal_words(text.as_bytes()) {
            Ok(spans) => Ok(Value::Decimals(DecimalList { text: text.to_owned(), spans })),
            Err(kind) => Err(ErrorKind::ParseFloatError(ParseFloatError { kind })),
        },
        ValueKind::Enumerated(words) => match find_name(words.as_slice(), text) {
            Some(i) => Ok(Value::Choice(i)),
            None => Err(ErrorKind::InvalidValue { element, value: text.to_owned() }),
        },
    }
}

} // verus!
