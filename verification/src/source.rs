//! The token source: the XML reader of the `xml` crate, and the tokens that
//! are made of its events.

use crate::error::{ErrorKindView, ErrorView, TextPosition};
use crate::source::Event::{DocumentEnd, DocumentStart, ElementEnd, ElementStart, Failure, Other, Text};
use crate::token::{Attribute, Token, TokenKind, TokenKindView, TokenView};
use vstd::prelude::*;
use xml::common::Position;
use xml::reader::XmlEvent::{
    CData, Characters, EndDocument, EndElement, StartDocument, StartElement,
};
use xml::reader::{EventReader, ParserConfig};

verus! {

/// One event of the XML reader, with the part of it that a document of this
/// format can use.
#[derive(Debug, Clone, PartialEq, Eq)]
pub enum Event {
    DocumentStart,
    DocumentEnd,
    ElementStart { name: String, attributes: Vec<Attribute> },
    ElementEnd { name: String },
    /// Character data of any kind.
    Text(String),
    /// A comment, a processing instruction, or white space.
    Other,
    /// The reader found malformed markup in the given row and column.
    Failure { message: String, row: u64, column: u64 },
}

/// An event and the position of the reader after it.
pub struct Reading {
    pub event: Event,
    pub position: TextPosition,
}

/// The XML reader of the `xml` crate at work on the bytes of a document.
#[verifier::external_body]
pub struct DocumentReader<'a> {
    reader: EventReader<&'a [u8]>,
}

/// The readings that `reader` has yet to give, up to the one that ends the
/// document or reports malformed markup.
pub uninterp spec fn pending(reader: DocumentReader) -> Seq<Reading>;

/// The position that `reader` is at: that of the event it gave last.
pub uninterp spec fn reached(reader: DocumentReader) -> TextPosition;

/// The bytes of the document that `reader` was opened on.
pub uninterp spec fn opened_on(reader: DocumentReader) -> Seq<u8>;

/// The readings that a reader gives for the document `source`, read with
/// white space trimmed, comments left out and character data joined.
pub uninterp spec fn document_readings(source: Seq<u8>) -> Seq<Reading>;

/// Whether `event` is the last that a reader gives.
pub open spec fn is_last(event: Event) -> bool {
    event is DocumentEnd || event is Failure
}

/// Whether `readings` come to an end as those of a reader do: the last of
/// them, and no other, ends the document or reports malformed markup.
pub open spec fn terminated(readings: Seq<Reading>) -> bool {
    &&& readings.len() > 0
    &&& forall|i: int|
        0 <= i < readings.len() ==> (is_last(#[trigger] readings[i].event) <==> i == readings.len()
            - 1)
}

/// The most that a document type declaration may nest `<`: the reader counts
/// the nesting in one byte.
pub const DOCTYPE_DEPTH: usize = 255;

/// Whether the bytes `<!DOCTYPE` stand at `at` in `source`.
pub open spec fn doctype_at(source: Seq<u8>, at: int) -> bool {
    &&& 0 <= at
    &&& at + 9 <= source.len()
    &&& source[at] == 60
    &&& source[at + 1] == 33
    &&& source[at + 2] == 68
    &&& source[at + 3] == 79
    &&& source[at + 4] == 67
    &&& source[at + 5] == 84
    &&& source[at + 6] == 89
    &&& source[at + 7] == 80
    &&& source[at + 8] == 69
}

/// The place of the first `<` that would nest deeper than [`DOCTYPE_DEPTH`],
/// where `source` is read from `at` on and `depth` is the nesting there: 0
/// outside a document type declaration, 1 from `<!DOCTYPE` on, one more from
/// each `<` and one less from each `>`.
///
/// Every `<!DOCTYPE` counts as the beginning of a declaration, also where it
/// stands in a comment or in character data, so that the nesting found here
/// is never less than the one that the reader counts.
pub open spec fn deep_from(source: Seq<u8>, at: int, depth: int) -> Option<int>
    decreases source.len() - at,
{
    if at < 0 || at >= source.len() {
        None
    } else if depth <= 0 {
        deep_from(source, at + 1, if doctype_at(source, at) { 1int } else { 0int })
    } else if source[at] == 60 {
        if depth >= DOCTYPE_DEPTH {
            Some(at)
        } else {
            deep_from(source, at + 1, depth + 1)
        }
    } else if source[at] == 62 {
        deep_from(source, at + 1, depth - 1)
    } else {
        deep_from(source, at + 1, depth)
    }
}

/// The place in `source` at which a document type declaration nests `<` too
/// deeply, if it does so anywhere.
pub open spec fn deep_doctype(source: Seq<u8>) -> Option<int> {
    deep_from(source, 0, 0)
}

/// How many line feeds stand before `at` in `source`.
pub open spec fn rows_before(source: Seq<u8>, at: int) -> int
    decreases at,
{
    if at <= 0 || at > source.len() {
        0
    } else if source[at - 1] == 10 {
        rows_before(source, at - 1) + 1
    } else {
        rows_before(source, at - 1)
    }
}

/// The place at which the line of `at` begins in `source`.
pub open spec fn line_start(source: Seq<u8>, at: int) -> int
    decreases at,
{
    if at <= 0 || at > source.len() {
        0
    } else if source[at - 1] == 10 {
        at
    } else {
        line_start(source, at - 1)
    }
}

/// The row and the column of the byte at `at` in `source`, both counted from
/// 0, the column in bytes.
pub open spec fn byte_position(source: Seq<u8>, at: int) -> TextPosition {
    TextPosition {
        row: rows_before(source, at) as u64,
        column: (at - line_start(source, at)) as u64,
    }
}

/// What is said of a document type declaration that nests too deeply.
pub open spec fn deep_message() -> Seq<char> {
    "Document type declaration nests '<' too deeply"@
}

/// What the one token holds that stands for a document which nests `<` too
/// deeply at `at`.
pub open spec fn refusal(source: Seq<u8>, at: int) -> TokenView {
    TokenView {
        position: byte_position(source, at),
        kind: TokenKindView::Malformed { message: deep_message() },
    }
}

/// The error that a document gives which nests `<` too deeply at `at`.
pub open spec fn refusal_error(source: Seq<u8>, at: int) -> ErrorView {
    ErrorView {
        position: byte_position(source, at),
        kind: ErrorKindView::XmlError { message: deep_message() },
    }
}

/// Whether the bytes `<!DOCTYPE` stand at `at` in `source`.
fn starts_doctype(source: &[u8], at: usize) -> (r: bool)
    requires
        at < source@.len(),
    ensures
        r == doctype_at(source@, at as int),
{
    source.len() - at >= 9 && source[at] == 60 && source[at + 1] == 33 && source[at + 2] == 68
        && source[at + 3] == 79 && source[at + 4] == 67 && source[at + 5] == 84 && source[at + 6]
        == 89 && source[at + 7] == 80 && source[at + 8] == 69
}

/// The position in `source` at which a document type declaration nests `<`
/// too deeply, if it does so anywhere.
pub fn find_deep_doctype(source: &[u8]) -> (r: Option<TextPosition>)
    ensures
        r == match deep_doctype(source@) {
            Some(at) => Some(byte_position(source@, at)),
            None => None,
        },
{
    let n = source.len();
    let mut at: usize = 0;
    let mut depth: usize = 0;
    let mut row: u64 = 0;
    let mut start: usize = 0;
    while at < n
        invariant
            n == source@.len(),
            at <= n,
            depth <= DOCTYPE_DEPTH,
            deep_from(source@, at as int, depth as int) == deep_doctype(source@),
            row == rows_before(source@, at as int),
            row <= at,
            start == line_start(source@, at as int),
            start <= at,
        decreases n - at,
    {
        let byte = source[at];
        if depth == 0 {
            if starts_doctype(source, at) {
                depth = 1;
            }
        } else if byte == 60 {
            if depth >= DOCTYPE_DEPTH {
                return Some(TextPosition { row, column: (at - start) as u64 });
            }
            depth += 1;
        } else if byte == 62 {
            depth -= 1;
        }
        if byte == 10 {
            row += 1;
            start = at + 1;
        }
        at += 1;
    }
    None
}

/// Calls `EventReader::new_with_config` on the bytes of a document, with a
/// `ParserConfig` that trims white space, turns white space and CDATA into
/// character data, leaves comments out and joins adjacent character data.
///
/// The events that such a reader gives depend on the bytes alone. There are
/// finitely many of them, and the reader keeps to the last one, which is
/// `EndDocument` or an error. Inside a document type declaration the reader
/// counts the nesting of `<` in one byte and does not answer for a document
/// that nests deeper: such a document is not handed to it.
#[verifier::external_body]
fn open_reader(source: &[u8]) -> (r: DocumentReader)
    requires
        deep_doctype(source@) is None,
    ensures
        opened_on(r) == source@,
        pending(r) == document_readings(source@),
        terminated(pending(r)),
{
    let config = ParserConfig::new().trim_whitespace(true).whitespace_to_characters(
        true,
    ).cdata_to_characters(true).ignore_comments(true).coalesce_characters(true);
    DocumentReader { reader: EventReader::new_with_config(source, config) }
}

/// Calls `EventReader::next`, and for an error `Error::msg` and
/// `Position::position` on the error: the reader gives the first of the
/// events that it has yet to give, and is then at the position of that event.
/// The local name of an element or attribute is kept, its namespace is not.
///
/// The reader is asked only on a document whose document type declaration
/// nests `<` no deeper than the byte holds in which the reader counts it.
#[verifier::external_body]
fn next_event(source: &mut DocumentReader) -> (r: Event)
    requires
        pending(*old(source)).len() > 0,
        deep_doctype(opened_on(*old(source))) is None,
    ensures
        opened_on(*final(source)) == opened_on(*old(source)),
        r == pending(*old(source))[0].event,
        reached(*final(source)) == pending(*old(source))[0].position,
        pending(*final(source)) == pending(*old(source)).skip(1),
{
    match source.reader.next() {
        Ok(StartDocument { .. }) => DocumentStart,
        Ok(EndDocument) => DocumentEnd,
        Ok(StartElement { name, attributes, .. }) => ElementStart { name: name.local_name, attributes: attributes.into_iter().map(|a| Attribute::new(a.name.local_name, a.value)).collect() },
        Ok(EndElement { name }) => ElementEnd { name: name.local_name },
        Ok(CData(data)) => Text(data),
        Ok(Characters(data)) => Text(data),
        Ok(_) => Other,
        Err(e) => Failure { message: e.msg().to_string(), row: e.position().row, column: e.position().column },
    }
}

/// Calls `Position::position` on the reader, which gives the position of the
/// event that the reader gave last.
#[verifier::external_body]
fn reader_position(source: &DocumentReader) -> (r: TextPosition)
    ensures
        r == reached(*source),
{
    TextPosition { row: source.reader.position().row, column: source.reader.position().column }
}

/// The token that a reading makes, if it makes one: comments, processing
/// instructions and white space make none. Malformed markup is placed where
/// the reader found it.
pub open spec fn token_of(reading: Reading) -> Option<Token> {
    match reading.event {
        Event::DocumentStart => Some(
            Token { position: reading.position, kind: TokenKind::DocumentStart },
        ),
        Event::DocumentEnd => Some(
            Token { position: reading.position, kind: TokenKind::DocumentEnd },
        ),
        Event::ElementStart { name, attributes } => Some(
            Token { position: reading.position, kind: TokenKind::ElementStart { name, attributes } },
        ),
        Event::ElementEnd { name } => Some(
            Token { position: reading.position, kind: TokenKind::ElementEnd { name } },
        ),
        Event::Text(data) => Some(
            Token { position: reading.position, kind: TokenKind::Text { data } },
        ),
        Event::Failure { message, row, column } => Some(
            Token { position: TextPosition { row, column }, kind: TokenKind::Malformed { message } },
        ),
        Event::Other => None,
    }
}

/// The tokens that `readings` make, in order.
pub open spec fn tokens_of(readings: Seq<Reading>) -> Seq<Token>
    decreases readings.len(),
{
    if readings.len() == 0 {
        Seq::empty()
    } else {
        match token_of(readings.first()) {
            Some(token) => seq![token] + tokens_of(readings.skip(1)),
            None => tokens_of(readings.skip(1)),
        }
    }
}

/// The token that a reading makes, if it makes one.
pub fn make_token(reading: Reading) -> (r: Option<Token>)
    ensures
        r == token_of(reading),
{
    let position = reading.position;
    match reading.event {
        Event::DocumentStart => Some(Token { position, kind: TokenKind::DocumentStart }),
        Event::DocumentEnd => Some(Token { position, kind: TokenKind::DocumentEnd }),
        Event::ElementStart { name, attributes } => Some(
            Token { position, kind: TokenKind::ElementStart { name, attributes } },
        ),
        Event::ElementEnd { name } => Some(Token { position, kind: TokenKind::ElementEnd { name } }),
        Event::Text(data) => Some(Token { position, kind: TokenKind::Text { data } }),
        Event::Failure { message, row, column } => Some(
            Token { position: TextPosition { row, column }, kind: TokenKind::Malformed { message } },
        ),
        Event::Other => None,
    }
}

/// The tokens that the reader makes of the document `source`.
pub open spec fn document_tokens(source: Seq<u8>) -> Seq<Token> {
    tokens_of(document_readings(source))
}

/// Reads the whole of the document `source` and gives its tokens. The last
/// token is the end of the document, or malformed markup. A document type
/// declaration that nests `<` too deeply is malformed markup, and the one
/// token says so.
pub fn tokenize(source: &[u8]) -> (r: Vec<Token>)
    ensures
        match deep_doctype(source@) {
            Some(at) => r@.len() == 1 && r@[0]@ == refusal(source@, at),
            None => r@ == document_tokens(source@),
        },
{
    if let Some(position) = find_deep_doctype(source) {
        let message = "Document type declaration nests '<' too deeply".to_owned();
        return vec![Token { position, kind: TokenKind::Malformed { message } }];
    }
    let mut reader = open_reader(source);
    let mut tokens: Vec<Token> = Vec::new();
    let ghost all = pending(reader);
    assert(tokens@ + tokens_of(pending(reader)) =~= tokens_of(all));
    loop
        invariant
            terminated(pending(reader)),
            tokens@ + tokens_of(pending(reader)) == tokens_of(all),
            all == document_readings(source@),
            deep_doctype(source@) is None,
            opened_on(reader) == source@,
        decreases pending(reader).len(),
    {
        let ghost before = pending(reader);
        let ghost done = tokens@;
        let event = next_event(&mut reader);
        let reading = Reading { event, position: reader_position(&reader) };
        assert(reading == before[0]);
        let last = match &reading.event {
            Event::DocumentEnd => true,
            Event::Failure { .. } => true,
            _ => false,
        };
        assert(last == is_last(before[0].event));
        match make_token(reading) {
            Some(token) => {
                tokens.push(token);
                assert(tokens@ =~= done + seq![token]);
            },
            None => {},
        }
        assert(tokens@ + tokens_of(before.skip(1)) =~= done + tokens_of(before));
        if last {
            assert(before.len() == 1);
            assert(tokens_of(before.skip(1)) =~= Seq::<Token>::empty());
            assert(tokens@ =~= tokens_of(all));
            return tokens;
        }
        assert forall|i: int| 0 <= i < before.skip(1).len() implies (is_last(
            #[trigger] before.skip(1)[i].event,
        ) <==> i == before.skip(1).len() - 1) by {
            assert(before.skip(1)[i] == before[i + 1]);
        }
    }
}

} // verus!
