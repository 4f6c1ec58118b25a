//! Reading the tokens of one element: what may come next, text contents, and
//! content that is passed over.

use crate::error::{Error, ErrorKind, ErrorKindView, ErrorView, Result, TextPosition, XmlError};
use crate::text::{no_names, str_eq};
use crate::token::{advance, position_at, Attribute, Token, TokenKind, TokenReader};
use crate::value::{decode, decode_spec, Value, ValueKind, ValueKindView, ValueView};
use crate::schema::TextOccurrences;
use vstd::prelude::*;

verus! {

/// The start of an element: its name, its attributes as they were written, and
/// where it begins.
#[derive(Debug)]
pub struct ElementStart<'a> {
    pub name: &'a str,
    pub attributes: &'a [Attribute],
    pub position: TextPosition,
}

impl<'a> ElementStart<'a> {
    /// Whether this is what the token `token` holds.
    pub open spec fn is_token(self, token: Token) -> bool {
        &&& token.kind matches TokenKind::ElementStart { name, attributes }
        &&& self.name@ == name@
        &&& self.attributes@ == attributes@
        &&& self.position == token.position
    }
}

/// The name that the token at `index` gives to an element; empty for a token
/// that names none.
pub open spec fn name_at(tokens: Seq<Token>, index: int) -> Seq<char> {
    match tokens[index].kind {
        TokenKind::ElementStart { name, attributes } => name@,
        TokenKind::ElementEnd { name } => name@,
        _ => Seq::empty(),
    }
}

/// The attributes written on the element that the token at `index` starts.
pub open spec fn attributes_at(tokens: Seq<Token>, index: int) -> Seq<Attribute> {
    match tokens[index].kind {
        TokenKind::ElementStart { name, attributes } => attributes@,
        _ => Seq::empty(),
    }
}

/// The error `kind`, found when the token at `cursor` was read.
pub open spec fn error_after(tokens: Seq<Token>, cursor: int, kind: ErrorKindView) -> ErrorView {
    ErrorView { position: position_at(tokens, advance(tokens, cursor)), kind }
}

/// What a token that is neither a start nor an end means inside the element
/// `parent`, where only those are expected: text is an error, and so is the
/// start of a document; malformed markup is passed on.
pub open spec fn stray_token(token: Token, parent: Seq<char>) -> ErrorKindView {
    match token.kind {
        TokenKind::Text { data } => ErrorKindView::UnexpectedCharacterData {
            element: parent,
            data: data@,
        },
        TokenKind::Malformed { message } => ErrorKindView::XmlError { message: message@ },
        _ => ErrorKindView::UnexpectedCharacterData { element: parent, data: Seq::empty() },
    }
}

/// Whether the element that is open ends at `cursor`: with the end of an
/// element, the end of the document, or the end of the tokens.
pub open spec fn ends_at(tokens: Seq<Token>, cursor: int) -> bool {
    cursor >= tokens.len() || tokens[cursor].kind is ElementEnd || tokens[cursor].kind
        is DocumentEnd
}

/// What the token at `cursor` means where a child of `parent` or the end of
/// `parent` is expected: the place of the child's start, or none at the end.
pub open spec fn start_element_spec(tokens: Seq<Token>, cursor: int, parent: Seq<char>) -> core::result::Result<
    Option<int>,
    ErrorView,
> {
    if ends_at(tokens, cursor) {
        Ok(None)
    } else if tokens[cursor].kind is ElementStart {
        Ok(Some(cursor))
    } else {
        Err(error_after(tokens, cursor, stray_token(tokens[cursor], parent)))
    }
}

/// What the token at `cursor` means where the end of `parent` is expected.
pub open spec fn end_element_spec(tokens: Seq<Token>, cursor: int, parent: Seq<char>) -> core::result::Result<
    (),
    ErrorView,
> {
    if ends_at(tokens, cursor) {
        Ok(())
    } else if tokens[cursor].kind is ElementStart {
        Err(
            error_after(
                tokens,
                cursor,
                ErrorKindView::UnexpectedElement {
                    parent,
                    element: name_at(tokens, cursor),
                    expected: Seq::empty(),
                },
            ),
        )
    } else {
        Err(error_after(tokens, cursor, stray_token(tokens[cursor], parent)))
    }
}

/// The error for a token that is neither a start nor an end.
fn stray_error(token: &Token, parent: &'static str) -> (r: Error)
    requires
        !(token.kind is ElementStart),
        !(token.kind is ElementEnd),
        !(token.kind is DocumentEnd),
    ensures
        r@ == (ErrorView { position: token.position, kind: stray_token(*token, parent@) }),
{
    let kind = match &token.kind {
        TokenKind::Text { data } => ErrorKind::UnexpectedCharacterData {
            element: parent,
            data: data.clone(),
        },
        TokenKind::Malformed { message } => ErrorKind::XmlError(
            XmlError { message: message.clone() },
        ),
        _ => ErrorKind::UnexpectedCharacterData { element: parent, data: String::new() },
    };
    Error { position: token.position, kind }
}

/// Reads the next token where a child of `parent` or the end of `parent` is
/// expected, and gives the start of the child, or none at the end.
pub fn start_element<'a>(reader: &mut TokenReader<'a>, parent: &'static str) -> (r: Result<
    Option<ElementStart<'a>>,
>)
    ensures
        final(reader).tokens() == old(reader).tokens(),
        final(reader).cursor() == advance(old(reader).tokens(), old(reader).cursor()),
        0 <= old(reader).cursor() <= old(reader).tokens().len(),
        match start_element_spec(old(reader).tokens(), old(reader).cursor(), parent@) {
            Ok(Some(i)) => r matches Ok(Some(start)) && start.is_token(old(reader).tokens()[i]),
            Ok(None) => r matches Ok(None),
            Err(e) => r is Err && r->Err_0@ == e,
        },
{
    match reader.next() {
        None => Ok(None),
        Some(token) => match &token.kind {
            TokenKind::ElementStart { name, attributes } => Ok(
                Some(
                    ElementStart {
                        name: name.as_str(),
                        attributes: attributes.as_slice(),
                        position: token.position,
                    },
                ),
            ),
            TokenKind::ElementEnd { .. } => Ok(None),
            TokenKind::DocumentEnd => Ok(None),
            _ => Err(stray_error(token, parent)),
        },
    }
}

/// Reads the next token where the end of `parent` is expected.
pub fn end_element(reader: &mut TokenReader, parent: &'static str) -> (r: Result<()>)
    ensures
        final(reader).tokens() == old(reader).tokens(),
        final(reader).cursor() == advance(old(reader).tokens(), old(reader).cursor()),
        0 <= old(reader).cursor() <= old(reader).tokens().len(),
        match end_element_spec(old(reader).tokens(), old(reader).cursor(), parent@) {
            Ok(_) => r is Ok,
            Err(e) => r is Err && r->Err_0@ == e,
        },
{
    match reader.next() {
        None => Ok(()),
        Some(token) => match &token.kind {
            TokenKind::ElementStart { name, attributes } => Err(
                Error {
                    position: token.position,
                    kind: ErrorKind::UnexpectedElement {
                        parent,
                        element: name.clone(),
                        expected: no_names(),
                    },
                },
            ),
            TokenKind::ElementEnd { .. } => Ok(()),
            TokenKind::DocumentEnd => Ok(()),
            _ => Err(stray_error(token, parent)),
        },
    }
}

/// What an element without text comes to.
pub open spec fn absent_text(
    kind: ValueKindView,
    occurrences: TextOccurrences,
    parent: Seq<char>,
) -> core::result::Result<Option<ValueView>, ErrorKindView> {
    match occurrences {
        TextOccurrences::Required => Err(ErrorKindView::MissingValue { element: parent }),
        TextOccurrences::Optional => Ok(None),
        TextOccurrences::EmptyIfAbsent => match decode_spec(kind, Seq::empty(), parent) {
            Ok(v) => Ok(Some(v)),
            Err(e) => Err(e),
        },
    }
}

/// The text contents of the element `parent`, which begin at `cursor`, and the
/// cursor after them. The text is decoded as soon as it is read, and then the
/// element has to end; only a word of an enumeration is looked up after the
/// end of the element.
pub open spec fn text_contents_spec(
    tokens: Seq<Token>,
    cursor: int,
    parent: Seq<char>,
    kind: ValueKindView,
    occurrences: TextOccurrences,
) -> (core::result::Result<Option<ValueView>, ErrorView>, int) {
    if ends_at(tokens, cursor) {
        (
            match absent_text(kind, occurrences, parent) {
                Ok(v) => Ok(v),
                Err(e) => Err(error_after(tokens, cursor, e)),
            },
            advance(tokens, cursor),
        )
    } else {
        match tokens[cursor].kind {
            TokenKind::Text { data } => {
                let decoded = decode_spec(kind, data@, parent);
                let ended = end_element_spec(tokens, cursor + 1, parent);
                if kind is Enumerated {
                    (
                        match ended {
                            Err(e) => Err(e),
                            Ok(_) => match decoded {
                                Ok(v) => Ok(Some(v)),
                                Err(e) => Err(error_after(tokens, cursor + 1, e)),
                            },
                        },
                        advance(tokens, cursor + 1),
                    )
                } else {
                    match decoded {
                        Err(e) => (Err(error_after(tokens, cursor, e)), cursor + 1),
                        Ok(v) => (
                            match ended {
                                Err(e) => Err(e),
                                Ok(_) => Ok(Some(v)),
                            },
                            advance(tokens, cursor + 1),
                        ),
                    }
                }
            },
            TokenKind::ElementStart { name, attributes } => (
                Err(
                    error_after(
                        tokens,
                        cursor,
                        ErrorKindView::UnexpectedElement {
                            parent,
                            element: name@,
                            expected: Seq::empty(),
                        },
                    ),
                ),
                cursor + 1,
            ),
            _ => (Err(error_after(tokens, cursor, stray_token(tokens[cursor], parent))), cursor + 1),
        }
    }
}

/// Reads the text contents of the element `parent` and its end.
pub fn text_contents(
    reader: &mut TokenReader,
    parent: &'static str,
    kind: &ValueKind,
    occurrences: TextOccurrences,
) -> (r: Result<Option<Value>>)
    ensures
        final(reader).tokens() == old(reader).tokens(),
        0 <= old(reader).cursor() <= old(reader).tokens().len(),
        ({
            let expected = text_contents_spec(
                old(reader).tokens(),
                old(reader).cursor(),
                parent@,
                kind@,
                occurrences,
            );
            &&& final(reader).cursor() == expected.1
            &&& match expected.0 {
                Ok(v) => r is Ok && crate::node::option_view(r->Ok_0) == v,
                Err(e) => r is Err && r->Err_0@ == e,
            }
        }),
{
    let token = match reader.next() {
        None => None,
        Some(token) => match &token.kind {
            TokenKind::ElementEnd { .. } => None,
            TokenKind::DocumentEnd => None,
            _ => Some(token),
        },
    };
    match token {
        None => {
            let found = match occurrences {
                TextOccurrences::Required => Err(ErrorKind::MissingValue { element: parent }),
                TextOccurrences::Optional => Ok(None),
                TextOccurrences::EmptyIfAbsent => match decode(kind, "", parent) {
                    Ok(v) => Ok(Some(v)),
                    Err(e) => Err(e),
                },
            };
            proof {
                reveal_strlit("");
                assert(""@ =~= Seq::<char>::empty());
            }
            match found {
                Ok(v) => Ok(v),
                Err(kind) => Err(Error { position: reader.position(), kind }),
            }
        },
        Some(token) => match &token.kind {
            TokenKind::Text { data } => {
                let decoded = decode(kind, data.as_str(), parent);
                let enumerated = match kind {
                    ValueKind::Enumerated(_) => true,
                    _ => false,
                };
                if enumerated {
                    end_element(reader, parent)?;
                    match decoded {
                        Ok(v) => Ok(Some(v)),
                        Err(kind) => Err(Error { position: reader.position(), kind }),
                    }
                } else {
                    match decoded {
                        Err(kind) => Err(Error { position: token.position, kind }),
                        Ok(v) => {
                            end_element(reader, parent)?;
                            Ok(Some(v))
                        },
                    }
                }
            },
            TokenKind::ElementStart { name, attributes } => Err(
                Error {
                    position: token.position,
                    kind: ErrorKind::UnexpectedElement {
                        parent,
                        element: name.clone(),
                        expected: no_names(),
                    },
                },
            ),
            _ => Err(stray_error(token, parent)),
        },
    }
}

/// Reads the text contents of the element `parent`, which must have some, and
/// its end.
pub fn required_text_contents(reader: &mut TokenReader, parent: &'static str, kind: &ValueKind) -> (r:
    Result<Value>)
    ensures
        final(reader).tokens() == old(reader).tokens(),
        ({
            let expected = text_contents_spec(
                old(reader).tokens(),
                old(reader).cursor(),
                parent@,
                kind@,
                TextOccurrences::Required,
            );
            &&& final(reader).cursor() == expected.1
            &&& match expected.0 {
                Ok(v) => r is Ok && Some(r->Ok_0@) == v,
                Err(e) => r is Err && r->Err_0@ == e,
            }
        }),
{
    match text_contents(reader, parent, kind, TextOccurrences::Required) {
        Ok(Some(v)) => Ok(v),
        Ok(None) => Err(
            Error { position: reader.position(), kind: ErrorKind::MissingValue { element: parent } },
        ),
        Err(e) => Err(e),
    }
}

/// Reads the text contents of the element `parent`, which may have none, and
/// its end.
pub fn optional_text_contents(reader: &mut TokenReader, parent: &'static str, kind: &ValueKind) -> (r:
    Result<Option<Value>>)
    ensures
        final(reader).tokens() == old(reader).tokens(),
        ({
            let expected = text_contents_spec(
                old(reader).tokens(),
                old(reader).cursor(),
                parent@,
                kind@,
                TextOccurrences::Optional,
            );
            &&& final(reader).cursor() == expected.1
            &&& match expected.0 {
                Ok(v) => r is Ok && crate::node::option_view(r->Ok_0) == v,
                Err(e) => r is Err && r->Err_0@ == e,
            }
        }),
{
    text_contents(reader, parent, kind, TextOccurrences::Optional)
}

/// Meaning, of course, "verify that there are no attributes": the first one
/// that was written is the error.
pub open spec fn verify_attributes_spec(
    position: TextPosition,
    name: Seq<char>,
    attributes: Seq<Attribute>,
) -> core::result::Result<(), ErrorView> {
    if attributes.len() != 0 {
        Err(
            ErrorView {
                position,
                kind: ErrorKindView::UnexpectedAttribute {
                    element: name,
                    attribute: attributes[0].name@,
                    expected: Seq::empty(),
                },
            },
        )
    } else {
        Ok(())
    }
}

/// Makes sure that the element `name` has no attributes.
pub fn verify_attributes(reader: &TokenReader, name: &'static str, attributes: &[Attribute]) -> (r:
    Result<()>)
    ensures
        match verify_attributes_spec(
            position_at(reader.tokens(), reader.cursor()),
            name@,
            attributes@,
        ) {
            Ok(_) => r is Ok,
            Err(e) => r is Err && r->Err_0@ == e,
        },
{
    if attributes.len() != 0 {
        let expected = no_names();
        return Err(
            Error {
                position: reader.position(),
                kind: ErrorKind::UnexpectedAttribute {
                    element: name,
                    attribute: attributes[0].name.clone(),
                    expected,
                },
            },
        );
    }
    Ok(())
}

/// The place of the token that ends the element `name`, whose contents begin
/// at `cursor`, where `depth` more elements of that name are open inside it:
/// the end of an element of that name that is not owed to one of those, or
/// the end of the document, or malformed markup, or the end of the tokens.
pub open spec fn skip_stop(tokens: Seq<Token>, cursor: int, name: Seq<char>, depth: nat) -> int
    decreases tokens.len() - cursor,
{
    if cursor < 0 || cursor >= tokens.len() {
        cursor
    } else {
        match tokens[cursor].kind {
            TokenKind::ElementStart { name: n, attributes } => skip_stop(
                tokens,
                cursor + 1,
                name,
                if n@ == name {
                    depth + 1
                } else {
                    depth
                },
            ),
            TokenKind::ElementEnd { name: n } => if n@ == name && depth == 0 {
                cursor
            } else {
                skip_stop(
                    tokens,
                    cursor + 1,
                    name,
                    if n@ == name {
                        (depth - 1) as nat
                    } else {
                        depth
                    },
                )
            },
            TokenKind::DocumentEnd => cursor,
            TokenKind::Malformed { message } => cursor,
            _ => skip_stop(tokens, cursor + 1, name, depth),
        }
    }
}

/// What the token at `stop`, at which passing over an element came to a halt,
/// means: malformed markup is an error, anything else ends the element.
pub open spec fn skip_result(tokens: Seq<Token>, stop: int) -> core::result::Result<(), ErrorView> {
    if 0 <= stop < tokens.len() && tokens[stop].kind is Malformed {
        Err(error_after(tokens, stop, stray_token(tokens[stop], Seq::empty())))
    } else {
        Ok(())
    }
}

/// Passing over an element comes to a halt within the tokens, at or after
/// the place where it began.
pub proof fn lemma_skip_stop(tokens: Seq<Token>, cursor: int, name: Seq<char>, depth: nat)
    requires
        0 <= cursor <= tokens.len(),
    ensures
        cursor <= skip_stop(tokens, cursor, name, depth) <= tokens.len(),
    decreases tokens.len() - cursor,
{
    if cursor < tokens.len() {
        match tokens[cursor].kind {
            TokenKind::ElementStart { name: n, attributes } => {
                lemma_skip_stop(
                    tokens,
                    cursor + 1,
                    name,
                    if n@ == name {
                        depth + 1
                    } else {
                        depth
                    },
                );
            },
            TokenKind::ElementEnd { name: n } => {
                if !(n@ == name && depth == 0) {
                    lemma_skip_stop(
                        tokens,
                        cursor + 1,
                        name,
                        if n@ == name {
                            (depth - 1) as nat
                        } else {
                            depth
                        },
                    );
                }
            },
            TokenKind::DocumentEnd => {},
            TokenKind::Malformed { message } => {},
            _ => {
                lemma_skip_stop(tokens, cursor + 1, name, depth);
            },
        }
    }
}

/// Passes over the contents of the element `stubbed_name` and its end. With
/// `keep`, the tokens of the contents are copied to it.
pub fn skip_contents(reader: &mut TokenReader, stubbed_name: &str, keep: &mut Vec<Token>, copy: bool) -> (r:
    Result<()>)
    requires
        old(keep)@.len() == 0,
    ensures
        final(reader).tokens() == old(reader).tokens(),
        0 <= old(reader).cursor() <= old(reader).tokens().len(),
        ({
            let tokens = old(reader).tokens();
            let stop = skip_stop(tokens, old(reader).cursor(), stubbed_name@, 0);
            &&& final(reader).cursor() == advance(tokens, stop)
            &&& match skip_result(tokens, stop) {
                Ok(_) => r is Ok,
                Err(e) => r is Err && r->Err_0@ == e,
            }
            &&& copy ==> crate::token::token_views(final(keep)@) == crate::token::token_views(
                tokens.subrange(old(reader).cursor(), stop),
            )
            &&& !copy ==> final(keep)@.len() == 0
        }),
{
    let ghost tokens = reader.tokens();
    let ghost first = reader.cursor();
    let mut depth: usize = 0;
    let mut left = reader.remaining_len();
    loop
        invariant
            reader.tokens() == tokens,
            tokens == old(reader).tokens(),
            first == old(reader).cursor(),
            0 <= first <= reader.cursor() <= tokens.len() <= usize::MAX,
            left == tokens.len() - reader.cursor(),
            depth <= reader.cursor() - first,
            skip_stop(tokens, first, stubbed_name@, 0) == skip_stop(
                tokens,
                reader.cursor(),
                stubbed_name@,
                depth as nat,
            ),
            copy ==> crate::token::token_views(keep@) == crate::token::token_views(
                tokens.subrange(first, reader.cursor()),
            ),
            !copy ==> keep@.len() == 0,
        decreases left,
    {
        let ghost here = reader.cursor();
        let token = match reader.next() {
            None => {
                return Ok(());
            },
            Some(token) => token,
        };
        left = left - 1;
        match &token.kind {
            TokenKind::ElementStart { name, attributes } => {
                if str_eq(name.as_str(), stubbed_name) {
                    depth = depth + 1;
                }
            },
            TokenKind::ElementEnd { name } => {
                if str_eq(name.as_str(), stubbed_name) {
                    if depth == 0 {
                        return Ok(());
                    }
                    depth = depth - 1;
                }
            },
            TokenKind::DocumentEnd => {
                return Ok(());
            },
            TokenKind::Malformed { message } => {
                return Err(stray_error(token, ""));
            },
            _ => {},
        }
        if copy {
            let ghost before = keep@;
            keep.push(crate::token::copy_token(token));
            assert(crate::token::token_views(keep@) =~= crate::token::token_views(
                tokens.subrange(first, here + 1),
            )) by {
                let a = crate::token::token_views(keep@);
                let b = crate::token::token_views(tokens.subrange(first, here + 1));
                let c = crate::token::token_views(tokens.subrange(first, here));
                assert(crate::token::token_views(before) == c);
                assert(a.len() == b.len());
                assert forall|k: int| 0 <= k < a.len() implies a[k] == b[k] by {
                    if k < before.len() {
                        assert(a[k] == crate::token::token_views(before)[k]);
                        assert(c[k] == b[k]);
                    }
                }
            }
        }
    }
}

/// Passes over the contents of the element `stubbed_name` and its end.
pub fn stub_out(reader: &mut TokenReader, stubbed_name: &str) -> (r: Result<()>)
    ensures
        final(reader).tokens() == old(reader).tokens(),
        ({
            let tokens = old(reader).tokens();
            let stop = skip_stop(tokens, old(reader).cursor(), stubbed_name@, 0);
            &&& final(reader).cursor() == advance(tokens, stop)
            &&& match skip_result(tokens, stop) {
                Ok(_) => r is Ok,
                Err(e) => r is Err && r->Err_0@ == e,
            }
        }),
{
    let mut keep: Vec<Token> = Vec::new();
    skip_contents(reader, stubbed_name, &mut keep, false)
}

/// The cursor after the start of the document, if it stands at `cursor`.
pub open spec fn after_document_start(tokens: Seq<Token>, cursor: int) -> int {
    if 0 <= cursor < tokens.len() && tokens[cursor].kind is DocumentStart {
        cursor + 1
    } else {
        cursor
    }
}

/// What is wrong with the token at `at` where the root element `<COLLADA>` is
/// expected: an element of another name is an unexpected root element, and so
/// is anything else, without a name; malformed markup is passed on.
pub open spec fn root_error(tokens: Seq<Token>, at: int) -> ErrorKindView {
    if at < 0 || at >= tokens.len() {
        ErrorKindView::UnexpectedRootElement { element: Seq::empty() }
    } else {
        match tokens[at].kind {
            TokenKind::Malformed { message } => ErrorKindView::XmlError { message: message@ },
            _ => ErrorKindView::UnexpectedRootElement { element: name_at(tokens, at) },
        }
    }
}

/// The place of the start of the root element `<COLLADA>`, which must come
/// first in a document: at `cursor`, or after the start of the document
/// there. The second part is the cursor after it.
pub open spec fn document_start_spec(tokens: Seq<Token>, cursor: int) -> (
    core::result::Result<int, ErrorView>,
    int,
) {
    let at = after_document_start(tokens, cursor);
    if 0 <= at < tokens.len() && tokens[at].kind is ElementStart && name_at(tokens, at)
        == "COLLADA"@ {
        (Ok(at), at + 1)
    } else {
        (Err(error_after(tokens, at, root_error(tokens, at))), advance(tokens, at))
    }
}

/// Reads the start of the document and the start of the root element.
pub fn get_document_start<'a>(reader: &mut TokenReader<'a>) -> (r: Result<ElementStart<'a>>)
    ensures
        final(reader).tokens() == old(reader).tokens(),
        0 <= old(reader).cursor() <= final(reader).cursor() <= old(reader).tokens().len(),
        ({
            let expected = document_start_spec(old(reader).tokens(), old(reader).cursor());
            &&& final(reader).cursor() == expected.1
            &&& match expected.0 {
                Ok(i) => r is Ok && r->Ok_0.is_token(old(reader).tokens()[i]) && i + 1
                    == final(reader).cursor(),
                Err(e) => r is Err && r->Err_0@ == e,
            }
        }),
{
    let first = reader.next();
    let token = match first {
        Some(token) => match &token.kind {
            TokenKind::DocumentStart => reader.next(),
            _ => first,
        },
        None => None,
    };
    let token = match token {
        Some(token) => token,
        None => {
            return Err(
                Error {
                    position: reader.position(),
                    kind: ErrorKind::UnexpectedRootElement { element: String::new() },
                },
            );
        },
    };
    let kind = match &token.kind {
        TokenKind::ElementStart { name, attributes } => {
            if str_eq(name.as_str(), "COLLADA") {
                return Ok(
                    ElementStart {
                        name: name.as_str(),
                        attributes: attributes.as_slice(),
                        position: token.position,
                    },
                );
            }
            ErrorKind::UnexpectedRootElement { element: name.clone() }
        },
        TokenKind::ElementEnd { name } => ErrorKind::UnexpectedRootElement { element: name.clone() },
        TokenKind::Malformed { message } => ErrorKind::XmlError(
            XmlError { message: message.clone() },
        ),
        _ => ErrorKind::UnexpectedRootElement { element: String::new() },
    };
    Err(Error { position: token.position, kind })
}

} // verus!
