//! The beginning of a document: its root element and the version of the
//! format that it asks for.

use crate::engine::{parse_element, parse_element_spec};
use crate::error::{Error, ErrorKind, ErrorKindView, ErrorView, Result};
use crate::node::{Node, NodeView};
use crate::schema::{find_written, written_value, Schema, SchemaView};
use crate::text::views;
use crate::token::{attribute_views, Token, TokenKind, TokenReader};
use crate::utils::{attributes_at, document_start_spec, get_document_start, ElementStart};
use crate::value::{find_name, position_of};
use vstd::prelude::*;

verus! {

/// The version that the root element, which starts at `start`, asks for; a
/// root element without the attribute `version` is an error.
pub open spec fn version_at(tokens: Seq<Token>, start: int) -> core::result::Result<
    Seq<char>,
    ErrorView,
> {
    match written_value(attribute_views(attributes_at(tokens, start)), "version"@) {
        Some(version) => Ok(version),
        None => Err(
            ErrorView {
                position: tokens[start].position,
                kind: ErrorKindView::MissingAttribute {
                    element: "COLLADA"@,
                    attribute: "version"@,
                },
            },
        ),
    }
}

/// The place of the start of the root element and the version that it asks
/// for.
pub open spec fn document_version_spec(tokens: Seq<Token>) -> core::result::Result<
    (int, Seq<char>),
    ErrorView,
> {
    match document_start_spec(tokens, 0).0 {
        Err(e) => Err(e),
        Ok(start) => match version_at(tokens, start) {
            Err(e) => Err(e),
            Ok(version) => Ok((start, version)),
        },
    }
}

/// Reads the start of the root element and finds the version that it asks
/// for.
pub fn document_version<'a>(reader: &mut TokenReader<'a>) -> (r: Result<
    (ElementStart<'a>, &'a str),
>)
    requires
        old(reader).cursor() == 0,
    ensures
        final(reader).tokens() == old(reader).tokens(),
        match document_version_spec(old(reader).tokens()) {
            Ok(found) => {
                &&& r is Ok
                &&& 0 <= found.0 < old(reader).tokens().len()
                &&& final(reader).cursor() == found.0 + 1
                &&& r->Ok_0.0.is_token(old(reader).tokens()[found.0])
                &&& r->Ok_0.1@ == found.1
            },
            Err(e) => r is Err && r->Err_0@ == e,
        },
{
    let start = match get_document_start(reader) {
        Err(e) => {
            return Err(e);
        },
        Ok(start) => start,
    };
    match find_written(start.attributes, "version") {
        Some(version) => Ok((start, version)),
        None => Err(
            Error {
                position: start.position,
                kind: ErrorKind::MissingAttribute { element: "COLLADA", attribute: "version" },
            },
        ),
    }
}

/// The error for a document that asks for a version that is not supported.
pub open spec fn unsupported(tokens: Seq<Token>, start: int, version: Seq<char>) -> ErrorView {
    ErrorView {
        position: tokens[start].position,
        kind: ErrorKindView::UnsupportedVersion { version },
    }
}

/// The node of the root element of the document `tokens`, read with the
/// description `root` of `schema`, where the document must ask for one of
/// `versions`.
pub open spec fn document_spec(
    schema: SchemaView,
    root: int,
    versions: Seq<Seq<char>>,
    tokens: Seq<Token>,
) -> core::result::Result<NodeView, ErrorView> {
    match document_version_spec(tokens) {
        Err(e) => Err(e),
        Ok(found) => if position_of(versions, found.1) is Some {
            parse_element_spec(schema, root, tokens, found.0 + 1, 0).0
        } else {
            Err(unsupported(tokens, found.0, found.1))
        },
    }
}

/// The error that malformed markup gives: what `token` says, at its place.
pub open spec fn malformed_error(token: Token) -> ErrorView {
    ErrorView {
        position: token.position,
        kind: match token.kind {
            TokenKind::Malformed { message } => ErrorKindView::XmlError { message: message@ },
            _ => ErrorKindView::XmlError { message: Seq::empty() },
        },
    }
}

/// A document that is one token of malformed markup and nothing else comes to
/// the error of that markup, whatever the schema and the versions are.
pub proof fn lemma_malformed_document(
    schema: SchemaView,
    root: int,
    versions: Seq<Seq<char>>,
    tokens: Seq<Token>,
)
    requires
        tokens.len() == 1,
        tokens[0].kind is Malformed,
    ensures
        document_version_spec(tokens) == Err::<(int, Seq<char>), ErrorView>(
            malformed_error(tokens[0]),
        ),
        document_spec(schema, root, versions, tokens) == Err::<NodeView, ErrorView>(
            malformed_error(tokens[0]),
        ),
{
}

/// Reads the document `tokens` with the description `root` of `schema`. The
/// document must ask for one of `versions`.
pub fn parse_document(
    schema: &Schema,
    root: usize,
    versions: &[&'static str],
    tokens: &[Token],
) -> (r: Result<Node>)
    ensures
        match document_spec(schema@, root as int, views(versions@), tokens@) {
            Ok(node) => r is Ok && r->Ok_0@ == node,
            Err(e) => r is Err && r->Err_0@ == e,
        },
{
    let mut reader = TokenReader::new(tokens);
    let (start, version) = match document_version(&mut reader) {
        Err(e) => {
            return Err(e);
        },
        Ok(found) => found,
    };
    if find_name(versions, version).is_none() {
        return Err(
            Error {
                position: start.position,
                kind: ErrorKind::UnsupportedVersion { version: version.to_owned() },
            },
        );
    }
    parse_element(schema, Some(root), &mut reader, &start, 0)
}

} // verus!
