//! Documents of either version of the format.

use crate::document::{
    document_version, document_version_spec, lemma_malformed_document, unsupported,
};
use crate::element::ColladaElement;
use crate::error::{Error, ErrorKind, Result};
use crate::source::{deep_doctype, document_tokens, refusal_error, tokenize};
use crate::token::{Token, TokenReader};
use crate::v1_4;
use crate::v1_5;
use crate::value::{find_name, position_of};
use crate::text::views;
use vstd::prelude::*;
use vstd::string::*;

verus! {

/// A helper type for parsing documents without knowing the version ahead of
/// time.
///
/// If you know the specification used by a COLLADA document ahead of time, you
/// can use [`v1_4::Collada`] to load `1.4.0` and `1.4.1` documents, and
/// [`v1_5::Collada`] to load `1.5.0` documents. If, on the other hand, you
/// don't know what version the document uses, then you can use
/// `VersionedDocument` to detect which version to use.
#[derive(Debug, PartialEq)]
#[allow(non_camel_case_types)]
pub enum VersionedDocument {
    /// A `1.4.0` or `1.4.1` document.
    V1_4(v1_4::Collada),
    /// A `1.5.0` document.
    V1_5(v1_5::Collada),
}

impl VersionedDocument {
    /// Whether `r` is what the document `tokens` comes to: the version that
    /// the root element asks for decides how the document is read, and a
    /// version that is neither `1.4.0`, `1.4.1` nor `1.5.0` is an error.
    pub open spec fn reads(r: Result<VersionedDocument>, tokens: Seq<Token>) -> bool {
        match document_version_spec(tokens) {
            Err(e) => r is Err && r->Err_0@ == e,
            Ok(found) => if position_of(v1_4::Collada::versions(), found.1) is Some {
                match v1_4::Collada::document(tokens) {
                    Ok(node) => r matches Ok(VersionedDocument::V1_4(d)) && d.represents(node),
                    Err(e) => r is Err && r->Err_0@ == e,
                }
            } else if position_of(v1_5::Collada::versions(), found.1) is Some {
                match v1_5::Collada::document(tokens) {
                    Ok(node) => r matches Ok(VersionedDocument::V1_5(d)) && d.represents(node),
                    Err(e) => r is Err && r->Err_0@ == e,
                }
            } else {
                r is Err && r->Err_0@ == unsupported(tokens, found.0, found.1)
            },
        }
    }

    /// Attempts to parse the contents of a COLLADA document from its tokens.
    pub fn parse(tokens: &[Token]) -> (r: Result<VersionedDocument>)
        ensures
            Self::reads(r, tokens@),
    {
        let mut reader = TokenReader::new(tokens);
        let (start, version) = match document_version(&mut reader) {
            Err(e) => {
                return Err(e);
            },
            Ok(found) => found,
        };
        let first = vec!["1.4.0", "1.4.1"];
        let second = vec!["1.5.0"];
        assert(views(first@) =~= v1_4::Collada::versions());
        assert(views(second@) =~= v1_5::Collada::versions());
        if find_name(first.as_slice(), version).is_some() {
            match v1_4::Collada::parse(tokens) {
                Ok(document) => Ok(VersionedDocument::V1_4(document)),
                Err(e) => Err(e),
            }
        } else if find_name(second.as_slice(), version).is_some() {
            match v1_5::Collada::parse(tokens) {
                Ok(document) => Ok(VersionedDocument::V1_5(document)),
                Err(e) => Err(e),
            }
        } else {
            Err(
                Error {
                    position: start.position,
                    kind: ErrorKind::UnsupportedVersion { version: version.to_owned() },
                },
            )
        }
    }

    /// Read a COLLADA document from a string.
    ///
    /// Returns `Err` if the document is invalid or malformed in some way.
    pub fn from_str(source: &str) -> (r: Result<VersionedDocument>)
        ensures
            match deep_doctype(source.spec_bytes()) {
                Some(at) => r is Err && r->Err_0@ == refusal_error(source.spec_bytes(), at),
                None => Self::reads(r, document_tokens(source.spec_bytes())),
            },
    {
        let tokens = tokenize(source.as_bytes());
        proof {
            if deep_doctype(source.spec_bytes()) is Some {
                lemma_malformed_document(
                    v1_4::schema_view(),
                    v1_4::COLLADA as int,
                    v1_4::Collada::versions(),
                    tokens@,
                );
            }
        }
        Self::parse(tokens.as_slice())
    }
}

impl From<v1_4::Collada> for VersionedDocument {
    fn from(from: v1_4::Collada) -> (r: VersionedDocument)
        ensures
            r == VersionedDocument::V1_4(from),
    {
        VersionedDocument::V1_4(from)
    }
}

impl vstd::std_specs::convert::FromSpecImpl<v1_4::Collada> for VersionedDocument {
    open spec fn obeys_from_spec() -> bool {
        true
    }

    open spec fn from_spec(from: v1_4::Collada) -> VersionedDocument {
        VersionedDocument::V1_4(from)
    }
}

impl From<v1_5::Collada> for VersionedDocument {
    fn from(from: v1_5::Collada) -> (r: VersionedDocument)
        ensures
            r == VersionedDocument::V1_5(from),
    {
        VersionedDocument::V1_5(from)
    }
}

impl vstd::std_specs::convert::FromSpecImpl<v1_5::Collada> for VersionedDocument {
    open spec fn obeys_from_spec() -> bool {
        true
    }

    open spec fn from_spec(from: v1_5::Collada) -> VersionedDocument {
        VersionedDocument::V1_5(from)
    }
}

} // verus!
