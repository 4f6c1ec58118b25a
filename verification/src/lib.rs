//! Parsing of COLLADA documents into a typed document tree.
//!
//! [COLLADA] is a COLLAborative Design Activity that defines an XML-based
//! schema to enable 3D authoring applications to freely exchange digital
//! assets.
//!
//! A document is read as a run of tokens (element starts and ends, character
//! data), and each element is checked against a declarative description of the
//! attributes and children it may have. The first deviation is returned as an
//! error that carries the position at which it was found.
//!
//! There are three COLLADA versions supported by this library: `1.4.0`,
//! `1.4.1`, and `1.5.0`. Version `1.4.0` documents are handled like `1.4.1`.
//! Version `1.5` is not compatible with version `1.4`, so the two are handled
//! separately: `1.4` documents are represented by [`v1_4::Collada`] and `1.5`
//! documents by [`v1_5::Collada`]. To avoid having to know the version of the
//! document before you load it, you can use [`VersionedDocument`].
//!
//! [COLLADA]: https://www.khronos.org/collada/

pub mod common;
pub mod document;
pub mod element;
pub mod engine;
pub mod error;
pub mod grammar;
pub mod node;
pub mod number;
pub mod schema;
pub mod source;
pub mod text;
pub mod token;
pub mod utils;
pub mod v1_4;
pub mod v1_5;
pub mod value;
pub mod versioned;

pub use crate::error::{Error, ErrorKind, Result, TextPosition, XmlError};
pub use crate::versioned::VersionedDocument;
