//! The tokens of a document, and a reader that hands them out one by one.

use crate::error::TextPosition;
use vstd::prelude::*;

verus! {

/// One attribute of an element, as it was written.
#[derive(Debug, Clone, PartialEq, Eq)]
pub struct Attribute {
    pub name: String,
    pub value: String,
}

impl Attribute {
    /// An attribute with the given name and value.
    pub fn new(name: String, value: String) -> (r: Attribute)
        ensures
            r.name == name,
            r.value == value,
    {
        Attribute { name, value }
    }
}

/// What a token is.
#[derive(Debug, Clone, PartialEq, Eq)]
pub enum TokenKind {
    /// The document begins.
    DocumentStart,
    /// An element begins, with its attributes in the order in which they were
    /// written.
    ElementStart { name: String, attributes: Vec<Attribute> },
    /// An element ends.
    ElementEnd { name: String },
    /// Character data.
    Text { data: String },
    /// The document ends.
    DocumentEnd,
    /// The markup was malformed at this point; no token follows.
    Malformed { message: String },
}

/// One structural event of a document and the place where it begins.
#[derive(Debug, Clone, PartialEq, Eq)]
pub struct Token {
    pub position: TextPosition,
    pub kind: TokenKind,
}

/// What an [`Attribute`] holds, as mathematical values.
pub struct AttributeView {
    pub name: Seq<char>,
    pub value: Seq<char>,
}

impl View for Attribute {
    type V = AttributeView;

    open spec fn view(&self) -> AttributeView {
        AttributeView { name: self.name@, value: self.value@ }
    }
}

/// What a [`TokenKind`] holds, as mathematical values.
pub enum TokenKindView {
    DocumentStart,
    ElementStart { name: Seq<char>, attributes: Seq<AttributeView> },
    ElementEnd { name: Seq<char> },
    Text { data: Seq<char> },
    DocumentEnd,
    Malformed { message: Seq<char> },
}

/// What each of `attributes` holds, in order.
pub open spec fn attribute_views(attributes: Seq<Attribute>) -> Seq<AttributeView> {
    Seq::new(attributes.len(), |i: int| attributes[i]@)
}

impl View for TokenKind {
    type V = TokenKindView;

    open spec fn view(&self) -> TokenKindView {
        match *self {
            TokenKind::DocumentStart => TokenKindView::DocumentStart,
            TokenKind::ElementStart { name, attributes } => TokenKindView::ElementStart {
                name: name@,
                attributes: attribute_views(attributes@),
            },
            TokenKind::ElementEnd { name } => TokenKindView::ElementEnd { name: name@ },
            TokenKind::Text { data } => TokenKindView::Text { data: data@ },
            TokenKind::DocumentEnd => TokenKindView::DocumentEnd,
            TokenKind::Malformed { message } => TokenKindView::Malformed { message: message@ },
        }
    }
}

/// What a [`Token`] holds, as mathematical values.
pub struct TokenView {
    pub position: TextPosition,
    pub kind: TokenKindView,
}

impl View for Token {
    type V = TokenView;

    open spec fn view(&self) -> TokenView {
        TokenView { position: self.position, kind: self.kind@ }
    }
}

/// What each of `tokens` holds, in order.
pub open spec fn token_views(tokens: Seq<Token>) -> Seq<TokenView> {
    Seq::new(tokens.len(), |i: int| tokens[i]@)
}

/// A copy of `attributes`.
pub fn copy_attributes(attributes: &[Attribute]) -> (r: Vec<Attribute>)
    ensures
        attribute_views(r@) == attribute_views(attributes@),
{
    let mut out: Vec<Attribute> = Vec::new();
    let mut i: usize = 0;
    while i < attributes.len()
        invariant
            i <= attributes.len(),
            out@.len() == i,
            forall|k: int| 0 <= k < i ==> out@[k]@ == attributes@[k]@,
        decreases attributes.len() - i,
    {
        let a = &attributes[i];
        out.push(Attribute { name: a.name.clone(), value: a.value.clone() });
        i += 1;
    }
    assert(attribute_views(out@) =~= attribute_views(attributes@));
    out
}

/// A copy of `token`.
pub fn copy_token(token: &Token) -> (r: Token)
    ensures
        r@ == token@,
{
    let kind = match &token.kind {
        TokenKind::DocumentStart => TokenKind::DocumentStart,
        TokenKind::ElementStart { name, attributes } => TokenKind::ElementStart {
            name: name.clone(),
            attributes: copy_attributes(attributes.as_slice()),
        },
        TokenKind::ElementEnd { name } => TokenKind::ElementEnd { name: name.clone() },
        TokenKind::Text { data } => TokenKind::Text { data: data.clone() },
        TokenKind::DocumentEnd => TokenKind::DocumentEnd,
        TokenKind::Malformed { message } => TokenKind::Malformed { message: message.clone() },
    };
    Token { position: token.position, kind }
}

/// The position of the token read last when `cursor` tokens have been read:
/// the origin before the first one.
pub open spec fn position_at(tokens: Seq<Token>, cursor: int) -> TextPosition {
    if 0 < cursor <= tokens.len() {
        tokens[cursor - 1].position
    } else {
        TextPosition { row: 0, column: 0 }
    }
}

/// The cursor after one more token has been asked for: it stays where it is
/// once all tokens have been read.
pub open spec fn advance(tokens: Seq<Token>, cursor: int) -> int {
    if cursor < tokens.len() {
        cursor + 1
    } else {
        cursor
    }
}

/// Reads the tokens of a document in order. Once they are exhausted the
/// reader stays at the end, as a document that has ended.
pub struct TokenReader<'a> {
    tokens: &'a [Token],
    cursor: usize,
}

impl<'a> TokenReader<'a> {
    #[verifier::type_invariant]
    spec fn within(&self) -> bool {
        self.cursor <= self.tokens@.len()
    }

    /// All the tokens of the document.
    pub closed spec fn tokens(&self) -> Seq<Token> {
        self.tokens@
    }

    /// How many tokens have been read.
    pub closed spec fn cursor(&self) -> int {
        self.cursor as int
    }

    /// How many tokens are still to be read.
    pub open spec fn remaining(&self) -> nat {
        (self.tokens().len() - self.cursor()) as nat
    }

    /// A reader at the beginning of `tokens`.
    pub fn new(tokens: &'a [Token]) -> (r: Self)
        ensures
            r.tokens() == tokens@,
            r.cursor() == 0,
    {
        TokenReader { tokens, cursor: 0 }
    }

    /// How many tokens are still to be read.
    pub fn remaining_len(&self) -> (n: usize)
        ensures
            n == self.remaining(),
            0 <= self.cursor() <= self.tokens().len() <= usize::MAX,
    {
        proof {
            use_type_invariant(self);
        }
        self.tokens.len() - self.cursor
    }

    /// The next token, if one is left.
    pub fn next(&mut self) -> (r: Option<&'a Token>)
        ensures
            final(self).tokens() == old(self).tokens(),
            final(self).cursor() == advance(old(self).tokens(), old(self).cursor()),
            0 <= old(self).cursor() <= old(self).tokens().len(),
            old(self).cursor() < old(self).tokens().len() ==> r == Some(
                &old(self).tokens()[old(self).cursor()],
            ),
            old(self).cursor() >= old(self).tokens().len() ==> r is None,
    {
        proof {
            use_type_invariant(&*self);
        }
        if self.cursor < self.tokens.len() {
            let token = &self.tokens[self.cursor];
            self.cursor = self.cursor + 1;
            Some(token)
        } else {
            None
        }
    }

    /// The position of the token read last.
    pub fn position(&self) -> (r: TextPosition)
        ensures
            r == position_at(self.tokens(), self.cursor()),
    {
        proof {
            use_type_invariant(self);
        }
        if self.cursor > 0 {
            self.tokens[self.cursor - 1].position
        } else {
            TextPosition { row: 0, column: 0 }
        }
    }
}

} // verus!
