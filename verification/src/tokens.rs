//! The token model that the grammar engine reads.
//!
//! Tokens are produced elsewhere; the engine only inspects their kind and
//! carries their payload and location into the syntax tree.

use crate::span::Span;
use vstd::prelude::*;

verus! {

/// A literal value. The engine never interprets it.
///
/// A floating-point literal is held as the bit pattern of its IEEE 754
/// binary64 value.
#[derive(Debug, PartialEq)]
pub enum Literal {
    Bool(bool),
    Int(i64),
    Float(u64),
    Str(String),
}

pub ghost enum LiteralView {
    Bool(bool),
    Int(i64),
    Float(u64),
    Str(Seq<char>),
}

impl View for Literal {
    type V = LiteralView;

    open spec fn view(&self) -> LiteralView {
        match self {
            Literal::Bool(b) => LiteralView::Bool(*b),
            Literal::Int(i) => LiteralView::Int(*i),
            Literal::Float(bits) => LiteralView::Float(*bits),
            Literal::Str(s) => LiteralView::Str(s@),
        }
    }
}

impl Clone for Literal {
    fn clone(&self) -> (copy: Literal)
        ensures
            copy@ == self@,
    {
        match self {
            Literal::Bool(b) => Literal::Bool(*b),
            Literal::Int(i) => Literal::Int(*i),
            Literal::Float(bits) => Literal::Float(*bits),
            Literal::Str(s) => Literal::Str(s.clone()),
        }
    }
}

impl Literal {
    /// Whether two literals hold the same value.
    pub fn same(&self, other: &Literal) -> (same: bool)
        ensures
            same == (self@ == other@),
    {
        match (self, other) {
            (Literal::Bool(a), Literal::Bool(b)) => *a == *b,
            (Literal::Int(a), Literal::Int(b)) => *a == *b,
            (Literal::Float(a), Literal::Float(b)) => *a == *b,
            (Literal::Str(a), Literal::Str(b)) => *a == *b,
            _ => false,
        }
    }
}

/// What a token is: an identifier with its text, a punctuation character
/// with the flag that tells whether it directly follows the previous token
/// ("glued"), or a literal with its value.
#[derive(Debug, PartialEq)]
pub enum TokenType {
    Ident(String),
    Particle(char, bool),
    Literal(Literal),
}

pub ghost enum TokenTypeView {
    Ident(Seq<char>),
    Particle(char, bool),
    Literal(LiteralView),
}

impl View for TokenType {
    type V = TokenTypeView;

    open spec fn view(&self) -> TokenTypeView {
        match self {
            TokenType::Ident(text) => TokenTypeView::Ident(text@),
            TokenType::Particle(c, glued) => TokenTypeView::Particle(*c, *glued),
            TokenType::Literal(lit) => TokenTypeView::Literal(lit@),
        }
    }
}

impl Clone for TokenType {
    fn clone(&self) -> (copy: TokenType)
        ensures
            copy@ == self@,
    {
        match self {
            TokenType::Ident(text) => TokenType::Ident(text.clone()),
            TokenType::Particle(c, glued) => TokenType::Particle(*c, *glued),
            TokenType::Literal(lit) => TokenType::Literal(lit.clone()),
        }
    }
}

impl TokenType {
    /// Whether two token kinds are the same, payload included.
    pub fn same(&self, other: &TokenType) -> (same: bool)
        ensures
            same == (self@ == other@),
    {
        match (self, other) {
            (TokenType::Ident(a), TokenType::Ident(b)) => *a == *b,
            (TokenType::Particle(a, ga), TokenType::Particle(b, gb)) => *a == *b && *ga == *gb,
            (TokenType::Literal(a), TokenType::Literal(b)) => a.same(b),
            _ => false,
        }
    }
}

/// A token: its kind and where it stands in the source.
#[derive(Debug, PartialEq)]
pub struct Token {
    pub tt: TokenType,
    pub loc: Span,
}

pub ghost struct TokenView {
    pub tt: TokenTypeView,
    pub loc: Span,
}

impl View for Token {
    type V = TokenView;

    open spec fn view(&self) -> TokenView {
        TokenView { tt: self.tt@, loc: self.loc }
    }
}

impl Clone for Token {
    fn clone(&self) -> (copy: Token)
        ensures
            copy@ == self@,
    {
        Token { tt: self.tt.clone(), loc: self.loc }
    }
}

impl Token {
    pub fn new(tt: TokenType, loc: Span) -> (token: Token)
        ensures
            token@ == (TokenView { tt: tt@, loc }),
    {
        Token { tt, loc }
    }
}

/// The views of a sequence of tokens, one by one.
pub open spec fn token_views(tokens: Seq<Token>) -> Seq<TokenView> {
    Seq::new(tokens.len(), |i: int| tokens[i]@)
}

} // verus!
