//! Tokens and operator precedence.
//!
//! The lexer itself is an external collaborator: the library consumes a
//! finite sequence of tokens, each carrying the source line it came from.

use vstd::prelude::*;

verus! {

use crate::Span;

/// One token kind. `Float` carries the IEEE-754 bit pattern of the literal,
/// since the library models floating-point numbers by their bits.
#[derive(Clone, Debug)]
pub enum T {
    LeftParen,
    RightParen,
    LeftBracket,
    RightBracket,
    LeftBrace,
    RightBrace,
    Comma,
    Colon,
    ColonEqual,
    Equal,
    Arrow,
    Dot,
    Fn,
    Float(u64),
    Int(i64),
    Bool(bool),
    String(String),
    Identifier(String),
    Nil,
    Minus,
    Plus,
    Star,
    Slash,
    Bang,
    EqualEqual,
    NotEqual,
    Greater,
    GreaterEqual,
    Less,
    LessEqual,
    And,
    Or,
    In,
    AssertEqual,
    Else,
    Print,
    Use,
    Newline,
    EOF,
}

/// A token together with the source line it came from.
#[derive(Clone, Debug)]
pub struct Token {
    pub kind: T,
    pub span: Span,
}

/// Whether two token kinds are the same data-free kind. Tokens that carry
/// data (numbers, strings, identifiers) are never "the same" under this
/// test; the parser only ever compares against data-free kinds.
pub open spec fn spec_same_kind(a: T, b: T) -> bool {
    match (a, b) {
        (T::LeftParen, T::LeftParen) => true,
        (T::RightParen, T::RightParen) => true,
        (T::LeftBracket, T::LeftBracket) => true,
        (T::RightBracket, T::RightBracket) => true,
        (T::LeftBrace, T::LeftBrace) => true,
        (T::RightBrace, T::RightBrace) => true,
        (T::Comma, T::Comma) => true,
        (T::Colon, T::Colon) => true,
        (T::ColonEqual, T::ColonEqual) => true,
        (T::Equal, T::Equal) => true,
        (T::Arrow, T::Arrow) => true,
        (T::Dot, T::Dot) => true,
        (T::Fn, T::Fn) => true,
        (T::Nil, T::Nil) => true,
        (T::Minus, T::Minus) => true,
        (T::Plus, T::Plus) => true,
        (T::Star, T::Star) => true,
        (T::Slash, T::Slash) => true,
        (T::Bang, T::Bang) => true,
        (T::EqualEqual, T::EqualEqual) => true,
        (T::NotEqual, T::NotEqual) => true,
        (T::Greater, T::Greater) => true,
        (T::GreaterEqual, T::GreaterEqual) => true,
        (T::Less, T::Less) => true,
        (T::LessEqual, T::LessEqual) => true,
        (T::And, T::And) => true,
        (T::Or, T::Or) => true,
        (T::In, T::In) => true,
        (T::AssertEqual, T::AssertEqual) => true,
        (T::Else, T::Else) => true,
        (T::Print, T::Print) => true,
        (T::Use, T::Use) => true,
        (T::Newline, T::Newline) => true,
        (T::EOF, T::EOF) => true,
        _ => false,
    }
}

/// Executable form of [`spec_same_kind`].
pub fn same_kind(a: &T, b: &T) -> (r: bool)
    ensures
        r == spec_same_kind(*a, *b),
{
    match (a, b) {
        (T::LeftParen, T::LeftParen) => true,
        (T::RightParen, T::RightParen) => true,
        (T::LeftBracket, T::LeftBracket) => true,
        (T::RightBracket, T::RightBracket) => true,
        (T::LeftBrace, T::LeftBrace) => true,
        (T::RightBrace, T::RightBrace) => true,
        (T::Comma, T::Comma) => true,
        (T::Colon, T::Colon) => true,
        (T::ColonEqual, T::ColonEqual) => true,
        (T::Equal, T::Equal) => true,
        (T::Arrow, T::Arrow) => true,
        (T::Dot, T::Dot) => true,
        (T::Fn, T::Fn) => true,
        (T::Nil, T::Nil) => true,
        (T::Minus, T::Minus) => true,
        (T::Plus, T::Plus) => true,
        (T::Star, T::Star) => true,
        (T::Slash, T::Slash) => true,
        (T::Bang, T::Bang) => true,
        (T::EqualEqual, T::EqualEqual) => true,
        (T::NotEqual, T::NotEqual) => true,
        (T::Greater, T::Greater) => true,
        (T::GreaterEqual, T::GreaterEqual) => true,
        (T::Less, T::Less) => true,
        (T::LessEqual, T::LessEqual) => true,
        (T::And, T::And) => true,
        (T::Or, T::Or) => true,
        (T::In, T::In) => true,
        (T::AssertEqual, T::AssertEqual) => true,
        (T::Else, T::Else) => true,
        (T::Print, T::Print) => true,
        (T::Use, T::Use) => true,
        (T::Newline, T::Newline) => true,
        (T::EOF, T::EOF) => true,
        _ => false,
    }
}

/// Operator precedence classes, loosest to tightest:
/// arrow < assert < boolean-or < boolean-and < comparison < term < factor < index.
/// `No` sits below every operator and is the entry level of expression parsing.
#[derive(Clone, Copy, Debug)]
pub enum Prec {
    No,
    Arrow,
    Assert,
    BoolOr,
    BoolAnd,
    Comp,
    Term,
    Factor,
    Index,
}

/// Numeric level of a precedence class; larger binds tighter.
pub open spec fn spec_prec_level(p: Prec) -> u8 {
    match p {
        Prec::No => 0,
        Prec::Arrow => 1,
        Prec::Assert => 2,
        Prec::BoolOr => 3,
        Prec::BoolAnd => 4,
        Prec::Comp => 5,
        Prec::Term => 6,
        Prec::Factor => 7,
        Prec::Index => 8,
    }
}

/// Executable form of [`spec_prec_level`].
pub fn prec_level(p: Prec) -> (r: u8)
    ensures
        r == spec_prec_level(p),
{
    match p {
        Prec::No => 0,
        Prec::Arrow => 1,
        Prec::Assert => 2,
        Prec::BoolOr => 3,
        Prec::BoolAnd => 4,
        Prec::Comp => 5,
        Prec::Term => 6,
        Prec::Factor => 7,
        Prec::Index => 8,
    }
}

/// The next-tighter precedence class, used for the right-hand side of a
/// left-associative infix operator. `Index` is already the tightest.
pub open spec fn spec_next_prec(p: Prec) -> Prec {
    match p {
        Prec::No => Prec::Arrow,
        Prec::Arrow => Prec::Assert,
        Prec::Assert => Prec::BoolOr,
        Prec::BoolOr => Prec::BoolAnd,
        Prec::BoolAnd => Prec::Comp,
        Prec::Comp => Prec::Term,
        Prec::Term => Prec::Factor,
        Prec::Factor => Prec::Index,
        Prec::Index => Prec::Index,
    }
}

/// Executable form of [`spec_next_prec`].
pub fn next_prec(p: Prec) -> (r: Prec)
    ensures
        r == spec_next_prec(p),
{
    match p {
        Prec::No => Prec::Arrow,
        Prec::Arrow => Prec::Assert,
        Prec::Assert => Prec::BoolOr,
        Prec::BoolOr => Prec::BoolAnd,
        Prec::BoolAnd => Prec::Comp,
        Prec::Comp => Prec::Term,
        Prec::Term => Prec::Factor,
        Prec::Factor => Prec::Index,
        Prec::Index => Prec::Index,
    }
}

} // verus!
