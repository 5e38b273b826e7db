//! The abstract syntax tree that the parser builds and the compiler
//! consumes. Every node carries a [`Span`] (its source line). The tree is
//! immutable once built.

use vstd::prelude::*;

verus! {

use crate::Span;
use crate::value;

/// A name occurrence in the source, with its line.
#[derive(Clone, Debug)]
pub struct Identifier {
    pub span: Span,
    pub name: String,
}

/// A type annotation in the source.
#[derive(Clone, Debug)]
pub enum TypeKind {
    /// The annotation names a known runtime type.
    Resolved(value::Type),
}

/// A type annotation together with its source line.
#[derive(Clone, Debug)]
pub struct Type {
    pub span: Span,
    pub kind: TypeKind,
}

/// How a variable was introduced.
#[derive(Clone, Copy, Debug)]
pub enum VarKind {
    Const,
    Mutable,
}

/// Something that can stand on the left of an assignment or be read:
/// a plain name, a call, a field access, or an indexing.
#[derive(Debug)]
pub enum AssignableKind {
    Read(Identifier),
    Call(Box<Assignable>, Vec<Expression>),
    Access(Box<Assignable>, Box<Assignable>),
    Index(Box<Assignable>, Box<Expression>),
}

#[derive(Debug)]
pub struct Assignable {
    pub span: Span,
    pub kind: AssignableKind,
}

/// An expression. Literal floats carry the IEEE-754 bit pattern of the
/// written constant.
#[derive(Debug)]
pub enum ExpressionKind {
    Get(Assignable),

    Add(Box<Expression>, Box<Expression>),
    Sub(Box<Expression>, Box<Expression>),
    Mul(Box<Expression>, Box<Expression>),
    Div(Box<Expression>, Box<Expression>),

    Eq(Box<Expression>, Box<Expression>),
    Neq(Box<Expression>, Box<Expression>),
    Gt(Box<Expression>, Box<Expression>),
    Gteq(Box<Expression>, Box<Expression>),
    Lt(Box<Expression>, Box<Expression>),
    Lteq(Box<Expression>, Box<Expression>),

    AssertEq(Box<Expression>, Box<Expression>),
    In(Box<Expression>, Box<Expression>),

    And(Box<Expression>, Box<Expression>),
    Or(Box<Expression>, Box<Expression>),

    Neg(Box<Expression>),
    Not(Box<Expression>),

    /// A function literal: parameter names and types, return type, body.
    Function {
        name: String,
        params: Vec<(Identifier, Type)>,
        ret: Type,
        body: Box<Statement>,
    },

    /// A blob (record) instantiation, e.g. `A { b: 55 }`.
    Instance {
        blob: Assignable,
        fields: Vec<(String, Expression)>,
    },

    Tuple(Vec<Expression>),
    List(Vec<Expression>),
    SetCol(Vec<Expression>),
    /// Keys and values interleaved: key, value, key, value, ...
    Dict(Vec<Expression>),

    Float(u64),
    Int(i64),
    Bool(bool),
    Str(String),
    Nil,
}

#[derive(Debug)]
pub struct Expression {
    pub span: Span,
    pub kind: ExpressionKind,
}

/// A statement.
#[derive(Debug)]
pub enum StatementKind {
    EmptyStatement,

    Print {
        value: Expression,
    },

    /// A top-level or local definition, `x := value`.
    Definition {
        ident: Identifier,
        kind: VarKind,
        ty: Type,
        value: Expression,
    },

    /// An assignment to an already-defined target.
    Assignment {
        target: Assignable,
        value: Expression,
    },

    StatementExpression {
        value: Expression,
    },

    /// A module import, `use file`.
    Use {
        file: Identifier,
    },

    /// A braced sequence of statements.
    Block(Vec<Statement>),
}

#[derive(Debug)]
pub struct Statement {
    pub span: Span,
    pub kind: StatementKind,
}

/// One source module: its top-level statements.
#[derive(Debug)]
pub struct Module {
    pub span: Span,
    pub statements: Vec<Statement>,
}

/// A whole program: one or more modules, each with its file path. The
/// first module is the entry module.
#[derive(Debug)]
pub struct Prog {
    pub modules: Vec<(String, Module)>,
}

} // verus!
