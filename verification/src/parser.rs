//! The parser's cursor and the statement-level grammar.
//!
//! A [`Context`] is a cheap copyable cursor over the token stream; every
//! parse function takes one and hands back the advanced cursor with what
//! it parsed, or the errors it found. Parsing is error-tolerant at the
//! statement level: a bad statement is reported and the parser resumes
//! at the next line, so one pass can report several independent syntax
//! errors.

use vstd::prelude::*;

verus! {

use crate::ast::{Assignable, AssignableKind, Expression, Identifier, Module, Statement,
    StatementKind, TypeKind, VarKind};
use crate::error::Error;
use crate::token::{same_kind, spec_same_kind, Token, T};
use crate::value;
use crate::Span;

/// The result of one parse step: the advanced cursor and the node, or
/// the cursor where parsing failed and the errors found.
pub type ParseResult<'t, A> = Result<(Context<'t>, A), (Context<'t>, Vec<Error>)>;

/// A cursor over a token stream: the tokens, the position, and the name
/// of the file being parsed (for error messages).
#[derive(Clone, Copy)]
pub struct Context<'t> {
    pub tokens: &'t Vec<Token>,
    pub curr: usize,
    pub file: &'t String,
}

impl<'t> Context<'t> {
    /// A well-formed cursor: in bounds, over a stream whose last token
    /// is `EOF`.
    pub open spec fn wf(self) -> bool {
        &&& self.curr < self.tokens@.len()
        &&& (self.tokens@[self.tokens@.len() - 1].kind matches T::EOF)
    }

    /// The token kind at the cursor.
    pub open spec fn cur_kind(self) -> T {
        self.tokens@[self.curr as int].kind
    }

    /// The token kind at an absolute position.
    pub open spec fn kind_at(self, i: int) -> T {
        self.tokens@[i].kind
    }

    /// The span of the token at the cursor.
    pub open spec fn spec_span(self) -> Span {
        self.tokens@[self.curr as int].span
    }

    /// Whether `other` is the same stream, `n` tokens further on.
    pub open spec fn advanced(self, other: Context<'t>) -> bool {
        &&& other.tokens == self.tokens
        &&& other.file == self.file
        &&& other.curr > self.curr
        &&& other.wf()
    }

    /// Like [`Context::advanced`], but the cursor may also be unmoved.
    pub open spec fn advanced_or_same(self, other: Context<'t>) -> bool {
        &&& other.tokens == self.tokens
        &&& other.file == self.file
        &&& other.curr >= self.curr
        &&& other.wf()
    }

    /// A new cursor at the start of a stream.
    pub fn new(tokens: &'t Vec<Token>, file: &'t String) -> (c: Context<'t>)
        requires
            tokens@.len() > 0,
            tokens@[tokens@.len() - 1].kind matches T::EOF,
        ensures
            c.wf(),
            c.tokens == tokens,
            c.file == file,
            c.curr == 0,
    {
        Context { tokens, curr: 0, file }
    }

    /// A borrow of the token kind at the cursor.
    pub fn token(self) -> (t: &'t T)
        requires
            self.wf(),
        ensures
            *t == self.cur_kind(),
    {
        &self.tokens[self.curr].kind
    }

    /// The span of the token at the cursor.
    pub fn span(self) -> (s: Span)
        requires
            self.wf(),
        ensures
            s == self.spec_span(),
    {
        self.tokens[self.curr].span
    }

    /// The line of the token at the cursor.
    pub fn line(self) -> (l: usize)
        requires
            self.wf(),
        ensures
            l == self.spec_span().line,
    {
        self.tokens[self.curr].span.line
    }

    /// Moves `n` tokens forward, stopping at the final `EOF`.
    pub fn skip(self, n: usize) -> (c: Context<'t>)
        requires
            self.wf(),
        ensures
            c.wf(),
            c.tokens == self.tokens,
            c.file == self.file,
            c.curr >= self.curr,
            self.curr + n <= self.tokens@.len() - 1 ==> c.curr == self.curr + n,
            self.curr + n > self.tokens@.len() - 1 ==> c.curr == self.tokens@.len() - 1,
    {
        let last = self.tokens.len() - 1;
        let c = if n <= last - self.curr {
            self.curr + n
        } else {
            last
        };
        Context { tokens: self.tokens, curr: c, file: self.file }
    }

    /// Consumes the token at the cursor: hands it back together with its
    /// span and the advanced cursor. At the final `EOF` the cursor does
    /// not move.
    pub fn eat(self) -> (r: (&'t T, Span, Context<'t>))
        requires
            self.wf(),
        ensures
            *r.0 == self.cur_kind(),
            r.1 == self.spec_span(),
            r.2.wf(),
            r.2.tokens == self.tokens,
            r.2.file == self.file,
            r.2.curr >= self.curr,
            !(self.cur_kind() matches T::EOF) ==> r.2.curr == self.curr + 1,
    {
        proof {
            if !(self.cur_kind() matches T::EOF) {
                assert(self.curr != self.tokens@.len() - 1);
            }
        }
        (&self.tokens[self.curr].kind, self.tokens[self.curr].span, self.skip(1))
    }

    /// Moves past the token at the cursor if it is of kind `t`.
    pub fn skip_if(self, t: &T) -> (c: Context<'t>)
        requires
            self.wf(),
            !(*t matches T::EOF),
        ensures
            c.wf(),
            c.tokens == self.tokens,
            c.file == self.file,
            spec_same_kind(self.cur_kind(), *t) ==> c.curr == self.curr + 1,
            !spec_same_kind(self.cur_kind(), *t) ==> c == self,
    {
        if same_kind(self.token(), t) {
            proof {
                lemma_same_kind_not_eof(self.cur_kind(), *t);
                assert(self.curr != self.tokens@.len() - 1);
            }
            self.skip(1)
        } else {
            self
        }
    }

    /// Moves past every consecutive token of kind `t`.
    #[verifier::loop_isolation(false)]
    pub fn skip_while(self, t: &T) -> (c: Context<'t>)
        requires
            self.wf(),
            !(*t matches T::EOF),
        ensures
            c.wf(),
            c.tokens == self.tokens,
            c.file == self.file,
            c.curr >= self.curr,
            !spec_same_kind(c.cur_kind(), *t),
            !spec_same_kind(self.cur_kind(), *t) ==> c == self,
    {
        let mut c = self;
        while same_kind(c.token(), t)
            invariant
                c.wf(),
                c.tokens == self.tokens,
                c.file == self.file,
                c.curr >= self.curr,
                c == self || spec_same_kind(self.cur_kind(), *t),
            decreases c.tokens@.len() - c.curr,
        {
            proof {
                lemma_same_kind_not_eof(c.cur_kind(), *t);
                assert(c.curr != c.tokens@.len() - 1);
            }
            c = c.skip(1);
        }
        c
    }
}

/// Whether the token begins a literal value.
pub open spec fn is_literal(t: T) -> bool {
    match t {
        T::Float(_) => true,
        T::Int(_) => true,
        T::Bool(_) => true,
        T::String(_) => true,
        T::Nil => true,
        _ => false,
    }
}

/// The call shape `name ( name )` with nothing chaining after it: the
/// smallest call an assignable can be.
pub open spec fn call_of_one_name(ctx: Context<'_>) -> bool {
    &&& ctx.cur_kind() matches T::Identifier(_)
    &&& ctx.kind_at(ctx.curr + 1) matches T::LeftParen
    &&& ctx.kind_at(ctx.curr + 2) matches T::Identifier(_)
    &&& ctx.kind_at(ctx.curr + 3) matches T::RightParen
    &&& !(ctx.kind_at(ctx.curr + 4) matches T::LeftParen)
    &&& !(ctx.kind_at(ctx.curr + 4) matches T::Dot)
    &&& !(ctx.kind_at(ctx.curr + 4) matches T::LeftBracket)
}

/// Whether the token is one of the five primitive type names.
pub open spec fn is_type_name(t: T) -> bool {
    t matches T::Identifier(n) && (n@ == "int"@ || n@ == "float"@ || n@ == "bool"@ || n@
        == "str"@ || n@ == "void"@)
}

/// Every error a parse step reports is a syntax error against the
/// stream's file.
pub open spec fn errs_syntax(ctx: Context<'_>, es: Seq<Error>) -> bool {
    forall|i: int|
        0 <= i < es.len() ==> (#[trigger] es[i]@ matches crate::error::ErrorV::SyntaxError {
            file,
            ..
        } && file == ctx.file@)
}

/// A token of the same kind as a non-`EOF` token is itself not `EOF`.
pub proof fn lemma_same_kind_not_eof(a: T, b: T)
    requires
        spec_same_kind(a, b),
        !(b matches T::EOF),
    ensures
        !(a matches T::EOF),
{
}

/// Builds a syntax error at the cursor.
pub fn syntax_error(ctx: Context<'_>, msg: &str) -> (e: Error)
    requires
        ctx.wf(),
    ensures
        e@ matches crate::error::ErrorV::SyntaxError { file, line, message } && file == ctx.file@
            && line == ctx.spec_span().line && message == msg@,
{
    Error::SyntaxError { file: ctx.file.clone(), line: ctx.line(), message: msg.to_owned() }
}

/// Consumes one token of kind `t`, or reports `msg` as a syntax error at
/// the cursor.
pub fn expect<'t>(ctx: Context<'t>, t: &T, msg: &str) -> (r: Result<
    Context<'t>,
    (Context<'t>, Vec<Error>),
>)
    requires
        ctx.wf(),
        !(*t matches T::EOF),
    ensures
        match r {
            Result::Ok(c) => spec_same_kind(ctx.cur_kind(), *t) && c.wf() && c.tokens == ctx.tokens
                && c.file == ctx.file && c.curr == ctx.curr + 1,
            Result::Err((c, es)) => !spec_same_kind(ctx.cur_kind(), *t) && c == ctx && es@.len()
                == 1 && errs_syntax(ctx, es@),
        },
{
    if same_kind(ctx.token(), t) {
        proof {
            lemma_same_kind_not_eof(ctx.cur_kind(), *t);
            assert(ctx.curr != ctx.tokens@.len() - 1);
        }
        Ok(ctx.skip(1))
    } else {
        let e = syntax_error(ctx, msg);
        Err((ctx, vec![e]))
    }
}

/// Parse an assignable: a name, then any chain of calls, field
/// accesses and indexings.
#[verifier::loop_isolation(false)]
pub fn assignable<'t>(ctx: Context<'t>) -> (r: ParseResult<'t, Assignable>)
    requires
        ctx.wf(),
    ensures
        match r {
            Result::Ok((c, a)) => ctx.advanced(c) && a.span == ctx.spec_span() && (
            ctx.cur_kind() matches T::Identifier(n) ==> ((!(ctx.kind_at(ctx.curr + 1)
                matches T::LeftParen) && !(ctx.kind_at(ctx.curr + 1) matches T::Dot) && !(
            ctx.kind_at(ctx.curr + 1) matches T::LeftBracket)) ==> (c.curr == ctx.curr + 1 && (
            a.kind matches AssignableKind::Read(id) && id.name@ == n@)))),
            Result::Err((c, es)) => ctx.advanced_or_same(c) && errs_syntax(ctx, es@),
        },
        !(ctx.cur_kind() matches T::Identifier(_)) ==> r is Err,
        (ctx.cur_kind() matches T::Identifier(_) && !(ctx.kind_at(ctx.curr + 1)
            matches T::LeftParen) && !(ctx.kind_at(ctx.curr + 1) matches T::Dot) && !(ctx.kind_at(
            ctx.curr + 1,
        ) matches T::LeftBracket)) ==> r is Ok,
        call_of_one_name(ctx) ==> (r matches Result::Ok((c, a)) && c.curr == ctx.curr + 4 && (
        ctx.cur_kind() matches T::Identifier(f) ==> (ctx.kind_at(ctx.curr + 2)
            matches T::Identifier(b) ==> (a.kind matches AssignableKind::Call(callee, args) && (
        callee.kind matches AssignableKind::Read(idf) && idf.name@ == f@) && args@.len() == 1 && (
        args@[0].kind matches crate::ast::ExpressionKind::Get(a2) && (
        a2.kind matches AssignableKind::Read(idb) && idb.name@ == b@)))))),
    decreases ctx.tokens@.len() - ctx.curr, 0int,
{
    let span = ctx.span();
    let (tok, ispan, c0) = ctx.eat();
    let name = match tok {
        T::Identifier(n) => n.clone(),
        _ => {
            let e = syntax_error(ctx, "Expected an identifier");
            return Err((ctx, vec![e]));
        },
    };
    let mut result = Assignable {
        span,
        kind: AssignableKind::Read(Identifier { span: ispan, name }),
    };
    let ghost plain = !(ctx.kind_at(ctx.curr + 1) matches T::LeftParen) && !(ctx.kind_at(
        ctx.curr + 1,
    ) matches T::Dot) && !(ctx.kind_at(ctx.curr + 1) matches T::LeftBracket);
    let mut c = c0;
    loop
        invariant
            c.wf(),
            c.tokens == ctx.tokens,
            c.file == ctx.file,
            c.curr > ctx.curr,
            result.span == ctx.spec_span(),
            plain ==> (c.curr == ctx.curr + 1 && (result.kind matches AssignableKind::Read(id)
                && (ctx.cur_kind() matches T::Identifier(n) && id.name@ == n@))),
            call_of_one_name(ctx) ==> (c.curr == ctx.curr + 1 && (
            result.kind matches AssignableKind::Read(id) && (ctx.cur_kind()
                matches T::Identifier(n) && id.name@ == n@)) || c.curr == ctx.curr + 4 && (
            ctx.cur_kind() matches T::Identifier(f) ==> (ctx.kind_at(ctx.curr + 2)
                matches T::Identifier(b) ==> (result.kind matches AssignableKind::Call(
                callee,
                args,
            ) && (callee.kind matches AssignableKind::Read(idf) && idf.name@ == f@)
                && args@.len() == 1 && (args@[0].kind matches crate::ast::ExpressionKind::Get(a2)
                && (a2.kind matches AssignableKind::Read(idb) && idb.name@ == b@)))))),
        decreases c.tokens@.len() - c.curr,
    {
        match c.token() {
            // A call: parse the arguments up to the closing parenthesis.
            T::LeftParen => {
                let mut c2 = c.skip(1);
                let mut args: Vec<Expression> = Vec::new();
                loop
                    invariant
                        c2.wf(),
                        c2.tokens == ctx.tokens,
                        c2.file == ctx.file,
                        c2.curr > c.curr,
                        (call_of_one_name(ctx) && c.curr == ctx.curr + 1) ==> (c2.curr == ctx.curr
                            + 2 && args@.len() == 0 || c2.curr == ctx.curr + 3 && args@.len() == 1
                            && (ctx.kind_at(ctx.curr + 2) matches T::Identifier(b) ==> (
                        args@[0].kind matches crate::ast::ExpressionKind::Get(a2) && (
                        a2.kind matches AssignableKind::Read(idb) && idb.name@ == b@)))),
                    decreases c2.tokens@.len() - c2.curr,
                {
                    match c2.token() {
                        T::EOF | T::RightParen => {
                            break ;
                        },
                        _ => {
                            let (c3, expr) = match crate::expression::expression(c2) {
                                Result::Ok(x) => x,
                                Result::Err(e) => {
                                    return Err(e);
                                },
                            };
                            args.push(expr);
                            c2 = c3;
                            c2 = c2.skip_if(&T::Comma);
                        },
                    }
                }
                c = match expect(c2, &T::RightParen, "Expected ')' after the arguments") {
                    Result::Ok(x) => x,
                    Result::Err(e) => {
                        return Err(e);
                    },
                };
                result = Assignable { span, kind: AssignableKind::Call(Box::new(result), args) };
            },

            // A field access.
            T::Dot => {
                let c2 = c.skip(1);
                let fspan = c2.span();
                let (tok2, _, c3) = c2.eat();
                let fname = match tok2 {
                    T::Identifier(n) => n.clone(),
                    _ => {
                        let e = syntax_error(c2, "Expected a field name after '.'");
                        return Err((c2, vec![e]));
                    },
                };
                let field = Assignable {
                    span: fspan,
                    kind: AssignableKind::Read(Identifier { span: fspan, name: fname }),
                };
                c = c3;
                result = Assignable {
                    span,
                    kind: AssignableKind::Access(Box::new(result), Box::new(field)),
                };
            },

            // An indexing.
            T::LeftBracket => {
                let c2 = c.skip(1);
                let (c3, expr) = match crate::expression::expression(c2) {
                    Result::Ok(x) => x,
                    Result::Err(e) => {
                        return Err(e);
                    },
                };
                c = match expect(c3, &T::RightBracket, "Expected ']' after the index") {
                    Result::Ok(x) => x,
                    Result::Err(e) => {
                        return Err(e);
                    },
                };
                result = Assignable {
                    span,
                    kind: AssignableKind::Index(Box::new(result), Box::new(expr)),
                };
            },

            _ => {
                break ;
            },
        }
    }
    Ok((c, result))
}

/// Parse a type annotation: one of the primitive type names.
pub fn parse_type<'t>(ctx: Context<'t>) -> (r: ParseResult<'t, crate::ast::Type>)
    requires
        ctx.wf(),
    ensures
        match r {
            Result::Ok((c, t)) => ctx.advanced(c) && c.curr == ctx.curr + 1 && t.span
                == ctx.spec_span() && (ctx.cur_kind() matches T::Identifier(n) ==> {
                &&& n@ == "int"@ ==> (t.kind matches TypeKind::Resolved(value::Type::Int))
                &&& n@ == "float"@ ==> (t.kind matches TypeKind::Resolved(value::Type::Float))
                &&& n@ == "bool"@ ==> (t.kind matches TypeKind::Resolved(value::Type::Bool))
                &&& n@ == "str"@ ==> (t.kind matches TypeKind::Resolved(value::Type::String))
                &&& n@ == "void"@ ==> (t.kind matches TypeKind::Resolved(value::Type::Void))
            }),
            Result::Err((c, es)) => ctx.advanced_or_same(c) && errs_syntax(ctx, es@),
        },
        r is Ok <==> is_type_name(ctx.cur_kind()),
    decreases ctx.tokens@.len() - ctx.curr, 1int,
{
    proof {
        reveal_strlit("int");
        reveal_strlit("float");
        reveal_strlit("bool");
        reveal_strlit("str");
        reveal_strlit("void");
        assert("int"@.len() == 3);
        assert("float"@.len() == 5);
        assert("bool"@.len() == 4);
        assert("str"@.len() == 3);
        assert("void"@.len() == 4);
        assert("int"@[0] != "str"@[0]);
        assert("bool"@[0] != "void"@[0]);
    }
    let span = ctx.span();
    let (tok, _, c) = ctx.eat();
    let name = match tok {
        T::Identifier(n) => n,
        _ => {
            let e = syntax_error(ctx, "Expected a type name");
            return Err((ctx, vec![e]));
        },
    };
    let rt = if *name == "int".to_owned() {
        value::Type::Int
    } else if *name == "float".to_owned() {
        value::Type::Float
    } else if *name == "bool".to_owned() {
        value::Type::Bool
    } else if *name == "str".to_owned() {
        value::Type::String
    } else if *name == "void".to_owned() {
        value::Type::Void
    } else {
        let e = syntax_error(ctx, "Unknown type name");
        return Err((ctx, vec![e]));
    };
    Ok((c, crate::ast::Type { span, kind: TypeKind::Resolved(rt) }))
}

/// Parse one statement.
pub fn statement<'t>(ctx: Context<'t>) -> (r: ParseResult<'t, Statement>)
    requires
        ctx.wf(),
    ensures
        match r {
            Result::Ok((c, s)) => ctx.advanced(c) && s.span == ctx.spec_span(),
            Result::Err((c, es)) => ctx.advanced_or_same(c) && errs_syntax(ctx, es@),
        },
        ctx.cur_kind() matches T::Newline ==> (r matches Result::Ok((c, s)) && c.curr == ctx.curr
            + 1 && s.kind matches StatementKind::EmptyStatement),
        ctx.cur_kind() matches T::Use ==> (ctx.kind_at(ctx.curr + 1) matches T::Identifier(n)
            ==> (r matches Result::Ok((c, s)) && c.curr == ctx.curr + 2 && (
        s.kind matches StatementKind::Use { file } && file.name@ == n@))),
    decreases ctx.tokens@.len() - ctx.curr, 5int,
{
    let span = ctx.span();
    match ctx.token() {
        // A blank line.
        T::Newline => {
            let c = ctx.skip(1);
            Ok((c, Statement { span, kind: StatementKind::EmptyStatement }))
        },

        // `print <expression>`.
        T::Print => {
            let c = ctx.skip(1);
            let (c, value) = match crate::expression::expression(c) {
                Result::Ok(x) => x,
                Result::Err(e) => {
                    return Err(e);
                },
            };
            Ok((c, Statement { span, kind: StatementKind::Print { value } }))
        },

        // `use <module>`.
        T::Use => {
            let c = ctx.skip(1);
            let fspan = c.span();
            let (tok, _, c2) = c.eat();
            let name = match tok {
                T::Identifier(n) => n.clone(),
                _ => {
                    let e = syntax_error(c, "Expected a module name after 'use'");
                    return Err((c, vec![e]));
                },
            };
            Ok((
                c2,
                Statement {
                    span,
                    kind: StatementKind::Use { file: Identifier { span: fspan, name } },
                },
            ))
        },

        T::Identifier(name) => {
            // `name := value` is a definition.
            let next = ctx.skip(1);
            if matches!(next.token(), T::ColonEqual) {
                let ident = Identifier { span: ctx.span(), name: name.clone() };
                let c = next.skip(1);
                let (c, value) = match crate::expression::expression(c) {
                    Result::Ok(x) => x,
                    Result::Err(e) => {
                        return Err(e);
                    },
                };
                return Ok((
                    c,
                    Statement {
                        span,
                        kind: StatementKind::Definition {
                            ident,
                            kind: VarKind::Mutable,
                            ty: crate::ast::Type {
                                span,
                                kind: TypeKind::Resolved(value::Type::Unknown),
                            },
                            value,
                        },
                    },
                ));
            }
            // `target = value` is an assignment; anything else is an
            // expression statement.
            match assignable(ctx) {
                Result::Ok((c, target)) => {
                    if matches!(c.token(), T::Equal) {
                        let c2 = c.skip(1);
                        let (c3, value) = match crate::expression::expression(c2) {
                            Result::Ok(x) => x,
                            Result::Err(e) => {
                                return Err(e);
                            },
                        };
                        return Ok((
                            c3,
                            Statement { span, kind: StatementKind::Assignment { target, value } },
                        ));
                    }
                    // Not an assignment after all: parse it as a plain
                    // expression from the start.
                    let (c4, value) = match crate::expression::expression(ctx) {
                        Result::Ok(x) => x,
                        Result::Err(e) => {
                            return Err(e);
                        },
                    };
                    Ok((c4, Statement { span, kind: StatementKind::StatementExpression { value } }))
                },
                Result::Err(e) => Err(e),
            }
        },

        _ => {
            let (c, value) = match crate::expression::expression(ctx) {
                Result::Ok(x) => x,
                Result::Err(e) => {
                    return Err(e);
                },
            };
            Ok((c, Statement { span, kind: StatementKind::StatementExpression { value } }))
        },
    }
}

/// Parse a braced block of statements.
#[verifier::loop_isolation(false)]
pub fn block_statement<'t>(ctx: Context<'t>) -> (r: ParseResult<'t, Statement>)
    requires
        ctx.wf(),
    ensures
        match r {
            Result::Ok((c, s)) => ctx.advanced(c) && (s.kind matches StatementKind::Block(_)),
            Result::Err((c, es)) => ctx.advanced_or_same(c) && errs_syntax(ctx, es@),
        },
        (ctx.cur_kind() matches T::LeftBrace && ctx.kind_at(ctx.curr + 1) matches T::RightBrace)
            ==> (r matches Result::Ok((c, s)) && c.curr == ctx.curr + 2 && (
        s.kind matches StatementKind::Block(ss) && ss@.len() == 0)),
    decreases ctx.tokens@.len() - ctx.curr, 6int,
{
    let span = ctx.span();
    let mut c = match expect(ctx, &T::LeftBrace, "Expected '{' to start the block") {
        Result::Ok(x) => x,
        Result::Err(e) => {
            return Err(e);
        },
    };
    let mut statements: Vec<Statement> = Vec::new();
    let ghost empty_block = ctx.kind_at(ctx.curr + 1) matches T::RightBrace;
    loop
        invariant
            c.wf(),
            c.tokens == ctx.tokens,
            c.file == ctx.file,
            c.curr > ctx.curr,
            empty_block ==> (c.curr == ctx.curr + 1 && statements@.len() == 0),
        decreases c.tokens@.len() - c.curr,
    {
        c = c.skip_while(&T::Newline);
        match c.token() {
            T::RightBrace | T::EOF => {
                break ;
            },
            _ => {
                let (c2, s) = match statement(c) {
                    Result::Ok(x) => x,
                    Result::Err(e) => {
                        return Err(e);
                    },
                };
                statements.push(s);
                c = c2;
            },
        }
    }
    let c = match expect(c, &T::RightBrace, "Expected '}' to end the block") {
        Result::Ok(x) => x,
        Result::Err(e) => {
            return Err(e);
        },
    };
    Ok((c, Statement { span, kind: StatementKind::Block(statements) }))
}

/// Parse a whole module: its top-level statements.
///
/// Error-tolerant: a malformed statement is recorded and parsing
/// resumes at the next line, so a single pass can report several
/// independent syntax errors.
#[verifier::loop_isolation(false)]
pub fn parse_module<'t>(tokens: &'t Vec<Token>, file: &'t String) -> (r: (Module, Vec<Error>))
    requires
        tokens@.len() > 0,
        tokens@[tokens@.len() - 1].kind matches T::EOF,
    ensures
        r.0.span == tokens@[0].span,
        forall|i: int|
            0 <= i < r.1@.len() ==> (#[trigger] r.1@[i]@
                matches crate::error::ErrorV::SyntaxError { file: f, .. } && f == file@),
        tokens@.len() == 1 ==> r.0.statements@.len() == 0 && r.1@.len() == 0,
        (tokens@[0].kind matches T::Use && tokens@.len() >= 3 && (tokens@[2].kind matches T::EOF))
            ==> (tokens@[1].kind matches T::Identifier(n) ==> (r.1@.len() == 0
            && r.0.statements@.len() == 1 && (r.0.statements@[0].kind
            matches StatementKind::Use { file: f } && f.name@ == n@))),
{
    let ctx = Context::new(tokens, file);
    let span = ctx.span();
    let mut c = ctx;
    let mut statements: Vec<Statement> = Vec::new();
    let mut errors: Vec<Error> = Vec::new();
    let ghost only_eof = tokens@.len() == 1;
    let ghost one_use = (tokens@[0].kind matches T::Use) && tokens@.len() >= 3 && (
    tokens@[1].kind matches T::Identifier(_)) && (tokens@[2].kind matches T::EOF);
    loop
        invariant
            c.wf(),
            c.tokens == ctx.tokens,
            c.file == ctx.file,
            forall|i: int|
                0 <= i < errors@.len() ==> (#[trigger] errors@[i]@
                    matches crate::error::ErrorV::SyntaxError { file: f, .. } && f == file@),
            only_eof ==> (c.curr == 0 && statements@.len() == 0 && errors@.len() == 0),
            one_use ==> (c.curr == 0 && statements@.len() == 0 && errors@.len() == 0 || c.curr
                == 2 && errors@.len() == 0 && statements@.len() == 1 && (
            tokens@[1].kind matches T::Identifier(n) ==> (statements@[0].kind
                matches StatementKind::Use { file: f } && f.name@ == n@))),
        decreases c.tokens@.len() - c.curr,
    {
        c = c.skip_while(&T::Newline);
        if matches!(c.token(), T::EOF) {
            break ;
        }
        match statement(c) {
            Result::Ok((c2, s)) => {
                statements.push(s);
                c = c2;
            },
            Result::Err((c2, mut es)) => {
                errors.append(&mut es);
                // Resume at the next line.
                let mut c3 = if c2.curr > c.curr {
                    c2
                } else {
                    c.skip(1)
                };
                loop
                    invariant
                        c3.wf(),
                        c3.tokens == ctx.tokens,
                        c3.file == ctx.file,
                        c3.curr >= c.curr,
                    decreases c3.tokens@.len() - c3.curr,
                {
                    if matches!(c3.token(), T::Newline | T::EOF) {
                        break ;
                    }
                    c3 = c3.skip(1);
                }
                c = c3;
            },
        }
    }
    (Module { span, statements }, errors)
}


} // verus!
