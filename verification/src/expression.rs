//! Expression parsing: recursive descent with precedence climbing.
//!
//! Each infix operator has a fixed precedence class;
//! [`parse_precedence`] consumes an infix operator only while its
//! precedence is at least the requested one, recursing on the right-hand
//! side with the operator's next-higher precedence, which yields the
//! usual left-associative trees.

use vstd::prelude::*;

verus! {

use crate::ast::{Assignable, AssignableKind, Expression, ExpressionKind, Identifier, Type,
    TypeKind};
use crate::error::Error;
use crate::parser::{assignable, block_statement, call_of_one_name, errs_syntax, expect,
    is_literal, is_type_name, parse_type, syntax_error, Context, ParseResult};
use crate::token::{next_prec, prec_level, spec_next_prec, spec_prec_level, Prec, T};
use crate::value;
use vstd::string::StringExecFns;

/// The precedence class of an infix token; `No` for anything that is
/// not an infix operator.
pub open spec fn spec_precedence(token: T) -> Prec {
    match token {
        T::LeftBracket => Prec::Index,
        T::Star => Prec::Factor,
        T::Slash => Prec::Factor,
        T::Minus => Prec::Term,
        T::Plus => Prec::Term,
        T::EqualEqual => Prec::Comp,
        T::Greater => Prec::Comp,
        T::GreaterEqual => Prec::Comp,
        T::Less => Prec::Comp,
        T::LessEqual => Prec::Comp,
        T::NotEqual => Prec::Comp,
        T::And => Prec::BoolAnd,
        T::Or => Prec::BoolOr,
        T::In => Prec::Index,
        T::AssertEqual => Prec::Assert,
        T::Arrow => Prec::Arrow,
        _ => Prec::No,
    }
}

/// Executable form of [`spec_precedence`].
pub fn precedence(token: &T) -> (p: Prec)
    ensures
        p == spec_precedence(*token),
{
    match token {
        T::LeftBracket => Prec::Index,
        T::Star | T::Slash => Prec::Factor,
        T::Minus | T::Plus => Prec::Term,
        T::EqualEqual | T::Greater | T::GreaterEqual | T::Less | T::LessEqual | T::NotEqual => Prec::Comp,
        T::And => Prec::BoolAnd,
        T::Or => Prec::BoolOr,
        T::In => Prec::Index,
        T::AssertEqual => Prec::Assert,
        T::Arrow => Prec::Arrow,
        _ => Prec::No,
    }
}

/// Whether a type name's text is `int` — used to pin one
/// representative of the name-to-type mapping in the function
/// contracts; `parse_type` itself pins all five.
pub open spec fn n_is_int_type(n: Seq<char>) -> bool {
    n == "int"@
}

/// A lone name: an identifier that neither chains into a call, field
/// access or indexing, nor opens a blob initializer.
pub open spec fn lone_name(ctx: Context<'_>) -> bool {
    &&& ctx.cur_kind() matches T::Identifier(_)
    &&& !(ctx.kind_at(ctx.curr + 1) matches T::LeftParen)
    &&& !(ctx.kind_at(ctx.curr + 1) matches T::Dot)
    &&& !(ctx.kind_at(ctx.curr + 1) matches T::LeftBracket)
    &&& !(ctx.kind_at(ctx.curr + 1) matches T::LeftBrace)
}

/// What reading a lone name parses to.
pub open spec fn lone_name_read(ctx: Context<'_>, e: Expression) -> bool {
    ctx.cur_kind() matches T::Identifier(n) ==> (e.kind matches ExpressionKind::Get(a) && (
    a.kind matches AssignableKind::Read(id) && id.name@ == n@))
}

/// What the one-argument call shape parses to:
/// `Get(Call(Read(f), [Get(Read(b))]))` for source `f(b)`.
pub open spec fn one_name_call_read(ctx: Context<'_>, e: Expression) -> bool {
    ctx.cur_kind() matches T::Identifier(f) ==> (ctx.kind_at(ctx.curr + 2)
        matches T::Identifier(b) ==> (e.kind matches ExpressionKind::Get(a) && (
    a.kind matches AssignableKind::Call(callee, args) && (
    callee.kind matches AssignableKind::Read(idf) && idf.name@ == f@) && args@.len() == 1 && (
    args@[0].kind matches ExpressionKind::Get(a2) && (a2.kind matches AssignableKind::Read(idb)
        && idb.name@ == b@)))))
}

/// The tokens of the plain (non-arrow) infix operators.
pub open spec fn is_binary_op(t: T) -> bool {
    match t {
        T::Plus => true,
        T::Minus => true,
        T::Star => true,
        T::Slash => true,
        T::EqualEqual => true,
        T::NotEqual => true,
        T::Greater => true,
        T::GreaterEqual => true,
        T::Less => true,
        T::LessEqual => true,
        T::And => true,
        T::Or => true,
        T::AssertEqual => true,
        T::In => true,
        _ => false,
    }
}

/// Token shapes on which expression parsing is guaranteed to succeed:
/// a literal; a negated literal; and the small parenthesis, bracket and
/// brace forms whose results the collection parsers pin exactly.
pub open spec fn prefix_succeeds(ctx: Context<'_>) -> bool {
    ||| is_literal(ctx.cur_kind())
    ||| ((ctx.cur_kind() matches T::Minus || ctx.cur_kind() matches T::Bang) && is_literal(
        ctx.kind_at(ctx.curr + 1),
    ))
    ||| (ctx.cur_kind() matches T::LeftParen && {
        ||| ctx.kind_at(ctx.curr + 1) matches T::RightParen
        ||| (ctx.kind_at(ctx.curr + 1) matches T::Comma && ctx.kind_at(ctx.curr + 2)
            matches T::RightParen)
        ||| (is_literal(ctx.kind_at(ctx.curr + 1)) && ctx.kind_at(ctx.curr + 2)
            matches T::RightParen)
        ||| (is_literal(ctx.kind_at(ctx.curr + 1)) && (ctx.kind_at(ctx.curr + 2) matches T::Comma)
            && (ctx.kind_at(ctx.curr + 3) matches T::RightParen))
    })
    ||| (ctx.cur_kind() matches T::LeftBracket && {
        ||| ctx.kind_at(ctx.curr + 1) matches T::RightBracket
        ||| (is_literal(ctx.kind_at(ctx.curr + 1)) && ctx.kind_at(ctx.curr + 2)
            matches T::RightBracket)
    })
    ||| (ctx.cur_kind() matches T::LeftBrace && {
        ||| ctx.kind_at(ctx.curr + 1) matches T::RightBrace
        ||| (ctx.kind_at(ctx.curr + 1) matches T::Colon && ctx.kind_at(ctx.curr + 2)
            matches T::RightBrace)
        ||| (is_literal(ctx.kind_at(ctx.curr + 1)) && ctx.kind_at(ctx.curr + 2)
            matches T::RightBrace)
        ||| (is_literal(ctx.kind_at(ctx.curr + 1)) && (ctx.kind_at(ctx.curr + 2) matches T::Colon)
            && is_literal(ctx.kind_at(ctx.curr + 3)) && (ctx.kind_at(ctx.curr + 4)
            matches T::RightBrace))
    })
}

/// What a parsed literal looks like, given the token it came from.
pub open spec fn value_shape(token: T, e: Expression) -> bool {
    &&& (token matches T::Float(f) ==> e.kind matches ExpressionKind::Float(g) && g == f)
    &&& (token matches T::Int(i) ==> e.kind matches ExpressionKind::Int(j) && j == i)
    &&& (token matches T::Bool(b) ==> e.kind matches ExpressionKind::Bool(c) && c == b)
    &&& (token matches T::Nil ==> e.kind matches ExpressionKind::Nil)
    &&& (token matches T::String(s) ==> e.kind matches ExpressionKind::Str(s2) && s2@ == s@)
}

/// Parse a single literal value.
pub fn value<'t>(ctx: Context<'t>) -> (r: ParseResult<'t, Expression>)
    requires
        ctx.wf(),
    ensures
        match r {
            Result::Ok((c, e)) => ctx.advanced(c) && c.curr == ctx.curr + 1 && e.span
                == ctx.spec_span() && value_shape(ctx.cur_kind(), e),
            Result::Err((c, es)) => ctx.advanced_or_same(c) && errs_syntax(ctx, es@),
        },
        r is Ok <==> is_literal(ctx.cur_kind()),
    decreases ctx.tokens@.len() - ctx.curr, 1int,
{
    let (token, span, c) = ctx.eat();
    let kind = match token {
        T::Float(f) => ExpressionKind::Float(*f),
        T::Int(i) => ExpressionKind::Int(*i),
        T::Bool(b) => ExpressionKind::Bool(*b),
        T::Nil => ExpressionKind::Nil,
        T::String(s) => ExpressionKind::Str(s.clone()),
        _ => {
            let e = syntax_error(ctx, "This token is not a valid value");
            return Err((ctx, vec![e]));
        },
    };
    Ok((c, Expression { span, kind }))
}

/// Parse a unary operator followed by an expression, e.g. `-5`.
pub fn unary<'t>(ctx: Context<'t>) -> (r: ParseResult<'t, Expression>)
    requires
        ctx.wf(),
    ensures
        match r {
            Result::Ok((c, e)) => ctx.advanced(c) && e.span == ctx.spec_span() && (
            ctx.cur_kind() matches T::Minus ==> e.kind matches ExpressionKind::Neg(_)) && (
            ctx.cur_kind() matches T::Bang ==> e.kind matches ExpressionKind::Not(_)),
            Result::Err((c, es)) => ctx.advanced_or_same(c) && errs_syntax(ctx, es@),
        },
        ((ctx.cur_kind() matches T::Minus || ctx.cur_kind() matches T::Bang) && is_literal(
            ctx.kind_at(ctx.curr + 1),
        )) ==> r is Ok,
        ((ctx.cur_kind() matches T::Minus || ctx.cur_kind() matches T::Bang) && is_literal(
            ctx.kind_at(ctx.curr + 1),
        ) && (spec_precedence(ctx.kind_at(ctx.curr + 2)) matches Prec::No)) ==> (r
            matches Result::Ok((c, e)) && c.curr == ctx.curr + 2 && (
        ctx.cur_kind() matches T::Minus ==> (e.kind matches ExpressionKind::Neg(l) && value_shape(
            ctx.kind_at(ctx.curr + 1),
            *l,
        ))) && (ctx.cur_kind() matches T::Bang ==> (e.kind matches ExpressionKind::Not(l)
            && value_shape(ctx.kind_at(ctx.curr + 1), *l)))),
        ((ctx.cur_kind() matches T::Minus || ctx.cur_kind() matches T::Bang) && is_literal(
            ctx.kind_at(ctx.curr + 1),
        ) && is_binary_op(ctx.kind_at(ctx.curr + 2)) && is_literal(ctx.kind_at(ctx.curr + 3))
            && (spec_precedence(ctx.kind_at(ctx.curr + 4)) matches Prec::No) && spec_prec_level(
            Prec::Factor,
        ) <= spec_prec_level(spec_precedence(ctx.kind_at(ctx.curr + 2)))) ==> (r
            matches Result::Ok((c, e)) && c.curr == ctx.curr + 4 && (
        ctx.cur_kind() matches T::Minus ==> (e.kind matches ExpressionKind::Neg(l)
            && binary_of_literals(
            ctx.kind_at(ctx.curr + 2),
            ctx.kind_at(ctx.curr + 1),
            ctx.kind_at(ctx.curr + 3),
            *l,
        ))) && (ctx.cur_kind() matches T::Bang ==> (e.kind matches ExpressionKind::Not(l)
            && binary_of_literals(
            ctx.kind_at(ctx.curr + 2),
            ctx.kind_at(ctx.curr + 1),
            ctx.kind_at(ctx.curr + 3),
            *l,
        )))),
        ((ctx.cur_kind() matches T::Minus || ctx.cur_kind() matches T::Bang) && is_literal(
            ctx.kind_at(ctx.curr + 1),
        ) && is_binary_op(ctx.kind_at(ctx.curr + 2)) && spec_prec_level(Prec::Factor)
            > spec_prec_level(spec_precedence(ctx.kind_at(ctx.curr + 2)))) ==> (r
            matches Result::Ok((c, e)) && c.curr == ctx.curr + 2 && (
        ctx.cur_kind() matches T::Minus ==> (e.kind matches ExpressionKind::Neg(l) && value_shape(
            ctx.kind_at(ctx.curr + 1),
            *l,
        ))) && (ctx.cur_kind() matches T::Bang ==> (e.kind matches ExpressionKind::Not(l)
            && value_shape(ctx.kind_at(ctx.curr + 1), *l)))),
    decreases ctx.tokens@.len() - ctx.curr, 1int,
{
    let (op, span, c) = ctx.eat();
    let is_neg = match op {
        T::Minus => true,
        T::Bang => false,
        _ => {
            let e = syntax_error(ctx, "Invalid unary operator");
            return Err((ctx, vec![e]));
        },
    };
    let (c, expr) = match parse_precedence(c, Prec::Factor) {
        Result::Ok(x) => x,
        Result::Err(e) => {
            return Err(e);
        },
    };
    let expr = Box::new(expr);
    let kind = if is_neg {
        ExpressionKind::Neg(expr)
    } else {
        ExpressionKind::Not(expr)
    };
    Ok((c, Expression { span, kind }))
}

/// The exact node one plain infix operator builds: the handed-in left
/// operand, and a right operand parsed from the literal token `rtok`.
pub open spec fn binary_node(op: T, lhs: Expression, rtok: T, e: Expression) -> bool {
    &&& (op matches T::Plus ==> (e.kind matches ExpressionKind::Add(l, r) && *l == lhs
        && value_shape(rtok, *r)))
    &&& (op matches T::Minus ==> (e.kind matches ExpressionKind::Sub(l, r) && *l == lhs
        && value_shape(rtok, *r)))
    &&& (op matches T::Star ==> (e.kind matches ExpressionKind::Mul(l, r) && *l == lhs
        && value_shape(rtok, *r)))
    &&& (op matches T::Slash ==> (e.kind matches ExpressionKind::Div(l, r) && *l == lhs
        && value_shape(rtok, *r)))
    &&& (op matches T::EqualEqual ==> (e.kind matches ExpressionKind::Eq(l, r) && *l == lhs
        && value_shape(rtok, *r)))
    &&& (op matches T::NotEqual ==> (e.kind matches ExpressionKind::Neq(l, r) && *l == lhs
        && value_shape(rtok, *r)))
    &&& (op matches T::Greater ==> (e.kind matches ExpressionKind::Gt(l, r) && *l == lhs
        && value_shape(rtok, *r)))
    &&& (op matches T::GreaterEqual ==> (e.kind matches ExpressionKind::Gteq(l, r) && *l == lhs
        && value_shape(rtok, *r)))
    &&& (op matches T::Less ==> (e.kind matches ExpressionKind::Lt(l, r) && *l == lhs
        && value_shape(rtok, *r)))
    &&& (op matches T::LessEqual ==> (e.kind matches ExpressionKind::Lteq(l, r) && *l == lhs
        && value_shape(rtok, *r)))
    &&& (op matches T::And ==> (e.kind matches ExpressionKind::And(l, r) && *l == lhs
        && value_shape(rtok, *r)))
    &&& (op matches T::Or ==> (e.kind matches ExpressionKind::Or(l, r) && *l == lhs
        && value_shape(rtok, *r)))
    &&& (op matches T::AssertEqual ==> (e.kind matches ExpressionKind::AssertEq(l, r) && *l == lhs
        && value_shape(rtok, *r)))
    &&& (op matches T::In ==> (e.kind matches ExpressionKind::In(l, r) && *l == lhs
        && value_shape(rtok, *r)))
}

/// The exact node of `literal op literal`.
pub open spec fn binary_of_literals(op: T, ltok: T, rtok: T, e: Expression) -> bool {
    &&& (op matches T::Plus ==> (e.kind matches ExpressionKind::Add(l, r) && value_shape(
        ltok,
        *l,
    ) && value_shape(rtok, *r)))
    &&& (op matches T::Minus ==> (e.kind matches ExpressionKind::Sub(l, r) && value_shape(
        ltok,
        *l,
    ) && value_shape(rtok, *r)))
    &&& (op matches T::Star ==> (e.kind matches ExpressionKind::Mul(l, r) && value_shape(
        ltok,
        *l,
    ) && value_shape(rtok, *r)))
    &&& (op matches T::Slash ==> (e.kind matches ExpressionKind::Div(l, r) && value_shape(
        ltok,
        *l,
    ) && value_shape(rtok, *r)))
    &&& (op matches T::EqualEqual ==> (e.kind matches ExpressionKind::Eq(l, r) && value_shape(
        ltok,
        *l,
    ) && value_shape(rtok, *r)))
    &&& (op matches T::NotEqual ==> (e.kind matches ExpressionKind::Neq(l, r) && value_shape(
        ltok,
        *l,
    ) && value_shape(rtok, *r)))
    &&& (op matches T::Greater ==> (e.kind matches ExpressionKind::Gt(l, r) && value_shape(
        ltok,
        *l,
    ) && value_shape(rtok, *r)))
    &&& (op matches T::GreaterEqual ==> (e.kind matches ExpressionKind::Gteq(l, r) && value_shape(
        ltok,
        *l,
    ) && value_shape(rtok, *r)))
    &&& (op matches T::Less ==> (e.kind matches ExpressionKind::Lt(l, r) && value_shape(
        ltok,
        *l,
    ) && value_shape(rtok, *r)))
    &&& (op matches T::LessEqual ==> (e.kind matches ExpressionKind::Lteq(l, r) && value_shape(
        ltok,
        *l,
    ) && value_shape(rtok, *r)))
    &&& (op matches T::And ==> (e.kind matches ExpressionKind::And(l, r) && value_shape(
        ltok,
        *l,
    ) && value_shape(rtok, *r)))
    &&& (op matches T::Or ==> (e.kind matches ExpressionKind::Or(l, r) && value_shape(
        ltok,
        *l,
    ) && value_shape(rtok, *r)))
    &&& (op matches T::AssertEqual ==> (e.kind matches ExpressionKind::AssertEq(l, r) && value_shape(
        ltok,
        *l,
    ) && value_shape(rtok, *r)))
    &&& (op matches T::In ==> (e.kind matches ExpressionKind::In(l, r) && value_shape(
        ltok,
        *l,
    ) && value_shape(rtok, *r)))
}

/// The token shape `-> f ( b )` with nothing chaining after the call.
pub open spec fn arrow_to_one_name_call(ctx: Context<'_>) -> bool {
    &&& ctx.cur_kind() matches T::Arrow
    &&& ctx.kind_at(ctx.curr + 1) matches T::Identifier(_)
    &&& ctx.kind_at(ctx.curr + 2) matches T::LeftParen
    &&& ctx.kind_at(ctx.curr + 3) matches T::Identifier(_)
    &&& ctx.kind_at(ctx.curr + 4) matches T::RightParen
    &&& !(ctx.kind_at(ctx.curr + 5) matches T::LeftParen)
    &&& !(ctx.kind_at(ctx.curr + 5) matches T::Dot)
    &&& !(ctx.kind_at(ctx.curr + 5) matches T::LeftBracket)
    &&& !(ctx.kind_at(ctx.curr + 5) matches T::LeftBrace)
    &&& spec_precedence(ctx.kind_at(ctx.curr + 5)) matches Prec::No
}

/// What `lhs -> f(b)` parses to: exactly the call `f(lhs, b)` — the
/// left-hand side spliced in as the first argument.
pub open spec fn arrow_splice(ctx: Context<'_>, lhs: Expression, e: Expression) -> bool {
    ctx.kind_at(ctx.curr + 1) matches T::Identifier(f) ==> (ctx.kind_at(ctx.curr + 3)
        matches T::Identifier(b) ==> (e.kind matches ExpressionKind::Get(a) && (
    a.kind matches AssignableKind::Call(callee, args) && (
    callee.kind matches AssignableKind::Read(idf) && idf.name@ == f@) && args@.len() == 2
        && args@[0] == lhs && (args@[1].kind matches ExpressionKind::Get(a2) && (
    a2.kind matches AssignableKind::Read(idb) && idb.name@ == b@)))))
}

/// The node one plain infix operator builds when its right operand is
/// itself `literal o2 literal`.
pub open spec fn binary_node_sub(
    op: T,
    lhs: Expression,
    o2: T,
    t2: T,
    t3: T,
    e: Expression,
) -> bool {
    &&& (op matches T::Plus ==> (e.kind matches ExpressionKind::Add(l, r) && *l == lhs
        && binary_of_literals(o2, t2, t3, *r)))
    &&& (op matches T::Minus ==> (e.kind matches ExpressionKind::Sub(l, r) && *l == lhs
        && binary_of_literals(o2, t2, t3, *r)))
    &&& (op matches T::Star ==> (e.kind matches ExpressionKind::Mul(l, r) && *l == lhs
        && binary_of_literals(o2, t2, t3, *r)))
    &&& (op matches T::Slash ==> (e.kind matches ExpressionKind::Div(l, r) && *l == lhs
        && binary_of_literals(o2, t2, t3, *r)))
    &&& (op matches T::EqualEqual ==> (e.kind matches ExpressionKind::Eq(l, r) && *l == lhs
        && binary_of_literals(o2, t2, t3, *r)))
    &&& (op matches T::NotEqual ==> (e.kind matches ExpressionKind::Neq(l, r) && *l == lhs
        && binary_of_literals(o2, t2, t3, *r)))
    &&& (op matches T::Greater ==> (e.kind matches ExpressionKind::Gt(l, r) && *l == lhs
        && binary_of_literals(o2, t2, t3, *r)))
    &&& (op matches T::GreaterEqual ==> (e.kind matches ExpressionKind::Gteq(l, r) && *l == lhs
        && binary_of_literals(o2, t2, t3, *r)))
    &&& (op matches T::Less ==> (e.kind matches ExpressionKind::Lt(l, r) && *l == lhs
        && binary_of_literals(o2, t2, t3, *r)))
    &&& (op matches T::LessEqual ==> (e.kind matches ExpressionKind::Lteq(l, r) && *l == lhs
        && binary_of_literals(o2, t2, t3, *r)))
    &&& (op matches T::And ==> (e.kind matches ExpressionKind::And(l, r) && *l == lhs
        && binary_of_literals(o2, t2, t3, *r)))
    &&& (op matches T::Or ==> (e.kind matches ExpressionKind::Or(l, r) && *l == lhs
        && binary_of_literals(o2, t2, t3, *r)))
    &&& (op matches T::AssertEqual ==> (e.kind matches ExpressionKind::AssertEq(l, r) && *l == lhs
        && binary_of_literals(o2, t2, t3, *r)))
    &&& (op matches T::In ==> (e.kind matches ExpressionKind::In(l, r) && *l == lhs
        && binary_of_literals(o2, t2, t3, *r)))
}

/// The right-nested tree `t1 o1 (t2 o2 t3)`: the second operator bound
/// tighter.
pub open spec fn right_nested(o1: T, t1: T, o2: T, t2: T, t3: T, e: Expression) -> bool {
    &&& (o1 matches T::Plus ==> (e.kind matches ExpressionKind::Add(l, r) && value_shape(
        t1,
        *l,
    ) && binary_of_literals(o2, t2, t3, *r)))
    &&& (o1 matches T::Minus ==> (e.kind matches ExpressionKind::Sub(l, r) && value_shape(
        t1,
        *l,
    ) && binary_of_literals(o2, t2, t3, *r)))
    &&& (o1 matches T::Star ==> (e.kind matches ExpressionKind::Mul(l, r) && value_shape(
        t1,
        *l,
    ) && binary_of_literals(o2, t2, t3, *r)))
    &&& (o1 matches T::Slash ==> (e.kind matches ExpressionKind::Div(l, r) && value_shape(
        t1,
        *l,
    ) && binary_of_literals(o2, t2, t3, *r)))
    &&& (o1 matches T::EqualEqual ==> (e.kind matches ExpressionKind::Eq(l, r) && value_shape(
        t1,
        *l,
    ) && binary_of_literals(o2, t2, t3, *r)))
    &&& (o1 matches T::NotEqual ==> (e.kind matches ExpressionKind::Neq(l, r) && value_shape(
        t1,
        *l,
    ) && binary_of_literals(o2, t2, t3, *r)))
    &&& (o1 matches T::Greater ==> (e.kind matches ExpressionKind::Gt(l, r) && value_shape(
        t1,
        *l,
    ) && binary_of_literals(o2, t2, t3, *r)))
    &&& (o1 matches T::GreaterEqual ==> (e.kind matches ExpressionKind::Gteq(l, r) && value_shape(
        t1,
        *l,
    ) && binary_of_literals(o2, t2, t3, *r)))
    &&& (o1 matches T::Less ==> (e.kind matches ExpressionKind::Lt(l, r) && value_shape(
        t1,
        *l,
    ) && binary_of_literals(o2, t2, t3, *r)))
    &&& (o1 matches T::LessEqual ==> (e.kind matches ExpressionKind::Lteq(l, r) && value_shape(
        t1,
        *l,
    ) && binary_of_literals(o2, t2, t3, *r)))
    &&& (o1 matches T::And ==> (e.kind matches ExpressionKind::And(l, r) && value_shape(
        t1,
        *l,
    ) && binary_of_literals(o2, t2, t3, *r)))
    &&& (o1 matches T::Or ==> (e.kind matches ExpressionKind::Or(l, r) && value_shape(
        t1,
        *l,
    ) && binary_of_literals(o2, t2, t3, *r)))
    &&& (o1 matches T::AssertEqual ==> (e.kind matches ExpressionKind::AssertEq(l, r) && value_shape(
        t1,
        *l,
    ) && binary_of_literals(o2, t2, t3, *r)))
    &&& (o1 matches T::In ==> (e.kind matches ExpressionKind::In(l, r) && value_shape(
        t1,
        *l,
    ) && binary_of_literals(o2, t2, t3, *r)))
}

/// The left-nested tree `(t1 o1 t2) o2 t3`: equal or looser second
/// operator, so the operators associate left.
pub open spec fn left_nested(o1: T, t1: T, o2: T, t2: T, t3: T, e: Expression) -> bool {
    &&& (o2 matches T::Plus ==> (e.kind matches ExpressionKind::Add(l, r)
        && binary_of_literals(o1, t1, t2, *l) && value_shape(t3, *r)))
    &&& (o2 matches T::Minus ==> (e.kind matches ExpressionKind::Sub(l, r)
        && binary_of_literals(o1, t1, t2, *l) && value_shape(t3, *r)))
    &&& (o2 matches T::Star ==> (e.kind matches ExpressionKind::Mul(l, r)
        && binary_of_literals(o1, t1, t2, *l) && value_shape(t3, *r)))
    &&& (o2 matches T::Slash ==> (e.kind matches ExpressionKind::Div(l, r)
        && binary_of_literals(o1, t1, t2, *l) && value_shape(t3, *r)))
    &&& (o2 matches T::EqualEqual ==> (e.kind matches ExpressionKind::Eq(l, r)
        && binary_of_literals(o1, t1, t2, *l) && value_shape(t3, *r)))
    &&& (o2 matches T::NotEqual ==> (e.kind matches ExpressionKind::Neq(l, r)
        && binary_of_literals(o1, t1, t2, *l) && value_shape(t3, *r)))
    &&& (o2 matches T::Greater ==> (e.kind matches ExpressionKind::Gt(l, r)
        && binary_of_literals(o1, t1, t2, *l) && value_shape(t3, *r)))
    &&& (o2 matches T::GreaterEqual ==> (e.kind matches ExpressionKind::Gteq(l, r)
        && binary_of_literals(o1, t1, t2, *l) && value_shape(t3, *r)))
    &&& (o2 matches T::Less ==> (e.kind matches ExpressionKind::Lt(l, r)
        && binary_of_literals(o1, t1, t2, *l) && value_shape(t3, *r)))
    &&& (o2 matches T::LessEqual ==> (e.kind matches ExpressionKind::Lteq(l, r)
        && binary_of_literals(o1, t1, t2, *l) && value_shape(t3, *r)))
    &&& (o2 matches T::And ==> (e.kind matches ExpressionKind::And(l, r)
        && binary_of_literals(o1, t1, t2, *l) && value_shape(t3, *r)))
    &&& (o2 matches T::Or ==> (e.kind matches ExpressionKind::Or(l, r)
        && binary_of_literals(o1, t1, t2, *l) && value_shape(t3, *r)))
    &&& (o2 matches T::AssertEqual ==> (e.kind matches ExpressionKind::AssertEq(l, r)
        && binary_of_literals(o1, t1, t2, *l) && value_shape(t3, *r)))
    &&& (o2 matches T::In ==> (e.kind matches ExpressionKind::In(l, r)
        && binary_of_literals(o1, t1, t2, *l) && value_shape(t3, *r)))
}

/// The tree of `t1 o1 t2 o2 t3`, decided by the precedence classes:
/// the right-hand side of `o1` is parsed at its next-higher
/// precedence, so `o2` joins it only when `o2` binds at least that
/// tightly — which yields precedence and left associativity.
pub open spec fn two_level_tree(o1: T, t1: T, o2: T, t2: T, t3: T, e: Expression) -> bool {
    if spec_prec_level(spec_next_prec(spec_precedence(o1))) <= spec_prec_level(
        spec_precedence(o2),
    ) {
        right_nested(o1, t1, o2, t2, t3, e)
    } else {
        left_nested(o1, t1, o2, t2, t3, e)
    }
}

/// What an infix node looks like, given its operator token and its
/// left-hand side. The arrow case is the call sugar: the left-hand
/// expression is spliced in as the first argument of the call on the
/// right.
pub open spec fn infix_shape(op: T, lhs: Expression, e: Expression) -> bool {
    &&& (op matches T::Plus ==> e.kind matches ExpressionKind::Add(l, _) && *l == lhs)
    &&& (op matches T::Minus ==> e.kind matches ExpressionKind::Sub(l, _) && *l == lhs)
    &&& (op matches T::Star ==> e.kind matches ExpressionKind::Mul(l, _) && *l == lhs)
    &&& (op matches T::Slash ==> e.kind matches ExpressionKind::Div(l, _) && *l == lhs)
    &&& (op matches T::EqualEqual ==> e.kind matches ExpressionKind::Eq(l, _) && *l == lhs)
    &&& (op matches T::NotEqual ==> e.kind matches ExpressionKind::Neq(l, _) && *l == lhs)
    &&& (op matches T::Greater ==> e.kind matches ExpressionKind::Gt(l, _) && *l == lhs)
    &&& (op matches T::GreaterEqual ==> e.kind matches ExpressionKind::Gteq(l, _) && *l == lhs)
    &&& (op matches T::Less ==> e.kind matches ExpressionKind::Lt(l, _) && *l == lhs)
    &&& (op matches T::LessEqual ==> e.kind matches ExpressionKind::Lteq(l, _) && *l == lhs)
    &&& (op matches T::And ==> e.kind matches ExpressionKind::And(l, _) && *l == lhs)
    &&& (op matches T::Or ==> e.kind matches ExpressionKind::Or(l, _) && *l == lhs)
    &&& (op matches T::AssertEqual ==> e.kind matches ExpressionKind::AssertEq(l, _) && *l == lhs)
    &&& (op matches T::In ==> e.kind matches ExpressionKind::In(l, _) && *l == lhs)
    &&& (op matches T::Arrow ==> e.kind matches ExpressionKind::Get(a) && (
    a.kind matches AssignableKind::Call(_, args) && args@.len() >= 1 && args@[0] == lhs))
}

/// Parse an expression starting from an infix operator; the left-hand
/// side is handed in and handed back unchanged if the token is not an
/// infix operator or the right-hand side fails to parse.
pub fn infix<'t>(ctx: Context<'t>, lhs: Expression) -> (r: Result<
    (Context<'t>, Expression),
    (Context<'t>, Expression, Vec<Error>),
>)
    requires
        ctx.wf(),
    ensures
        match r {
            Result::Ok((c, e)) => ctx.advanced(c) && e.span == ctx.spec_span() && infix_shape(
                ctx.cur_kind(),
                lhs,
                e,
            ),
            Result::Err((c, l, es)) => ctx.advanced_or_same(c) && l == lhs && errs_syntax(
                ctx,
                es@,
            ),
        },
        (spec_precedence(ctx.cur_kind()) matches Prec::No) ==> r is Err,
        (is_binary_op(ctx.cur_kind()) && is_literal(ctx.kind_at(ctx.curr + 1))) ==> r is Ok,
        (is_binary_op(ctx.cur_kind()) && is_literal(ctx.kind_at(ctx.curr + 1)) && (
        spec_precedence(ctx.kind_at(ctx.curr + 2)) matches Prec::No)) ==> (r
            matches Result::Ok((c, e)) && c.curr == ctx.curr + 2 && binary_node(
            ctx.cur_kind(),
            lhs,
            ctx.kind_at(ctx.curr + 1),
            e,
        )),
        (is_binary_op(ctx.cur_kind()) && is_literal(ctx.kind_at(ctx.curr + 1)) && is_binary_op(
            ctx.kind_at(ctx.curr + 2),
        ) && is_literal(ctx.kind_at(ctx.curr + 3)) && (spec_precedence(ctx.kind_at(ctx.curr + 4))
            matches Prec::No)) ==> (if spec_prec_level(
            spec_next_prec(spec_precedence(ctx.cur_kind())),
        ) <= spec_prec_level(spec_precedence(ctx.kind_at(ctx.curr + 2))) {
            r matches Result::Ok((c, e)) && c.curr == ctx.curr + 4 && binary_node_sub(
                ctx.cur_kind(),
                lhs,
                ctx.kind_at(ctx.curr + 2),
                ctx.kind_at(ctx.curr + 1),
                ctx.kind_at(ctx.curr + 3),
                e,
            )
        } else {
            r matches Result::Ok((c, e)) && c.curr == ctx.curr + 2 && binary_node(
                ctx.cur_kind(),
                lhs,
                ctx.kind_at(ctx.curr + 1),
                e,
            )
        }),
        (ctx.cur_kind() matches T::Arrow && is_literal(ctx.kind_at(ctx.curr + 1)) && (
        spec_precedence(ctx.kind_at(ctx.curr + 2)) matches Prec::No)) ==> r is Err,
        arrow_to_one_name_call(ctx) ==> (r matches Result::Ok((c, e)) && c.curr == ctx.curr + 5
            && arrow_splice(ctx, lhs, e)),
    decreases ctx.tokens@.len() - ctx.curr, 2int,
{
    let (op, span, c) = ctx.eat();

    // Decide first whether this token is an infix operator at all, so
    // that nothing is consumed when it is not.
    let is_op = matches!(
        op,
        T::Plus | T::Minus | T::Star | T::Slash | T::EqualEqual | T::NotEqual | T::Greater
            | T::GreaterEqual | T::Less | T::LessEqual | T::And | T::Or | T::AssertEqual | T::In
            | T::Arrow
    );
    if !is_op {
        return Err((ctx, lhs, Vec::new()));
    }
    // Parse the right-hand side until a token of higher precedence.
    let (c, rhs) = match parse_precedence(c, next_prec(precedence(op))) {
        Result::Ok(x) => x,
        Result::Err((c2, es)) => {
            return Err((c2, lhs, es));
        },
    };

    let lhs = Box::new(lhs);
    let rhs = Box::new(rhs);

    let kind = match op {
        T::Plus => ExpressionKind::Add(lhs, rhs),
        T::Minus => ExpressionKind::Sub(lhs, rhs),
        T::Star => ExpressionKind::Mul(lhs, rhs),
        T::Slash => ExpressionKind::Div(lhs, rhs),
        T::EqualEqual => ExpressionKind::Eq(lhs, rhs),
        T::NotEqual => ExpressionKind::Neq(lhs, rhs),
        T::Greater => ExpressionKind::Gt(lhs, rhs),
        T::GreaterEqual => ExpressionKind::Gteq(lhs, rhs),
        T::Less => ExpressionKind::Lt(lhs, rhs),
        T::LessEqual => ExpressionKind::Lteq(lhs, rhs),
        T::And => ExpressionKind::And(lhs, rhs),
        T::Or => ExpressionKind::Or(lhs, rhs),
        T::AssertEqual => ExpressionKind::AssertEq(lhs, rhs),
        T::In => ExpressionKind::In(lhs, rhs),

        // The arrow call sugar: `a -> b(2)` parses as `b(a, 2)`. The
        // right-hand side has to be a call expression.
        T::Arrow => {
            let rhs_span = rhs.span;
            match (*rhs).kind {
                ExpressionKind::Get(a) => {
                    match a.kind {
                        AssignableKind::Call(callee, mut args) => {
                            args.insert(0, *lhs);
                            ExpressionKind::Get(
                                Assignable { span: rhs_span, kind: AssignableKind::Call(callee, args) },
                            )
                        },
                        _ => {
                            let e = syntax_error(c, "Expected a call expression after this arrow");
                            return Err((c, *lhs, vec![e]));
                        },
                    }
                },
                _ => {
                    let e = syntax_error(c, "Expected a call expression after this arrow");
                    return Err((c, *lhs, vec![e]));
                },
            }
        },

        _ => {
            return Err((ctx, *lhs, Vec::new()));
        },
    };

    Ok((c, Expression { span, kind }))
}

/// Parse an expression until a token of higher precedence is reached.
#[verifier::loop_isolation(false)]
pub fn parse_precedence<'t>(ctx: Context<'t>, prec: Prec) -> (r: ParseResult<'t, Expression>)
    requires
        ctx.wf(),
    ensures
        match r {
            Result::Ok((c, e)) => ctx.advanced(c),
            Result::Err((c, es)) => ctx.advanced_or_same(c) && errs_syntax(ctx, es@),
        },
        prefix_succeeds(ctx) ==> r is Ok,
        (is_literal(ctx.cur_kind()) && (spec_precedence(ctx.kind_at(ctx.curr + 1))
            matches Prec::No)) ==> (r matches Result::Ok((c, e)) && c.curr == ctx.curr + 1
            && value_shape(ctx.cur_kind(), e) && e.span == ctx.spec_span()),
        (is_literal(ctx.cur_kind()) && is_binary_op(ctx.kind_at(ctx.curr + 1)) && is_literal(
            ctx.kind_at(ctx.curr + 2),
        ) && (spec_precedence(ctx.kind_at(ctx.curr + 3)) matches Prec::No) && spec_prec_level(
            prec,
        ) <= spec_prec_level(spec_precedence(ctx.kind_at(ctx.curr + 1)))) ==> (r
            matches Result::Ok((c, e)) && c.curr == ctx.curr + 3 && binary_of_literals(
            ctx.kind_at(ctx.curr + 1),
            ctx.cur_kind(),
            ctx.kind_at(ctx.curr + 2),
            e,
        )),
        (lone_name(ctx) && (spec_precedence(ctx.kind_at(ctx.curr + 1)) matches Prec::No)) ==> (r
            matches Result::Ok((c, e)) && c.curr == ctx.curr + 1 && lone_name_read(ctx, e)),
        (call_of_one_name(ctx) && !(ctx.kind_at(ctx.curr + 4) matches T::LeftBrace) && (
        spec_precedence(ctx.kind_at(ctx.curr + 4)) matches Prec::No)) ==> (r
            matches Result::Ok((c, e)) && c.curr == ctx.curr + 4 && one_name_call_read(ctx, e)),
        (is_literal(ctx.cur_kind()) && spec_prec_level(prec) > spec_prec_level(
            spec_precedence(ctx.kind_at(ctx.curr + 1)),
        )) ==> (r matches Result::Ok((c, e)) && c.curr == ctx.curr + 1 && value_shape(
            ctx.cur_kind(),
            e,
        ) && e.span == ctx.spec_span()),
        (is_literal(ctx.cur_kind()) && is_binary_op(ctx.kind_at(ctx.curr + 1)) && is_literal(
            ctx.kind_at(ctx.curr + 2),
        ) && is_binary_op(ctx.kind_at(ctx.curr + 3)) && is_literal(ctx.kind_at(ctx.curr + 4))
            && (spec_precedence(ctx.kind_at(ctx.curr + 5)) matches Prec::No) && (
        prec matches Prec::No)) ==> (r matches Result::Ok((c, e)) && c.curr == ctx.curr + 5
            && two_level_tree(
            ctx.kind_at(ctx.curr + 1),
            ctx.cur_kind(),
            ctx.kind_at(ctx.curr + 3),
            ctx.kind_at(ctx.curr + 2),
            ctx.kind_at(ctx.curr + 4),
            e,
        )),
    decreases ctx.tokens@.len() - ctx.curr, 3int,
{
    // The initial operand: a literal, an assignable, a collection, ...
    let (mut c, mut expr) = match prefix(ctx) {
        Result::Ok(x) => x,
        Result::Err(e) => {
            return Err(e);
        },
    };
    while prec_level(prec) <= prec_level(precedence(c.token()))
        invariant
            c.wf(),
            c.tokens == ctx.tokens,
            c.file == ctx.file,
            c.curr > ctx.curr,
            (is_literal(ctx.cur_kind()) && (spec_precedence(ctx.kind_at(ctx.curr + 1))
                matches Prec::No)) ==> (c.curr == ctx.curr + 1 && value_shape(
                ctx.cur_kind(),
                expr,
            ) && expr.span == ctx.spec_span()),
            (is_literal(ctx.cur_kind()) && is_binary_op(ctx.kind_at(ctx.curr + 1)) && is_literal(
                ctx.kind_at(ctx.curr + 2),
            ) && (spec_precedence(ctx.kind_at(ctx.curr + 3)) matches Prec::No) && spec_prec_level(
                prec,
            ) <= spec_prec_level(spec_precedence(ctx.kind_at(ctx.curr + 1)))) ==> (c.curr
                == ctx.curr + 1 && value_shape(ctx.cur_kind(), expr) || c.curr == ctx.curr + 3
                && binary_of_literals(
                ctx.kind_at(ctx.curr + 1),
                ctx.cur_kind(),
                ctx.kind_at(ctx.curr + 2),
                expr,
            )),
            (lone_name(ctx) && (spec_precedence(ctx.kind_at(ctx.curr + 1)) matches Prec::No))
                ==> (c.curr == ctx.curr + 1 && lone_name_read(ctx, expr)),
            (call_of_one_name(ctx) && !(ctx.kind_at(ctx.curr + 4) matches T::LeftBrace) && (
            spec_precedence(ctx.kind_at(ctx.curr + 4)) matches Prec::No)) ==> (c.curr == ctx.curr
                + 4 && one_name_call_read(ctx, expr)),
            (is_literal(ctx.cur_kind()) && spec_prec_level(prec) > spec_prec_level(
                spec_precedence(ctx.kind_at(ctx.curr + 1)),
            )) ==> (c.curr == ctx.curr + 1 && value_shape(ctx.cur_kind(), expr) && expr.span
                == ctx.spec_span()),
            (is_literal(ctx.cur_kind()) && is_binary_op(ctx.kind_at(ctx.curr + 1)) && is_literal(
                ctx.kind_at(ctx.curr + 2),
            ) && is_binary_op(ctx.kind_at(ctx.curr + 3)) && is_literal(ctx.kind_at(ctx.curr + 4))
                && (spec_precedence(ctx.kind_at(ctx.curr + 5)) matches Prec::No) && (
            prec matches Prec::No)) ==> (c.curr == ctx.curr + 1 && value_shape(
                ctx.cur_kind(),
                expr,
            ) || c.curr == ctx.curr + 3 && !(spec_prec_level(
                spec_next_prec(spec_precedence(ctx.kind_at(ctx.curr + 1))),
            ) <= spec_prec_level(spec_precedence(ctx.kind_at(ctx.curr + 3))))
                && binary_of_literals(
                ctx.kind_at(ctx.curr + 1),
                ctx.cur_kind(),
                ctx.kind_at(ctx.curr + 2),
                expr,
            ) || c.curr == ctx.curr + 5 && two_level_tree(
                ctx.kind_at(ctx.curr + 1),
                ctx.cur_kind(),
                ctx.kind_at(ctx.curr + 3),
                ctx.kind_at(ctx.curr + 2),
                ctx.kind_at(ctx.curr + 4),
                expr,
            )),
        decreases c.tokens@.len() - c.curr,
    {
        match infix(c, expr) {
            Result::Ok((c2, e2)) => {
                c = c2;
                expr = e2;
            },
            Result::Err((c2, e2, _)) => {
                expr = e2;
                break ;
            },
        }
    }
    Ok((c, expr))
}

/// Parse something that can begin an expression.
pub fn prefix<'t>(ctx: Context<'t>) -> (r: ParseResult<'t, Expression>)
    requires
        ctx.wf(),
    ensures
        match r {
            Result::Ok((c, e)) => ctx.advanced(c),
            Result::Err((c, es)) => ctx.advanced_or_same(c) && errs_syntax(ctx, es@),
        },
        is_literal(ctx.cur_kind()) ==> (r matches Result::Ok((c, e)) && c.curr == ctx.curr + 1
            && value_shape(ctx.cur_kind(), e) && e.span == ctx.spec_span()),
        prefix_succeeds(ctx) ==> r is Ok,
        lone_name(ctx) ==> (r matches Result::Ok((c, e)) && c.curr == ctx.curr + 1
            && lone_name_read(ctx, e)),
        (call_of_one_name(ctx) && !(ctx.kind_at(ctx.curr + 4) matches T::LeftBrace)) ==> (r
            matches Result::Ok((c, e)) && c.curr == ctx.curr + 4 && one_name_call_read(ctx, e)),
    decreases ctx.tokens@.len() - ctx.curr, 2int,
{
    match ctx.token() {
        T::LeftParen => grouping_or_tuple(ctx),
        T::LeftBracket => list(ctx),
        T::LeftBrace => set_or_dict(ctx),

        T::Float(_) | T::Int(_) | T::Bool(_) | T::String(_) | T::Nil => value(ctx),
        T::Minus | T::Bang => unary(ctx),

        T::Identifier(_) => {
            // Blob instantiations are expressions; try one first and
            // fall back to a plain assignable read.
            match blob(ctx) {
                Result::Ok(result) => Ok(result),
                Result::Err(_) => {
                    let span = ctx.span();
                    let (c, assign) = match assignable(ctx) {
                        Result::Ok(x) => x,
                        Result::Err(e) => {
                            return Err(e);
                        },
                    };
                    Ok((c, Expression { span, kind: ExpressionKind::Get(assign) }))
                },
            }
        },

        _ => {
            let e = syntax_error(ctx, "No valid expression starts with this token");
            Err((ctx, vec![e]))
        },
    }
}

/// Parse either a grouping parenthesis or a tuple.
///
/// A one-element parenthesis is a grouping unless it ends with a comma:
/// `(1)` is the value `1` while `(1,)` is the one-element tuple holding
/// `1`. Both `()` and `(,)` are the zero-element tuple.
#[verifier::loop_isolation(false)]
pub fn grouping_or_tuple<'t>(ctx: Context<'t>) -> (r: ParseResult<'t, Expression>)
    requires
        ctx.wf(),
    ensures
        match r {
            Result::Ok((c, e)) => ctx.advanced(c) && (
            ctx.kind_at(ctx.curr + 1) matches T::RightParen ==> (e.kind
                matches ExpressionKind::Tuple(es) && es@.len() == 0 && c.curr == ctx.curr + 2)) && (
            (ctx.kind_at(ctx.curr + 1) matches T::Comma && ctx.kind_at(ctx.curr + 2)
                matches T::RightParen) ==> (e.kind matches ExpressionKind::Tuple(es) && es@.len()
                == 0 && c.curr == ctx.curr + 3)) && ((is_literal(ctx.kind_at(ctx.curr + 1))
                && ctx.kind_at(ctx.curr + 2) matches T::RightParen) ==> (value_shape(
                ctx.kind_at(ctx.curr + 1),
                e,
            ) && c.curr == ctx.curr + 3)) && ((is_literal(ctx.kind_at(ctx.curr + 1)) && (ctx.kind_at(
                ctx.curr + 2,
            ) matches T::Comma) && (ctx.kind_at(ctx.curr + 3) matches T::RightParen)) ==> ((
            e.kind matches ExpressionKind::Tuple(es) && es@.len() == 1 && value_shape(
                ctx.kind_at(ctx.curr + 1),
                es@[0],
            )) && c.curr == ctx.curr + 4)),
            Result::Err((c, es)) => ctx.advanced_or_same(c) && errs_syntax(ctx, es@),
        },
        ctx.cur_kind() matches T::LeftParen ==> {
            &&& (ctx.kind_at(ctx.curr + 1) matches T::RightParen) ==> r is Ok
            &&& (ctx.kind_at(ctx.curr + 1) matches T::Comma && ctx.kind_at(ctx.curr + 2)
                matches T::RightParen) ==> r is Ok
            &&& (is_literal(ctx.kind_at(ctx.curr + 1)) && ctx.kind_at(ctx.curr + 2)
                matches T::RightParen) ==> r is Ok
            &&& (is_literal(ctx.kind_at(ctx.curr + 1)) && (ctx.kind_at(ctx.curr + 2)
                matches T::Comma) && (ctx.kind_at(ctx.curr + 3) matches T::RightParen)) ==> r is Ok
            &&& (is_literal(ctx.kind_at(ctx.curr + 1)) && (ctx.kind_at(ctx.curr + 2)
                matches T::EOF)) ==> r is Err
        },
    decreases ctx.tokens@.len() - ctx.curr, 1int,
{
    let span = ctx.span();
    let mut c = match expect(ctx, &T::LeftParen, "Expected a parenthesized expression") {
        Result::Ok(x) => x,
        Result::Err(e) => {
            return Err(e);
        },
    };

    // The expressions inside the parenthesis.
    let mut exprs: Vec<Expression> = Vec::new();

    let mut is_tuple = matches!(c.token(), T::Comma | T::RightParen);
    // Any leading comma is part of the tuple syntax, not a separator.
    c = c.skip_if(&T::Comma);
    while !matches!(c.token(), T::RightParen | T::EOF)
        invariant
            c.wf(),
            c.tokens == ctx.tokens,
            c.file == ctx.file,
            c.curr > ctx.curr,
            (ctx.kind_at(ctx.curr + 1) matches T::RightParen) ==> (c.curr == ctx.curr + 1
                && exprs@.len() == 0 && is_tuple),
            ((ctx.kind_at(ctx.curr + 1) matches T::Comma && ctx.kind_at(ctx.curr + 2)
                matches T::RightParen)) ==> (c.curr == ctx.curr + 2 && exprs@.len() == 0
                && is_tuple),
            ((is_literal(ctx.kind_at(ctx.curr + 1)) && ctx.kind_at(ctx.curr + 2)
                matches T::RightParen)) ==> (c.curr == ctx.curr + 1 && exprs@.len() == 0
                && !is_tuple || c.curr == ctx.curr + 2 && exprs@.len() == 1 && value_shape(
                ctx.kind_at(ctx.curr + 1),
                exprs@[0],
            ) && !is_tuple),
            ((is_literal(ctx.kind_at(ctx.curr + 1)) && (ctx.kind_at(ctx.curr + 2)
                matches T::EOF))) ==> (c.curr == ctx.curr + 1 && exprs@.len() == 0 || c.curr
                == ctx.curr + 2),
            ((is_literal(ctx.kind_at(ctx.curr + 1)) && (ctx.kind_at(ctx.curr + 2)
                matches T::Comma) && (ctx.kind_at(ctx.curr + 3) matches T::RightParen))) ==> (
            c.curr == ctx.curr + 1
                && exprs@.len() == 0 && !is_tuple || c.curr == ctx.curr + 3 && exprs@.len() == 1
                && value_shape(ctx.kind_at(ctx.curr + 1), exprs@[0]) && is_tuple),
        decreases c.tokens@.len() - c.curr,
    {
        let (c2, expr) = match expression(c) {
            Result::Ok(x) => x,
            Result::Err(e) => {
                return Err(e);
            },
        };
        exprs.push(expr);
        c = c2;
        // Not a tuple, until it is.
        is_tuple = is_tuple || matches!(c.token(), T::Comma);
        c = c.skip_if(&T::Comma);
    }

    let c = match expect(c, &T::RightParen, "Expected ')'") {
        Result::Ok(x) => x,
        Result::Err(e) => {
            return Err(e);
        },
    };

    if is_tuple {
        Ok((c, Expression { span, kind: ExpressionKind::Tuple(exprs) }))
    } else {
        if exprs.len() == 0 {
            // Unreachable: an empty grouping is always a tuple.
            let e = syntax_error(c, "Expected an expression inside the parentheses");
            return Err((c, vec![e]));
        }
        let mut exprs = exprs;
        let first = exprs.remove(0);
        Ok((c, first))
    }
}

/// Parse a list expression, e.g. `[1, 2, a(3)]`.
#[verifier::loop_isolation(false)]
pub fn list<'t>(ctx: Context<'t>) -> (r: ParseResult<'t, Expression>)
    requires
        ctx.wf(),
    ensures
        match r {
            Result::Ok((c, e)) => ctx.advanced(c) && e.span == ctx.spec_span() && (e.kind
                matches ExpressionKind::List(_)) && (ctx.kind_at(ctx.curr + 1)
                matches T::RightBracket ==> (e.kind matches ExpressionKind::List(es) && es@.len()
                == 0 && c.curr == ctx.curr + 2)) && ((is_literal(ctx.kind_at(ctx.curr + 1))
                && ctx.kind_at(ctx.curr + 2) matches T::RightBracket) ==> ((e.kind
                matches ExpressionKind::List(es) && es@.len() == 1 && value_shape(
                ctx.kind_at(ctx.curr + 1),
                es@[0],
            )) && c.curr == ctx.curr + 3)),
            Result::Err((c, es)) => ctx.advanced_or_same(c) && errs_syntax(ctx, es@),
        },
        ctx.cur_kind() matches T::LeftBracket ==> {
            &&& (ctx.kind_at(ctx.curr + 1) matches T::RightBracket) ==> r is Ok
            &&& (is_literal(ctx.kind_at(ctx.curr + 1)) && ctx.kind_at(ctx.curr + 2)
                matches T::RightBracket) ==> r is Ok
            &&& (is_literal(ctx.kind_at(ctx.curr + 1)) && (ctx.kind_at(ctx.curr + 2)
                matches T::Comma) && is_literal(ctx.kind_at(ctx.curr + 3)) && (ctx.kind_at(
                ctx.curr + 4,
            ) matches T::RightBracket)) ==> r is Ok
        },
        (ctx.cur_kind() matches T::LeftBracket && is_literal(ctx.kind_at(ctx.curr + 1)) && (
        ctx.kind_at(ctx.curr + 2) matches T::Comma) && is_literal(ctx.kind_at(ctx.curr + 3)) && (
        ctx.kind_at(ctx.curr + 4) matches T::RightBracket)) ==> (r matches Result::Ok((c, e))
            && c.curr == ctx.curr + 5 && (e.kind matches ExpressionKind::List(es) && es@.len()
            == 2 && value_shape(ctx.kind_at(ctx.curr + 1), es@[0]) && value_shape(
            ctx.kind_at(ctx.curr + 3),
            es@[1],
        ))),
    decreases ctx.tokens@.len() - ctx.curr, 1int,
{
    let span = ctx.span();
    let mut c = match expect(ctx, &T::LeftBracket, "Expected '['") {
        Result::Ok(x) => x,
        Result::Err(e) => {
            return Err(e);
        },
    };

    // A newline right after the bracket is fine.
    c = c.skip_while(&T::Newline);

    // The inner expressions.
    let mut exprs: Vec<Expression> = Vec::new();
    while !matches!(c.token(), T::RightBracket | T::EOF)
        invariant
            c.wf(),
            c.tokens == ctx.tokens,
            c.file == ctx.file,
            c.curr > ctx.curr,
            (ctx.kind_at(ctx.curr + 1) matches T::RightBracket) ==> (c.curr == ctx.curr + 1
                && exprs@.len() == 0),
            ((is_literal(ctx.kind_at(ctx.curr + 1)) && ctx.kind_at(ctx.curr + 2)
                matches T::RightBracket)) ==> (c.curr == ctx.curr + 1 && exprs@.len() == 0
                || c.curr == ctx.curr + 2 && exprs@.len() == 1 && value_shape(
                ctx.kind_at(ctx.curr + 1),
                exprs@[0],
            )),
            ((is_literal(ctx.kind_at(ctx.curr + 1)) && (ctx.kind_at(ctx.curr + 2)
                matches T::Comma) && is_literal(ctx.kind_at(ctx.curr + 3)) && (ctx.kind_at(
                ctx.curr + 4,
            ) matches T::RightBracket))) ==> (c.curr == ctx.curr + 1 && exprs@.len() == 0
                || c.curr == ctx.curr + 3 && exprs@.len() == 1 && value_shape(
                ctx.kind_at(ctx.curr + 1),
                exprs@[0],
            ) || c.curr == ctx.curr + 4 && exprs@.len() == 2 && value_shape(
                ctx.kind_at(ctx.curr + 1),
                exprs@[0],
            ) && value_shape(ctx.kind_at(ctx.curr + 3), exprs@[1])),
        decreases c.tokens@.len() - c.curr,
    {
        let (c2, expr) = match expression(c) {
            Result::Ok(x) => x,
            Result::Err(e) => {
                return Err(e);
            },
        };
        exprs.push(expr);
        c = c2;
        c = c.skip_if(&T::Comma);
        // Newlines after an expression are valid inside lists.
        c = c.skip_while(&T::Newline);
    }

    let c = match expect(c, &T::RightBracket, "Expected ']'") {
        Result::Ok(x) => x,
        Result::Err(e) => {
            return Err(e);
        },
    };
    Ok((c, Expression { span, kind: ExpressionKind::List(exprs) }))
}

/// Parse either a set or a dict expression.
///
/// `{}` is the empty set and `{:}` the empty dict: an opening brace
/// starts as "unknown", and the first bare `:` — or a `:` after the
/// first inner expression — commits the literal to "dict"; otherwise it
/// is a set once closed. Mixing the two styles in one literal is a
/// syntax error.
#[verifier::loop_isolation(false)]
pub fn set_or_dict<'t>(ctx: Context<'t>) -> (r: ParseResult<'t, Expression>)
    requires
        ctx.wf(),
    ensures
        match r {
            Result::Ok((c, e)) => ctx.advanced(c) && e.span == ctx.spec_span() && (e.kind
                matches ExpressionKind::SetCol(_) || e.kind matches ExpressionKind::Dict(_)) && (
            e.kind matches ExpressionKind::Dict(es) ==> es@.len() % 2 == 0) && (ctx.kind_at(
                ctx.curr + 1,
            ) matches T::RightBrace ==> (e.kind matches ExpressionKind::SetCol(es) && es@.len() == 0
                && c.curr == ctx.curr + 2)) && ((ctx.kind_at(ctx.curr + 1) matches T::Colon
                && ctx.kind_at(ctx.curr + 2) matches T::RightBrace) ==> (e.kind
                matches ExpressionKind::Dict(es) && es@.len() == 0 && c.curr == ctx.curr + 3)) && ((
            is_literal(ctx.kind_at(ctx.curr + 1)) && ctx.kind_at(ctx.curr + 2)
                matches T::RightBrace) ==> ((e.kind matches ExpressionKind::SetCol(es) && es@.len()
                == 1 && value_shape(ctx.kind_at(ctx.curr + 1), es@[0])) && c.curr == ctx.curr
                + 3)) && ((is_literal(ctx.kind_at(ctx.curr + 1)) && (ctx.kind_at(ctx.curr + 2)
                matches T::Colon) && is_literal(ctx.kind_at(ctx.curr + 3)) && (ctx.kind_at(
                ctx.curr + 4,
            ) matches T::RightBrace)) ==> ((e.kind matches ExpressionKind::Dict(es) && es@.len()
                == 2 && value_shape(ctx.kind_at(ctx.curr + 1), es@[0]) && value_shape(
                ctx.kind_at(ctx.curr + 3),
                es@[1],
            )) && c.curr == ctx.curr + 5)),
            Result::Err((c, es)) => ctx.advanced_or_same(c) && errs_syntax(ctx, es@),
        },
        ctx.cur_kind() matches T::LeftBrace ==> {
            &&& (ctx.kind_at(ctx.curr + 1) matches T::RightBrace) ==> r is Ok
            &&& (ctx.kind_at(ctx.curr + 1) matches T::Colon && ctx.kind_at(ctx.curr + 2)
                matches T::RightBrace) ==> r is Ok
            &&& (is_literal(ctx.kind_at(ctx.curr + 1)) && ctx.kind_at(ctx.curr + 2)
                matches T::RightBrace) ==> r is Ok
            &&& (is_literal(ctx.kind_at(ctx.curr + 1)) && (ctx.kind_at(ctx.curr + 2)
                matches T::Colon) && is_literal(ctx.kind_at(ctx.curr + 3)) && (ctx.kind_at(
                ctx.curr + 4,
            ) matches T::RightBrace)) ==> r is Ok
            &&& (is_literal(ctx.kind_at(ctx.curr + 1)) && (ctx.kind_at(ctx.curr + 2)
                matches T::Comma) && is_literal(ctx.kind_at(ctx.curr + 3)) && (ctx.kind_at(
                ctx.curr + 4,
            ) matches T::Colon)) ==> r is Err
            &&& (is_literal(ctx.kind_at(ctx.curr + 1)) && (ctx.kind_at(ctx.curr + 2)
                matches T::Colon) && is_literal(ctx.kind_at(ctx.curr + 3)) && (ctx.kind_at(
                ctx.curr + 4,
            ) matches T::Comma) && is_literal(ctx.kind_at(ctx.curr + 5)) && (ctx.kind_at(
                ctx.curr + 6,
            ) matches T::RightBrace)) ==> r is Err
        },
    decreases ctx.tokens@.len() - ctx.curr, 1int,
{
    let span = ctx.span();
    let mut c = match expect(ctx, &T::LeftBrace, "Expected '{'") {
        Result::Ok(x) => x,
        Result::Err(e) => {
            return Err(e);
        },
    };

    // The inner expressions; for a dict, keys and values interleaved.
    let mut exprs: Vec<Expression> = Vec::new();
    // `None` means we do not know yet whether this is a dict.
    let mut is_dict: Option<bool> = None;
    while !matches!(c.token(), T::RightBrace | T::EOF)
        invariant
            c.wf(),
            c.tokens == ctx.tokens,
            c.file == ctx.file,
            c.curr > ctx.curr,
            is_dict == Option::Some(true) ==> exprs@.len() % 2 == 0,
            is_dict is None ==> exprs@.len() == 0,
            (ctx.kind_at(ctx.curr + 1) matches T::RightBrace) ==> (c.curr == ctx.curr + 1
                && exprs@.len() == 0 && is_dict is None),
            ((ctx.kind_at(ctx.curr + 1) matches T::Colon && ctx.kind_at(ctx.curr + 2)
                matches T::RightBrace)) ==> (exprs@.len() == 0 && ((c.curr == ctx.curr + 1
                && is_dict is None) || (c.curr == ctx.curr + 2 && is_dict == Option::Some(true)))),
            ((is_literal(ctx.kind_at(ctx.curr + 1)) && ctx.kind_at(ctx.curr + 2)
                matches T::RightBrace)) ==> (c.curr == ctx.curr + 1 && exprs@.len() == 0
                && is_dict is None || c.curr == ctx.curr + 2 && exprs@.len() == 1 && value_shape(
                ctx.kind_at(ctx.curr + 1),
                exprs@[0],
            ) && is_dict == Option::Some(false)),
            ((is_literal(ctx.kind_at(ctx.curr + 1)) && (ctx.kind_at(ctx.curr + 2)
                matches T::Colon) && is_literal(ctx.kind_at(ctx.curr + 3)) && (ctx.kind_at(
                ctx.curr + 4,
            ) matches T::RightBrace))) ==> (c.curr == ctx.curr + 1 && exprs@.len() == 0
                && is_dict is None || c.curr == ctx.curr + 4 && exprs@.len() == 2 && value_shape(
                ctx.kind_at(ctx.curr + 1),
                exprs@[0],
            ) && value_shape(ctx.kind_at(ctx.curr + 3), exprs@[1]) && is_dict == Option::Some(
                true,
            )),
            ((is_literal(ctx.kind_at(ctx.curr + 1)) && (ctx.kind_at(ctx.curr + 2)
                matches T::Comma) && is_literal(ctx.kind_at(ctx.curr + 3)) && (ctx.kind_at(
                ctx.curr + 4,
            ) matches T::Colon))) ==> (c.curr == ctx.curr + 1 && exprs@.len() == 0
                && is_dict is None || c.curr == ctx.curr + 3 && is_dict == Option::Some(false)
                || c.curr == ctx.curr + 4 && is_dict == Option::Some(false)),
            ((is_literal(ctx.kind_at(ctx.curr + 1)) && (ctx.kind_at(ctx.curr + 2)
                matches T::Colon) && is_literal(ctx.kind_at(ctx.curr + 3)) && (ctx.kind_at(
                ctx.curr + 4,
            ) matches T::Comma) && is_literal(ctx.kind_at(ctx.curr + 5)) && (ctx.kind_at(
                ctx.curr + 6,
            ) matches T::RightBrace))) ==> (c.curr == ctx.curr + 1 && exprs@.len() == 0
                && is_dict is None || c.curr == ctx.curr + 5 && is_dict == Option::Some(true)),
        decreases c.tokens@.len() - c.curr,
    {
        if matches!(c.token(), T::Colon) {
            // A free-standing colon: the empty dict pair. Only valid
            // while the literal is still uncommitted.
            if is_dict.is_some() {
                let e = syntax_error(c, "An empty dict pair is only valid on its own");
                return Err((c, vec![e]));
            }
            is_dict = Some(true);
            c = c.skip(1);
        } else {
            let (c2, expr) = match expression(c) {
                Result::Ok(x) => x,
                Result::Err(e) => {
                    return Err(e);
                },
            };
            c = c2;
            exprs.push(expr);

            // If this is a dict — known, or decided right now by a
            // following colon — parse the value of the pair too.
            let dict_now = match is_dict {
                Option::Some(d) => d,
                Option::None => {
                    let d = matches!(c.token(), T::Colon);
                    is_dict = Some(d);
                    d
                },
            };
            if dict_now {
                c = match expect(c, &T::Colon, "Expected ':' for the dict pair") {
                    Result::Ok(x) => x,
                    Result::Err(e) => {
                        return Err(e);
                    },
                };
                let (c3, val) = match expression(c) {
                    Result::Ok(x) => x,
                    Result::Err(e) => {
                        return Err(e);
                    },
                };
                c = c3;
                exprs.push(val);
            }

            c = c.skip_if(&T::Comma);
        }
    }

    let c = match expect(c, &T::RightBrace, "Expected '}'") {
        Result::Ok(x) => x,
        Result::Err(e) => {
            return Err(e);
        },
    };

    // If we still do not know, it is a set.
    let dict = match is_dict {
        Option::Some(d) => d,
        Option::None => false,
    };
    let kind = if dict {
        ExpressionKind::Dict(exprs)
    } else {
        ExpressionKind::SetCol(exprs)
    };

    Ok((c, Expression { span, kind }))
}

/// Parse a blob instantiation, e.g. `A { b: 55 }`.
#[verifier::loop_isolation(false)]
pub fn blob<'t>(ctx: Context<'t>) -> (r: ParseResult<'t, Expression>)
    requires
        ctx.wf(),
    ensures
        match r {
            Result::Ok((c, e)) => ctx.advanced(c) && e.span == ctx.spec_span() && (e.kind
                matches ExpressionKind::Instance { .. }),
            Result::Err((c, es)) => ctx.advanced_or_same(c) && errs_syntax(ctx, es@),
        },
        (ctx.cur_kind() matches T::Identifier(_) && ctx.kind_at(ctx.curr + 1)
            matches T::LeftBrace && ctx.kind_at(ctx.curr + 2) matches T::RightBrace && !(
        ctx.kind_at(ctx.curr + 3) matches T::Else)) ==> (r matches Result::Ok((c, e)) && c.curr
            == ctx.curr + 3 && (e.kind matches ExpressionKind::Instance { fields, .. }
            && fields@.len() == 0)),
        (ctx.cur_kind() matches T::Identifier(_) && ctx.kind_at(ctx.curr + 1)
            matches T::LeftBrace && ctx.kind_at(ctx.curr + 2) matches T::RightBrace && ctx.kind_at(
            ctx.curr + 3,
        ) matches T::Else) ==> r is Err,
        (ctx.cur_kind() matches T::Identifier(_) && (ctx.kind_at(ctx.curr + 1)
            matches T::LeftBrace) && (ctx.kind_at(ctx.curr + 2) matches T::Identifier(_)) && (
        ctx.kind_at(ctx.curr + 3) matches T::Colon) && is_literal(ctx.kind_at(ctx.curr + 4)) && (
        ctx.kind_at(ctx.curr + 5) matches T::RightBrace) && !(ctx.kind_at(ctx.curr + 6)
            matches T::Else)) ==> (r matches Result::Ok((c, e)) && c.curr == ctx.curr + 6 && (
        ctx.kind_at(ctx.curr + 2) matches T::Identifier(b) ==> (
        e.kind matches ExpressionKind::Instance { fields, .. } && fields@.len() == 1
            && fields@[0].0@ == b@ && value_shape(ctx.kind_at(ctx.curr + 4), fields@[0].1)))),
        lone_name(ctx) ==> r is Err,
        (call_of_one_name(ctx) && !(ctx.kind_at(ctx.curr + 4) matches T::LeftBrace)) ==> r
            is Err,
    decreases ctx.tokens@.len() - ctx.curr, 1int,
{
    let span = ctx.span();
    let (c0, blob) = match assignable(ctx) {
        Result::Ok(x) => x,
        Result::Err(e) => {
            return Err(e);
        },
    };
    let mut c = match expect(c0, &T::LeftBrace, "Expected '{' after the blob name") {
        Result::Ok(x) => x,
        Result::Err(e) => {
            return Err(e);
        },
    };

    // The blob's fields.
    let mut fields: Vec<(String, Expression)> = Vec::new();
    let ghost tiny = ctx.cur_kind() matches T::Identifier(_) && ctx.kind_at(ctx.curr + 1)
        matches T::LeftBrace && ctx.kind_at(ctx.curr + 2) matches T::RightBrace;
    let ghost one_field = (ctx.cur_kind() matches T::Identifier(_)) && (ctx.kind_at(ctx.curr + 1)
        matches T::LeftBrace) && (ctx.kind_at(ctx.curr + 2) matches T::Identifier(_)) && (
    ctx.kind_at(ctx.curr + 3) matches T::Colon) && is_literal(ctx.kind_at(ctx.curr + 4)) && (
    ctx.kind_at(ctx.curr + 5) matches T::RightBrace);
    while !matches!(c.token(), T::RightBrace | T::EOF)
        invariant
            c.wf(),
            c.tokens == ctx.tokens,
            c.file == ctx.file,
            c.curr > ctx.curr,
            tiny ==> (c.curr == ctx.curr + 2 && fields@.len() == 0),
            one_field ==> (c.curr == ctx.curr + 2 && fields@.len() == 0 || c.curr == ctx.curr + 5
                && fields@.len() == 1 && (ctx.kind_at(ctx.curr + 2) matches T::Identifier(b) ==> (
            fields@[0].0@ == b@ && value_shape(ctx.kind_at(ctx.curr + 4), fields@[0].1)))),
        decreases c.tokens@.len() - c.curr,
    {
        match c.token() {
            T::Newline => {
                c = c.skip(1);
            },

            // Another field, e.g. `b: 55`.
            T::Identifier(name) => {
                let name = name.clone();
                c = match expect(c.skip(1), &T::Colon, "Expected ':' after the field name") {
                    Result::Ok(x) => x,
                    Result::Err(e) => {
                        return Err(e);
                    },
                };
                // The field's value.
                let (c2, expr) = match expression(c) {
                    Result::Ok(x) => x,
                    Result::Err(e) => {
                        return Err(e);
                    },
                };
                c = c2;

                let delim = matches!(c.token(), T::Comma | T::Newline | T::RightBrace);
                if !delim {
                    let e = syntax_error(c, "Expected a delimiter: a newline or ','");
                    return Err((c, vec![e]));
                }
                c = c.skip_if(&T::Comma);

                fields.push((name, expr));
            },

            _ => {
                let e = syntax_error(c, "Unexpected token in the blob initializer");
                return Err((c, vec![e]));
            },
        }
    }
    let c = match expect(c, &T::RightBrace, "Expected '}' after the blob initializer") {
        Result::Ok(x) => x,
        Result::Err(e) => {
            return Err(e);
        },
    };

    // A blob instance directly followed by `else` means this was an
    // if-statement all along.
    if matches!(c.token(), T::Else) {
        let e = syntax_error(c, "Parsed a blob instance, not an if-statement");
        return Err((c, vec![e]));
    }

    Ok((c, Expression { span, kind: ExpressionKind::Instance { blob, fields } }))
}

/// Parse a function literal: parameters as `name: type` pairs separated
/// by commas, then `->` and a return type (or none, which means a void
/// return), then a block statement as the body.
#[verifier::loop_isolation(false)]
pub fn function<'t>(ctx: Context<'t>) -> (r: ParseResult<'t, Expression>)
    requires
        ctx.wf(),
    ensures
        match r {
            Result::Ok((c, e)) => ctx.advanced(c) && e.span == ctx.spec_span() && (e.kind
                matches ExpressionKind::Function { .. }),
            Result::Err((c, es)) => ctx.advanced_or_same(c) && errs_syntax(ctx, es@),
        },
        r matches Result::Ok((c, e)) ==> (e.kind matches ExpressionKind::Function { name, .. }
            ==> name@ == "lambda"@),
        (ctx.cur_kind() matches T::Fn && ctx.kind_at(ctx.curr + 1) matches T::LeftBrace
            && ctx.kind_at(ctx.curr + 2) matches T::RightBrace) ==> (r matches Result::Ok((c, e))
            && c.curr == ctx.curr + 3 && (e.kind matches ExpressionKind::Function {
                params,
                ret,
                ..
            } && params@.len() == 0 && (ret.kind matches TypeKind::Resolved(
                crate::value::Type::Void,
            )))),
        (ctx.cur_kind() matches T::Fn && !(ctx.kind_at(ctx.curr + 1) matches T::Identifier(_))
            && !(ctx.kind_at(ctx.curr + 1) matches T::Arrow) && !(ctx.kind_at(ctx.curr + 1)
            matches T::LeftBrace)) ==> r is Err,
        (ctx.cur_kind() matches T::Fn && (ctx.kind_at(ctx.curr + 1) matches T::Identifier(_))
            && (ctx.kind_at(ctx.curr + 2) matches T::Colon) && is_type_name(
            ctx.kind_at(ctx.curr + 3),
        ) && (ctx.kind_at(ctx.curr + 4) matches T::LeftBrace) && (ctx.kind_at(ctx.curr + 5)
            matches T::RightBrace)) ==> (r matches Result::Ok((c, e)) && c.curr == ctx.curr + 6
            && (ctx.kind_at(ctx.curr + 1) matches T::Identifier(p) ==> (
        e.kind matches ExpressionKind::Function { params, ret, .. } && params@.len() == 1
            && params@[0].0.name@ == p@ && (ret.kind matches TypeKind::Resolved(
            crate::value::Type::Void,
        )) && (ctx.kind_at(ctx.curr + 3) matches T::Identifier(tn) ==> (n_is_int_type(tn@)
            ==> params@[0].1.kind matches TypeKind::Resolved(crate::value::Type::Int)))))),
        (ctx.cur_kind() matches T::Fn && (ctx.kind_at(ctx.curr + 1) matches T::Arrow)
            && is_type_name(ctx.kind_at(ctx.curr + 2)) && (ctx.kind_at(ctx.curr + 3)
            matches T::LeftBrace) && (ctx.kind_at(ctx.curr + 4) matches T::RightBrace)) ==> (r
            matches Result::Ok((c, e)) && c.curr == ctx.curr + 5 && (
        e.kind matches ExpressionKind::Function { params, ret, .. } && params@.len() == 0 && (
        ctx.kind_at(ctx.curr + 2) matches T::Identifier(tn) ==> (n_is_int_type(tn@)
            ==> ret.kind matches TypeKind::Resolved(crate::value::Type::Int))))),
        (ctx.cur_kind() matches T::Fn && (ctx.kind_at(ctx.curr + 1) matches T::Arrow) && (
        ctx.kind_at(ctx.curr + 2) matches T::LeftBrace) && (ctx.kind_at(ctx.curr + 3)
            matches T::RightBrace)) ==> (r matches Result::Ok((c, e)) && c.curr == ctx.curr + 4
            && (e.kind matches ExpressionKind::Function { params, ret, .. } && params@.len() == 0
            && (ret.kind matches TypeKind::Resolved(crate::value::Type::Void)))),
    decreases ctx.tokens@.len() - ctx.curr, 1int,
{
    let span = ctx.span();
    let mut c = match expect(ctx, &T::Fn, "Expected 'fn' for the function expression") {
        Result::Ok(x) => x,
        Result::Err(e) => {
            return Err(e);
        },
    };
    let mut params: Vec<(Identifier, Type)> = Vec::new();
    let ghost bare = ctx.kind_at(ctx.curr + 1) matches T::LeftBrace;
    let ghost badhead = !(ctx.kind_at(ctx.curr + 1) matches T::Identifier(_)) && !(ctx.kind_at(
        ctx.curr + 1,
    ) matches T::Arrow) && !(ctx.kind_at(ctx.curr + 1) matches T::LeftBrace);
    let ghost one_param = (ctx.kind_at(ctx.curr + 1) matches T::Identifier(_)) && (ctx.kind_at(
        ctx.curr + 2,
    ) matches T::Colon) && is_type_name(ctx.kind_at(ctx.curr + 3)) && (ctx.kind_at(ctx.curr + 4)
        matches T::LeftBrace);
    let ghost arrow_head = ctx.kind_at(ctx.curr + 1) matches T::Arrow;

    // The parameters: `name: type`, comma-separated.
    while matches!(c.token(), T::Identifier(_))
        invariant
            c.wf(),
            c.tokens == ctx.tokens,
            c.file == ctx.file,
            c.curr > ctx.curr,
            bare ==> (c.curr == ctx.curr + 1 && params@.len() == 0),
            badhead ==> c.curr == ctx.curr + 1,
            arrow_head ==> (c.curr == ctx.curr + 1 && params@.len() == 0),
            one_param ==> (c.curr == ctx.curr + 1 && params@.len() == 0 || c.curr == ctx.curr + 4
                && params@.len() == 1 && (ctx.kind_at(ctx.curr + 1) matches T::Identifier(p) ==> (
            params@[0].0.name@ == p@ && (ctx.kind_at(ctx.curr + 3) matches T::Identifier(tn)
                ==> (n_is_int_type(tn@) ==> params@[0].1.kind matches TypeKind::Resolved(
                crate::value::Type::Int,
            )))))),
        decreases c.tokens@.len() - c.curr,
    {
        let ident = match c.token() {
            T::Identifier(name) => Identifier { span: c.span(), name: name.clone() },
            _ => {
                let e = syntax_error(c, "Expected a parameter name");
                return Err((c, vec![e]));
            },
        };
        c = match expect(c.skip(1), &T::Colon, "Expected ':' after the parameter name") {
            Result::Ok(x) => x,
            Result::Err(e) => {
                return Err(e);
            },
        };
        let (c2, param) = match parse_type(c) {
            Result::Ok(x) => x,
            Result::Err(e) => {
                return Err(e);
            },
        };
        c = c2;

        params.push((ident, param));

        let delim = matches!(c.token(), T::Comma | T::Arrow | T::LeftBrace);
        if !delim {
            let e = syntax_error(c, "Expected ',' or '{' or '->' after the parameter");
            return Err((c, vec![e]));
        }
        c = c.skip_if(&T::Comma);
    }

    // The return type: explicit after `->`, or void when the body
    // follows directly.
    let ret: Type = match c.token() {
        T::Arrow => {
            c = c.skip(1);
            match parse_type(c) {
                Result::Ok((c2, t)) => {
                    c = c2;
                    t
                },
                Result::Err(_) => {
                    // No parsable return type: fall back to a void return.
                    Type { span: c.span(), kind: TypeKind::Resolved(value::Type::Void) }
                },
            }
        },
        T::LeftBrace => Type { span: c.span(), kind: TypeKind::Resolved(value::Type::Void) },
        _ => {
            let e = syntax_error(c, "Did not expect this token in a function");
            return Err((c, vec![e]));
        },
    };

    // The function body.
    let (c, statement) = match block_statement(c) {
        Result::Ok(x) => x,
        Result::Err(e) => {
            return Err(e);
        },
    };

    let kind = ExpressionKind::Function {
        name: String::from_str("lambda"),
        params,
        ret,
        body: Box::new(statement),
    };
    Ok((c, Expression { span, kind }))
}

/// Parse a single expression: either a function literal or a normal
/// expression following the precedence rules.
pub fn expression<'t>(ctx: Context<'t>) -> (r: ParseResult<'t, Expression>)
    requires
        ctx.wf(),
    ensures
        match r {
            Result::Ok((c, e)) => ctx.advanced(c),
            Result::Err((c, es)) => ctx.advanced_or_same(c) && errs_syntax(ctx, es@),
        },
        prefix_succeeds(ctx) ==> r is Ok,
        (is_literal(ctx.cur_kind()) && (spec_precedence(ctx.kind_at(ctx.curr + 1))
            matches Prec::No)) ==> (r matches Result::Ok((c, e)) && c.curr == ctx.curr + 1
            && value_shape(ctx.cur_kind(), e) && e.span == ctx.spec_span()),
        (is_literal(ctx.cur_kind()) && is_binary_op(ctx.kind_at(ctx.curr + 1)) && is_literal(
            ctx.kind_at(ctx.curr + 2),
        ) && (spec_precedence(ctx.kind_at(ctx.curr + 3)) matches Prec::No)) ==> (r
            matches Result::Ok((c, e)) && c.curr == ctx.curr + 3 && binary_of_literals(
            ctx.kind_at(ctx.curr + 1),
            ctx.cur_kind(),
            ctx.kind_at(ctx.curr + 2),
            e,
        )),
        (lone_name(ctx) && (spec_precedence(ctx.kind_at(ctx.curr + 1)) matches Prec::No)) ==> (r
            matches Result::Ok((c, e)) && c.curr == ctx.curr + 1 && lone_name_read(ctx, e)),
        (call_of_one_name(ctx) && !(ctx.kind_at(ctx.curr + 4) matches T::LeftBrace) && (
        spec_precedence(ctx.kind_at(ctx.curr + 4)) matches Prec::No)) ==> (r
            matches Result::Ok((c, e)) && c.curr == ctx.curr + 4 && one_name_call_read(ctx, e)),
        (is_literal(ctx.cur_kind()) && is_binary_op(ctx.kind_at(ctx.curr + 1)) && is_literal(
            ctx.kind_at(ctx.curr + 2),
        ) && is_binary_op(ctx.kind_at(ctx.curr + 3)) && is_literal(ctx.kind_at(ctx.curr + 4))
            && (spec_precedence(ctx.kind_at(ctx.curr + 5)) matches Prec::No)) ==> (r
            matches Result::Ok((c, e)) && c.curr == ctx.curr + 5 && two_level_tree(
            ctx.kind_at(ctx.curr + 1),
            ctx.cur_kind(),
            ctx.kind_at(ctx.curr + 3),
            ctx.kind_at(ctx.curr + 2),
            ctx.kind_at(ctx.curr + 4),
            e,
        )),
    decreases ctx.tokens@.len() - ctx.curr, 4int,
{
    match ctx.token() {
        T::Fn => function(ctx),
        _ => parse_precedence(ctx, Prec::No),
    }
}

} // verus!
