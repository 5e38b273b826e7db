//! The bytecode compiler.
//!
//! The compiler walks the AST per module, resolves names into a single
//! global-slot address space plus a deduplicated constant pool, and
//! emits one stack-machine opcode block, each opcode annotated with its
//! source line.
//!
//! Contracts describe code generation through an emission spec: each
//! expression, assignable and statement kind maps to a fixed sequence of
//! [`EmitItem`]s — plain opcodes, or constants that the interning pool
//! turns into `Constant` opcodes.

use vstd::prelude::*;

verus! {

broadcast use vstd::seq::axiom_seq_index_decreases, vstd::std_specs::vec::axiom_vec_decreases_to_view;

use crate::ast::{Assignable, AssignableKind, Expression, ExpressionKind, Module, Statement,
    StatementKind};
use crate::error::{Error, ErrorV};
use crate::value::{lemma_view_values, spec_value_eq, view_value, view_values, Value, ValueV};
use crate::Span;

/// One stack-machine opcode.
#[derive(Clone, Copy, Debug, PartialEq, Eq, Structural)]
pub enum Op {
    /// Push the constant at this pool slot onto the stack.
    Constant(usize),
    Add,
    Sub,
    Mul,
    Div,
    Equal,
    Less,
    Greater,
    And,
    Or,
    Not,
    Neg,
    Assert,
    Contains,
    /// Call the callee below this many topmost arguments.
    Call(usize),
    GetIndex,
    AssignIndex,
    ReadGlobal(usize),
    AssignGlobal(usize),
    Print,
    Return,
    /// Build a tuple from this many topmost values.
    Tuple(usize),
    List(usize),
    SetCol(usize),
    /// Build a dict from this many topmost values, interleaved as
    /// key, value, key, value, ...
    Dict(usize),
}

/// One compiled function: its opcodes and, for each, the source line it
/// came from.
#[derive(Debug)]
pub struct Block {
    pub name: String,
    pub file: String,
    pub ops: Vec<Op>,
    pub lines: Vec<usize>,
}

/// A well-formed block carries one line per opcode.
pub open spec fn block_wf(b: Block) -> bool {
    b.ops@.len() == b.lines@.len()
}

impl Block {
    /// A fresh, empty block.
    pub fn new(name: &str, file: &str) -> (b: Block)
        ensures
            block_wf(b),
            b.name@ == name@,
            b.file@ == file@,
            b.ops@.len() == 0,
    {
        Block { name: name.to_owned(), file: file.to_owned(), ops: Vec::new(), lines: Vec::new() }
    }

    /// Appends one opcode with its source line; returns its index.
    pub fn add(&mut self, op: Op, line: usize) -> (i: usize)
        requires
            block_wf(*old(self)),
        ensures
            block_wf(*final(self)),
            i == old(self).ops@.len(),
            final(self).ops@ == old(self).ops@.push(op),
            final(self).lines@ == old(self).lines@.push(line),
            final(self).name == old(self).name,
            final(self).file == old(self).file,
    {
        let i = self.ops.len();
        self.ops.push(op);
        self.lines.push(line);
        i
    }
}

/// A compiled program: its blocks, its extern-function name table, its
/// constant pool and its string table, each in a fixed order that baked
/// opcode indices rely on.
#[derive(Debug)]
pub struct Prog {
    pub blocks: Vec<Block>,
    pub functions: Vec<String>,
    pub constants: Vec<Value>,
    pub strings: Vec<String>,
}

/// What an identifier resolves to: a global slot, or a whole imported
/// module.
#[derive(Clone, Copy, Debug)]
pub enum Name {
    Slot(usize),
    Namespace(usize),
}

/// One compile-time variable.
pub struct Variable {
    pub name: String,
    pub ty: crate::value::Type,
    pub slot: usize,
    pub line: usize,
    pub active: bool,
}

impl Variable {
    /// A fresh, inactive variable.
    pub fn new(name: String, ty: crate::value::Type, slot: usize, span: Span) -> (v: Variable)
        ensures
            v.name@ == name@,
            v.ty@ == ty@,
            v.slot == slot,
            v.line == span.line,
            !v.active,
    {
        Variable { name, ty, slot, line: span.line, active: false }
    }

    /// The placeholder variable that fills unused slots.
    pub fn filler() -> (v: Variable)
        ensures
            v.slot == 0,
            v.line == 0,
            !v.active,
    {
        Variable::new("/filler/".to_owned(), crate::value::Type::Unknown, 0, Span { line: 0 })
    }
}

// ---------------------------------------------------------------------------
// The constant pool
// ---------------------------------------------------------------------------

/// The least pool index holding a constant structurally equal to `v`,
/// if any.
pub open spec fn find_const(pool: Seq<ValueV>, v: ValueV) -> Option<int>
    decreases pool.len(),
{
    if pool.len() == 0 {
        Option::None
    } else if spec_value_eq(pool.first(), v) {
        Option::Some(0int)
    } else {
        match find_const(pool.drop_first(), v) {
            Option::Some(j) => Option::Some(j + 1),
            Option::None => Option::None,
        }
    }
}

/// What [`find_const`] means: the least index whose constant equals `v`.
pub proof fn lemma_find_const(pool: Seq<ValueV>, v: ValueV)
    ensures
        match find_const(pool, v) {
            Option::Some(j) => 0 <= j < pool.len() && spec_value_eq(pool[j], v) && forall|i: int|
                0 <= i < j ==> !spec_value_eq(#[trigger] pool[i], v),
            Option::None => forall|i: int|
                0 <= i < pool.len() ==> !spec_value_eq(#[trigger] pool[i], v),
        },
    decreases pool.len(),
{
    if pool.len() > 0 {
        if spec_value_eq(pool.first(), v) {
            assert(pool[0] == pool.first());
        } else {
            lemma_find_const(pool.drop_first(), v);
            let rest = pool.drop_first();
            match find_const(rest, v) {
                Option::Some(j) => {
                    assert(pool[j + 1] == rest[j]);
                    assert forall|i: int| 0 <= i < j + 1 implies !spec_value_eq(
                        #[trigger] pool[i],
                        v,
                    ) by {
                        if i > 0 {
                            assert(pool[i] == rest[i - 1]);
                        } else {
                            assert(pool[0] == pool.first());
                        }
                    }
                },
                Option::None => {
                    assert forall|i: int| 0 <= i < pool.len() implies !spec_value_eq(
                        #[trigger] pool[i],
                        v,
                    ) by {
                        if i > 0 {
                            assert(pool[i] == rest[i - 1]);
                        } else {
                            assert(pool[0] == pool.first());
                        }
                    }
                },
            }
        }
    }
}

/// Growing the pool never moves an interned constant: if `v` is found
/// in a prefix, it is found at the same slot in the whole pool.
pub proof fn lemma_find_const_stable(pool1: Seq<ValueV>, pool2: Seq<ValueV>, v: ValueV)
    requires
        pool1.is_prefix_of(pool2),
        find_const(pool1, v) is Some,
    ensures
        find_const(pool2, v) == find_const(pool1, v),
    decreases pool1.len(),
{
    if pool1.len() > 0 {
        assert(pool1.first() == pool2.first());
        if !spec_value_eq(pool1.first(), v) {
            assert(pool1.drop_first().is_prefix_of(pool2.drop_first()));
            lemma_find_const_stable(pool1.drop_first(), pool2.drop_first(), v);
        }
    }
}

// ---------------------------------------------------------------------------
// The emission spec
// ---------------------------------------------------------------------------

/// One emitted item: a plain opcode, or a constant to be interned; each
/// with the source line it is annotated with.
pub ghost enum EmitItem {
    Op(Op, usize),
    Const(ValueV, usize),
}

/// Whether the opcodes and lines appended to a block materialize the
/// emitted items, resolving each constant through the (final) pool.
pub open spec fn ops_match(ops: Seq<Op>, lines: Seq<usize>, items: Seq<EmitItem>, pool: Seq<ValueV>) -> bool {
    &&& ops.len() == items.len()
    &&& lines.len() == items.len()
    &&& forall|i: int|
        0 <= i < items.len() ==> (match #[trigger] items[i] {
            EmitItem::Op(op, line) => ops[i] == op && lines[i] == line,
            EmitItem::Const(v, line) => (ops[i] matches Op::Constant(s) && find_const(pool, v)
                == Option::Some(s as int)) && lines[i] == line,
        })
}

/// Materialization splits over concatenation.
pub proof fn lemma_ops_match_concat(
    ops1: Seq<Op>,
    lines1: Seq<usize>,
    items1: Seq<EmitItem>,
    ops2: Seq<Op>,
    lines2: Seq<usize>,
    items2: Seq<EmitItem>,
    pool: Seq<ValueV>,
)
    requires
        ops_match(ops1, lines1, items1, pool),
        ops_match(ops2, lines2, items2, pool),
    ensures
        ops_match(ops1 + ops2, lines1 + lines2, items1 + items2, pool),
{
    assert forall|i: int| 0 <= i < (items1 + items2).len() implies (match #[trigger] (items1
        + items2)[i] {
        EmitItem::Op(op, line) => (ops1 + ops2)[i] == op && (lines1 + lines2)[i] == line,
        EmitItem::Const(v, line) => ((ops1 + ops2)[i] matches Op::Constant(s) && find_const(
            pool,
            v,
        ) == Option::Some(s as int)) && (lines1 + lines2)[i] == line,
    }) by {
        if i < items1.len() {
            assert((items1 + items2)[i] == items1[i]);
            assert((ops1 + ops2)[i] == ops1[i]);
            assert((lines1 + lines2)[i] == lines1[i]);
        } else {
            assert((items1 + items2)[i] == items2[i - items1.len()]);
            assert((ops1 + ops2)[i] == ops2[i - items1.len()]);
            assert((lines1 + lines2)[i] == lines2[i - items1.len()]);
        }
    }
}

/// An interned pool holds no two structurally equal constants.
pub open spec fn pool_interned(pool: Seq<ValueV>) -> bool {
    forall|i: int, j: int|
        0 <= i < j < pool.len() ==> !spec_value_eq(#[trigger] pool[i], #[trigger] pool[j])
}

/// Materialization survives growing the pool: the constants it resolved
/// stay at their slots.
pub proof fn lemma_ops_match_pool_grow(
    ops: Seq<Op>,
    lines: Seq<usize>,
    items: Seq<EmitItem>,
    pool1: Seq<ValueV>,
    pool2: Seq<ValueV>,
)
    requires
        ops_match(ops, lines, items, pool1),
        pool1.is_prefix_of(pool2),
    ensures
        ops_match(ops, lines, items, pool2),
{
    assert forall|i: int| 0 <= i < items.len() implies (match #[trigger] items[i] {
        EmitItem::Op(op, line) => ops[i] == op && lines[i] == line,
        EmitItem::Const(v, line) => (ops[i] matches Op::Constant(s) && find_const(pool2, v)
            == Option::Some(s as int)) && lines[i] == line,
    }) by {
        match items[i] {
            EmitItem::Const(v, line) => {
                lemma_find_const_stable(pool1, pool2, v);
            },
            _ => {},
        }
    }
}

// ---------------------------------------------------------------------------
// Namespaces
// ---------------------------------------------------------------------------

/// The view of one namespace: identifier views paired with what they
/// resolve to, in insertion order.
pub open spec fn view_ns(ns: Seq<(String, Name)>) -> Seq<(Seq<char>, Name)> {
    Seq::new(ns.len(), |i: int| (ns[i].0@, ns[i].1))
}

/// The least index of `name` in the namespace, if any.
pub open spec fn ns_find(ns: Seq<(Seq<char>, Name)>, name: Seq<char>) -> Option<int>
    decreases ns.len(),
{
    if ns.len() == 0 {
        Option::None
    } else if ns.first().0 == name {
        Option::Some(0int)
    } else {
        match ns_find(ns.drop_first(), name) {
            Option::Some(j) => Option::Some(j + 1),
            Option::None => Option::None,
        }
    }
}

/// What [`ns_find`] means: the least index bound to `name`.
pub proof fn lemma_ns_find(ns: Seq<(Seq<char>, Name)>, name: Seq<char>)
    ensures
        match ns_find(ns, name) {
            Option::Some(j) => 0 <= j < ns.len() && ns[j].0 == name && forall|i: int|
                0 <= i < j ==> (#[trigger] ns[i]).0 != name,
            Option::None => forall|i: int| 0 <= i < ns.len() ==> (#[trigger] ns[i]).0 != name,
        },
    decreases ns.len(),
{
    if ns.len() > 0 {
        if ns.first().0 == name {
            assert(ns[0] == ns.first());
        } else {
            lemma_ns_find(ns.drop_first(), name);
            let rest = ns.drop_first();
            match ns_find(rest, name) {
                Option::Some(j) => {
                    assert(ns[j + 1] == rest[j]);
                    assert forall|i: int| 0 <= i < j + 1 implies (#[trigger] ns[i]).0 != name by {
                        if i > 0 {
                            assert(ns[i] == rest[i - 1]);
                        } else {
                            assert(ns[0] == ns.first());
                        }
                    }
                },
                Option::None => {
                    assert forall|i: int| 0 <= i < ns.len() implies (#[trigger] ns[i]).0
                        != name by {
                        if i > 0 {
                            assert(ns[i] == rest[i - 1]);
                        } else {
                            assert(ns[0] == ns.first());
                        }
                    }
                },
            }
        }
    }
}

/// What `name` resolves to in the namespace, if anything.
pub open spec fn ns_lookup(ns: Seq<(Seq<char>, Name)>, name: Seq<char>) -> Option<Name> {
    match ns_find(ns, name) {
        Option::Some(j) => Option::Some(ns[j].1),
        Option::None => Option::None,
    }
}

/// Finds what `name` is bound to in a namespace.
#[verifier::loop_isolation(false)]
pub fn lookup_name(ns: &Vec<(String, Name)>, name: &String) -> (r: Option<Name>)
    ensures
        r == ns_lookup(view_ns(ns@), name@),
{
    proof {
        lemma_ns_find(view_ns(ns@), name@);
    }
    let mut i: usize = 0;
    while i < ns.len()
        invariant
            i <= ns@.len(),
            forall|j: int| 0 <= j < i ==> (#[trigger] view_ns(ns@)[j]).0 != name@,
        decreases ns@.len() - i,
    {
        if ns[i].0 == *name {
            proof {
                assert(view_ns(ns@)[i as int].0 == name@);
                assert(ns_find(view_ns(ns@), name@) matches Option::Some(j) && j == i as int);
            }
            return Some(ns[i].1);
        }
        proof {
            assert(view_ns(ns@)[i as int].0 == ns@[i as int].0@);
        }
        i = i + 1;
    }
    None
}

// ---------------------------------------------------------------------------
// What the compiler accepts, and what it emits
// ---------------------------------------------------------------------------

/// Whether the code generator supports this assignable.
pub open spec fn assignable_supported(a: Assignable) -> bool
    decreases a,
{
    match a.kind {
        AssignableKind::Read(_) => true,
        AssignableKind::Call(callee, args) => assignable_supported(*callee) && exprs_supported(
            args@,
        ),
        AssignableKind::Access(a1, b1) => assignable_supported(*a1) && assignable_supported(*b1),
        AssignableKind::Index(a1, b1) => assignable_supported(*a1) && expr_supported(*b1),
    }
}

/// Whether the code generator supports this expression. Function
/// literals and blob instantiations are not lowered yet.
pub open spec fn expr_supported(e: Expression) -> bool
    decreases e,
{
    match e.kind {
        ExpressionKind::Get(a) => assignable_supported(a),
        ExpressionKind::Add(a, b) => expr_supported(*a) && expr_supported(*b),
        ExpressionKind::Sub(a, b) => expr_supported(*a) && expr_supported(*b),
        ExpressionKind::Mul(a, b) => expr_supported(*a) && expr_supported(*b),
        ExpressionKind::Div(a, b) => expr_supported(*a) && expr_supported(*b),
        ExpressionKind::Eq(a, b) => expr_supported(*a) && expr_supported(*b),
        ExpressionKind::Neq(a, b) => expr_supported(*a) && expr_supported(*b),
        ExpressionKind::Gt(a, b) => expr_supported(*a) && expr_supported(*b),
        ExpressionKind::Gteq(a, b) => expr_supported(*a) && expr_supported(*b),
        ExpressionKind::Lt(a, b) => expr_supported(*a) && expr_supported(*b),
        ExpressionKind::Lteq(a, b) => expr_supported(*a) && expr_supported(*b),
        ExpressionKind::AssertEq(a, b) => expr_supported(*a) && expr_supported(*b),
        ExpressionKind::In(a, b) => expr_supported(*a) && expr_supported(*b),
        ExpressionKind::And(a, b) => expr_supported(*a) && expr_supported(*b),
        ExpressionKind::Or(a, b) => expr_supported(*a) && expr_supported(*b),
        ExpressionKind::Neg(a) => expr_supported(*a),
        ExpressionKind::Not(a) => expr_supported(*a),
        ExpressionKind::Function { .. } => false,
        ExpressionKind::Instance { .. } => false,
        ExpressionKind::Tuple(xs) => exprs_supported(xs@),
        ExpressionKind::List(xs) => exprs_supported(xs@),
        ExpressionKind::SetCol(xs) => exprs_supported(xs@),
        ExpressionKind::Dict(xs) => exprs_supported(xs@),
        // A non-finite float constant cannot be interned: it is never
        // a valid pool key.
        ExpressionKind::Float(f) => crate::value::spec_float_is_finite(f),
        ExpressionKind::Int(_) => true,
        ExpressionKind::Bool(_) => true,
        ExpressionKind::Str(_) => true,
        ExpressionKind::Nil => true,
    }
}

/// Whether the code generator supports every expression in the list.
pub open spec fn exprs_supported(es: Seq<Expression>) -> bool
    decreases es,
{
    es.len() == 0 || (expr_supported(es.last()) && exprs_supported(es.drop_last()))
}

/// Whether the code generator supports this statement. Assignments to
/// field accesses and nested blocks are not lowered yet.
pub open spec fn stmt_supported(s: Statement) -> bool
    decreases s,
{
    match s.kind {
        StatementKind::EmptyStatement => true,
        StatementKind::Print { value } => expr_supported(value),
        StatementKind::Definition { value, .. } => expr_supported(value),
        StatementKind::Assignment { target, value } => expr_supported(value) && (match target.kind {
            AssignableKind::Read(_) => true,
            AssignableKind::Call(callee, args) => assignable_supported(*callee)
                && exprs_supported(args@),
            AssignableKind::Access(_, _) => false,
            AssignableKind::Index(a1, b1) => assignable_supported(*a1) && expr_supported(*b1),
        }),
        StatementKind::StatementExpression { value } => expr_supported(value),
        StatementKind::Use { .. } => true,
        StatementKind::Block(_) => false,
    }
}

/// Whether the code generator supports every statement in the list.
pub open spec fn stmts_supported(ss: Seq<Statement>) -> bool
    decreases ss,
{
    ss.len() == 0 || (stmt_supported(ss.last()) && stmts_supported(ss.drop_last()))
}

/// What a read of a global name emits: its `ReadGlobal`, or nothing
/// when the name does not resolve to a slot (that is a compile error).
pub open spec fn emit_read(ns: Seq<(Seq<char>, Name)>, name: Seq<char>, line: usize) -> Seq<
    EmitItem,
> {
    match ns_lookup(ns, name) {
        Option::Some(Name::Slot(s)) => seq![EmitItem::Op(Op::ReadGlobal(s), line)],
        _ => Seq::empty(),
    }
}

/// What an assignment to a global name emits.
pub open spec fn emit_set(ns: Seq<(Seq<char>, Name)>, name: Seq<char>, line: usize) -> Seq<
    EmitItem,
> {
    match ns_lookup(ns, name) {
        Option::Some(Name::Slot(s)) => seq![EmitItem::Op(Op::AssignGlobal(s), line)],
        _ => Seq::empty(),
    }
}

/// Whether a name resolves to a global slot.
pub open spec fn name_ok(ns: Seq<(Seq<char>, Name)>, name: Seq<char>) -> bool {
    ns_lookup(ns, name) matches Option::Some(Name::Slot(_))
}

/// What one assignable emits.
pub open spec fn emit_assignable(ns: Seq<(Seq<char>, Name)>, a: Assignable) -> Seq<EmitItem>
    decreases a,
{
    match a.kind {
        AssignableKind::Read(ident) => emit_read(ns, ident.name@, a.span.line),
        AssignableKind::Call(callee, args) => emit_assignable(ns, *callee) + emit_exprs(ns, args@)
            + seq![EmitItem::Op(Op::Call(args@.len() as usize), a.span.line)],
        AssignableKind::Access(a1, b1) => emit_assignable(ns, *a1) + emit_assignable(ns, *b1),
        AssignableKind::Index(a1, b1) => emit_assignable(ns, *a1) + emit_expr(ns, *b1)
            + seq![EmitItem::Op(Op::GetIndex, a.span.line)],
    }
}

/// What one expression emits: operands left to right, then the
/// operation. Several comparisons are synthesized from the opposite
/// primitive plus `Not` — the same logical-not opcode that boolean
/// negation lowers to.
pub open spec fn emit_expr(ns: Seq<(Seq<char>, Name)>, e: Expression) -> Seq<EmitItem>
    decreases e,
{
    let line = e.span.line;
    match e.kind {
        ExpressionKind::Get(a) => emit_assignable(ns, a),
        ExpressionKind::Add(a, b) => emit_expr(ns, *a) + emit_expr(ns, *b) + seq![EmitItem::Op(Op::Add, line)],
        ExpressionKind::Sub(a, b) => emit_expr(ns, *a) + emit_expr(ns, *b) + seq![EmitItem::Op(Op::Sub, line)],
        ExpressionKind::Mul(a, b) => emit_expr(ns, *a) + emit_expr(ns, *b) + seq![EmitItem::Op(Op::Mul, line)],
        ExpressionKind::Div(a, b) => emit_expr(ns, *a) + emit_expr(ns, *b) + seq![EmitItem::Op(Op::Div, line)],
        ExpressionKind::Eq(a, b) => emit_expr(ns, *a) + emit_expr(ns, *b) + seq![EmitItem::Op(Op::Equal, line)],
        ExpressionKind::Neq(a, b) => emit_expr(ns, *a) + emit_expr(ns, *b) + seq![EmitItem::Op(Op::Equal, line), EmitItem::Op(Op::Not, line)],
        ExpressionKind::Gt(a, b) => emit_expr(ns, *a) + emit_expr(ns, *b) + seq![EmitItem::Op(Op::Greater, line)],
        ExpressionKind::Gteq(a, b) => emit_expr(ns, *a) + emit_expr(ns, *b) + seq![EmitItem::Op(Op::Less, line), EmitItem::Op(Op::Not, line)],
        ExpressionKind::Lt(a, b) => emit_expr(ns, *a) + emit_expr(ns, *b) + seq![EmitItem::Op(Op::Less, line)],
        ExpressionKind::Lteq(a, b) => emit_expr(ns, *a) + emit_expr(ns, *b) + seq![EmitItem::Op(Op::Greater, line), EmitItem::Op(Op::Not, line)],
        ExpressionKind::AssertEq(a, b) => emit_expr(ns, *a) + emit_expr(ns, *b) + seq![EmitItem::Op(Op::Equal, line), EmitItem::Op(Op::Assert, line)],
        ExpressionKind::In(a, b) => emit_expr(ns, *a) + emit_expr(ns, *b) + seq![EmitItem::Op(Op::Contains, line)],
        ExpressionKind::And(a, b) => emit_expr(ns, *a) + emit_expr(ns, *b) + seq![EmitItem::Op(Op::And, line)],
        ExpressionKind::Or(a, b) => emit_expr(ns, *a) + emit_expr(ns, *b) + seq![EmitItem::Op(Op::Or, line)],
        ExpressionKind::Neg(a) => emit_expr(ns, *a) + seq![EmitItem::Op(Op::Neg, line)],
        ExpressionKind::Not(a) => emit_expr(ns, *a) + seq![EmitItem::Op(Op::Not, line)],
        ExpressionKind::Function { .. } => Seq::empty(),
        ExpressionKind::Instance { .. } => Seq::empty(),
        ExpressionKind::Tuple(xs) => emit_exprs(ns, xs@) + seq![EmitItem::Op(Op::Tuple(xs@.len() as usize), line)],
        ExpressionKind::List(xs) => emit_exprs(ns, xs@) + seq![EmitItem::Op(Op::List(xs@.len() as usize), line)],
        ExpressionKind::SetCol(xs) => emit_exprs(ns, xs@) + seq![EmitItem::Op(Op::SetCol(xs@.len() as usize), line)],
        ExpressionKind::Dict(xs) => emit_exprs(ns, xs@) + seq![EmitItem::Op(Op::Dict(xs@.len() as usize), line)],
        ExpressionKind::Float(f) => seq![EmitItem::Const(ValueV::Float(f), line)],
        ExpressionKind::Int(i) => seq![EmitItem::Const(ValueV::Int(i), line)],
        ExpressionKind::Bool(b) => seq![EmitItem::Const(ValueV::Bool(b), line)],
        ExpressionKind::Str(st) => seq![EmitItem::Const(ValueV::String(st@), line)],
        ExpressionKind::Nil => seq![EmitItem::Const(ValueV::Nil, line)],
    }
}

/// What a list of expressions emits, left to right.
pub open spec fn emit_exprs(ns: Seq<(Seq<char>, Name)>, es: Seq<Expression>) -> Seq<EmitItem>
    decreases es,
{
    if es.len() == 0 {
        Seq::empty()
    } else {
        emit_exprs(ns, es.drop_last()) + emit_expr(ns, es.last())
    }
}

/// What one statement emits. A definition or an assignment evaluates
/// its value expression exactly once, then stores it; a top-level
/// definition's store goes to the global slot its name resolved to.
pub open spec fn emit_statement(ns: Seq<(Seq<char>, Name)>, s: Statement) -> Seq<EmitItem>
    decreases s,
{
    let line = s.span.line;
    match s.kind {
        StatementKind::EmptyStatement => Seq::empty(),
        StatementKind::Print { value } => emit_expr(ns, value) + seq![EmitItem::Op(Op::Print, line)],
        StatementKind::Definition { ident, value, .. } => emit_expr(ns, value) + emit_set(
            ns,
            ident.name@,
            line,
        ),
        StatementKind::Assignment { target, value } => match target.kind {
            AssignableKind::Read(ident) => emit_expr(ns, value) + emit_set(ns, ident.name@, line),
            AssignableKind::Call(_, _) => emit_expr(ns, value),
            AssignableKind::Access(_, _) => Seq::empty(),
            AssignableKind::Index(a1, b1) => emit_assignable(ns, *a1) + emit_expr(ns, *b1)
                + emit_expr(ns, value) + seq![EmitItem::Op(Op::AssignIndex, line)],
        },
        StatementKind::StatementExpression { value } => emit_expr(ns, value),
        StatementKind::Use { .. } => Seq::empty(),
        StatementKind::Block(_) => Seq::empty(),
    }
}

/// What a list of statements emits, in order.
pub open spec fn emit_statements(ns: Seq<(Seq<char>, Name)>, ss: Seq<Statement>) -> Seq<EmitItem>
    decreases ss,
{
    if ss.len() == 0 {
        Seq::empty()
    } else {
        emit_statements(ns, ss.drop_last()) + emit_statement(ns, ss.last())
    }
}

/// Whether generating code for this assignable raises no compile error.
pub open spec fn assignable_ok(ns: Seq<(Seq<char>, Name)>, a: Assignable) -> bool
    decreases a,
{
    match a.kind {
        AssignableKind::Read(ident) => name_ok(ns, ident.name@),
        AssignableKind::Call(callee, args) => assignable_ok(ns, *callee) && exprs_ok(ns, args@),
        AssignableKind::Access(a1, b1) => assignable_ok(ns, *a1) && assignable_ok(ns, *b1),
        AssignableKind::Index(a1, b1) => assignable_ok(ns, *a1) && expr_ok(ns, *b1),
    }
}

/// Whether generating code for this expression raises no compile error.
pub open spec fn expr_ok(ns: Seq<(Seq<char>, Name)>, e: Expression) -> bool
    decreases e,
{
    match e.kind {
        ExpressionKind::Get(a) => assignable_ok(ns, a),
        ExpressionKind::Add(a, b) => expr_ok(ns, *a) && expr_ok(ns, *b),
        ExpressionKind::Sub(a, b) => expr_ok(ns, *a) && expr_ok(ns, *b),
        ExpressionKind::Mul(a, b) => expr_ok(ns, *a) && expr_ok(ns, *b),
        ExpressionKind::Div(a, b) => expr_ok(ns, *a) && expr_ok(ns, *b),
        ExpressionKind::Eq(a, b) => expr_ok(ns, *a) && expr_ok(ns, *b),
        ExpressionKind::Neq(a, b) => expr_ok(ns, *a) && expr_ok(ns, *b),
        ExpressionKind::Gt(a, b) => expr_ok(ns, *a) && expr_ok(ns, *b),
        ExpressionKind::Gteq(a, b) => expr_ok(ns, *a) && expr_ok(ns, *b),
        ExpressionKind::Lt(a, b) => expr_ok(ns, *a) && expr_ok(ns, *b),
        ExpressionKind::Lteq(a, b) => expr_ok(ns, *a) && expr_ok(ns, *b),
        ExpressionKind::AssertEq(a, b) => expr_ok(ns, *a) && expr_ok(ns, *b),
        ExpressionKind::In(a, b) => expr_ok(ns, *a) && expr_ok(ns, *b),
        ExpressionKind::And(a, b) => expr_ok(ns, *a) && expr_ok(ns, *b),
        ExpressionKind::Or(a, b) => expr_ok(ns, *a) && expr_ok(ns, *b),
        ExpressionKind::Neg(a) => expr_ok(ns, *a),
        ExpressionKind::Not(a) => expr_ok(ns, *a),
        ExpressionKind::Function { .. } => true,
        ExpressionKind::Instance { .. } => true,
        ExpressionKind::Tuple(xs) => exprs_ok(ns, xs@),
        ExpressionKind::List(xs) => exprs_ok(ns, xs@),
        ExpressionKind::SetCol(xs) => exprs_ok(ns, xs@),
        ExpressionKind::Dict(xs) => exprs_ok(ns, xs@),
        ExpressionKind::Float(_) => true,
        ExpressionKind::Int(_) => true,
        ExpressionKind::Bool(_) => true,
        ExpressionKind::Str(_) => true,
        ExpressionKind::Nil => true,
    }
}

/// Whether generating code for every expression raises no compile error.
pub open spec fn exprs_ok(ns: Seq<(Seq<char>, Name)>, es: Seq<Expression>) -> bool
    decreases es,
{
    es.len() == 0 || (expr_ok(ns, es.last()) && exprs_ok(ns, es.drop_last()))
}

/// Whether generating code for this statement raises no compile error.
/// Assigning to the result of a call is always a compile error.
pub open spec fn stmt_ok(ns: Seq<(Seq<char>, Name)>, s: Statement) -> bool
    decreases s,
{
    match s.kind {
        StatementKind::EmptyStatement => true,
        StatementKind::Print { value } => expr_ok(ns, value),
        StatementKind::Definition { ident, value, .. } => expr_ok(ns, value) && name_ok(
            ns,
            ident.name@,
        ),
        StatementKind::Assignment { target, value } => expr_ok(ns, value) && (match target.kind {
            AssignableKind::Read(ident) => name_ok(ns, ident.name@),
            AssignableKind::Call(_, _) => false,
            AssignableKind::Access(_, _) => true,
            AssignableKind::Index(a1, b1) => assignable_ok(ns, *a1) && expr_ok(ns, *b1),
        }),
        StatementKind::StatementExpression { value } => expr_ok(ns, value),
        StatementKind::Use { .. } => true,
        StatementKind::Block(_) => true,
    }
}

/// Whether generating code for every statement raises no compile error.
pub open spec fn stmts_ok(ns: Seq<(Seq<char>, Name)>, ss: Seq<Statement>) -> bool
    decreases ss,
{
    ss.len() == 0 || (stmt_ok(ns, ss.last()) && stmts_ok(ns, ss.drop_last()))
}

// ---------------------------------------------------------------------------
// The compiler state
// ---------------------------------------------------------------------------

/// The compiler: the blocks built so far, the per-module namespaces,
/// the sticky error state, and the interned constant pool.
pub struct Compiler {
    pub blocks: Vec<Block>,
    pub path_to_namespace_id: Vec<(String, usize)>,
    pub namespaces: Vec<Vec<(String, Name)>>,
    pub panic: bool,
    pub errors: Vec<Error>,
    pub strings: Vec<String>,
    pub constants: Vec<Value>,
}

/// The views of all namespaces.
pub open spec fn view_nss(nss: Seq<Vec<(String, Name)>>) -> Seq<Seq<(Seq<char>, Name)>> {
    Seq::new(nss.len(), |i: int| view_ns(nss[i]@))
}

/// The view of the module table.
pub open spec fn view_paths(ps: Seq<(String, usize)>) -> Seq<(Seq<char>, usize)> {
    Seq::new(ps.len(), |i: int| (ps[i].0@, ps[i].1))
}

/// The views of the string table.
pub open spec fn view_strings(ss: Seq<String>) -> Seq<Seq<char>> {
    Seq::new(ss.len(), |i: int| ss[i]@)
}

impl Compiler {
    /// The view of the constant pool.
    pub open spec fn pool(self) -> Seq<ValueV> {
        view_values(self.constants@)
    }

    /// The view of the entry module's namespace: the only namespace
    /// that code generation resolves names in.
    pub open spec fn ns0(self) -> Seq<(Seq<char>, Name)> {
        view_ns(self.namespaces@[0]@)
    }

    /// A well-formed compiler: at least one block, every block
    /// well-formed, the pool interned, and at least one namespace once
    /// code generation starts.
    pub open spec fn wf(self) -> bool {
        &&& self.blocks@.len() > 0
        &&& forall|i: int| 0 <= i < self.blocks@.len() ==> block_wf(#[trigger] self.blocks@[i])
        &&& pool_interned(self.pool())
        &&& self.namespaces@.len() > 0
    }

    /// A fresh compiler, before any blocks or namespaces exist.
    pub fn new() -> (c: Compiler)
        ensures
            c.blocks@.len() == 0,
            c.path_to_namespace_id@.len() == 0,
            c.namespaces@.len() == 0,
            !c.panic,
            c.errors@.len() == 0,
            c.strings@.len() == 0,
            c.constants@.len() == 0,
    {
        Compiler {
            blocks: Vec::new(),
            path_to_namespace_id: Vec::new(),
            namespaces: Vec::new(),
            panic: false,
            errors: Vec::new(),
            strings: Vec::new(),
            constants: Vec::new(),
        }
    }

    /// The file of the block being compiled.
    pub fn current_file(&self) -> (r: &String)
        requires
            self.blocks@.len() > 0,
        ensures
            r == self.blocks@.last().file,
    {
        &self.blocks[self.blocks.len() - 1].file
    }
}

/// How one code-generation step relates the compiler before (`c0`) and
/// after (`c1`): it touches only the last block, appending opcodes that
/// materialize `items`; it may grow the constant pool but never move an
/// interned constant; and it observes the sticky error policy — with
/// `ok`, nothing is recorded; without it, exactly one compile error is
/// recorded unless one was recorded before, in which case nothing is.
pub open spec fn emits(c0: Compiler, c1: Compiler, items: Seq<EmitItem>, ok: bool) -> bool {
    &&& c1.blocks@.len() == c0.blocks@.len()
    &&& forall|i: int| 0 <= i < c0.blocks@.len() - 1 ==> c1.blocks@[i] == c0.blocks@[i]
    &&& c1.blocks@.last().name == c0.blocks@.last().name
    &&& c1.blocks@.last().file == c0.blocks@.last().file
    &&& c0.blocks@.last().ops@.is_prefix_of(c1.blocks@.last().ops@)
    &&& c0.blocks@.last().lines@.is_prefix_of(c1.blocks@.last().lines@)
    &&& ops_match(
        c1.blocks@.last().ops@.skip(c0.blocks@.last().ops@.len() as int),
        c1.blocks@.last().lines@.skip(c0.blocks@.last().lines@.len() as int),
        items,
        c1.pool(),
    )
    &&& c0.pool().is_prefix_of(c1.pool())
    &&& view_nss(c1.namespaces@) == view_nss(c0.namespaces@)
    &&& (c0.namespaces@.len() > 0 ==> c1.ns0() == c0.ns0())
    &&& view_paths(c1.path_to_namespace_id@) == view_paths(c0.path_to_namespace_id@)
    &&& view_strings(c1.strings@) == view_strings(c0.strings@)
    &&& crate::error::view_errors(c0.errors@).is_prefix_of(crate::error::view_errors(c1.errors@))
    &&& (c0.panic ==> c1.panic && crate::error::view_errors(c1.errors@) == crate::error::view_errors(c0.errors@))
    &&& (ok ==> c1.panic == c0.panic && crate::error::view_errors(c1.errors@) == crate::error::view_errors(c0.errors@))
    &&& (!ok ==> c1.panic)
    &&& (!ok && !c0.panic ==> crate::error::view_errors(c1.errors@).len() == crate::error::view_errors(c0.errors@).len() + 1 && (crate::error::view_errors(c1.errors@).last() matches ErrorV::CompileError { file, .. } && file == c0.blocks@.last().file@))
}

/// A step that emits nothing and changes nothing.
pub proof fn lemma_emits_refl(c: Compiler)
    ensures
        emits(c, c, Seq::empty(), true),
{
    assert(c.blocks@.last().ops@.skip(c.blocks@.last().ops@.len() as int) =~= Seq::<Op>::empty());
    assert(c.blocks@.last().lines@.skip(c.blocks@.last().lines@.len() as int) =~= Seq::<
        usize,
    >::empty());
    assert(ops_match(Seq::empty(), Seq::empty(), Seq::empty(), c.pool()));
}

/// Code-generation steps compose: what the two steps emit is the
/// concatenation, and it succeeds iff both do.
pub proof fn lemma_emits_trans(
    c0: Compiler,
    c1: Compiler,
    c2: Compiler,
    items1: Seq<EmitItem>,
    ok1: bool,
    items2: Seq<EmitItem>,
    ok2: bool,
)
    requires
        emits(c0, c1, items1, ok1),
        emits(c1, c2, items2, ok2),
    ensures
        emits(c0, c2, items1 + items2, ok1 && ok2),
{
    if c0.namespaces@.len() > 0 {
        assert(view_nss(c1.namespaces@).len() == view_nss(c0.namespaces@).len());
        assert(c1.namespaces@.len() > 0);
    }
    let n0 = c0.blocks@.last().ops@.len() as int;
    let n1 = c1.blocks@.last().ops@.len() as int;
    let m0 = c0.blocks@.last().lines@.len() as int;
    let m1 = c1.blocks@.last().lines@.len() as int;
    let seg1 = c1.blocks@.last().ops@.skip(n0);
    let seg2 = c2.blocks@.last().ops@.skip(n1);
    let l1 = c1.blocks@.last().lines@.skip(m0);
    let l2 = c2.blocks@.last().lines@.skip(m1);
    lemma_ops_match_pool_grow(seg1, l1, items1, c1.pool(), c2.pool());
    lemma_ops_match_concat(seg1, l1, items1, seg2, l2, items2, c2.pool());
    assert(c2.blocks@.last().ops@.skip(n0) =~= seg1 + seg2);
    assert(c2.blocks@.last().lines@.skip(m0) =~= l1 + l2);
    assert(c0.blocks@.last().ops@.is_prefix_of(c2.blocks@.last().ops@));
    assert(c0.blocks@.last().lines@.is_prefix_of(c2.blocks@.last().lines@));
    assert(c0.pool().is_prefix_of(c2.pool()));
}

/// Emitted items for a run of plain opcodes at one line.
pub open spec fn items_of_ops(ops: Seq<Op>, line: usize) -> Seq<EmitItem> {
    Seq::new(ops.len(), |i: int| EmitItem::Op(ops[i], line))
}

/// A hashable value equals itself.
pub proof fn lemma_eq_refl(v: ValueV)
    requires
        crate::hash::spec_is_hashable(v),
    ensures
        spec_value_eq(v, v),
    decreases v,
{
    match v {
        ValueV::Tuple(vs) => {
            crate::hash::lemma_all_hashable_pointwise(vs);
            lemma_eq_refl_seq(vs);
        },
        _ => {},
    }
}

/// Sequence form of [`lemma_eq_refl`].
pub proof fn lemma_eq_refl_seq(vs: Seq<ValueV>)
    requires
        crate::hash::spec_all_hashable(vs),
    ensures
        crate::value::spec_values_eq(vs, vs),
    decreases vs,
{
    if vs.len() > 0 {
        lemma_eq_refl(vs.last());
        lemma_eq_refl_seq(vs.drop_last());
    }
}

/// [`exprs_supported`] is element-wise.
pub proof fn lemma_exprs_supported_pointwise(es: Seq<Expression>)
    requires
        exprs_supported(es),
    ensures
        forall|i: int| 0 <= i < es.len() ==> expr_supported(#[trigger] es[i]),
    decreases es.len(),
{
    if es.len() > 0 {
        lemma_exprs_supported_pointwise(es.drop_last());
        assert forall|i: int| 0 <= i < es.len() implies expr_supported(#[trigger] es[i]) by {
            if i < es.len() - 1 {
                assert(es.drop_last()[i] == es[i]);
            }
        }
    }
}

/// [`stmts_supported`] is element-wise.
pub proof fn lemma_stmts_supported_pointwise(ss: Seq<Statement>)
    requires
        stmts_supported(ss),
    ensures
        forall|i: int| 0 <= i < ss.len() ==> stmt_supported(#[trigger] ss[i]),
    decreases ss.len(),
{
    if ss.len() > 0 {
        lemma_stmts_supported_pointwise(ss.drop_last());
        assert forall|i: int| 0 <= i < ss.len() implies stmt_supported(#[trigger] ss[i]) by {
            if i < ss.len() - 1 {
                assert(ss.drop_last()[i] == ss[i]);
            }
        }
    }
}

impl Compiler {
    /// Records a compile error at `line` with `message` — unless one
    /// was recorded before: the panic flag is sticky, so only the first
    /// compile error of a whole compile ever surfaces.
    pub fn error(&mut self, line: usize, message: String)
        requires
            old(self).blocks@.len() > 0,
        ensures
            final(self).blocks == old(self).blocks,
            final(self).path_to_namespace_id == old(self).path_to_namespace_id,
            final(self).namespaces == old(self).namespaces,
            final(self).strings == old(self).strings,
            final(self).constants == old(self).constants,
            final(self).panic,
            old(self).panic ==> final(self).errors == old(self).errors,
            !old(self).panic ==> crate::error::view_errors(final(self).errors@)
                == crate::error::view_errors(old(self).errors@).push(
                ErrorV::CompileError {
                    file: old(self).blocks@.last().file@,
                    line,
                    message: Option::Some(message@),
                },
            ),
    {
        if !self.panic {
            self.panic = true;
            let file = self.current_file().clone();
            let n = self.blocks.len();
            self.errors.push(Error::CompileError { file, line, message: Some(message) });
            proof {
                assert(crate::error::view_errors(self.errors@) =~= crate::error::view_errors(
                    old(self).errors@,
                ).push(
                    ErrorV::CompileError {
                        file: old(self).blocks@.last().file@,
                        line,
                        message: Option::Some(message@),
                    },
                ));
            }
        }
    }

    /// Interns `value` in the constant pool: pushing the same constant
    /// twice yields the same slot.
    pub fn constant(&mut self, value: Value) -> (op: Op)
        requires
            pool_interned(old(self).pool()),
        ensures
            final(self).blocks == old(self).blocks,
            final(self).path_to_namespace_id == old(self).path_to_namespace_id,
            final(self).namespaces == old(self).namespaces,
            final(self).strings == old(self).strings,
            final(self).errors == old(self).errors,
            final(self).panic == old(self).panic,
            pool_interned(final(self).pool()),
            old(self).pool().is_prefix_of(final(self).pool()),
            match find_const(old(self).pool(), value@) {
                Option::Some(j) => final(self).constants == old(self).constants && (op
                    matches Op::Constant(s) && s as int == j),
                Option::None => final(self).pool() == old(self).pool().push(value@) && (op
                    matches Op::Constant(s) && s as int == old(self).constants@.len()),
            },
    {
        proof {
            lemma_view_values(self.constants@);
            lemma_find_const(self.pool(), value@);
        }
        let mut i: usize = 0;
        #[verifier::loop_isolation(false)]
        while i < self.constants.len()
            invariant
                i <= self.constants@.len(),
                forall|j: int| 0 <= j < i ==> !spec_value_eq(#[trigger] self.pool()[j], value@),
            decreases self.constants@.len() - i,
        {
            if crate::value::value_eq(&self.constants[i], &value) {
                proof {
                    assert(self.pool()[i as int] == view_value(self.constants@[i as int]));
                    assert(find_const(self.pool(), value@) matches Option::Some(j) && j
                        == i as int) by {
                        match find_const(self.pool(), value@) {
                            Option::Some(j) => {
                                if j < i as int {
                                    assert(!spec_value_eq(self.pool()[j], value@));
                                } else if j > i as int {
                                    assert(!spec_value_eq(self.pool()[i as int], value@));
                                }
                            },
                            Option::None => {
                                assert(!spec_value_eq(self.pool()[i as int], value@));
                            },
                        }
                    }
                }
                return Op::Constant(i);
            }
            proof {
                assert(self.pool()[i as int] == view_value(self.constants@[i as int]));
            }
            i = i + 1;
        }
        let slot = self.constants.len();
        proof {
            assert(find_const(self.pool(), value@) is None);
        }
        self.constants.push(value);
        proof {
            lemma_view_values(self.constants@);
            lemma_view_values(old(self).constants@);
            assert(self.pool() =~= old(self).pool().push(value@));
        }
        Op::Constant(slot)
    }

    /// Appends one opcode to the block being compiled, annotated with
    /// the line of `span`.
    pub fn add_op(&mut self, span: Span, op: Op) -> (i: usize)
        requires
            old(self).wf(),
        ensures
            final(self).wf(),
            i == old(self).blocks@.last().ops@.len(),
            emits(*old(self), *final(self), seq![EmitItem::Op(op, span.line)], true),
            final(self).path_to_namespace_id == old(self).path_to_namespace_id,
            final(self).namespaces == old(self).namespaces,
            final(self).strings == old(self).strings,
            final(self).errors == old(self).errors,
            final(self).panic == old(self).panic,
            final(self).constants == old(self).constants,
    {
        let n = self.blocks.len() - 1;
        let blk = &mut self.blocks[n];
        let i = blk.add(op, span.line);
        proof {
            assert(self.blocks@.last() == self.blocks@[n as int]);
            assert(self.blocks@.last().ops@.skip(old(self).blocks@.last().ops@.len() as int)
                =~= seq![op]);
            assert(self.blocks@.last().lines@.skip(old(self).blocks@.last().lines@.len() as int)
                =~= seq![span.line]);
            assert(ops_match(
                seq![op],
                seq![span.line],
                seq![EmitItem::Op(op, span.line)],
                self.pool(),
            ));
        }
        i
    }

    /// Declares a variable. Scoped variables are not implemented: every
    /// definition writes to a fixed placeholder slot.
    pub fn define(
        &mut self,
        _name: &String,
        _kind: &crate::ast::VarKind,
        _ty: &crate::ast::Type,
        _span: Span,
    ) -> (slot: usize)
        ensures
            *final(self) == *old(self),
            slot == 0,
    {
        0
    }

    /// Marks a declared variable as in scope. Scoped variables are not
    /// implemented, so there is nothing to mark.
    pub fn activate(&mut self, _slot: usize)
        ensures
            *final(self) == *old(self),
    {
    }

    /// Interns `value` and pushes it: one `Constant` opcode.
    pub fn push(&mut self, value: Value, span: Span)
        requires
            old(self).wf(),
            crate::hash::spec_is_hashable(value@),
        ensures
            final(self).wf(),
            emits(
                *old(self),
                *final(self),
                seq![EmitItem::Const(value@, span.line)],
                true,
            ),
    {
        proof {
            lemma_eq_refl(value@);
            lemma_find_const(self.pool(), value@);
        }
        let ghost v = value@;
        let op = self.constant(value);
        let ghost c1 = *self;
        proof {
            lemma_view_values(old(self).constants@);
            match find_const(old(self).pool(), v) {
                Option::Some(j) => {
                    lemma_find_const_stable(old(self).pool(), c1.pool(), v);
                },
                Option::None => {
                    lemma_find_const(c1.pool(), v);
                    match find_const(c1.pool(), v) {
                        Option::Some(j) => {
                            if j < old(self).pool().len() as int {
                                assert(c1.pool()[j] == old(self).pool()[j]);
                                assert(!spec_value_eq(old(self).pool()[j], v));
                                assert(false);
                            }
                            assert(j == old(self).pool().len() as int);
                        },
                        Option::None => {
                            assert(c1.pool()[old(self).pool().len() as int] == v);
                            assert(spec_value_eq(c1.pool()[old(self).pool().len() as int], v));
                            assert(false);
                        },
                    }
                },
            }
            assert(find_const(c1.pool(), v) matches Option::Some(j) && (op
                matches Op::Constant(s) && s as int == j));
        }
        self.add_op(span, op);
        proof {
            let c2 = *self;
            let seg = c2.blocks@.last().ops@.skip(c1.blocks@.last().ops@.len() as int);
            let lseg = c2.blocks@.last().lines@.skip(c1.blocks@.last().lines@.len() as int);
            assert(seq![EmitItem::Op(op, span.line)][0] == EmitItem::Op(op, span.line));
            assert(seg.len() == 1 && lseg.len() == 1);
            assert(seg[0] == op && lseg[0] == span.line);
            lemma_find_const_stable(c1.pool(), c2.pool(), v);
            assert(seq![EmitItem::Const(v, span.line)][0] == EmitItem::Const(v, span.line));
            assert(ops_match(seg, lseg, seq![EmitItem::Const(v, span.line)], c2.pool()));
            assert(c1.blocks == old(self).blocks);
        }
    }

    /// Emits a read of a global name; an unresolved name is a compile
    /// error.
    pub fn read(&mut self, name: &String, span: Span)
        requires
            old(self).wf(),
        ensures
            final(self).wf(),
            emits(
                *old(self),
                *final(self),
                emit_read(old(self).ns0(), name@, span.line),
                name_ok(old(self).ns0(), name@),
            ),
            (!name_ok(old(self).ns0(), name@) && !old(self).panic) ==> crate::error::view_errors(
                final(self).errors@,
            ) == crate::error::view_errors(old(self).errors@).push(
                ErrorV::CompileError {
                    file: old(self).blocks@.last().file@,
                    line: span.line,
                    message: Option::Some(
                        "No active variable called '"@ + name@ + "'"@,
                    ),
                },
            ),
    {
        let r = lookup_name(&self.namespaces[0], name);
        match r {
            Option::Some(Name::Slot(slot)) => {
                self.add_op(span, Op::ReadGlobal(slot));
            },
            _ => {
                let mut m = "No active variable called '".to_owned();
                m.append(name.as_str());
                m.append("'");
                self.error(span.line, m);
                proof {
                    assert(self.blocks@.last().ops@.skip(
                        old(self).blocks@.last().ops@.len() as int,
                    ) =~= Seq::<Op>::empty());
                    assert(self.blocks@.last().lines@.skip(
                        old(self).blocks@.last().lines@.len() as int,
                    ) =~= Seq::<usize>::empty());
                    assert(ops_match(
                        Seq::empty(),
                        Seq::empty(),
                        Seq::empty(),
                        self.pool(),
                    ));
                }
            },
        }
    }

    /// Emits an assignment to a global name; an unresolved name is a
    /// compile error.
    pub fn set(&mut self, name: &String, span: Span)
        requires
            old(self).wf(),
        ensures
            final(self).wf(),
            emits(
                *old(self),
                *final(self),
                emit_set(old(self).ns0(), name@, span.line),
                name_ok(old(self).ns0(), name@),
            ),
            (!name_ok(old(self).ns0(), name@) && !old(self).panic) ==> crate::error::view_errors(
                final(self).errors@,
            ) == crate::error::view_errors(old(self).errors@).push(
                ErrorV::CompileError {
                    file: old(self).blocks@.last().file@,
                    line: span.line,
                    message: Option::Some(
                        "No active variable called '"@ + name@ + "'"@,
                    ),
                },
            ),
    {
        let r = lookup_name(&self.namespaces[0], name);
        match r {
            Option::Some(Name::Slot(slot)) => {
                self.add_op(span, Op::AssignGlobal(slot));
            },
            _ => {
                let mut m = "No active variable called '".to_owned();
                m.append(name.as_str());
                m.append("'");
                self.error(span.line, m);
                proof {
                    assert(self.blocks@.last().ops@.skip(
                        old(self).blocks@.last().ops@.len() as int,
                    ) =~= Seq::<Op>::empty());
                    assert(self.blocks@.last().lines@.skip(
                        old(self).blocks@.last().lines@.len() as int,
                    ) =~= Seq::<usize>::empty());
                    assert(ops_match(
                        Seq::empty(),
                        Seq::empty(),
                        Seq::empty(),
                        self.pool(),
                    ));
                }
            },
        }
    }
}

impl Compiler {
    /// Emits one operand, then the given opcodes.
    #[verifier::loop_isolation(false)]
    fn un_op(&mut self, a: &Expression, ops: &[Op], span: Span, parent: Ghost<Expression>)
        requires
            old(self).wf(),
            expr_supported(*a),
            decreases_to!(parent@ => *a),
        ensures
            final(self).wf(),
            emits(
                *old(self),
                *final(self),
                emit_expr(old(self).ns0(), *a) + items_of_ops(ops@, span.line),
                expr_ok(old(self).ns0(), *a),
            ),
        decreases parent@, 0int,
    {
        let ghost c0 = *self;
        self.expression(a);
        let ghost c1 = *self;
        let ghost ok_a = expr_ok(c0.ns0(), *a);
        let mut i: usize = 0;
        proof {
            lemma_emits_refl(*self);
            assert(items_of_ops(ops@.subrange(0, 0), span.line) =~= Seq::<EmitItem>::empty());
        }
        while i < ops.len()
            invariant
                i <= ops@.len(),
                self.wf(),
                emits(c1, *self, items_of_ops(ops@.subrange(0, i as int), span.line), true),
            decreases ops@.len() - i,
        {
            let ghost cb = *self;
            self.add_op(span, ops[i]);
            proof {
                lemma_emits_trans(
                    c1,
                    cb,
                    *self,
                    items_of_ops(ops@.subrange(0, i as int), span.line),
                    true,
                    seq![EmitItem::Op(ops@[i as int], span.line)],
                    true,
                );
                assert(items_of_ops(ops@.subrange(0, i + 1), span.line) =~= items_of_ops(
                    ops@.subrange(0, i as int),
                    span.line,
                ) + seq![EmitItem::Op(ops@[i as int], span.line)]);
            }
            i = i + 1;
        }
        proof {
            assert(items_of_ops(ops@.subrange(0, ops@.len() as int), span.line) =~= items_of_ops(
                ops@,
                span.line,
            ));
            lemma_emits_trans(
                c0,
                c1,
                *self,
                emit_expr(c0.ns0(), *a),
                ok_a,
                items_of_ops(ops@, span.line),
                true,
            );
        }
    }

    /// Emits both operands left to right, then the given opcodes.
    #[verifier::loop_isolation(false)]
    fn bin_op(
        &mut self,
        a: &Expression,
        b: &Expression,
        ops: &[Op],
        span: Span,
        parent: Ghost<Expression>,
    )
        requires
            old(self).wf(),
            expr_supported(*a),
            expr_supported(*b),
            decreases_to!(parent@ => *a),
            decreases_to!(parent@ => *b),
        ensures
            final(self).wf(),
            emits(
                *old(self),
                *final(self),
                emit_expr(old(self).ns0(), *a) + emit_expr(old(self).ns0(), *b) + items_of_ops(
                    ops@,
                    span.line,
                ),
                expr_ok(old(self).ns0(), *a) && expr_ok(old(self).ns0(), *b),
            ),
        decreases parent@, 0int,
    {
        let ghost c0 = *self;
        self.expression(a);
        let ghost c1 = *self;
        self.expression(b);
        let ghost c2 = *self;
        let ghost ok_a = expr_ok(c0.ns0(), *a);
        let ghost ok_b = expr_ok(c0.ns0(), *b);
        let mut i: usize = 0;
        proof {
            lemma_emits_refl(*self);
            assert(items_of_ops(ops@.subrange(0, 0), span.line) =~= Seq::<EmitItem>::empty());
        }
        while i < ops.len()
            invariant
                i <= ops@.len(),
                self.wf(),
                emits(c2, *self, items_of_ops(ops@.subrange(0, i as int), span.line), true),
            decreases ops@.len() - i,
        {
            let ghost cb = *self;
            self.add_op(span, ops[i]);
            proof {
                lemma_emits_trans(
                    c2,
                    cb,
                    *self,
                    items_of_ops(ops@.subrange(0, i as int), span.line),
                    true,
                    seq![EmitItem::Op(ops@[i as int], span.line)],
                    true,
                );
                assert(items_of_ops(ops@.subrange(0, i + 1), span.line) =~= items_of_ops(
                    ops@.subrange(0, i as int),
                    span.line,
                ) + seq![EmitItem::Op(ops@[i as int], span.line)]);
            }
            i = i + 1;
        }
        proof {
            assert(items_of_ops(ops@.subrange(0, ops@.len() as int), span.line) =~= items_of_ops(
                ops@,
                span.line,
            ));
            lemma_emits_trans(c0, c1, c2, emit_expr(c0.ns0(), *a), ok_a, emit_expr(c0.ns0(), *b), ok_b);
            lemma_emits_trans(
                c0,
                c2,
                *self,
                emit_expr(c0.ns0(), *a) + emit_expr(c0.ns0(), *b),
                ok_a && ok_b,
                items_of_ops(ops@, span.line),
                true,
            );
        }
    }

    /// Emits the code that evaluates an assignable.
    pub fn assignable(&mut self, ass: &Assignable)
        requires
            old(self).wf(),
            assignable_supported(*ass),
        ensures
            final(self).wf(),
            emits(
                *old(self),
                *final(self),
                emit_assignable(old(self).ns0(), *ass),
                assignable_ok(old(self).ns0(), *ass),
            ),
        decreases *ass, 1int,
    {
        let ghost c0 = *self;
        match &ass.kind {
            AssignableKind::Read(ident) => {
                self.read(&ident.name, ass.span);
            },
            AssignableKind::Call(a, exprs) => {
                proof {
                    assert(decreases_to!(*ass => ass.kind));
                    assert(decreases_to!(ass.kind => **a));
                }
                self.assignable(a);
                let ghost c1 = *self;
                proof {
                    lemma_exprs_supported_pointwise(exprs@);
                }
                let mut i: usize = 0;
                proof {
                    lemma_emits_refl(*self);
                    assert(exprs@.subrange(0, 0) =~= Seq::<Expression>::empty());
                }
                #[verifier::loop_isolation(false)]
                while i < exprs.len()
                    invariant
                        i <= exprs@.len(),
                        self.wf(),
                        emits(
                            c1,
                            *self,
                            emit_exprs(c0.ns0(), exprs@.subrange(0, i as int)),
                            exprs_ok_prefix(c0.ns0(), exprs@, i as int),
                        ),
                    decreases exprs@.len() - i,
                {
                    proof {
                        assert(decreases_to!(*ass => ass.kind));
                        assert(decreases_to!(ass.kind => *exprs));
                        assert(decreases_to!(*exprs => exprs@));
                        assert(decreases_to!(exprs@ => exprs@[i as int]));
                    }
                    let ghost cb = *self;
                    self.expression(&exprs[i]);
                    proof {
                        lemma_emits_trans(
                            c1,
                            cb,
                            *self,
                            emit_exprs(c0.ns0(), exprs@.subrange(0, i as int)),
                            exprs_ok_prefix(c0.ns0(), exprs@, i as int),
                            emit_expr(c0.ns0(), exprs@[i as int]),
                            expr_ok(c0.ns0(), exprs@[i as int]),
                        );
                        assert(exprs@.subrange(0, i + 1).drop_last() =~= exprs@.subrange(
                            0,
                            i as int,
                        ));
                        assert(exprs@.subrange(0, i + 1).last() == exprs@[i as int]);
                    }
                    i = i + 1;
                }
                let ghost c2 = *self;
                let n = exprs.len();
                self.add_op(ass.span, Op::Call(n));
                proof {
                    assert(exprs@.subrange(0, exprs@.len() as int) =~= exprs@);
                    lemma_emits_trans(
                        c1,
                        c2,
                        *self,
                        emit_exprs(c0.ns0(), exprs@),
                        exprs_ok_prefix(c0.ns0(), exprs@, exprs@.len() as int),
                        seq![EmitItem::Op(Op::Call(n), ass.span.line)],
                        true,
                    );
                    lemma_exprs_ok_prefix_full(c0.ns0(), exprs@);
                    lemma_emits_trans(
                        c0,
                        c1,
                        *self,
                        emit_assignable(c0.ns0(), **a),
                        assignable_ok(c0.ns0(), **a),
                        emit_exprs(c0.ns0(), exprs@) + seq![EmitItem::Op(Op::Call(n), ass.span.line)],
                        exprs_ok(c0.ns0(), exprs@),
                    );
                    assert(emit_assignable(c0.ns0(), *ass) =~= emit_assignable(c0.ns0(), **a)
                        + (emit_exprs(c0.ns0(), exprs@) + seq![EmitItem::Op(Op::Call(n), ass.span.line)]));
                }
            },
            AssignableKind::Access(a, b) => {
                proof {
                    assert(decreases_to!(*ass => ass.kind));
                    assert(decreases_to!(ass.kind => **a));
                    assert(decreases_to!(ass.kind => **b));
                }
                self.assignable(a);
                let ghost c1 = *self;
                self.assignable(b);
                proof {
                    lemma_emits_trans(
                        c0,
                        c1,
                        *self,
                        emit_assignable(c0.ns0(), **a),
                        assignable_ok(c0.ns0(), **a),
                        emit_assignable(c0.ns0(), **b),
                        assignable_ok(c0.ns0(), **b),
                    );
                }
            },
            AssignableKind::Index(a, b) => {
                proof {
                    assert(decreases_to!(*ass => ass.kind));
                    assert(decreases_to!(ass.kind => **a));
                    assert(decreases_to!(ass.kind => **b));
                }
                self.assignable(a);
                let ghost c1 = *self;
                self.expression(b);
                let ghost c2 = *self;
                self.add_op(ass.span, Op::GetIndex);
                proof {
                    lemma_emits_trans(
                        c0,
                        c1,
                        c2,
                        emit_assignable(c0.ns0(), **a),
                        assignable_ok(c0.ns0(), **a),
                        emit_expr(c0.ns0(), **b),
                        expr_ok(c0.ns0(), **b),
                    );
                    lemma_emits_trans(
                        c0,
                        c2,
                        *self,
                        emit_assignable(c0.ns0(), **a) + emit_expr(c0.ns0(), **b),
                        assignable_ok(c0.ns0(), **a) && expr_ok(c0.ns0(), **b),
                        seq![EmitItem::Op(Op::GetIndex, ass.span.line)],
                        true,
                    );
                }
            },
        }
    }
}

/// Whether the first `n` expressions all generate without error.
pub open spec fn exprs_ok_prefix(ns: Seq<(Seq<char>, Name)>, es: Seq<Expression>, n: int) -> bool {
    exprs_ok(ns, es.subrange(0, n))
}

/// On the whole list, the prefix form is [`exprs_ok`] itself.
pub proof fn lemma_exprs_ok_prefix_full(ns: Seq<(Seq<char>, Name)>, es: Seq<Expression>)
    ensures
        exprs_ok_prefix(ns, es, es.len() as int) == exprs_ok(ns, es),
{
    assert(es.subrange(0, es.len() as int) =~= es);
}

impl Compiler {
    /// Emits the code that evaluates an expression: operands left to
    /// right, then the operation; composite literals compile their
    /// elements left to right followed by one build opcode carrying the
    /// element count.
    #[verifier::loop_isolation(false)]
    pub fn expression(&mut self, expression: &Expression)
        requires
            old(self).wf(),
            expr_supported(*expression),
        ensures
            final(self).wf(),
            emits(
                *old(self),
                *final(self),
                emit_expr(old(self).ns0(), *expression),
                expr_ok(old(self).ns0(), *expression),
            ),
        decreases *expression, 1int,
    {
        let ghost c0 = *self;
        let ghost ns = c0.ns0();
        let span = expression.span;
        match &expression.kind {
            ExpressionKind::Get(a) => {
                proof {
                    assert(decreases_to!(*expression => expression.kind));
                    assert(decreases_to!(expression.kind => *a));
                }
                self.assignable(a);
            },

            ExpressionKind::Add(a, b) => {
                self.bin_op(a, b, &[Op::Add], span, Ghost(*expression));
                proof {
                    assert(emit_expr(ns, *expression) =~= emit_expr(ns, **a) + emit_expr(ns, **b)
                        + items_of_ops([Op::Add]@, span.line));
                }
            },
            ExpressionKind::Sub(a, b) => {
                self.bin_op(a, b, &[Op::Sub], span, Ghost(*expression));
                proof {
                    assert(emit_expr(ns, *expression) =~= emit_expr(ns, **a) + emit_expr(ns, **b)
                        + items_of_ops([Op::Sub]@, span.line));
                }
            },
            ExpressionKind::Mul(a, b) => {
                self.bin_op(a, b, &[Op::Mul], span, Ghost(*expression));
                proof {
                    assert(emit_expr(ns, *expression) =~= emit_expr(ns, **a) + emit_expr(ns, **b)
                        + items_of_ops([Op::Mul]@, span.line));
                }
            },
            ExpressionKind::Div(a, b) => {
                self.bin_op(a, b, &[Op::Div], span, Ghost(*expression));
                proof {
                    assert(emit_expr(ns, *expression) =~= emit_expr(ns, **a) + emit_expr(ns, **b)
                        + items_of_ops([Op::Div]@, span.line));
                }
            },
            ExpressionKind::Eq(a, b) => {
                self.bin_op(a, b, &[Op::Equal], span, Ghost(*expression));
                proof {
                    assert(emit_expr(ns, *expression) =~= emit_expr(ns, **a) + emit_expr(ns, **b)
                        + items_of_ops([Op::Equal]@, span.line));
                }
            },
            ExpressionKind::Neq(a, b) => {
                self.bin_op(a, b, &[Op::Equal, Op::Not], span, Ghost(*expression));
                proof {
                    assert(emit_expr(ns, *expression) =~= emit_expr(ns, **a) + emit_expr(ns, **b)
                        + items_of_ops([Op::Equal, Op::Not]@, span.line));
                }
            },
            ExpressionKind::Gt(a, b) => {
                self.bin_op(a, b, &[Op::Greater], span, Ghost(*expression));
                proof {
                    assert(emit_expr(ns, *expression) =~= emit_expr(ns, **a) + emit_expr(ns, **b)
                        + items_of_ops([Op::Greater]@, span.line));
                }
            },
            ExpressionKind::Gteq(a, b) => {
                self.bin_op(a, b, &[Op::Less, Op::Not], span, Ghost(*expression));
                proof {
                    assert(emit_expr(ns, *expression) =~= emit_expr(ns, **a) + emit_expr(ns, **b)
                        + items_of_ops([Op::Less, Op::Not]@, span.line));
                }
            },
            ExpressionKind::Lt(a, b) => {
                self.bin_op(a, b, &[Op::Less], span, Ghost(*expression));
                proof {
                    assert(emit_expr(ns, *expression) =~= emit_expr(ns, **a) + emit_expr(ns, **b)
                        + items_of_ops([Op::Less]@, span.line));
                }
            },
            ExpressionKind::Lteq(a, b) => {
                self.bin_op(a, b, &[Op::Greater, Op::Not], span, Ghost(*expression));
                proof {
                    assert(emit_expr(ns, *expression) =~= emit_expr(ns, **a) + emit_expr(ns, **b)
                        + items_of_ops([Op::Greater, Op::Not]@, span.line));
                }
            },
            ExpressionKind::AssertEq(a, b) => {
                self.bin_op(a, b, &[Op::Equal, Op::Assert], span, Ghost(*expression));
                proof {
                    assert(emit_expr(ns, *expression) =~= emit_expr(ns, **a) + emit_expr(ns, **b)
                        + items_of_ops([Op::Equal, Op::Assert]@, span.line));
                }
            },
            ExpressionKind::In(a, b) => {
                self.bin_op(a, b, &[Op::Contains], span, Ghost(*expression));
                proof {
                    assert(emit_expr(ns, *expression) =~= emit_expr(ns, **a) + emit_expr(ns, **b)
                        + items_of_ops([Op::Contains]@, span.line));
                }
            },
            ExpressionKind::And(a, b) => {
                self.bin_op(a, b, &[Op::And], span, Ghost(*expression));
                proof {
                    assert(emit_expr(ns, *expression) =~= emit_expr(ns, **a) + emit_expr(ns, **b)
                        + items_of_ops([Op::And]@, span.line));
                }
            },
            ExpressionKind::Or(a, b) => {
                self.bin_op(a, b, &[Op::Or], span, Ghost(*expression));
                proof {
                    assert(emit_expr(ns, *expression) =~= emit_expr(ns, **a) + emit_expr(ns, **b)
                        + items_of_ops([Op::Or]@, span.line));
                }
            },

            ExpressionKind::Neg(a) => {
                self.un_op(a, &[Op::Neg], span, Ghost(*expression));
                proof {
                    assert(emit_expr(ns, *expression) =~= emit_expr(ns, **a) + items_of_ops(
                        [Op::Neg]@,
                        span.line,
                    ));
                }
            },
            ExpressionKind::Not(a) => {
                self.un_op(a, &[Op::Not], span, Ghost(*expression));
                proof {
                    assert(emit_expr(ns, *expression) =~= emit_expr(ns, **a) + items_of_ops(
                        [Op::Not]@,
                        span.line,
                    ));
                }
            },

            ExpressionKind::Tuple(xs) => {
                let n = self.composite_elements(xs, Ghost(*expression));
                let ghost cmid = *self;
                self.add_op(span, Op::Tuple(n));
                proof {
                    lemma_emits_trans(
                        c0,
                        cmid,
                        *self,
                        emit_exprs(ns, xs@),
                        exprs_ok(ns, xs@),
                        seq![EmitItem::Op(Op::Tuple(n), span.line)],
                        true,
                    );
                    assert(emit_expr(ns, *expression) =~= emit_exprs(ns, xs@)
                        + seq![EmitItem::Op(Op::Tuple(n), span.line)]);
                }
            },
            ExpressionKind::List(xs) => {
                let n = self.composite_elements(xs, Ghost(*expression));
                let ghost cmid = *self;
                self.add_op(span, Op::List(n));
                proof {
                    lemma_emits_trans(
                        c0,
                        cmid,
                        *self,
                        emit_exprs(ns, xs@),
                        exprs_ok(ns, xs@),
                        seq![EmitItem::Op(Op::List(n), span.line)],
                        true,
                    );
                    assert(emit_expr(ns, *expression) =~= emit_exprs(ns, xs@)
                        + seq![EmitItem::Op(Op::List(n), span.line)]);
                }
            },
            ExpressionKind::SetCol(xs) => {
                let n = self.composite_elements(xs, Ghost(*expression));
                let ghost cmid = *self;
                self.add_op(span, Op::SetCol(n));
                proof {
                    lemma_emits_trans(
                        c0,
                        cmid,
                        *self,
                        emit_exprs(ns, xs@),
                        exprs_ok(ns, xs@),
                        seq![EmitItem::Op(Op::SetCol(n), span.line)],
                        true,
                    );
                    assert(emit_expr(ns, *expression) =~= emit_exprs(ns, xs@)
                        + seq![EmitItem::Op(Op::SetCol(n), span.line)]);
                }
            },
            ExpressionKind::Dict(xs) => {
                let n = self.composite_elements(xs, Ghost(*expression));
                let ghost cmid = *self;
                self.add_op(span, Op::Dict(n));
                proof {
                    lemma_emits_trans(
                        c0,
                        cmid,
                        *self,
                        emit_exprs(ns, xs@),
                        exprs_ok(ns, xs@),
                        seq![EmitItem::Op(Op::Dict(n), span.line)],
                        true,
                    );
                    assert(emit_expr(ns, *expression) =~= emit_exprs(ns, xs@)
                        + seq![EmitItem::Op(Op::Dict(n), span.line)]);
                }
            },

            ExpressionKind::Float(a) => {
                self.push(Value::Float(*a), span);
            },
            ExpressionKind::Bool(a) => {
                self.push(Value::Bool(*a), span);
            },
            ExpressionKind::Int(a) => {
                self.push(Value::Int(*a), span);
            },
            ExpressionKind::Str(a) => {
                self.push(Value::String(a.clone()), span);
            },
            ExpressionKind::Nil => {
                self.push(Value::Nil, span);
            },

            ExpressionKind::Function { .. } => unreached(),
            ExpressionKind::Instance { .. } => unreached(),
        }
    }

    /// Emits the elements of a composite literal, left to right, and
    /// hands back how many there were.
    #[verifier::loop_isolation(false)]
    fn composite_elements(&mut self, xs: &Vec<Expression>, parent: Ghost<Expression>) -> (n: usize)
        requires
            old(self).wf(),
            exprs_supported(xs@),
            decreases_to!(parent@ => *xs),
        ensures
            final(self).wf(),
            n == xs@.len(),
            emits(
                *old(self),
                *final(self),
                emit_exprs(old(self).ns0(), xs@),
                exprs_ok(old(self).ns0(), xs@),
            ),
        decreases parent@, 0int,
    {
        let ghost c0 = *self;
        proof {
            lemma_exprs_supported_pointwise(xs@);
        }
        let mut i: usize = 0;
        proof {
            lemma_emits_refl(*self);
            assert(xs@.subrange(0, 0) =~= Seq::<Expression>::empty());
        }
        while i < xs.len()
            invariant
                i <= xs@.len(),
                self.wf(),
                emits(
                    c0,
                    *self,
                    emit_exprs(c0.ns0(), xs@.subrange(0, i as int)),
                    exprs_ok_prefix(c0.ns0(), xs@, i as int),
                ),
            decreases xs@.len() - i,
        {
            proof {
                assert(decreases_to!(*xs => xs@));
                assert(decreases_to!(xs@ => xs@[i as int]));
            }
            let ghost cb = *self;
            self.expression(&xs[i]);
            proof {
                lemma_emits_trans(
                    c0,
                    cb,
                    *self,
                    emit_exprs(c0.ns0(), xs@.subrange(0, i as int)),
                    exprs_ok_prefix(c0.ns0(), xs@, i as int),
                    emit_expr(c0.ns0(), xs@[i as int]),
                    expr_ok(c0.ns0(), xs@[i as int]),
                );
                assert(xs@.subrange(0, i + 1).drop_last() =~= xs@.subrange(0, i as int));
                assert(xs@.subrange(0, i + 1).last() == xs@[i as int]);
            }
            i = i + 1;
        }
        proof {
            assert(xs@.subrange(0, xs@.len() as int) =~= xs@);
            lemma_exprs_ok_prefix_full(c0.ns0(), xs@);
        }
        xs.len()
    }

}

impl Compiler {
    /// Emits the code for one statement.
    pub fn statement(&mut self, statement: &Statement)
        requires
            old(self).wf(),
            stmt_supported(*statement),
        ensures
            final(self).wf(),
            emits(
                *old(self),
                *final(self),
                emit_statement(old(self).ns0(), *statement),
                stmt_ok(old(self).ns0(), *statement),
            ),
            (statement.kind matches StatementKind::Assignment { target, .. } && (
            target.kind matches AssignableKind::Call(_, _)) && !old(self).panic)
                ==> crate::error::view_errors(final(self).errors@).len() == crate::error::view_errors(
                old(self).errors@,
            ).len() + 1 && crate::error::view_errors(final(self).errors@).last() == (
            ErrorV::CompileError {
                file: old(self).blocks@.last().file@,
                line: statement.span.line,
                message: Option::Some("Cannot assign to the result of a call"@),
            }),
        decreases *statement, 1int,
    {
        let ghost c0 = *self;
        let ghost ns = c0.ns0();
        let span = statement.span;
        match &statement.kind {
            StatementKind::EmptyStatement => {
                proof {
                    lemma_emits_refl(*self);
                }
            },

            StatementKind::Print { value } => {
                proof {
                    assert(decreases_to!(*statement => statement.kind));
                    assert(decreases_to!(statement.kind => *value));
                }
                self.expression(value);
                let ghost c1 = *self;
                self.add_op(span, Op::Print);
                proof {
                    lemma_emits_trans(
                        c0,
                        c1,
                        *self,
                        emit_expr(ns, *value),
                        expr_ok(ns, *value),
                        seq![EmitItem::Op(Op::Print, span.line)],
                        true,
                    );
                }
            },

            StatementKind::Definition { ident, kind, ty, value } => {
                proof {
                    assert(decreases_to!(*statement => statement.kind));
                    assert(decreases_to!(statement.kind => *value));
                }
                // Declaring a slot and activating it are still scoping
                // stubs; the store goes through the global slot the
                // name resolved to in the first pass.
                let slot = self.define(&ident.name, kind, ty, span);
                self.expression(value);
                let ghost c1 = *self;
                self.set(&ident.name, span);
                self.activate(slot);
                proof {
                    lemma_emits_trans(
                        c0,
                        c1,
                        *self,
                        emit_expr(ns, *value),
                        expr_ok(ns, *value),
                        emit_set(ns, ident.name@, span.line),
                        name_ok(ns, ident.name@),
                    );
                }
            },

            StatementKind::Assignment { target, value } => {
                proof {
                    assert(decreases_to!(*statement => statement.kind));
                    assert(decreases_to!(statement.kind => *value));
                    assert(decreases_to!(statement.kind => *target));
                }
                match &target.kind {
                    AssignableKind::Read(ident) => {
                        self.expression(value);
                        let ghost c1 = *self;
                        self.set(&ident.name, span);
                        proof {
                            lemma_emits_trans(
                                c0,
                                c1,
                                *self,
                                emit_expr(ns, *value),
                                expr_ok(ns, *value),
                                emit_set(ns, ident.name@, span.line),
                                name_ok(ns, ident.name@),
                            );
                        }
                    },
                    AssignableKind::Call(_, _) => {
                        self.error(span.line, "Cannot assign to the result of a call".to_owned());
                        let ghost c1 = *self;
                        proof {
                            assert(self.blocks@.last().ops@.skip(
                                c0.blocks@.last().ops@.len() as int,
                            ) =~= Seq::<Op>::empty());
                            assert(self.blocks@.last().lines@.skip(
                                c0.blocks@.last().lines@.len() as int,
                            ) =~= Seq::<usize>::empty());
                            assert(ops_match(Seq::empty(), Seq::empty(), Seq::empty(), c1.pool()));
                            assert(emits(c0, c1, Seq::empty(), false));
                        }
                        self.expression(value);
                        proof {
                            lemma_emits_trans(
                                c0,
                                c1,
                                *self,
                                Seq::empty(),
                                false,
                                emit_expr(ns, *value),
                                expr_ok(ns, *value),
                            );
                            assert(emit_statement(ns, *statement) =~= Seq::<EmitItem>::empty()
                                + emit_expr(ns, *value));
                        }
                    },
                    AssignableKind::Access(_, _) => unreached(),
                    AssignableKind::Index(a1, b1) => {
                        proof {
                            assert(decreases_to!(*target => target.kind));
                            assert(decreases_to!(target.kind => **a1));
                            assert(decreases_to!(target.kind => **b1));
                        }
                        self.assignable(a1);
                        let ghost c1 = *self;
                        self.expression(b1);
                        let ghost c2 = *self;
                        self.expression(value);
                        let ghost c3 = *self;
                        self.add_op(span, Op::AssignIndex);
                        proof {
                            lemma_emits_trans(
                                c0,
                                c1,
                                c2,
                                emit_assignable(ns, **a1),
                                assignable_ok(ns, **a1),
                                emit_expr(ns, **b1),
                                expr_ok(ns, **b1),
                            );
                            lemma_emits_trans(
                                c0,
                                c2,
                                c3,
                                emit_assignable(ns, **a1) + emit_expr(ns, **b1),
                                assignable_ok(ns, **a1) && expr_ok(ns, **b1),
                                emit_expr(ns, *value),
                                expr_ok(ns, *value),
                            );
                            lemma_emits_trans(
                                c0,
                                c3,
                                *self,
                                emit_assignable(ns, **a1) + emit_expr(ns, **b1) + emit_expr(
                                    ns,
                                    *value,
                                ),
                                assignable_ok(ns, **a1) && expr_ok(ns, **b1) && expr_ok(
                                    ns,
                                    *value,
                                ),
                                seq![EmitItem::Op(Op::AssignIndex, span.line)],
                                true,
                            );
                        }
                    },
                }
            },

            StatementKind::StatementExpression { value } => {
                proof {
                    assert(decreases_to!(*statement => statement.kind));
                    assert(decreases_to!(statement.kind => *value));
                }
                self.expression(value);
            },

            StatementKind::Use { .. } => {
                proof {
                    lemma_emits_refl(*self);
                }
            },

            StatementKind::Block(_) => unreached(),
        }
    }

    /// Emits the code for every statement of a module, in order.
    #[verifier::loop_isolation(false)]
    pub fn module(&mut self, module: &Module)
        requires
            old(self).wf(),
            stmts_supported(module.statements@),
        ensures
            final(self).wf(),
            emits(
                *old(self),
                *final(self),
                emit_statements(old(self).ns0(), module.statements@),
                stmts_ok(old(self).ns0(), module.statements@),
            ),
    {
        let ghost c0 = *self;
        let ghost ns = c0.ns0();
        proof {
            lemma_stmts_supported_pointwise(module.statements@);
            lemma_emits_refl(*self);
            assert(module.statements@.subrange(0, 0) =~= Seq::<Statement>::empty());
        }
        let stmts = &module.statements;
        let mut i: usize = 0;
        while i < stmts.len()
            invariant
                i <= stmts@.len(),
                self.wf(),
                emits(
                    c0,
                    *self,
                    emit_statements(ns, stmts@.subrange(0, i as int)),
                    stmts_ok_prefix(ns, stmts@, i as int),
                ),
            decreases stmts@.len() - i,
        {
            let ghost cb = *self;
            self.statement(&stmts[i]);
            proof {
                lemma_emits_trans(
                    c0,
                    cb,
                    *self,
                    emit_statements(ns, stmts@.subrange(0, i as int)),
                    stmts_ok_prefix(ns, stmts@, i as int),
                    emit_statement(ns, stmts@[i as int]),
                    stmt_ok(ns, stmts@[i as int]),
                );
                assert(stmts@.subrange(0, i + 1).drop_last() =~= stmts@.subrange(0, i as int));
                assert(stmts@.subrange(0, i + 1).last() == stmts@[i as int]);
            }
            i = i + 1;
        }
        proof {
            assert(stmts@.subrange(0, stmts@.len() as int) =~= stmts@);
            assert(stmts_ok_prefix(ns, stmts@, stmts@.len() as int) == stmts_ok(ns, stmts@));
        }
    }
}

/// Whether the first `n` statements all generate without error.
pub open spec fn stmts_ok_prefix(ns: Seq<(Seq<char>, Name)>, ss: Seq<Statement>, n: int) -> bool {
    stmts_ok(ns, ss.subrange(0, n))
}

// ---------------------------------------------------------------------------
// Global-name extraction
// ---------------------------------------------------------------------------

/// The position of the last occurrence of `c` in `s`, if any.
pub open spec fn last_pos(s: Seq<char>, c: char) -> Option<int>
    decreases s.len(),
{
    if s.len() == 0 {
        Option::None
    } else if s.last() == c {
        Option::Some(s.len() - 1)
    } else {
        last_pos(s.drop_last(), c)
    }
}

/// What [`last_pos`] means.
pub proof fn lemma_last_pos(s: Seq<char>, c: char)
    ensures
        match last_pos(s, c) {
            Option::Some(i) => 0 <= i < s.len() && s[i] == c && forall|k: int|
                i < k < s.len() ==> s[k] != c,
            Option::None => forall|k: int| 0 <= k < s.len() ==> s[k] != c,
        },
    decreases s.len(),
{
    if s.len() > 0 && s.last() != c {
        lemma_last_pos(s.drop_last(), c);
        assert(forall|k: int| 0 <= k < s.len() - 1 ==> s[k] == s.drop_last()[k]);
    }
}

/// The stem of a file path: the final path component, without its
/// extension.
pub open spec fn spec_file_stem(s: Seq<char>) -> Seq<char> {
    let base = match last_pos(s, '/') {
        Option::Some(i) => s.skip(i + 1),
        Option::None => s,
    };
    match last_pos(base, '.') {
        Option::Some(j) => if j > 0 {
            base.take(j)
        } else {
            base
        },
        Option::None => base,
    }
}

/// The position of the last occurrence of `c`, executably.
#[verifier::loop_isolation(false)]
fn find_last(path: &str, c: char) -> (r: Option<usize>)
    ensures
        match r {
            Option::Some(i) => last_pos(path@, c) == Option::Some(i as int),
            Option::None => last_pos(path@, c) is None,
        },
{
    proof {
        lemma_last_pos(path@, c);
    }
    let n = path.unicode_len();
    let mut i: usize = n;
    while i > 0
        invariant
            i <= n,
            n as nat == path@.len(),
            forall|k: int| i <= k < n ==> path@[k] != c,
        decreases i,
    {
        i = i - 1;
        if path.get_char(i) == c {
            proof {
                match last_pos(path@, c) {
                    Option::Some(j) => {
                        if j < i as int {
                            assert(path@[i as int] != c);
                        }
                        if j > i as int {
                            assert(path@[j] != c);
                        }
                    },
                    Option::None => {
                        assert(path@[i as int] != c);
                    },
                }
            }
            return Some(i);
        }
    }
    None
}

/// The stem of a file path, executably; see [`spec_file_stem`].
pub fn file_stem(path: &str) -> (r: String)
    ensures
        r@ == spec_file_stem(path@),
{
    proof {
        lemma_last_pos(path@, '/');
    }
    let n = path.unicode_len();
    let base: &str = match find_last(path, '/') {
        Option::Some(i) => path.substring_char(i + 1, n),
        Option::None => path,
    };
    proof {
        lemma_last_pos(base@, '.');
    }
    let stem: &str = match find_last(base, '.') {
        Option::Some(j) => if j > 0 {
            base.substring_char(0, j)
        } else {
            base
        },
        Option::None => base,
    };
    proof {
        assert(path@.skip(path@.len() as int) =~= Seq::<char>::empty());
    }
    stem.to_owned()
}

/// The least index of `name` in the module table, if any.
pub open spec fn table_find(t: Seq<(Seq<char>, usize)>, name: Seq<char>) -> Option<int>
    decreases t.len(),
{
    if t.len() == 0 {
        Option::None
    } else if t.first().0 == name {
        Option::Some(0int)
    } else {
        match table_find(t.drop_first(), name) {
            Option::Some(j) => Option::Some(j + 1),
            Option::None => Option::None,
        }
    }
}

/// What [`table_find`] means.
pub proof fn lemma_table_find(t: Seq<(Seq<char>, usize)>, name: Seq<char>)
    ensures
        match table_find(t, name) {
            Option::Some(j) => 0 <= j < t.len() && t[j].0 == name && forall|i: int|
                0 <= i < j ==> (#[trigger] t[i]).0 != name,
            Option::None => forall|i: int| 0 <= i < t.len() ==> (#[trigger] t[i]).0 != name,
        },
    decreases t.len(),
{
    if t.len() > 0 {
        if t.first().0 == name {
            assert(t[0] == t.first());
        } else {
            lemma_table_find(t.drop_first(), name);
            let rest = t.drop_first();
            match table_find(rest, name) {
                Option::Some(j) => {
                    assert(t[j + 1] == rest[j]);
                    assert forall|i: int| 0 <= i < j + 1 implies (#[trigger] t[i]).0 != name by {
                        if i > 0 {
                            assert(t[i] == rest[i - 1]);
                        } else {
                            assert(t[0] == t.first());
                        }
                    }
                },
                Option::None => {
                    assert forall|i: int| 0 <= i < t.len() implies (#[trigger] t[i]).0 != name by {
                        if i > 0 {
                            assert(t[i] == rest[i - 1]);
                        } else {
                            assert(t[0] == t.first());
                        }
                    }
                },
            }
        }
    }
}

/// Looks up a module stem in the module table.
#[verifier::loop_isolation(false)]
pub fn table_lookup(t: &Vec<(String, usize)>, name: &String) -> (r: Option<usize>)
    ensures
        match r {
            Option::Some(s) => (table_find(view_paths(t@), name@) matches Option::Some(j)
                && view_paths(t@)[j].1 == s),
            Option::None => table_find(view_paths(t@), name@) is None,
        },
{
    proof {
        lemma_table_find(view_paths(t@), name@);
    }
    let mut i: usize = 0;
    while i < t.len()
        invariant
            i <= t@.len(),
            forall|j: int| 0 <= j < i ==> (#[trigger] view_paths(t@)[j]).0 != name@,
        decreases t@.len() - i,
    {
        if t[i].0 == *name {
            proof {
                assert(view_paths(t@)[i as int].0 == name@);
                assert(table_find(view_paths(t@), name@) matches Option::Some(j) && j == i as int);
            }
            return Some(t[i].1);
        }
        proof {
            assert(view_paths(t@)[i as int].0 == t@[i as int].0@);
        }
        i = i + 1;
    }
    None
}

/// The state the global-extraction pass folds over: the module table,
/// the per-module namespaces, the number of globals assigned so far,
/// and how many errors were attempted.
pub ghost struct GlobalsState {
    pub table: Seq<(Seq<char>, usize)>,
    pub namespaces: Seq<Seq<(Seq<char>, Name)>>,
    pub globals: int,
    pub errs: int,
}

/// The starting state.
pub open spec fn gs_init() -> GlobalsState {
    GlobalsState { table: Seq::empty(), namespaces: Seq::empty(), globals: 0, errs: 0 }
}

/// Registering one module: a fresh stem gets the next namespace slot;
/// a repeated stem is an error.
pub open spec fn gs_add_module(st: GlobalsState, stem: Seq<char>) -> GlobalsState {
    if table_find(st.table, stem) is Some {
        GlobalsState { errs: st.errs + 1, ..st }
    } else {
        GlobalsState {
            table: st.table.push((stem, st.table.len() as usize)),
            namespaces: st.namespaces.push(Seq::empty()),
            ..st
        }
    }
}

/// The first pass: registering every module stem, in order.
pub open spec fn gs_pass1(st: GlobalsState, stems: Seq<Seq<char>>) -> GlobalsState
    decreases stems.len(),
{
    if stems.len() == 0 {
        st
    } else {
        gs_pass1(gs_add_module(st, stems.first()), stems.drop_first())
    }
}

/// The stems of a program's module paths, in order.
pub open spec fn prog_stems(mods: Seq<(String, Module)>) -> Seq<Seq<char>> {
    Seq::new(mods.len(), |i: int| spec_file_stem(mods[i].0@))
}

/// The namespace slot a stem resolves to in the table.
pub open spec fn slot_of(t: Seq<(Seq<char>, usize)>, stem: Seq<char>) -> int {
    match table_find(t, stem) {
        Option::Some(j) => t[j].1 as int,
        Option::None => 0,
    }
}

/// The next global slot: one past the current count. (The count never
/// comes near the machine limit; the saturation only keeps the
/// arithmetic total.)
pub open spec fn gs_next_global(g: int) -> usize {
    if g < usize::MAX as int {
        (g + 1) as usize
    } else {
        usize::MAX
    }
}

/// One top-level statement of the second pass: a `use` registers an
/// import alias, a definition takes the next global slot (slot `0` is
/// reserved for the entry point's return value), a repeated name is an
/// error; anything else is ignored.
pub open spec fn gs_apply_stmt(st: GlobalsState, slot: int, s: Statement) -> GlobalsState {
    match s.kind {
        StatementKind::Use { file } => {
            if ns_find(st.namespaces[slot], file.name@) is Some {
                GlobalsState { errs: st.errs + 1, ..st }
            } else {
                let other = slot_of(st.table, file.name@);
                GlobalsState {
                    namespaces: st.namespaces.update(
                        slot,
                        st.namespaces[slot].push((file.name@, Name::Namespace(other as usize))),
                    ),
                    ..st
                }
            }
        },
        StatementKind::Definition { ident, .. } => {
            if ns_find(st.namespaces[slot], ident.name@) is Some {
                GlobalsState { errs: st.errs + 1, ..st }
            } else {
                GlobalsState {
                    namespaces: st.namespaces.update(
                        slot,
                        st.namespaces[slot].push(
                            (ident.name@, Name::Slot(gs_next_global(st.globals))),
                        ),
                    ),
                    globals: gs_next_global(st.globals) as int,
                    ..st
                }
            }
        },
        _ => st,
    }
}

/// The second pass over one module's statements, in order.
pub open spec fn gs_apply_stmts(st: GlobalsState, slot: int, ss: Seq<Statement>) -> GlobalsState
    decreases ss.len(),
{
    if ss.len() == 0 {
        st
    } else {
        gs_apply_stmts(gs_apply_stmt(st, slot, ss.first()), slot, ss.drop_first())
    }
}

/// The second pass over every module, in order.
pub open spec fn gs_pass2(st: GlobalsState, mods: Seq<(String, Module)>) -> GlobalsState
    decreases mods.len(),
{
    if mods.len() == 0 {
        st
    } else {
        gs_pass2(
            gs_apply_stmts(
                st,
                slot_of(st.table, spec_file_stem(mods.first().0@)),
                mods.first().1.statements@,
            ),
            mods.drop_first(),
        )
    }
}

/// The whole extraction: both passes from the starting state.
pub open spec fn gs_extract(mods: Seq<(String, Module)>) -> GlobalsState {
    gs_pass2(gs_pass1(gs_init(), prog_stems(mods)), mods)
}

/// Whether every `use` in these statements names a module in the table.
pub open spec fn uses_ok(t: Seq<(Seq<char>, usize)>, ss: Seq<Statement>) -> bool
    decreases ss.len(),
{
    ss.len() == 0 || ((match ss.first().kind {
        StatementKind::Use { file } => table_find(t, file.name@) is Some,
        _ => true,
    }) && uses_ok(t, ss.drop_first()))
}

/// Whether every `use` in the program names a module in the table.
pub open spec fn prog_uses_ok(t: Seq<(Seq<char>, usize)>, mods: Seq<(String, Module)>) -> bool
    decreases mods.len(),
{
    mods.len() == 0 || (uses_ok(t, mods.first().1.statements@) && prog_uses_ok(
        t,
        mods.drop_first(),
    ))
}

/// The sticky-panic error relation between two compiler states, given
/// how many error attempts lie between them.
pub open spec fn sticky(c0: Compiler, c1: Compiler, errs: int) -> bool {
    &&& crate::error::view_errors(c0.errors@).is_prefix_of(crate::error::view_errors(c1.errors@))
    &&& (c0.panic ==> c1.panic && crate::error::view_errors(c1.errors@)
        == crate::error::view_errors(c0.errors@))
    &&& (errs == 0 ==> c1.panic == c0.panic && crate::error::view_errors(c1.errors@)
        == crate::error::view_errors(c0.errors@))
    &&& (errs > 0 ==> c1.panic)
    &&& (errs > 0 && !c0.panic ==> crate::error::view_errors(c1.errors@).len()
        == crate::error::view_errors(c0.errors@).len() + 1 && (crate::error::view_errors(
        c1.errors@,
    ).last() matches ErrorV::CompileError { .. }))
}

/// The sticky relation composes.
pub proof fn lemma_sticky_trans(c0: Compiler, c1: Compiler, c2: Compiler, e1: int, e2: int)
    requires
        sticky(c0, c1, e1),
        sticky(c1, c2, e2),
        e1 >= 0,
        e2 >= 0,
    ensures
        sticky(c0, c2, e1 + e2),
{
}

/// Folding one more stem on the right.
pub proof fn lemma_pass1_snoc(st: GlobalsState, stems: Seq<Seq<char>>, x: Seq<char>)
    ensures
        gs_pass1(st, stems.push(x)) == gs_add_module(gs_pass1(st, stems), x),
    decreases stems.len(),
{
    if stems.len() == 0 {
        assert(stems.push(x)[0] == x);
        assert(stems.push(x).first() == x);
        assert(stems.push(x).drop_first() =~= Seq::<Seq<char>>::empty());
        reveal_with_fuel(gs_pass1, 3);
    } else {
        assert(stems.push(x).first() == stems.first());
        assert(stems.push(x).drop_first() =~= stems.drop_first().push(x));
        lemma_pass1_snoc(gs_add_module(st, stems.first()), stems.drop_first(), x);
    }
}

/// Folding one more statement on the right.
pub proof fn lemma_stmts_snoc(st: GlobalsState, slot: int, ss: Seq<Statement>, x: Statement)
    ensures
        gs_apply_stmts(st, slot, ss.push(x)) == gs_apply_stmt(gs_apply_stmts(st, slot, ss), slot, x),
    decreases ss.len(),
{
    if ss.len() == 0 {
        assert(ss.push(x)[0] == x);
        assert(ss.push(x).first() == x);
        assert(ss.push(x).drop_first() =~= Seq::<Statement>::empty());
        reveal_with_fuel(gs_apply_stmts, 3);
    } else {
        assert(ss.push(x).first() == ss.first());
        assert(ss.push(x).drop_first() =~= ss.drop_first().push(x));
        lemma_stmts_snoc(gs_apply_stmt(st, slot, ss.first()), slot, ss.drop_first(), x);
    }
}

/// Folding one more module on the right.
pub proof fn lemma_pass2_snoc(st: GlobalsState, mods: Seq<(String, Module)>, x: (String, Module))
    ensures
        gs_pass2(st, mods.push(x)) == gs_apply_stmts(
            gs_pass2(st, mods),
            slot_of(gs_pass2(st, mods).table, spec_file_stem(x.0@)),
            x.1.statements@,
        ),
    decreases mods.len(),
{
    if mods.len() == 0 {
        assert(mods.push(x)[0] == x);
        assert(mods.push(x).first() == x);
        assert(mods.push(x).drop_first() =~= Seq::<(String, Module)>::empty());
        reveal_with_fuel(gs_pass2, 3);
        lemma_stmts_preserve_table(st, slot_of(st.table, spec_file_stem(x.0@)), x.1.statements@);
    } else {
        assert(mods.push(x).first() == mods.first());
        assert(mods.push(x).drop_first() =~= mods.drop_first().push(x));
        lemma_pass2_snoc(
            gs_apply_stmts(
                st,
                slot_of(st.table, spec_file_stem(mods.first().0@)),
                mods.first().1.statements@,
            ),
            mods.drop_first(),
            x,
        );
    }
}

/// The second pass never changes the module table, the error count
/// never drops, and the global count never drops.
pub proof fn lemma_stmts_preserve_table(st: GlobalsState, slot: int, ss: Seq<Statement>)
    ensures
        gs_apply_stmts(st, slot, ss).table == st.table,
        gs_apply_stmts(st, slot, ss).errs >= st.errs,
    decreases ss.len(),
{
    if ss.len() > 0 {
        lemma_stmts_preserve_table(gs_apply_stmt(st, slot, ss.first()), slot, ss.drop_first());
    }
}

/// Whole-pass form of [`lemma_stmts_preserve_table`].
pub proof fn lemma_pass2_preserves_table(st: GlobalsState, mods: Seq<(String, Module)>)
    ensures
        gs_pass2(st, mods).table == st.table,
        gs_pass2(st, mods).errs >= st.errs,
    decreases mods.len(),
{
    if mods.len() > 0 {
        lemma_stmts_preserve_table(
            st,
            slot_of(st.table, spec_file_stem(mods.first().0@)),
            mods.first().1.statements@,
        );
        lemma_pass2_preserves_table(
            gs_apply_stmts(
                st,
                slot_of(st.table, spec_file_stem(mods.first().0@)),
                mods.first().1.statements@,
            ),
            mods.drop_first(),
        );
    }
}

/// The first pass only appends to the table, and the error count never
/// drops.
pub proof fn lemma_pass1_table_grows(st: GlobalsState, stems: Seq<Seq<char>>)
    ensures
        st.table.is_prefix_of(gs_pass1(st, stems).table),
        gs_pass1(st, stems).errs >= st.errs,
        gs_pass1(st, stems).globals == st.globals,
    decreases stems.len(),
{
    if stems.len() > 0 {
        lemma_pass1_table_grows(gs_add_module(st, stems.first()), stems.drop_first());
        if !(table_find(st.table, stems.first()) is Some) {
            assert(st.table.is_prefix_of(st.table.push((stems.first(), st.table.len() as usize))));
        }
    }
}

/// Finding a stem survives appending to the table.
pub proof fn lemma_table_find_stable(
    t1: Seq<(Seq<char>, usize)>,
    t2: Seq<(Seq<char>, usize)>,
    name: Seq<char>,
)
    requires
        t1.is_prefix_of(t2),
        table_find(t1, name) is Some,
    ensures
        table_find(t2, name) == table_find(t1, name),
    decreases t1.len(),
{
    if t1.len() > 0 {
        assert(t1.first() == t2.first());
        if t1.first().0 != name {
            assert(t1.drop_first().is_prefix_of(t2.drop_first()));
            lemma_table_find_stable(t1.drop_first(), t2.drop_first(), name);
        }
    }
}

/// Appending an entry to the table: an already-found name keeps its
/// slot; the new name is found at the end.
pub proof fn lemma_table_find_push(
    t: Seq<(Seq<char>, usize)>,
    p: (Seq<char>, usize),
    name: Seq<char>,
)
    ensures
        table_find(t, name) is Some ==> table_find(t.push(p), name) == table_find(t, name),
        table_find(t, name) is None && p.0 == name ==> table_find(t.push(p), name)
            == Option::Some(t.len() as int),
        table_find(t, name) is None && p.0 != name ==> table_find(t.push(p), name) is None,
    decreases t.len(),
{
    if t.len() == 0 {
        assert(t.push(p).first() == p);
        assert(t.push(p).drop_first() =~= Seq::<(Seq<char>, usize)>::empty());
    } else {
        assert(t.push(p).first() == t.first());
        assert(t.push(p).drop_first() =~= t.drop_first().push(p));
        lemma_table_find_push(t.drop_first(), p, name);
    }
}

/// After the first pass, every registered stem is found in the table.
pub proof fn lemma_pass1_finds(st: GlobalsState, stems: Seq<Seq<char>>)
    ensures
        forall|k: int|
            0 <= k < stems.len() ==> table_find(gs_pass1(st, stems).table, #[trigger] stems[k])
                is Some,
    decreases stems.len(),
{
    if stems.len() > 0 {
        let st1 = gs_add_module(st, stems.first());
        lemma_pass1_finds(st1, stems.drop_first());
        lemma_pass1_table_grows(st1, stems.drop_first());
        assert forall|k: int|
            0 <= k < stems.len() implies table_find(gs_pass1(st, stems).table, #[trigger] stems[k])
            is Some by {
            if k == 0 {
                if table_find(st.table, stems.first()) is Some {
                    lemma_table_find_stable(st.table, st1.table, stems.first());
                    lemma_table_find_stable(st1.table, gs_pass1(st, stems).table, stems.first());
                } else {
                    lemma_table_find_push(
                        st.table,
                        (stems.first(), st.table.len() as usize),
                        stems.first(),
                    );
                    lemma_table_find_stable(st1.table, gs_pass1(st, stems).table, stems.first());
                }
            } else {
                assert(stems.drop_first()[k - 1] == stems[k]);
            }
        }
    }
}

/// [`uses_ok`] is statement-wise.
pub proof fn lemma_uses_ok_pointwise(t: Seq<(Seq<char>, usize)>, ss: Seq<Statement>)
    requires
        uses_ok(t, ss),
    ensures
        forall|j: int|
            0 <= j < ss.len() ==> (match (#[trigger] ss[j]).kind {
                StatementKind::Use { file } => table_find(t, file.name@) is Some,
                _ => true,
            }),
    decreases ss.len(),
{
    if ss.len() > 0 {
        lemma_uses_ok_pointwise(t, ss.drop_first());
        assert forall|j: int|
            0 <= j < ss.len() implies (match (#[trigger] ss[j]).kind {
            StatementKind::Use { file } => table_find(t, file.name@) is Some,
            _ => true,
        }) by {
            if j == 0 {
                assert(ss[0] == ss.first());
            } else {
                assert(ss.drop_first()[j - 1] == ss[j]);
            }
        }
    }
}

/// [`prog_uses_ok`] is module-wise.
pub proof fn lemma_prog_uses_ok_pointwise(t: Seq<(Seq<char>, usize)>, mods: Seq<(String, Module)>)
    requires
        prog_uses_ok(t, mods),
    ensures
        forall|i: int| 0 <= i < mods.len() ==> uses_ok(t, (#[trigger] mods[i]).1.statements@),
    decreases mods.len(),
{
    if mods.len() > 0 {
        lemma_prog_uses_ok_pointwise(t, mods.drop_first());
        assert forall|i: int|
            0 <= i < mods.len() implies uses_ok(t, (#[trigger] mods[i]).1.statements@) by {
            if i == 0 {
                assert(mods[0] == mods.first());
            } else {
                assert(mods.drop_first()[i - 1] == mods[i]);
            }
        }
    }
}

impl Compiler {
    /// The first pass of the compiler: walks every module once to
    /// assign it a namespace, then walks every module's top-level
    /// statements, giving each definition the next global slot (slot
    /// `0` stays reserved for the entry point's return value) and
    /// registering each `use` as an import alias. Duplicate top-level
    /// names — and a module read twice — are compile errors, reported
    /// without aborting the scan. Returns the number of globals.
    #[verifier::loop_isolation(false)]
    #[verifier::rlimit(30)]
    pub fn extract_globals(&mut self, tree: &crate::ast::Prog) -> (globals: usize)
        requires
            old(self).blocks@.len() > 0,
            old(self).namespaces@.len() == 0,
            old(self).path_to_namespace_id@.len() == 0,
            prog_uses_ok(
                gs_pass1(gs_init(), prog_stems(tree.modules@)).table,
                tree.modules@,
            ),
        ensures
            final(self).blocks == old(self).blocks,
            final(self).constants == old(self).constants,
            final(self).strings == old(self).strings,
            view_paths(final(self).path_to_namespace_id@) == gs_extract(tree.modules@).table,
            view_nss(final(self).namespaces@) == gs_extract(tree.modules@).namespaces,
            final(self).namespaces@.len() == final(self).path_to_namespace_id@.len(),
            tree.modules@.len() > 0 ==> final(self).namespaces@.len() > 0,
            globals == gs_extract(tree.modules@).globals,
            gs_extract(tree.modules@).errs >= 0,
            sticky(*old(self), *final(self), gs_extract(tree.modules@).errs),
    {
        let ghost mods = tree.modules@;
        let ghost stems = prog_stems(mods);
        let ghost st0 = gs_init();

        proof {
            assert(view_paths(self.path_to_namespace_id@) =~= st0.table);
            assert(view_nss(self.namespaces@) =~= st0.namespaces);
            assert(stems.subrange(0, 0) =~= Seq::<Seq<char>>::empty());
        }

        // Pass one: register every module.
        let mut i: usize = 0;
        while i < tree.modules.len()
            invariant
                i <= mods.len(),
                self.blocks == old(self).blocks,
                self.constants == old(self).constants,
                self.strings == old(self).strings,
                view_paths(self.path_to_namespace_id@) == gs_pass1(
                    st0,
                    stems.subrange(0, i as int),
                ).table,
                view_nss(self.namespaces@) == gs_pass1(st0, stems.subrange(0, i as int)).namespaces,
                self.namespaces@.len() == self.path_to_namespace_id@.len(),
                forall|k: int|
                    0 <= k < self.path_to_namespace_id@.len() ==> (#[trigger] view_paths(
                        self.path_to_namespace_id@,
                    )[k]).1 == k,
                i > 0 ==> self.namespaces@.len() > 0,
                gs_pass1(st0, stems.subrange(0, i as int)).globals == 0,
                gs_pass1(st0, stems.subrange(0, i as int)).errs >= 0,
                sticky(*old(self), *self, gs_pass1(st0, stems.subrange(0, i as int)).errs),
            decreases mods.len() - i,
        {
            let ghost sti = gs_pass1(st0, stems.subrange(0, i as int));
            let ghost cb = *self;
            let stem = file_stem(tree.modules[i].0.as_str());
            proof {
                assert(stems[i as int] == spec_file_stem(mods[i as int].0@));
            }
            match table_lookup(&self.path_to_namespace_id, &stem) {
                Option::Some(_) => {
                    self.error(0, "Reading a module twice".to_owned());
                    proof {
                        assert(sticky(cb, *self, 1));
                        lemma_sticky_trans(*old(self), cb, *self, sti.errs, 1);
                    }
                },
                Option::None => {
                    let slot = self.path_to_namespace_id.len();
                    self.path_to_namespace_id.push((stem, slot));
                    let empty_ns: Vec<(String, Name)> = Vec::new();
                    let ghost ev = empty_ns@;
                    self.namespaces.push(empty_ns);
                    proof {
                        assert(view_paths(self.path_to_namespace_id@) =~= sti.table.push(
                            (stems[i as int], sti.table.len() as usize),
                        ));
                        assert(view_ns(ev) =~= Seq::<(Seq<char>, Name)>::empty());
                        assert(view_nss(self.namespaces@) =~= sti.namespaces.push(Seq::empty()));
                        lemma_sticky_trans(*old(self), cb, *self, sti.errs, 0);
                    }
                },
            }
            proof {
                lemma_pass1_snoc(st0, stems.subrange(0, i as int), stems[i as int]);
                assert(stems.subrange(0, i + 1) =~= stems.subrange(0, i as int).push(
                    stems[i as int],
                ));
            }
            i = i + 1;
        }
        proof {
            assert(stems.subrange(0, stems.len() as int) =~= stems);
        }
        let ghost st1 = gs_pass1(st0, stems);
        proof {
            lemma_pass1_finds(st0, stems);
            lemma_prog_uses_ok_pointwise(st1.table, mods);
        }

        // Pass two: assign global slots and import aliases.
        let mut globals: usize = 0;
        let mut m: usize = 0;
        while m < tree.modules.len()
            invariant
                m <= mods.len(),
                self.blocks == old(self).blocks,
                self.constants == old(self).constants,
                self.strings == old(self).strings,
                view_paths(self.path_to_namespace_id@) == gs_pass2(
                    st1,
                    mods.subrange(0, m as int),
                ).table,
                view_nss(self.namespaces@) == gs_pass2(st1, mods.subrange(0, m as int)).namespaces,
                view_nss(self.namespaces@).len() == st1.namespaces.len(),
                self.namespaces@.len() == self.path_to_namespace_id@.len(),
                forall|k: int|
                    0 <= k < self.path_to_namespace_id@.len() ==> (#[trigger] view_paths(
                        self.path_to_namespace_id@,
                    )[k]).1 == k,
                mods.len() > 0 ==> self.namespaces@.len() > 0,
                globals == gs_pass2(st1, mods.subrange(0, m as int)).globals,
                gs_pass2(st1, mods.subrange(0, m as int)).errs >= 0,
                sticky(*old(self), *self, gs_pass2(st1, mods.subrange(0, m as int)).errs),
            decreases mods.len() - m,
        {
            let ghost stm = gs_pass2(st1, mods.subrange(0, m as int));
            proof {
                lemma_pass2_preserves_table(st1, mods.subrange(0, m as int));
                assert(mods.subrange(0, m as int) =~= mods.subrange(0, m as int));
            }
            let stem = file_stem(tree.modules[m].0.as_str());
            let slot = match table_lookup(&self.path_to_namespace_id, &stem) {
                Option::Some(s) => s,
                Option::None => {
                    proof {
                        assert(stems[m as int] == spec_file_stem(mods[m as int].0@));
                        assert(table_find(st1.table, stems[m as int]) is Some);
                        assert(false);
                    }
                    0
                },
            };
            proof {
                assert(stems[m as int] == spec_file_stem(mods[m as int].0@));
                assert(slot as int == slot_of(st1.table, spec_file_stem(mods[m as int].0@))) by {
                    lemma_table_find(view_paths(self.path_to_namespace_id@), stem@);
                }
                assert(slot < self.namespaces@.len()) by {
                    lemma_table_find(view_paths(self.path_to_namespace_id@), stem@);
                }
            }
            let stmts = &tree.modules[m].1.statements;
            let ghost ssv = stmts@;
            proof {
                assert(ssv.subrange(0, 0) =~= Seq::<Statement>::empty());
                lemma_uses_ok_pointwise(st1.table, ssv);
            }
            let mut j: usize = 0;
            while j < stmts.len()
                invariant
                    j <= ssv.len(),
                    slot < self.namespaces@.len(),
                    self.blocks == old(self).blocks,
                    self.constants == old(self).constants,
                    self.strings == old(self).strings,
                    view_paths(self.path_to_namespace_id@) == st1.table,
                    view_nss(self.namespaces@) == gs_apply_stmts(
                        stm,
                        slot as int,
                        ssv.subrange(0, j as int),
                    ).namespaces,
                    view_nss(self.namespaces@).len() == st1.namespaces.len(),
                    self.namespaces@.len() == self.path_to_namespace_id@.len(),
                    globals == gs_apply_stmts(stm, slot as int, ssv.subrange(0, j as int)).globals,
                    gs_apply_stmts(stm, slot as int, ssv.subrange(0, j as int)).errs >= 0,
                    gs_apply_stmts(stm, slot as int, ssv.subrange(0, j as int)).table == st1.table,
                    sticky(
                        *old(self),
                        *self,
                        gs_apply_stmts(stm, slot as int, ssv.subrange(0, j as int)).errs,
                    ),
                decreases ssv.len() - j,
            {
                let ghost stj = gs_apply_stmts(stm, slot as int, ssv.subrange(0, j as int));
                let ghost cb = *self;
                match &stmts[j].kind {
                    StatementKind::Use { file } => {
                        match lookup_name(&self.namespaces[slot], &file.name) {
                            Option::Some(_) => {
                                let mut msg =
                                    "A global variable with the name '".to_owned();
                                msg.append(file.name.as_str());
                                msg.append("' already exists");
                                self.error(file.span.line, msg);
                                proof {
                                    assert(sticky(cb, *self, 1));
                                    lemma_sticky_trans(*old(self), cb, *self, stj.errs, 1);
                                }
                            },
                            Option::None => {
                                let other = match table_lookup(
                                    &self.path_to_namespace_id,
                                    &file.name,
                                ) {
                                    Option::Some(o) => o,
                                    Option::None => {
                                        proof {
                                            assert(false);
                                        }
                                        0
                                    },
                                };
                                proof {
                                    lemma_table_find(st1.table, file.name@);
                                }
                                let nsv = &mut self.namespaces[slot];
                                nsv.push((file.name.clone(), Name::Namespace(other)));
                                proof {
                                    assert(view_ns(self.namespaces@[slot as int]@) =~= view_ns(
                                        cb.namespaces@[slot as int]@,
                                    ).push((file.name@, Name::Namespace(other))));
                                    assert(view_nss(self.namespaces@) =~= view_nss(
                                        cb.namespaces@,
                                    ).update(
                                        slot as int,
                                        view_ns(cb.namespaces@[slot as int]@).push(
                                            (file.name@, Name::Namespace(other)),
                                        ),
                                    ));
                                    lemma_sticky_trans(*old(self), cb, *self, stj.errs, 0);
                                }
                            },
                        }
                    },
                    StatementKind::Definition { ident, .. } => {
                        match lookup_name(&self.namespaces[slot], &ident.name) {
                            Option::Some(_) => {
                                let mut msg =
                                    "A global variable with the name '".to_owned();
                                msg.append(ident.name.as_str());
                                msg.append("' already exists");
                                self.error(ident.span.line, msg);
                                proof {
                                    assert(sticky(cb, *self, 1));
                                    lemma_sticky_trans(*old(self), cb, *self, stj.errs, 1);
                                }
                            },
                            Option::None => {
                                let next = if globals < usize::MAX {
                                    globals + 1
                                } else {
                                    globals
                                };
                                let nsv = &mut self.namespaces[slot];
                                nsv.push((ident.name.clone(), Name::Slot(next)));
                                globals = next;
                                proof {
                                    assert(view_ns(self.namespaces@[slot as int]@) =~= view_ns(
                                        cb.namespaces@[slot as int]@,
                                    ).push((ident.name@, Name::Slot(next))));
                                    assert(view_nss(self.namespaces@) =~= view_nss(
                                        cb.namespaces@,
                                    ).update(
                                        slot as int,
                                        view_ns(cb.namespaces@[slot as int]@).push(
                                            (ident.name@, Name::Slot(next)),
                                        ),
                                    ));
                                    lemma_sticky_trans(*old(self), cb, *self, stj.errs, 0);
                                }
                            },
                        }
                    },
                    _ => {},
                }
                proof {
                    lemma_stmts_snoc(stm, slot as int, ssv.subrange(0, j as int), ssv[j as int]);
                    assert(ssv.subrange(0, j + 1) =~= ssv.subrange(0, j as int).push(
                        ssv[j as int],
                    ));
                }
                j = j + 1;
            }
            proof {
                assert(ssv.subrange(0, ssv.len() as int) =~= ssv);
                lemma_pass2_snoc(st1, mods.subrange(0, m as int), mods[m as int]);
                assert(mods.subrange(0, m + 1) =~= mods.subrange(0, m as int).push(
                    mods[m as int],
                ));
            }
            m = m + 1;
        }
        proof {
            assert(mods.subrange(0, mods.len() as int) =~= mods);
        }
        globals
    }
}

/// The constant items that initialize the reserved and global slots:
/// `n` `Nil` constants at line `0`.
pub open spec fn nil_fill(n: int) -> Seq<EmitItem> {
    Seq::new(n as nat, |i: int| EmitItem::Const(ValueV::Nil, 0))
}

/// What a whole compile emits into its single block: `Nil` for the
/// reserved entry slot and for every global slot, the entry module's
/// code, then `Nil` and `Return` as the implicit final return.
pub open spec fn compile_emission(mods: Seq<(String, Module)>) -> Seq<EmitItem> {
    let st = gs_extract(mods);
    let ns = st.namespaces[0];
    let entry = mods[0].1;
    nil_fill(st.globals + 1) + emit_statements(ns, entry.statements@) + seq![
        EmitItem::Const(ValueV::Nil, entry.span.line),
        EmitItem::Op(Op::Return, entry.span.line),
    ]
}

/// Whether a whole compile succeeds: no name clashes in extraction and
/// no errors generating the entry module's code.
pub open spec fn compile_ok(mods: Seq<(String, Module)>) -> bool {
    let st = gs_extract(mods);
    st.errs == 0 && stmts_ok(st.namespaces[0], mods[0].1.statements@)
}

impl Compiler {
    /// Compiles a whole program into one runnable [`Prog`] — or, if
    /// anything went wrong, the compile errors (exactly one surfaces:
    /// the panic flag is sticky).
    ///
    /// The preconditions carve out what the code generator does not
    /// lower yet — function literals, blob instantiations, assignments
    /// to field accesses, nested blocks, non-finite float literals,
    /// and a `use` of an unregistered module. A full compiler would be
    /// total over well-formed programs; on these inputs this one would
    /// otherwise abort, so callers test first.
    ///
    /// The single block holds a `Nil` push for the reserved entry slot
    /// and every global, the entry module's code, and the implicit
    /// final return; the constant pool is interned.
    #[verifier::loop_isolation(false)]
    #[verifier::rlimit(30)]
    pub fn compile(self, tree: crate::ast::Prog) -> (r: Result<Prog, Vec<Error>>)
        requires
            self.blocks@.len() == 0,
            self.namespaces@.len() == 0,
            self.path_to_namespace_id@.len() == 0,
            self.errors@.len() == 0,
            !self.panic,
            self.constants@.len() == 0,
            self.strings@.len() == 0,
            tree.modules@.len() > 0,
            stmts_supported(tree.modules@[0].1.statements@),
            prog_uses_ok(gs_pass1(gs_init(), prog_stems(tree.modules@)).table, tree.modules@),
        ensures
            r is Ok <==> compile_ok(tree.modules@),
            (r matches Result::Ok(prog) ==> {
                &&& prog.blocks@.len() == 1
                &&& block_wf(prog.blocks@[0])
                &&& prog.blocks@[0].name@ == "/preamble/"@
                &&& prog.blocks@[0].file@ == tree.modules@[0].0@
                &&& pool_interned(view_values(prog.constants@))
                &&& ops_match(
                    prog.blocks@[0].ops@,
                    prog.blocks@[0].lines@,
                    compile_emission(tree.modules@),
                    view_values(prog.constants@),
                )
                &&& prog.functions@.len() == 0
                &&& prog.strings@.len() == 0
            }),
            (r matches Result::Err(es) ==> es@.len() == 1 && (es@[0]@
                matches crate::error::ErrorV::CompileError { .. })),
    {
        let mut this = self;
        let ghost mods = tree.modules@;

        // The one block everything compiles into.
        this.blocks.push(Block::new("/preamble/", tree.modules[0].0.as_str()));
        let ghost c_start = this;
        proof {
            assert(view_values(this.constants@) =~= Seq::<ValueV>::empty());
            assert(crate::error::view_errors(this.errors@) =~= Seq::<
                crate::error::ErrorV,
            >::empty());
        }

        let globals = this.extract_globals(&tree);
        let ghost c_ext = this;
        let ghost st = gs_extract(mods);
        proof {
            assert(this.wf());
            assert(this.ns0() == st.namespaces[0]);
        }

        // One Nil for the reserved entry slot, and one for every
        // global slot, so globals live at stack indices 1..=globals.
        let mut k: usize = 0;
        proof {
            lemma_emits_refl(this);
            assert(nil_fill(0) =~= Seq::<EmitItem>::empty());
        }
        this.push(Value::Nil, Span { line: 0 });
        proof {
            lemma_emits_trans(
                c_ext,
                c_ext,
                this,
                nil_fill(0),
                true,
                seq![EmitItem::Const(ValueV::Nil, 0)],
                true,
            );
            assert(nil_fill(1) =~= nil_fill(0) + seq![EmitItem::Const(ValueV::Nil, 0)]);
        }
        while k < globals
            invariant
                k <= globals,
                this.wf(),
                emits(c_ext, this, nil_fill(k + 1), true),
            decreases globals - k,
        {
            let ghost cb = this;
            this.push(Value::Nil, Span { line: 0 });
            proof {
                lemma_emits_trans(
                    c_ext,
                    cb,
                    this,
                    nil_fill(k + 1),
                    true,
                    seq![EmitItem::Const(ValueV::Nil, 0)],
                    true,
                );
                assert(nil_fill(k + 2) =~= nil_fill(k + 1) + seq![
                    EmitItem::Const(ValueV::Nil, 0),
                ]);
            }
            k = k + 1;
        }
        let ghost c_fill = this;

        // The entry module's code.
        this.module(&tree.modules[0].1);
        let ghost c_mod = this;

        // The implicit final return.
        let mspan = tree.modules[0].1.span;
        this.push(Value::Nil, mspan);
        let ghost c_nil = this;
        this.add_op(mspan, Op::Return);
        proof {
            let ns = st.namespaces[0];
            let entry_stmts = tree.modules@[0].1.statements@;
            lemma_emits_trans(
                c_ext,
                c_fill,
                c_mod,
                nil_fill(st.globals + 1),
                true,
                emit_statements(ns, entry_stmts),
                stmts_ok(ns, entry_stmts),
            );
            lemma_emits_trans(
                c_ext,
                c_mod,
                c_nil,
                nil_fill(st.globals + 1) + emit_statements(ns, entry_stmts),
                stmts_ok(ns, entry_stmts),
                seq![EmitItem::Const(ValueV::Nil, mspan.line)],
                true,
            );
            lemma_emits_trans(
                c_ext,
                c_nil,
                this,
                nil_fill(st.globals + 1) + emit_statements(ns, entry_stmts) + seq![
                    EmitItem::Const(ValueV::Nil, mspan.line),
                ],
                stmts_ok(ns, entry_stmts),
                seq![EmitItem::Op(Op::Return, mspan.line)],
                true,
            );
            assert(compile_emission(mods) =~= nil_fill(st.globals + 1) + emit_statements(
                ns,
                entry_stmts,
            ) + seq![EmitItem::Const(ValueV::Nil, mspan.line)] + seq![
                EmitItem::Op(Op::Return, mspan.line),
            ]);
            assert(this.blocks@[0] == this.blocks@.last());
            assert(emits(
                c_ext,
                this,
                compile_emission(mods),
                stmts_ok(ns, entry_stmts),
            ));
            assert(view_strings(this.strings@) == view_strings(c_ext.strings@));
            assert(view_strings(this.strings@).len() == this.strings@.len());
            assert(c_ext.strings@.len() == 0);
            assert(c_ext.blocks@.last().ops@.len() == 0);
            assert(this.blocks@.last().ops@.skip(0) =~= this.blocks@.last().ops@);
            assert(this.blocks@.last().lines@.skip(0) =~= this.blocks@.last().lines@);
        }

        if this.errors.is_empty() {
            proof {
                assert(crate::error::view_errors(this.errors@).len() == 0);
                assert(compile_ok(mods));
                assert(this.blocks@.len() == 1);
                assert(block_wf(this.blocks@[0]));
                assert(this.blocks@[0].name@ == "/preamble/"@);
                assert(this.blocks@[0].file@ == tree.modules@[0].0@);
                assert(pool_interned(view_values(this.constants@)));
                assert(ops_match(
                    this.blocks@[0].ops@,
                    this.blocks@[0].lines@,
                    compile_emission(mods),
                    view_values(this.constants@),
                ));
                assert(this.strings@.len() == 0);
            }
            Ok(
                Prog {
                    blocks: this.blocks,
                    functions: Vec::new(),
                    constants: this.constants,
                    strings: this.strings,
                },
            )
        } else {
            proof {
                assert(crate::error::view_errors(this.errors@).len() > 0);
                assert(!compile_ok(mods));
                assert(crate::error::view_errors(this.errors@).len() == 1);
                assert(this.errors@.len() == 1);
                assert(crate::error::view_errors(this.errors@)[0] == this.errors@[0]@);
            }
            Err(this.errors)
        }
    }
}

/// Compiles a whole program; see [`Compiler::compile`].
pub fn compile(prog: crate::ast::Prog) -> (r: Result<Prog, Vec<Error>>)
    requires
        prog.modules@.len() > 0,
        stmts_supported(prog.modules@[0].1.statements@),
        prog_uses_ok(gs_pass1(gs_init(), prog_stems(prog.modules@)).table, prog.modules@),
    ensures
        r is Ok <==> compile_ok(prog.modules@),
        (r matches Result::Ok(p) ==> {
            &&& p.blocks@.len() == 1
            &&& block_wf(p.blocks@[0])
            &&& pool_interned(view_values(p.constants@))
            &&& ops_match(
                p.blocks@[0].ops@,
                p.blocks@[0].lines@,
                compile_emission(prog.modules@),
                view_values(p.constants@),
            )
        }),
        (r matches Result::Err(es) ==> es@.len() == 1 && (es@[0]@
            matches crate::error::ErrorV::CompileError { .. })),
{
    Compiler::new().compile(prog)
}

/// Structural equality between hashable values is a congruence for
/// comparison against any value: a third value equals one iff it
/// equals the other.
pub proof fn lemma_eq_congruence(p: ValueV, v1: ValueV, v2: ValueV)
    requires
        crate::hash::spec_is_hashable(v1),
        crate::hash::spec_is_hashable(v2),
        spec_value_eq(v1, v2),
    ensures
        spec_value_eq(p, v1) == spec_value_eq(p, v2),
    decreases p, v1,
{
    match p {
        ValueV::Union(xs) => {
            crate::value::lemma_any_member_eq_exists(xs, v1);
            crate::value::lemma_any_member_eq_exists(xs, v2);
            assert forall|i: int| 0 <= i < xs.len() implies spec_value_eq(#[trigger] xs[i], v1)
                == spec_value_eq(xs[i], v2) by {
                lemma_eq_congruence(xs[i], v1, v2);
            }
        },
        ValueV::Tuple(ps) => {
            match (v1, v2) {
                (ValueV::Tuple(x1), ValueV::Tuple(x2)) => {
                    lemma_eq_congruence_seq(ps, x1, x2);
                },
                _ => {},
            }
        },
        _ => {},
    }
}

/// Sequence form of [`lemma_eq_congruence`].
pub proof fn lemma_eq_congruence_seq(ps: Seq<ValueV>, x1: Seq<ValueV>, x2: Seq<ValueV>)
    requires
        crate::hash::spec_all_hashable(x1),
        crate::hash::spec_all_hashable(x2),
        crate::value::spec_values_eq(x1, x2),
    ensures
        crate::value::spec_values_eq(ps, x1) == crate::value::spec_values_eq(ps, x2),
    decreases ps, x1,
{
    if ps.len() > 0 && x1.len() > 0 && ps.len() == x1.len() {
        lemma_eq_congruence(ps.last(), x1.last(), x2.last());
        lemma_eq_congruence_seq(ps.drop_last(), x1.drop_last(), x2.drop_last());
    }
}

/// Interning correctness: two structurally equal (hashable) constants
/// resolve to the same constant-pool slot, whatever the pool holds.
pub proof fn lemma_interning(pool: Seq<ValueV>, v1: ValueV, v2: ValueV)
    requires
        crate::hash::spec_is_hashable(v1),
        crate::hash::spec_is_hashable(v2),
        spec_value_eq(v1, v2),
    ensures
        find_const(pool, v1) == find_const(pool, v2),
    decreases pool.len(),
{
    if pool.len() > 0 {
        lemma_eq_congruence(pool.first(), v1, v2);
        lemma_interning(pool.drop_first(), v1, v2);
    }
}

} // verus!
