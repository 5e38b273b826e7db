//! The runtime value and type model.
//!
//! A [`Value`] is a tagged union over every runtime value. Heap-allocated
//! mutable composites (lists, sets, dicts, instances, upvalue cells) are
//! held by handle into a [`Heap`] arena: cloning such a value clones the
//! handle, not the contents, so several values may alias one backing
//! container and a mutation through one handle is visible through every
//! alias. Tuples and strings are immutable and stored inline.
//!
//! Floating-point constants are modelled by the IEEE-754 bit pattern of
//! the `f64` they denote; the library never computes with floats itself.
//!
//! Contracts speak of values through their mathematical views: [`ValueV`]
//! and [`TypeV`] mirror [`Value`] and [`Type`] with sequences in place of
//! vectors and strings.

use vstd::prelude::*;

verus! {

broadcast use vstd::seq::axiom_seq_index_decreases, vstd::std_specs::vec::axiom_vec_decreases_to_view;

/// The static type of a runtime value. Mirrors the shape of [`Value`].
#[derive(Debug)]
pub enum Type {
    Void,
    Unknown,
    Invalid,
    Int,
    Float,
    Bool,
    String,
    Ty,
    Field(String),
    Blob(usize),
    Instance(usize),
    Tuple(Vec<Type>),
    Union(Vec<Type>),
    List(Box<Type>),
    SetCol(Box<Type>),
    Dict(Box<Type>, Box<Type>),
    Iter(Box<Type>),
    Function(Vec<Type>, Box<Type>),
    ExternFunction(usize),
}

/// A runtime value.
#[derive(Debug)]
pub enum Value {
    /// A field-access token.
    Field(String),
    /// A type as a value.
    Ty(Type),
    /// A blob (record) type id.
    Blob(usize),
    /// An instance of a blob: the blob id and a handle to its shared,
    /// mutable field map.
    Instance(usize, usize),
    /// An immutable fixed-size sequence.
    Tuple(Vec<Value>),
    /// A handle to a shared, mutable list.
    List(usize),
    /// A handle to a shared, mutable set.
    SetCol(usize),
    /// A handle to a shared, mutable dict.
    Dict(usize),
    /// A stateful lazy sequence generator: its element type and a handle
    /// owned by the host; the library never advances it.
    Iter(Type, usize),
    /// A value that may be any one of a fixed set of alternatives.
    Union(Vec<Value>),
    /// The bit pattern of an `f64`.
    Float(u64),
    Int(i64),
    Bool(bool),
    String(String),
    /// A function: its captured upvalue cell handles, its type, and the
    /// index of its compiled block.
    Function(Vec<usize>, Type, usize),
    /// An index into the host-registered extern function table.
    ExternFunction(usize),
    /// Placeholder used only while type checking, never during a real run.
    Unknown,
    Nil,
}

// ---------------------------------------------------------------------------
// Mathematical views
// ---------------------------------------------------------------------------

/// The view of a [`Type`].
pub ghost enum TypeV {
    Void,
    Unknown,
    Invalid,
    Int,
    Float,
    Bool,
    String,
    Ty,
    Field(Seq<char>),
    Blob(usize),
    Instance(usize),
    Tuple(Seq<TypeV>),
    Union(Seq<TypeV>),
    List(Box<TypeV>),
    SetCol(Box<TypeV>),
    Dict(Box<TypeV>, Box<TypeV>),
    Iter(Box<TypeV>),
    Function(Seq<TypeV>, Box<TypeV>),
    ExternFunction(usize),
}

/// The view of a [`Value`].
pub ghost enum ValueV {
    Field(Seq<char>),
    Ty(TypeV),
    Blob(usize),
    Instance(usize, usize),
    Tuple(Seq<ValueV>),
    List(usize),
    SetCol(usize),
    Dict(usize),
    Iter(TypeV, usize),
    Union(Seq<ValueV>),
    Float(u64),
    Int(i64),
    Bool(bool),
    String(Seq<char>),
    Function(Seq<usize>, TypeV, usize),
    ExternFunction(usize),
    Unknown,
    Nil,
}

/// The view of one type.
pub open spec fn view_type(t: Type) -> TypeV
    decreases t,
{
    match t {
        Type::Void => TypeV::Void,
        Type::Unknown => TypeV::Unknown,
        Type::Invalid => TypeV::Invalid,
        Type::Int => TypeV::Int,
        Type::Float => TypeV::Float,
        Type::Bool => TypeV::Bool,
        Type::String => TypeV::String,
        Type::Ty => TypeV::Ty,
        Type::Field(s) => TypeV::Field(s@),
        Type::Blob(b) => TypeV::Blob(b),
        Type::Instance(b) => TypeV::Instance(b),
        Type::Tuple(ts) => TypeV::Tuple(view_types(ts@)),
        Type::Union(ts) => TypeV::Union(view_types(ts@)),
        Type::List(t) => TypeV::List(Box::new(view_type(*t))),
        Type::SetCol(t) => TypeV::SetCol(Box::new(view_type(*t))),
        Type::Dict(k, v) => TypeV::Dict(Box::new(view_type(*k)), Box::new(view_type(*v))),
        Type::Iter(t) => TypeV::Iter(Box::new(view_type(*t))),
        Type::Function(args, ret) => TypeV::Function(view_types(args@), Box::new(view_type(*ret))),
        Type::ExternFunction(x) => TypeV::ExternFunction(x),
    }
}

/// The views of a sequence of types, in order.
pub open spec fn view_types(s: Seq<Type>) -> Seq<TypeV>
    decreases s,
{
    if s.len() == 0 {
        Seq::empty()
    } else {
        view_types(s.drop_last()).push(view_type(s.last()))
    }
}

/// [`view_types`] maps the sequence pointwise.
pub proof fn lemma_view_types(s: Seq<Type>)
    ensures
        view_types(s).len() == s.len(),
        forall|i: int| 0 <= i < s.len() ==> view_types(s)[i] == view_type(s[i]),
    decreases s.len(),
{
    if s.len() > 0 {
        lemma_view_types(s.drop_last());
    }
}

impl View for Type {
    type V = TypeV;

    open spec fn view(&self) -> TypeV {
        view_type(*self)
    }
}

/// The view of one value.
pub open spec fn view_value(v: Value) -> ValueV
    decreases v,
{
    match v {
        Value::Field(s) => ValueV::Field(s@),
        Value::Ty(t) => ValueV::Ty(view_type(t)),
        Value::Blob(b) => ValueV::Blob(b),
        Value::Instance(b, h) => ValueV::Instance(b, h),
        Value::Tuple(vs) => ValueV::Tuple(view_values(vs@)),
        Value::List(h) => ValueV::List(h),
        Value::SetCol(h) => ValueV::SetCol(h),
        Value::Dict(h) => ValueV::Dict(h),
        Value::Iter(t, h) => ValueV::Iter(view_type(t), h),
        Value::Union(vs) => ValueV::Union(view_values(vs@)),
        Value::Float(bits) => ValueV::Float(bits),
        Value::Int(i) => ValueV::Int(i),
        Value::Bool(b) => ValueV::Bool(b),
        Value::String(s) => ValueV::String(s@),
        Value::Function(ups, t, block) => ValueV::Function(ups@, view_type(t), block),
        Value::ExternFunction(x) => ValueV::ExternFunction(x),
        Value::Unknown => ValueV::Unknown,
        Value::Nil => ValueV::Nil,
    }
}

/// The views of a sequence of values, in order.
pub open spec fn view_values(s: Seq<Value>) -> Seq<ValueV>
    decreases s,
{
    if s.len() == 0 {
        Seq::empty()
    } else {
        view_values(s.drop_last()).push(view_value(s.last()))
    }
}

/// [`view_values`] maps the sequence pointwise.
pub proof fn lemma_view_values(s: Seq<Value>)
    ensures
        view_values(s).len() == s.len(),
        forall|i: int| 0 <= i < s.len() ==> view_values(s)[i] == view_value(s[i]),
    decreases s.len(),
{
    if s.len() > 0 {
        lemma_view_values(s.drop_last());
    }
}

impl View for Value {
    type V = ValueV;

    open spec fn view(&self) -> ValueV {
        view_value(*self)
    }
}

// ---------------------------------------------------------------------------
// Cloning
// ---------------------------------------------------------------------------

/// Clones every type in a vector; the view is unchanged.
#[verifier::loop_isolation(false)]
pub(crate) fn clone_types(xs: &Vec<Type>) -> (r: Vec<Type>)
    ensures
        view_types(r@) == view_types(xs@),
    decreases *xs,
{
    let mut out: Vec<Type> = Vec::new();
    let mut i: usize = 0;
    while i < xs.len()
        invariant
            i <= xs@.len(),
            out@.len() == i as int,
            forall|j: int| 0 <= j < i ==> view_type(#[trigger] out@[j]) == view_type(xs@[j]),
        decreases xs@.len() - i,
    {
        proof {
            assert(decreases_to!(*xs => xs@));
            assert(decreases_to!(xs@ => xs@[i as int]));
        }
        let c = xs[i].clone();
        out.push(c);
        i = i + 1;
    }
    proof {
        lemma_view_types(out@);
        lemma_view_types(xs@);
        assert(view_types(out@) =~= view_types(xs@));
    }
    out
}

impl Clone for Type {
    /// A deep copy: the clone has the same view.
    fn clone(&self) -> (r: Type)
        ensures
            r@ == self@,
        decreases *self,
    {
        match self {
            Type::Void => Type::Void,
            Type::Unknown => Type::Unknown,
            Type::Invalid => Type::Invalid,
            Type::Int => Type::Int,
            Type::Float => Type::Float,
            Type::Bool => Type::Bool,
            Type::String => Type::String,
            Type::Ty => Type::Ty,
            Type::Field(s) => Type::Field(s.clone()),
            Type::Blob(b) => Type::Blob(*b),
            Type::Instance(b) => Type::Instance(*b),
            Type::Tuple(ts) => Type::Tuple(clone_types(ts)),
            Type::Union(ts) => Type::Union(clone_types(ts)),
            Type::List(t) => Type::List(Box::new((**t).clone())),
            Type::SetCol(t) => Type::SetCol(Box::new((**t).clone())),
            Type::Dict(k, v) => Type::Dict(Box::new((**k).clone()), Box::new((**v).clone())),
            Type::Iter(t) => Type::Iter(Box::new((**t).clone())),
            Type::Function(args, ret) => Type::Function(clone_types(args), Box::new((**ret).clone())),
            Type::ExternFunction(x) => Type::ExternFunction(*x),
        }
    }
}

/// Clones every value in a vector; the view is unchanged.
#[verifier::loop_isolation(false)]
pub(crate) fn clone_values(xs: &Vec<Value>) -> (r: Vec<Value>)
    ensures
        view_values(r@) == view_values(xs@),
    decreases *xs,
{
    let mut out: Vec<Value> = Vec::new();
    let mut i: usize = 0;
    while i < xs.len()
        invariant
            i <= xs@.len(),
            out@.len() == i as int,
            forall|j: int| 0 <= j < i ==> view_value(#[trigger] out@[j]) == view_value(xs@[j]),
        decreases xs@.len() - i,
    {
        proof {
            assert(decreases_to!(*xs => xs@));
            assert(decreases_to!(xs@ => xs@[i as int]));
        }
        let c = xs[i].clone();
        out.push(c);
        i = i + 1;
    }
    proof {
        lemma_view_values(out@);
        lemma_view_values(xs@);
        assert(view_values(out@) =~= view_values(xs@));
    }
    out
}

impl Clone for Value {
    /// A deep copy of the inline parts: the clone has the same view. A
    /// contained handle is copied as a handle, so the clone aliases the
    /// same backing containers.
    fn clone(&self) -> (r: Value)
        ensures
            r@ == self@,
        decreases *self,
    {
        match self {
            Value::Field(s) => Value::Field(s.clone()),
            Value::Ty(t) => Value::Ty(t.clone()),
            Value::Blob(b) => Value::Blob(*b),
            Value::Instance(b, h) => Value::Instance(*b, *h),
            Value::Tuple(vs) => Value::Tuple(clone_values(vs)),
            Value::List(h) => Value::List(*h),
            Value::SetCol(h) => Value::SetCol(*h),
            Value::Dict(h) => Value::Dict(*h),
            Value::Iter(t, h) => Value::Iter(t.clone(), *h),
            Value::Union(vs) => Value::Union(clone_values(vs)),
            Value::Float(bits) => Value::Float(*bits),
            Value::Int(i) => Value::Int(*i),
            Value::Bool(b) => Value::Bool(*b),
            Value::String(s) => Value::String(s.clone()),
            Value::Function(ups, t, block) => Value::Function(ups.clone(), t.clone(), *block),
            Value::ExternFunction(x) => Value::ExternFunction(*x),
            Value::Unknown => Value::Unknown,
            Value::Nil => Value::Nil,
        }
    }
}

// ---------------------------------------------------------------------------
// Floating-point bit patterns
// ---------------------------------------------------------------------------

/// The exponent field of an `f64` bit pattern.
pub open spec fn spec_float_exponent(bits: u64) -> u64 {
    (bits >> 52) & 0x7ff
}

/// Whether the bit pattern denotes a finite `f64` (not an infinity, not a NaN).
pub open spec fn spec_float_is_finite(bits: u64) -> bool {
    spec_float_exponent(bits) != 0x7ff
}

/// Whether the bit pattern denotes a NaN.
pub open spec fn spec_float_is_nan(bits: u64) -> bool {
    spec_float_exponent(bits) == 0x7ff && bits & 0xf_ffff_ffff_ffff != 0
}

/// Whether the bit pattern denotes a zero (positive or negative).
pub open spec fn spec_float_is_zero(bits: u64) -> bool {
    bits & 0x7fff_ffff_ffff_ffff == 0
}

/// Equality of two `f64`s, stated on their bit patterns: NaN equals
/// nothing, the two zeroes are equal, and otherwise equal bits mean equal
/// numbers.
pub open spec fn spec_float_eq(a: u64, b: u64) -> bool {
    !spec_float_is_nan(a) && !spec_float_is_nan(b) && (a == b || (spec_float_is_zero(a)
        && spec_float_is_zero(b)))
}

/// Executable form of [`spec_float_is_finite`].
pub fn float_is_finite(bits: u64) -> (r: bool)
    ensures
        r == spec_float_is_finite(bits),
{
    (bits >> 52) & 0x7ff != 0x7ff
}

/// Executable form of [`spec_float_is_nan`].
pub fn float_is_nan(bits: u64) -> (r: bool)
    ensures
        r == spec_float_is_nan(bits),
{
    (bits >> 52) & 0x7ff == 0x7ff && bits & 0xf_ffff_ffff_ffff != 0
}

/// Executable form of [`spec_float_is_zero`].
pub fn float_is_zero(bits: u64) -> (r: bool)
    ensures
        r == spec_float_is_zero(bits),
{
    bits & 0x7fff_ffff_ffff_ffff == 0
}

/// Executable form of [`spec_float_eq`].
pub fn float_eq(a: u64, b: u64) -> (r: bool)
    ensures
        r == spec_float_eq(a, b),
{
    !float_is_nan(a) && !float_is_nan(b) && (a == b || (float_is_zero(a) && float_is_zero(b)))
}

// ---------------------------------------------------------------------------
// Structural equality
// ---------------------------------------------------------------------------

/// Heap-free equality of two values, stated on their views: the
/// comparison the interner and the hash use.
///
/// Primitives compare pointwise (floats by numeric `f64` equality);
/// tuples element-wise; a union equals another value iff any of its
/// alternatives does; `Nil` equals `Nil`. A shared mutable container
/// (list, set, dict) compares by handle here — aliases are equal — and
/// every hashable value is handle-free, so on anything the interner or
/// a dict key ever holds this agrees with full structural equality.
/// The language-level `==`, which compares container contents through
/// the heap, is [`crate::heap::deep_eq`]. A comparison across
/// mismatched tags is unequal, not an error.
pub open spec fn spec_value_eq(a: ValueV, b: ValueV) -> bool
    decreases a, b,
{
    match (a, b) {
        (ValueV::Float(x), ValueV::Float(y)) => spec_float_eq(x, y),
        (ValueV::Int(x), ValueV::Int(y)) => x == y,
        (ValueV::Bool(x), ValueV::Bool(y)) => x == y,
        (ValueV::String(x), ValueV::String(y)) => x == y,
        (ValueV::Tuple(x), ValueV::Tuple(y)) => spec_values_eq(x, y),
        (ValueV::List(x), ValueV::List(y)) => x == y,
        (ValueV::SetCol(x), ValueV::SetCol(y)) => x == y,
        (ValueV::Dict(x), ValueV::Dict(y)) => x == y,
        (ValueV::Union(x), y) => spec_any_member_eq(x, y),
        (x, ValueV::Union(y)) => spec_eq_any_member(x, y),
        (ValueV::Nil, ValueV::Nil) => true,
        _ => false,
    }
}

/// Element-wise equality of two sequences of values.
pub open spec fn spec_values_eq(x: Seq<ValueV>, y: Seq<ValueV>) -> bool
    decreases x, y,
{
    x.len() == y.len() && (x.len() == 0 || (spec_value_eq(x.last(), y.last()) && spec_values_eq(
        x.drop_last(),
        y.drop_last(),
    )))
}

/// Whether some member of `x` equals `b`.
pub open spec fn spec_any_member_eq(x: Seq<ValueV>, b: ValueV) -> bool
    decreases x, b,
{
    x.len() > 0 && (spec_value_eq(x.last(), b) || spec_any_member_eq(x.drop_last(), b))
}

/// Whether `a` equals some member of `y`.
pub open spec fn spec_eq_any_member(a: ValueV, y: Seq<ValueV>) -> bool
    decreases a, y,
{
    y.len() > 0 && (spec_value_eq(a, y.last()) || spec_eq_any_member(a, y.drop_last()))
}

/// [`spec_values_eq`] is element-wise equality.
pub proof fn lemma_values_eq_pointwise(x: Seq<ValueV>, y: Seq<ValueV>)
    ensures
        spec_values_eq(x, y) <==> (x.len() == y.len() && forall|i: int|
            0 <= i < x.len() ==> spec_value_eq(#[trigger] x[i], y[i])),
    decreases x.len(),
{
    if x.len() > 0 && x.len() == y.len() {
        lemma_values_eq_pointwise(x.drop_last(), y.drop_last());
        if spec_values_eq(x, y) {
            assert forall|i: int| 0 <= i < x.len() implies spec_value_eq(
                #[trigger] x[i],
                y[i],
            ) by {
                if i < x.len() - 1 {
                    assert(x.drop_last()[i] == x[i]);
                    assert(y.drop_last()[i] == y[i]);
                }
            }
        }
        if x.len() == y.len() && (forall|i: int|
            0 <= i < x.len() ==> spec_value_eq(#[trigger] x[i], y[i])) {
            assert forall|i: int| 0 <= i < x.len() - 1 implies spec_value_eq(
                #[trigger] x.drop_last()[i],
                y.drop_last()[i],
            ) by {
                assert(x.drop_last()[i] == x[i]);
                assert(y.drop_last()[i] == y[i]);
            }
        }
    }
}

/// [`spec_any_member_eq`] is an existential over the members.
pub proof fn lemma_any_member_eq_exists(x: Seq<ValueV>, b: ValueV)
    ensures
        spec_any_member_eq(x, b) <==> exists|i: int|
            0 <= i < x.len() && spec_value_eq(#[trigger] x[i], b),
    decreases x.len(),
{
    if x.len() > 0 {
        lemma_any_member_eq_exists(x.drop_last(), b);
        if spec_any_member_eq(x.drop_last(), b) {
            let i = choose|i: int|
                0 <= i < x.drop_last().len() && spec_value_eq(#[trigger] x.drop_last()[i], b);
            assert(x[i] == x.drop_last()[i]);
        }
        if exists|i: int| 0 <= i < x.len() && spec_value_eq(#[trigger] x[i], b) {
            let i = choose|i: int| 0 <= i < x.len() && spec_value_eq(#[trigger] x[i], b);
            if i < x.len() - 1 {
                assert(x.drop_last()[i] == x[i]);
            }
        }
    }
}

/// [`spec_eq_any_member`] is an existential over the members.
pub proof fn lemma_eq_any_member_exists(a: ValueV, y: Seq<ValueV>)
    ensures
        spec_eq_any_member(a, y) <==> exists|i: int|
            0 <= i < y.len() && spec_value_eq(a, #[trigger] y[i]),
    decreases y.len(),
{
    if y.len() > 0 {
        lemma_eq_any_member_exists(a, y.drop_last());
        if spec_eq_any_member(a, y.drop_last()) {
            let i = choose|i: int|
                0 <= i < y.drop_last().len() && spec_value_eq(a, #[trigger] y.drop_last()[i]);
            assert(y[i] == y.drop_last()[i]);
        }
        if exists|i: int| 0 <= i < y.len() && spec_value_eq(a, #[trigger] y[i]) {
            let i = choose|i: int| 0 <= i < y.len() && spec_value_eq(a, #[trigger] y[i]);
            if i < y.len() - 1 {
                assert(y.drop_last()[i] == y[i]);
            }
        }
    }
}

/// Executable form of the heap-free equality; see [`spec_value_eq`].
#[verifier::loop_isolation(false)]
pub fn value_eq(a: &Value, b: &Value) -> (r: bool)
    ensures
        r == spec_value_eq(a@, b@),
    decreases *a, *b,
{
    match (a, b) {
        (Value::Float(x), Value::Float(y)) => float_eq(*x, *y),
        (Value::Int(x), Value::Int(y)) => *x == *y,
        (Value::Bool(x), Value::Bool(y)) => *x == *y,
        (Value::String(x), Value::String(y)) => *x == *y,
        (Value::Tuple(x), Value::Tuple(y)) => {
            proof {
                lemma_view_values(x@);
                lemma_view_values(y@);
                lemma_values_eq_pointwise(view_values(x@), view_values(y@));
            }
            if x.len() != y.len() {
                return false;
            }
            let mut i: usize = 0;
            while i < x.len()
                invariant
                    i <= x@.len(),
                    x@.len() == y@.len(),
                    forall|j: int|
                        0 <= j < i ==> spec_value_eq(
                            #[trigger] view_values(x@)[j],
                            view_values(y@)[j],
                        ),
                decreases x@.len() - i,
            {
                proof {
                    assert(decreases_to!(*a => *x));
                    assert(decreases_to!(*x => x@));
                    assert(decreases_to!(x@ => x@[i as int]));
                    assert(decreases_to!(*b => *y));
                    assert(decreases_to!(*y => y@));
                    assert(decreases_to!(y@ => y@[i as int]));
                }
                if !value_eq(&x[i], &y[i]) {
                    proof {
                        assert(view_values(x@)[i as int] == view_value(x@[i as int]));
                        assert(view_values(y@)[i as int] == view_value(y@[i as int]));
                        assert(!spec_values_eq(view_values(x@), view_values(y@)));
                    }
                    return false;
                }
                i = i + 1;
            }
            true
        },
        (Value::List(x), Value::List(y)) => *x == *y,
        (Value::SetCol(x), Value::SetCol(y)) => *x == *y,
        (Value::Dict(x), Value::Dict(y)) => *x == *y,
        (Value::Union(x), _) => {
            proof {
                lemma_view_values(x@);
                lemma_any_member_eq_exists(view_values(x@), b@);
            }
            let mut i: usize = 0;
            while i < x.len()
                invariant
                    i <= x@.len(),
                    forall|j: int| 0 <= j < i ==> !spec_value_eq(#[trigger] view_values(x@)[j], b@),
                decreases x@.len() - i,
            {
                proof {
                    assert(decreases_to!(*a => *x));
                    assert(decreases_to!(*x => x@));
                    assert(decreases_to!(x@ => x@[i as int]));
                }
                if value_eq(&x[i], b) {
                    proof {
                        assert(view_values(x@)[i as int] == view_value(x@[i as int]));
                        assert(spec_any_member_eq(view_values(x@), b@));
                    }
                    return true;
                }
                i = i + 1;
            }
            false
        },
        (_, Value::Union(y)) => {
            proof {
                lemma_view_values(y@);
                lemma_eq_any_member_exists(a@, view_values(y@));
            }
            let mut i: usize = 0;
            while i < y.len()
                invariant
                    i <= y@.len(),
                    forall|j: int| 0 <= j < i ==> !spec_value_eq(a@, #[trigger] view_values(y@)[j]),
                decreases y@.len() - i,
            {
                proof {
                    assert(decreases_to!(*b => *y));
                    assert(decreases_to!(*y => y@));
                    assert(decreases_to!(y@ => y@[i as int]));
                }
                if value_eq(a, &y[i]) {
                    proof {
                        assert(view_values(y@)[i as int] == view_value(y@[i as int]));
                        assert(spec_eq_any_member(a@, view_values(y@)));
                    }
                    return true;
                }
                i = i + 1;
            }
            false
        },
        (Value::Nil, Value::Nil) => true,
        _ => false,
    }
}

impl Value {
    /// Whether this value is `Nil`.
    pub fn is_nil(&self) -> (r: bool)
        ensures
            r == (self@ matches ValueV::Nil),
    {
        matches!(self, Value::Nil)
    }
}

/// A value unpacked for pattern matching: a tuple's first elements as
/// separate borrows, or the value itself.
#[derive(Clone)]
pub enum MatchableValue<'t> {
    Empty,
    One(&'t Value),
    Two(&'t Value, &'t Value),
    Three(&'t Value, &'t Value, &'t Value),
    Four(&'t Value, &'t Value, &'t Value, &'t Value),
    Five(&'t Value, &'t Value, &'t Value, &'t Value, &'t Value),
}

/// Unpacks a value for matching: a tuple becomes its first (up to
/// five) elements, anything else stands alone.
pub fn make_matchable<'t>(value: &'t Value) -> (m: MatchableValue<'t>)
    ensures
        value@ matches ValueV::Tuple(vs) ==> {
            &&& vs.len() == 0 ==> m is Empty
            &&& vs.len() == 1 ==> (m matches MatchableValue::One(a) && a@ == vs[0])
            &&& vs.len() == 2 ==> (m matches MatchableValue::Two(a, b) && a@ == vs[0] && b@
                == vs[1])
            &&& vs.len() == 3 ==> (m matches MatchableValue::Three(a, b, c) && a@ == vs[0] && b@
                == vs[1] && c@ == vs[2])
            &&& vs.len() == 4 ==> (m matches MatchableValue::Four(a, b, c, d) && a@ == vs[0]
                && b@ == vs[1] && c@ == vs[2] && d@ == vs[3])
            &&& vs.len() >= 5 ==> (m matches MatchableValue::Five(a, b, c, d, e) && a@ == vs[0]
                && b@ == vs[1] && c@ == vs[2] && d@ == vs[3] && e@ == vs[4])
        },
        !(value@ matches ValueV::Tuple(_)) ==> (m matches MatchableValue::One(x) && x@ == value@),
{
    match value {
        Value::Tuple(inner) => {
            proof {
                lemma_view_values(inner@);
            }
            if inner.len() >= 5 {
                MatchableValue::Five(&inner[0], &inner[1], &inner[2], &inner[3], &inner[4])
            } else if inner.len() == 4 {
                MatchableValue::Four(&inner[0], &inner[1], &inner[2], &inner[3])
            } else if inner.len() == 3 {
                MatchableValue::Three(&inner[0], &inner[1], &inner[2])
            } else if inner.len() == 2 {
                MatchableValue::Two(&inner[0], &inner[1])
            } else if inner.len() == 1 {
                MatchableValue::One(&inner[0])
            } else {
                MatchableValue::Empty
            }
        },
        x => MatchableValue::One(x),
    }
}

/// A string value from a string slice.
pub fn sylt_str(s: &str) -> (v: Value)
    ensures
        v@ == ValueV::String(s@),
{
    Value::String(s.to_owned())
}

// ---------------------------------------------------------------------------
// Rendering
// ---------------------------------------------------------------------------

/// The text of one decimal digit.
pub open spec fn digit_text(d: int) -> Seq<char> {
    if d == 0 {
        "0"@
    } else if d == 1 {
        "1"@
    } else if d == 2 {
        "2"@
    } else if d == 3 {
        "3"@
    } else if d == 4 {
        "4"@
    } else if d == 5 {
        "5"@
    } else if d == 6 {
        "6"@
    } else if d == 7 {
        "7"@
    } else if d == 8 {
        "8"@
    } else {
        "9"@
    }
}

/// The decimal text of a nonnegative number.
pub open spec fn dec_nat_text(n: int) -> Seq<char>
    decreases n,
{
    if n <= 9 {
        digit_text(n)
    } else {
        dec_nat_text(n / 10) + digit_text(n % 10)
    }
}

/// The decimal text of an integer, minus sign and all.
pub open spec fn dec_int_text(n: int) -> Seq<char> {
    if n < 0 {
        "-"@ + dec_nat_text(-n)
    } else {
        dec_nat_text(n)
    }
}

/// One decimal digit, as a string.
fn digit_string(d: u64) -> (r: String)
    requires
        d <= 9,
    ensures
        r@ == digit_text(d as int),
{
    match d {
        0 => "0".to_owned(),
        1 => "1".to_owned(),
        2 => "2".to_owned(),
        3 => "3".to_owned(),
        4 => "4".to_owned(),
        5 => "5".to_owned(),
        6 => "6".to_owned(),
        7 => "7".to_owned(),
        8 => "8".to_owned(),
        _ => "9".to_owned(),
    }
}

/// The decimal text of a nonnegative number, executably.
pub fn dec_u64_string(n: u64) -> (r: String)
    ensures
        r@ == dec_nat_text(n as int),
    decreases n,
{
    if n <= 9 {
        digit_string(n)
    } else {
        let mut s = dec_u64_string(n / 10);
        let d = digit_string(n % 10);
        s.append(d.as_str());
        s
    }
}

/// The decimal text of an integer, executably.
pub fn dec_i64_string(n: i64) -> (r: String)
    ensures
        r@ == dec_int_text(n as int),
{
    if n >= 0 {
        dec_u64_string(n as u64)
    } else {
        let magnitude = ((-(n + 1)) as u64) + 1;
        let mut s = "-".to_owned();
        let d = dec_u64_string(magnitude);
        s.append(d.as_str());
        s
    }
}

/// The text of a value, in the library's fixed rendering: each variant
/// tagged in parentheses, numbers in decimal, a container by its
/// handle (its contents live behind the heap), a string unescaped. A
/// float is rendered by its bit pattern — its numeral cannot be
/// produced here — and an embedding may substitute its own float
/// rendering.
pub open spec fn text_of(v: ValueV) -> Seq<char>
    decreases v,
{
    match v {
        ValueV::Nil => "(nil)"@,
        ValueV::Bool(b) => if b {
            "(bool true)"@
        } else {
            "(bool false)"@
        },
        ValueV::Int(i) => "(int "@ + dec_int_text(i as int) + ")"@,
        ValueV::Float(bits) => "(float bits "@ + dec_nat_text(bits as int) + ")"@,
        ValueV::String(s) => "(string \""@ + s + "\")"@,
        ValueV::Tuple(vs) => "("@ + texts_join(vs) + ")"@,
        ValueV::Union(vs) => "(U "@ + texts_join(vs) + ")"@,
        ValueV::List(h) => "(array #"@ + dec_nat_text(h as int) + ")"@,
        ValueV::SetCol(h) => "(set #"@ + dec_nat_text(h as int) + ")"@,
        ValueV::Dict(h) => "(dict #"@ + dec_nat_text(h as int) + ")"@,
        ValueV::Instance(b, h) => "(inst b"@ + dec_nat_text(b as int) + " #"@ + dec_nat_text(
            h as int,
        ) + ")"@,
        ValueV::Blob(b) => "(blob b"@ + dec_nat_text(b as int) + ")"@,
        ValueV::Function(_, _, block) => "(fn #"@ + dec_nat_text(block as int) + ")"@,
        ValueV::ExternFunction(x) => "(extern fn "@ + dec_nat_text(x as int) + ")"@,
        ValueV::Iter(_, h) => "(iter #"@ + dec_nat_text(h as int) + ")"@,
        ValueV::Ty(_) => "(type)"@,
        ValueV::Field(s) => "( ."@ + s + " )"@,
        ValueV::Unknown => "(unknown)"@,
    }
}

/// The texts of a sequence of values, joined by commas.
pub open spec fn texts_join(vs: Seq<ValueV>) -> Seq<char>
    decreases vs,
{
    if vs.len() == 0 {
        Seq::empty()
    } else if vs.len() == 1 {
        text_of(vs[0])
    } else {
        texts_join(vs.drop_last()) + ", "@ + text_of(vs.last())
    }
}

impl Value {
    /// Renders the value; see [`text_of`].
    #[verifier::loop_isolation(false)]
    pub fn to_text(&self) -> (r: String)
        ensures
            r@ == text_of(self@),
        decreases *self,
    {
        match self {
            Value::Nil => "(nil)".to_owned(),
            Value::Bool(b) => if *b {
                "(bool true)".to_owned()
            } else {
                "(bool false)".to_owned()
            },
            Value::Int(i) => {
                let mut s = "(int ".to_owned();
                let d = dec_i64_string(*i);
                s.append(d.as_str());
                s.append(")");
                s
            },
            Value::Float(bits) => {
                let mut s = "(float bits ".to_owned();
                let d = dec_u64_string(*bits);
                s.append(d.as_str());
                s.append(")");
                s
            },
            Value::String(inner) => {
                let mut s = "(string \"".to_owned();
                s.append(inner.as_str());
                s.append("\")");
                s
            },
            Value::Tuple(vs) => {
                let mut s = "(".to_owned();
                let joined = join_values(vs);
                s.append(joined.as_str());
                s.append(")");
                s
            },
            Value::Union(vs) => {
                let mut s = "(U ".to_owned();
                let joined = join_values(vs);
                s.append(joined.as_str());
                s.append(")");
                s
            },
            Value::List(h) => {
                let mut s = "(array #".to_owned();
                let d = dec_u64_string(*h as u64);
                s.append(d.as_str());
                s.append(")");
                s
            },
            Value::SetCol(h) => {
                let mut s = "(set #".to_owned();
                let d = dec_u64_string(*h as u64);
                s.append(d.as_str());
                s.append(")");
                s
            },
            Value::Dict(h) => {
                let mut s = "(dict #".to_owned();
                let d = dec_u64_string(*h as u64);
                s.append(d.as_str());
                s.append(")");
                s
            },
            Value::Instance(b, h) => {
                let mut s = "(inst b".to_owned();
                let d = dec_u64_string(*b as u64);
                s.append(d.as_str());
                s.append(" #");
                let d2 = dec_u64_string(*h as u64);
                s.append(d2.as_str());
                s.append(")");
                s
            },
            Value::Blob(b) => {
                let mut s = "(blob b".to_owned();
                let d = dec_u64_string(*b as u64);
                s.append(d.as_str());
                s.append(")");
                s
            },
            Value::Function(_, _, block) => {
                let mut s = "(fn #".to_owned();
                let d = dec_u64_string(*block as u64);
                s.append(d.as_str());
                s.append(")");
                s
            },
            Value::ExternFunction(x) => {
                let mut s = "(extern fn ".to_owned();
                let d = dec_u64_string(*x as u64);
                s.append(d.as_str());
                s.append(")");
                s
            },
            Value::Iter(_, h) => {
                let mut s = "(iter #".to_owned();
                let d = dec_u64_string(*h as u64);
                s.append(d.as_str());
                s.append(")");
                s
            },
            Value::Ty(_) => "(type)".to_owned(),
            Value::Field(inner) => {
                let mut s = "( .".to_owned();
                s.append(inner.as_str());
                s.append(" )");
                s
            },
            Value::Unknown => "(unknown)".to_owned(),
        }
    }
}

/// The comma-joined texts of a vector of values; see [`texts_join`].
#[verifier::loop_isolation(false)]
fn join_values(vs: &Vec<Value>) -> (r: String)
    ensures
        r@ == texts_join(view_values(vs@)),
    decreases *vs,
{
    proof {
        lemma_view_values(vs@);
    }
    let ghost vv = view_values(vs@);
    if vs.len() == 0 {
        let empty = "".to_owned();
        proof {
            reveal_strlit("");
            assert(empty@ =~= Seq::<char>::empty());
        }
        return empty;
    }
    proof {
        assert(decreases_to!(*vs => vs@));
        assert(decreases_to!(vs@ => vs@[0]));
    }
    let mut acc = vs[0].to_text();
    let mut i: usize = 1;
    proof {
        assert(vv.take(1) =~= seq![vv[0]]);
        assert(texts_join(vv.take(1)) == text_of(vv[0]));
    }
    while i < vs.len()
        invariant
            1 <= i <= vs@.len(),
            acc@ == texts_join(vv.take(i as int)),
        decreases vs@.len() - i,
    {
        proof {
            assert(decreases_to!(*vs => vs@));
            assert(decreases_to!(vs@ => vs@[i as int]));
        }
        acc.append(", ");
        let t = vs[i].to_text();
        acc.append(t.as_str());
        proof {
            assert(vv.take(i + 1).drop_last() =~= vv.take(i as int));
            assert(vv.take(i + 1).last() == vv[i as int]);
        }
        i = i + 1;
    }
    proof {
        assert(vv.take(vs@.len() as int) =~= vv);
    }
    acc
}

} // verus!
