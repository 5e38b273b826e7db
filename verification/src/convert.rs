//! Conversions between types and values.
//!
//! Every [`Type`] can be turned into a representative "default" value of
//! that shape — `Int` becomes `1`, `List(T)` becomes a fresh one-element
//! list holding a default `T`, and so on. This conversion is what lets
//! the typecheck pass fabricate placeholder values without running real
//! logic. In the other direction, [`type_of`] gives the static type the
//! library ascribes to a bare value.

use vstd::prelude::*;

verus! {

broadcast use vstd::seq::axiom_seq_index_decreases, vstd::std_specs::vec::axiom_vec_decreases_to_view;

use crate::heap::{Heap, HeapV, heap_extends, heap_wf};
use crate::value::{
    clone_types,
    lemma_view_types,
    lemma_view_values,
    view_type,
    view_types,
    view_value,
    view_values,
    Type,
    TypeV,
    Value,
    ValueV,
};

/// The bit pattern of the `f64` constant `1.0`, the default float.
pub const FLOAT_ONE_BITS: u64 = 0x3ff0000000000000;

/// Whether `v` is the default value of shape `t` in `heap`.
///
/// This pins the conversion exactly: primitives map to fixed constants
/// (`Int` to `1`, `Float` to `1.0`, `Bool` to `true`, `String` to `""`),
/// a composite type maps to a freshly allocated one-element container of
/// defaults, a function type to a function value with no captured
/// upvalues and block index `0`, and `Unknown`/`Invalid` to the
/// `Unknown` placeholder.
pub open spec fn is_default_of(heap: HeapV, v: ValueV, t: TypeV) -> bool
    decreases t,
{
    match t {
        TypeV::Void => v == ValueV::Nil,
        TypeV::Unknown => v == ValueV::Unknown,
        TypeV::Invalid => v == ValueV::Unknown,
        TypeV::Int => v == ValueV::Int(1),
        TypeV::Float => v == ValueV::Float(FLOAT_ONE_BITS),
        TypeV::Bool => v == ValueV::Bool(true),
        TypeV::String => v == ValueV::String(Seq::empty()),
        TypeV::Ty => v == ValueV::Ty(TypeV::Void),
        TypeV::Field(s) => v == ValueV::Field(s),
        TypeV::Blob(b) => v == ValueV::Blob(b),
        TypeV::Instance(b) => v matches ValueV::Instance(b2, h) && b2 == b && h
            < heap.instances.len() && heap.instances[h as int].len() == 0,
        TypeV::Tuple(ts) => v matches ValueV::Tuple(vs) && are_defaults_of(heap, vs, ts),
        TypeV::Union(ts) => v matches ValueV::Union(vs) && are_defaults_of(heap, vs, ts),
        TypeV::List(t) => v matches ValueV::List(h) && h < heap.lists.len()
            && heap.lists[h as int].len() == 1 && is_default_of(heap, heap.lists[h as int][0], *t),
        TypeV::SetCol(t) => v matches ValueV::SetCol(h) && h < heap.sets.len()
            && heap.sets[h as int].len() == 1 && is_default_of(heap, heap.sets[h as int][0], *t),
        TypeV::Dict(k, vt) => v matches ValueV::Dict(h) && h < heap.dicts.len()
            && heap.dicts[h as int].len() == 1 && is_default_of(heap, heap.dicts[h as int][0].0, *k)
            && is_default_of(heap, heap.dicts[h as int][0].1, *vt),
        TypeV::Iter(t) => v matches ValueV::Iter(t2, h) && t2 == *t,
        TypeV::Function(args, ret) => v == ValueV::Function(
            Seq::<usize>::empty(),
            TypeV::Function(args, ret),
            0,
        ),
        TypeV::ExternFunction(x) => v == ValueV::ExternFunction(x),
    }
}

/// Whether `vs` are, element by element, the defaults of `ts`.
pub open spec fn are_defaults_of(heap: HeapV, vs: Seq<ValueV>, ts: Seq<TypeV>) -> bool
    decreases ts,
{
    vs.len() == ts.len() && (ts.len() == 0 || (is_default_of(heap, vs.last(), ts.last())
        && are_defaults_of(heap, vs.drop_last(), ts.drop_last())))
}

/// [`are_defaults_of`] is element-wise.
pub proof fn lemma_defaults_pointwise(heap: HeapV, vs: Seq<ValueV>, ts: Seq<TypeV>)
    ensures
        are_defaults_of(heap, vs, ts) <==> (vs.len() == ts.len() && forall|i: int|
            0 <= i < ts.len() ==> is_default_of(heap, vs[i], #[trigger] ts[i])),
    decreases ts.len(),
{
    if ts.len() > 0 && vs.len() == ts.len() {
        lemma_defaults_pointwise(heap, vs.drop_last(), ts.drop_last());
        if are_defaults_of(heap, vs, ts) {
            assert forall|i: int| 0 <= i < ts.len() implies is_default_of(
                heap,
                vs[i],
                #[trigger] ts[i],
            ) by {
                if i < ts.len() - 1 {
                    assert(vs.drop_last()[i] == vs[i]);
                    assert(ts.drop_last()[i] == ts[i]);
                }
            }
        }
        if vs.len() == ts.len() && (forall|i: int|
            0 <= i < ts.len() ==> is_default_of(heap, vs[i], #[trigger] ts[i])) {
            assert forall|i: int| 0 <= i < ts.len() - 1 implies is_default_of(
                heap,
                vs.drop_last()[i],
                #[trigger] ts.drop_last()[i],
            ) by {
                assert(vs.drop_last()[i] == vs[i]);
                assert(ts.drop_last()[i] == ts[i]);
            }
        }
    }
}

/// Being a default is preserved when the heap grows: new slots never
/// disturb old ones.
pub proof fn lemma_default_monotone(h1: HeapV, h2: HeapV, v: ValueV, t: TypeV)
    requires
        is_default_of(h1, v, t),
        heap_extends(h2, h1),
    ensures
        is_default_of(h2, v, t),
    decreases t,
{
    match t {
        TypeV::Tuple(ts) => {
            lemma_defaults_monotone(h1, h2, v->Tuple_0, ts);
        },
        TypeV::Union(ts) => {
            lemma_defaults_monotone(h1, h2, v->Union_0, ts);
        },
        TypeV::List(t0) => {
            let h = v->List_0;
            assert(h1.lists[h as int] == h2.lists[h as int]);
            lemma_default_monotone(h1, h2, h1.lists[h as int][0], *t0);
        },
        TypeV::SetCol(t0) => {
            let h = v->SetCol_0;
            assert(h1.sets[h as int] == h2.sets[h as int]);
            lemma_default_monotone(h1, h2, h1.sets[h as int][0], *t0);
        },
        TypeV::Dict(k, vt) => {
            let h = v->Dict_0;
            assert(h1.dicts[h as int] == h2.dicts[h as int]);
            lemma_default_monotone(h1, h2, h1.dicts[h as int][0].0, *k);
            lemma_default_monotone(h1, h2, h1.dicts[h as int][0].1, *vt);
        },
        TypeV::Instance(b) => {
            let h = v->Instance_1;
            assert(h1.instances[h as int] == h2.instances[h as int]);
        },
        _ => {},
    }
}

/// Sequence form of [`lemma_default_monotone`].
pub proof fn lemma_defaults_monotone(h1: HeapV, h2: HeapV, vs: Seq<ValueV>, ts: Seq<TypeV>)
    requires
        are_defaults_of(h1, vs, ts),
        heap_extends(h2, h1),
    ensures
        are_defaults_of(h2, vs, ts),
    decreases ts,
{
    if ts.len() > 0 {
        lemma_default_monotone(h1, h2, vs.last(), ts.last());
        lemma_defaults_monotone(h1, h2, vs.drop_last(), ts.drop_last());
    }
}

/// Builds the default value of shape `ty`, allocating any containers it
/// needs in `heap`; see [`is_default_of`] for exactly what comes back.
#[verifier::loop_isolation(false)]
pub fn from_type(ty: &Type, heap: &mut Heap) -> (v: Value)
    requires
        heap_wf(*old(heap)),
    ensures
        heap_wf(*final(heap)),
        heap_extends(final(heap)@, old(heap)@),
        final(heap)@.cells == old(heap)@.cells,
        is_default_of(final(heap)@, v@, ty@),
    decreases *ty,
{
    match ty {
        Type::Void => Value::Nil,
        Type::Unknown => Value::Unknown,
        Type::Invalid => Value::Unknown,
        Type::Int => Value::Int(1),
        Type::Float => Value::Float(FLOAT_ONE_BITS),
        Type::Bool => Value::Bool(true),
        Type::String => Value::String(String::new()),
        Type::Ty => Value::Ty(Type::Void),
        Type::Field(s) => Value::Field(s.clone()),
        Type::Blob(b) => Value::Blob(*b),
        Type::Instance(b) => {
            let h = heap.new_instance(Vec::new(), Vec::new());
            proof {
                assert(heap@.instances[h as int] =~= Seq::<(Seq<char>, ValueV)>::empty());
            }
            Value::Instance(*b, h)
        },
        Type::Tuple(ts) => Value::Tuple(defaults_of_types(ts, heap)),
        Type::Union(ts) => Value::Union(defaults_of_types(ts, heap)),
        Type::List(t) => {
            proof {
                assert(decreases_to!(*ty => *t));
            }
            let d = from_type(&**t, heap);
            let ghost mid = heap@;
            let mut elems: Vec<Value> = Vec::new();
            elems.push(d);
            let h = heap.new_list(elems);
            proof {
                lemma_view_values(elems@);
                lemma_default_monotone(mid, heap@, view_value(elems@[0]), view_type(**t));
            }
            Value::List(h)
        },
        Type::SetCol(t) => {
            proof {
                assert(decreases_to!(*ty => *t));
            }
            let d = from_type(&**t, heap);
            let ghost mid = heap@;
            let mut elems: Vec<Value> = Vec::new();
            elems.push(d);
            let h = heap.new_set(elems);
            proof {
                lemma_view_values(elems@);
                lemma_default_monotone(mid, heap@, view_value(elems@[0]), view_type(**t));
            }
            Value::SetCol(h)
        },
        Type::Dict(k, vt) => {
            let dk = from_type(&**k, heap);
            let ghost mid1 = heap@;
            let dv = from_type(&**vt, heap);
            let ghost mid2 = heap@;
            let mut keys: Vec<Value> = Vec::new();
            keys.push(dk);
            let mut vals: Vec<Value> = Vec::new();
            vals.push(dv);
            let h = heap.new_dict(keys, vals);
            proof {
                lemma_default_monotone(mid1, mid2, view_value(keys@[0]), view_type(**k));
                lemma_default_monotone(mid2, heap@, view_value(keys@[0]), view_type(**k));
                lemma_default_monotone(mid2, heap@, view_value(vals@[0]), view_type(**vt));
                crate::heap::lemma_heap_extends_trans(heap@, mid2, mid1);
                crate::heap::lemma_heap_extends_trans(heap@, mid1, old(heap)@);
            }
            Value::Dict(h)
        },
        Type::Iter(t) => {
            let tc = (**t).clone();
            let h = heap.new_iter();
            Value::Iter(tc, h)
        },
        Type::Function(args, ret) => {
            let args2 = clone_types(args);
            let ret2 = Box::new((**ret).clone());
            let ups: Vec<usize> = Vec::new();
            proof {
                assert(ups@ =~= Seq::<usize>::empty());
            }
            Value::Function(ups, Type::Function(args2, ret2), 0)
        },
        Type::ExternFunction(x) => Value::ExternFunction(*x),
    }
}

/// Builds the defaults of a list of types, left to right, allocating in
/// `heap` as needed.
#[verifier::loop_isolation(false)]
fn defaults_of_types(ts: &Vec<Type>, heap: &mut Heap) -> (vs: Vec<Value>)
    requires
        heap_wf(*old(heap)),
    ensures
        heap_wf(*final(heap)),
        heap_extends(final(heap)@, old(heap)@),
        final(heap)@.cells == old(heap)@.cells,
        are_defaults_of(final(heap)@, view_values(vs@), view_types(ts@)),
    decreases *ts,
{
    let mut out: Vec<Value> = Vec::new();
    let mut i: usize = 0;
    proof {
        lemma_view_types(ts@);
    }
    while i < ts.len()
        invariant
            i <= ts@.len(),
            out@.len() == i as int,
            heap_wf(*heap),
            heap_extends(heap@, old(heap)@),
            heap@.cells == old(heap)@.cells,
            forall|j: int|
                0 <= j < i ==> is_default_of(
                    heap@,
                    view_value(#[trigger] out@[j]),
                    view_type(ts@[j]),
                ),
        decreases ts@.len() - i,
    {
        proof {
            assert(decreases_to!(*ts => ts@));
            assert(decreases_to!(ts@ => ts@[i as int]));
        }
        let ghost prev = heap@;
        let d = from_type(&ts[i], heap);
        proof {
            assert forall|j: int| 0 <= j < i implies is_default_of(
                heap@,
                view_value(#[trigger] out@[j]),
                view_type(ts@[j]),
            ) by {
                lemma_default_monotone(prev, heap@, view_value(out@[j]), view_type(ts@[j]));
            }
            crate::heap::lemma_heap_extends_trans(heap@, prev, old(heap)@);
        }
        out.push(d);
        i = i + 1;
    }
    proof {
        lemma_view_values(out@);
        lemma_defaults_pointwise(heap@, view_values(out@), view_types(ts@));
    }
    out
}

/// The static type the library ascribes to a bare value, on views.
///
/// Primitives and metadata map exactly; a container value carries no
/// element type of its own (the contents live behind the handle), so its
/// element types are `Unknown`.
pub open spec fn spec_type_of(v: ValueV) -> TypeV
    decreases v,
{
    match v {
        ValueV::Field(s) => TypeV::Field(s),
        ValueV::Ty(_) => TypeV::Ty,
        ValueV::Blob(b) => TypeV::Blob(b),
        ValueV::Instance(b, _) => TypeV::Instance(b),
        ValueV::Tuple(vs) => TypeV::Tuple(spec_types_of(vs)),
        ValueV::List(_) => TypeV::List(Box::new(TypeV::Unknown)),
        ValueV::SetCol(_) => TypeV::SetCol(Box::new(TypeV::Unknown)),
        ValueV::Dict(_) => TypeV::Dict(Box::new(TypeV::Unknown), Box::new(TypeV::Unknown)),
        ValueV::Iter(t, _) => TypeV::Iter(Box::new(t)),
        ValueV::Union(vs) => TypeV::Union(spec_types_of(vs)),
        ValueV::Float(_) => TypeV::Float,
        ValueV::Int(_) => TypeV::Int,
        ValueV::Bool(_) => TypeV::Bool,
        ValueV::String(_) => TypeV::String,
        ValueV::Function(_, t, _) => t,
        ValueV::ExternFunction(x) => TypeV::ExternFunction(x),
        ValueV::Unknown => TypeV::Unknown,
        ValueV::Nil => TypeV::Void,
    }
}

/// The types of a sequence of values, in order.
pub open spec fn spec_types_of(vs: Seq<ValueV>) -> Seq<TypeV>
    decreases vs,
{
    if vs.len() == 0 {
        Seq::empty()
    } else {
        spec_types_of(vs.drop_last()).push(spec_type_of(vs.last()))
    }
}

/// [`spec_types_of`] maps the sequence pointwise.
pub proof fn lemma_spec_types_of(vs: Seq<ValueV>)
    ensures
        spec_types_of(vs).len() == vs.len(),
        forall|i: int| 0 <= i < vs.len() ==> spec_types_of(vs)[i] == spec_type_of(vs[i]),
    decreases vs.len(),
{
    if vs.len() > 0 {
        lemma_spec_types_of(vs.drop_last());
    }
}

/// Executable form of [`spec_type_of`].
#[verifier::loop_isolation(false)]
pub fn type_of(v: &Value) -> (t: Type)
    ensures
        t@ == spec_type_of(v@),
    decreases *v,
{
    match v {
        Value::Field(s) => Type::Field(s.clone()),
        Value::Ty(_) => Type::Ty,
        Value::Blob(b) => Type::Blob(*b),
        Value::Instance(b, _) => Type::Instance(*b),
        Value::Tuple(vs) => Type::Tuple(types_of_values(vs)),
        Value::List(_) => {
            proof {
                assert(view_type(Type::Unknown) == TypeV::Unknown);
            }
            Type::List(Box::new(Type::Unknown))
        },
        Value::SetCol(_) => {
            proof {
                assert(view_type(Type::Unknown) == TypeV::Unknown);
            }
            Type::SetCol(Box::new(Type::Unknown))
        },
        Value::Dict(_) => {
            proof {
                assert(view_type(Type::Unknown) == TypeV::Unknown);
            }
            Type::Dict(Box::new(Type::Unknown), Box::new(Type::Unknown))
        },
        Value::Iter(t, _) => Type::Iter(Box::new(t.clone())),
        Value::Union(vs) => Type::Union(types_of_values(vs)),
        Value::Float(_) => Type::Float,
        Value::Int(_) => Type::Int,
        Value::Bool(_) => Type::Bool,
        Value::String(_) => Type::String,
        Value::Function(_, t, _) => t.clone(),
        Value::ExternFunction(x) => Type::ExternFunction(*x),
        Value::Unknown => Type::Unknown,
        Value::Nil => Type::Void,
    }
}

/// The types of every value in a vector, in order.
#[verifier::loop_isolation(false)]
pub fn types_of_values(vs: &Vec<Value>) -> (ts: Vec<Type>)
    ensures
        view_types(ts@) == spec_types_of(view_values(vs@)),
    decreases *vs,
{
    let mut out: Vec<Type> = Vec::new();
    let mut i: usize = 0;
    while i < vs.len()
        invariant
            i <= vs@.len(),
            out@.len() == i as int,
            forall|j: int|
                0 <= j < i ==> view_type(#[trigger] out@[j]) == spec_type_of(view_value(vs@[j])),
        decreases vs@.len() - i,
    {
        proof {
            assert(decreases_to!(*vs => vs@));
            assert(decreases_to!(vs@ => vs@[i as int]));
        }
        let t = type_of(&vs[i]);
        out.push(t);
        i = i + 1;
    }
    proof {
        lemma_view_types(out@);
        lemma_view_values(vs@);
        lemma_spec_types_of(view_values(vs@));
        assert(view_types(out@) =~= spec_types_of(view_values(vs@)));
    }
    out
}

} // verus!
