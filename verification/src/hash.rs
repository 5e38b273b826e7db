//! Structural hashing of values.
//!
//! Hashing is defined only for the hashable variants — finite floats,
//! integers, booleans, strings, `Nil`, and tuples of hashable values —
//! and mirrors structural equality: equal hashable values hash alike.
//! Asking for the hash of anything else, in particular of a non-finite
//! float, fails fast with `None` rather than silently succeeding.

use vstd::prelude::*;

verus! {

broadcast use vstd::seq::axiom_seq_index_decreases, vstd::std_specs::vec::axiom_vec_decreases_to_view;

use crate::value::{
    lemma_view_values,
    spec_float_eq,
    spec_float_is_finite,
    spec_float_is_zero,
    spec_value_eq,
    spec_values_eq,
    view_value,
    view_values,
    Value,
    ValueV,
};
use vstd::utf8::encode_utf8;

/// Whether a value is hashable: a finite float, an integer, a boolean,
/// a string, `Nil`, or a tuple of hashable values.
pub open spec fn spec_is_hashable(v: ValueV) -> bool
    decreases v,
{
    match v {
        ValueV::Float(bits) => spec_float_is_finite(bits),
        ValueV::Int(_) => true,
        ValueV::Bool(_) => true,
        ValueV::String(_) => true,
        ValueV::Nil => true,
        ValueV::Tuple(vs) => spec_all_hashable(vs),
        _ => false,
    }
}

/// Whether every value in the sequence is hashable.
pub open spec fn spec_all_hashable(vs: Seq<ValueV>) -> bool
    decreases vs,
{
    vs.len() == 0 || (spec_is_hashable(vs.last()) && spec_all_hashable(vs.drop_last()))
}

/// [`spec_all_hashable`] is element-wise.
pub proof fn lemma_all_hashable_pointwise(vs: Seq<ValueV>)
    ensures
        spec_all_hashable(vs) <==> (forall|i: int|
            0 <= i < vs.len() ==> spec_is_hashable(#[trigger] vs[i])),
    decreases vs.len(),
{
    if vs.len() > 0 {
        lemma_all_hashable_pointwise(vs.drop_last());
        if spec_all_hashable(vs) {
            assert forall|i: int| 0 <= i < vs.len() implies spec_is_hashable(
                #[trigger] vs[i],
            ) by {
                if i < vs.len() - 1 {
                    assert(vs.drop_last()[i] == vs[i]);
                }
            }
        }
        if forall|i: int| 0 <= i < vs.len() ==> spec_is_hashable(#[trigger] vs[i]) {
            assert forall|i: int| 0 <= i < vs.len() - 1 implies spec_is_hashable(
                #[trigger] vs.drop_last()[i],
            ) by {
                assert(vs.drop_last()[i] == vs[i]);
            }
        }
    }
}

/// One mixing step of the hash: multiply by 31 and add, both wrapping.
pub open spec fn spec_mix(h: u64, x: u64) -> u64 {
    h.wrapping_mul(31).wrapping_add(x)
}

/// Executable form of [`spec_mix`].
pub fn mix(h: u64, x: u64) -> (r: u64)
    ensures
        r == spec_mix(h, x),
{
    h.wrapping_mul(31).wrapping_add(x)
}

/// The float bits used for hashing: the two zeroes hash alike.
pub open spec fn spec_norm_zero(bits: u64) -> u64 {
    if spec_float_is_zero(bits) {
        0
    } else {
        bits
    }
}

/// The hash of a hashable value. Each variant mixes a distinct tag with
/// its contents, so that hashing mirrors structural equality.
pub open spec fn spec_hash(v: ValueV) -> u64
    decreases v,
{
    match v {
        ValueV::Float(bits) => spec_mix(1, spec_norm_zero(bits)),
        ValueV::Int(i) => spec_mix(2, i as u64),
        ValueV::Bool(b) => spec_mix(
            3,
            if b {
                1
            } else {
                0
            },
        ),
        ValueV::String(s) => spec_mix(4, spec_hash_bytes(encode_utf8(s))),
        ValueV::Nil => spec_mix(5, 0),
        ValueV::Tuple(vs) => spec_mix(6, spec_hash_seq(vs)),
        _ => 0,
    }
}

/// The hash of a sequence of values, folded left to right.
pub open spec fn spec_hash_seq(vs: Seq<ValueV>) -> u64
    decreases vs,
{
    if vs.len() == 0 {
        7
    } else {
        spec_mix(spec_hash_seq(vs.drop_last()), spec_hash(vs.last()))
    }
}

/// The hash of a byte sequence, folded left to right.
pub open spec fn spec_hash_bytes(bs: Seq<u8>) -> u64
    decreases bs.len(),
{
    if bs.len() == 0 {
        11
    } else {
        spec_mix(spec_hash_bytes(bs.drop_last()), bs.last() as u64)
    }
}

/// The executable hash of a string's bytes.
#[verifier::loop_isolation(false)]
fn hash_str_bytes(s: &String) -> (r: u64)
    ensures
        r == spec_hash_bytes(encode_utf8(s@)),
{
    let bs = s.as_str().as_bytes();
    let mut h: u64 = 11;
    let mut i: usize = 0;
    proof {
        assert(bs@.subrange(0, 0) =~= Seq::<u8>::empty());
    }
    while i < bs.len()
        invariant
            i <= bs@.len(),
            h == spec_hash_bytes(bs@.subrange(0, i as int)),
        decreases bs@.len() - i,
    {
        let b = bs[i];
        h = mix(h, b as u64);
        proof {
            assert(bs@.subrange(0, i + 1).drop_last() =~= bs@.subrange(0, i as int));
            assert(bs@.subrange(0, i + 1).last() == bs@[i as int]);
        }
        i = i + 1;
    }
    proof {
        assert(bs@.subrange(0, bs@.len() as int) =~= bs@);
    }
    h
}

/// Tries to hash a value.
///
/// Returns the structural hash for every hashable value; returns `None`
/// — fails fast, never a junk hash — for a non-finite float and for
/// every variant that hashing is not defined for.
#[verifier::loop_isolation(false)]
pub fn try_hash(v: &Value) -> (r: Option<u64>)
    ensures
        r is Some <==> spec_is_hashable(v@),
        r is Some ==> r->0 == spec_hash(v@),
    decreases *v,
{
    match v {
        Value::Float(bits) => {
            if crate::value::float_is_finite(*bits) {
                if crate::value::float_is_zero(*bits) {
                    Some(mix(1, 0))
                } else {
                    Some(mix(1, *bits))
                }
            } else {
                None
            }
        },
        Value::Int(i) => Some(mix(2, #[verifier::truncate] (*i as u64))),
        Value::Bool(b) => Some(
            mix(
                3,
                if *b {
                    1
                } else {
                    0
                },
            ),
        ),
        Value::String(s) => Some(mix(4, hash_str_bytes(s))),
        Value::Nil => Some(mix(5, 0)),
        Value::Tuple(vs) => {
            proof {
                lemma_view_values(vs@);
                lemma_all_hashable_pointwise(view_values(vs@));
            }
            let mut h: u64 = 7;
            let mut i: usize = 0;
            proof {
                assert(view_values(vs@).subrange(0, 0) =~= Seq::<ValueV>::empty());
            }
            while i < vs.len()
                invariant
                    i <= vs@.len(),
                    h == spec_hash_seq(view_values(vs@).subrange(0, i as int)),
                    forall|j: int|
                        0 <= j < i ==> spec_is_hashable(#[trigger] view_values(vs@)[j]),
                decreases vs@.len() - i,
            {
                proof {
                    assert(decreases_to!(*v => *vs));
                    assert(decreases_to!(*vs => vs@));
                    assert(decreases_to!(vs@ => vs@[i as int]));
                }
                let e = try_hash(&vs[i]);
                match e {
                    Option::Some(x) => {
                        h = mix(h, x);
                        proof {
                            let vv = view_values(vs@);
                            assert(vv.subrange(0, i + 1).drop_last() =~= vv.subrange(0, i as int));
                            assert(vv.subrange(0, i + 1).last() == vv[i as int]);
                        }
                        i = i + 1;
                    },
                    Option::None => {
                        proof {
                            assert(view_values(vs@)[i as int] == view_value(vs@[i as int]));
                            assert(!spec_all_hashable(view_values(vs@)));
                        }
                        return None;
                    },
                }
            }
            proof {
                let vv = view_values(vs@);
                assert(vv.subrange(0, vv.len() as int) =~= vv);
            }
            Some(mix(6, h))
        },
        _ => None,
    }
}

/// Hashing mirrors equality: two hashable values that are structurally
/// equal hash to the same word.
pub proof fn lemma_hash_respects_eq(a: ValueV, b: ValueV)
    requires
        spec_is_hashable(a),
        spec_is_hashable(b),
        spec_value_eq(a, b),
    ensures
        spec_hash(a) == spec_hash(b),
    decreases a, b,
{
    match (a, b) {
        (ValueV::Float(x), ValueV::Float(y)) => {
            assert(spec_float_eq(x, y));
        },
        (ValueV::Tuple(x), ValueV::Tuple(y)) => {
            lemma_hash_seq_respects_eq(x, y);
        },
        _ => {},
    }
}

/// Sequence form of [`lemma_hash_respects_eq`].
pub proof fn lemma_hash_seq_respects_eq(x: Seq<ValueV>, y: Seq<ValueV>)
    requires
        spec_all_hashable(x),
        spec_all_hashable(y),
        spec_values_eq(x, y),
    ensures
        spec_hash_seq(x) == spec_hash_seq(y),
    decreases x, y,
{
    if x.len() > 0 {
        lemma_hash_respects_eq(x.last(), y.last());
        lemma_hash_seq_respects_eq(x.drop_last(), y.drop_last());
    }
}

/// The hash of a hashable value. The one input family the hash is not
/// defined for — a value holding a non-finite float — is excluded here
/// by precondition; [`try_hash`] is the total form that reports it.
pub fn hash_value(v: &Value) -> (r: u64)
    requires
        spec_is_hashable(v@),
    ensures
        r == spec_hash(v@),
{
    match try_hash(v) {
        Option::Some(h) => h,
        Option::None => unreached(),
    }
}

} // verus!
