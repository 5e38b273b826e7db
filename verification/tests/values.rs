//! The value model: structural equality, hashing, defaults, aliasing
//! through the heap, and shared upvalue cells.

use sylt::bindings::{
    l_load_audio_prepare, l_load_image_prepare, lib_bindings, unpack_audio_id,
    unpack_int_int_tuple, unpack_sprite_id, LoadAction,
};
use sylt::convert::{from_type, type_of};
use sylt::error::RuntimeError;
use sylt::hash::{hash_value, try_hash};
use sylt::heap::Heap;
use sylt::value::{make_matchable, sylt_str, value_eq, MatchableValue, Type, Value};

// The bit patterns of a few `f64` constants.
const ONE_BITS: u64 = 0x3ff0000000000000;
const NEG_ZERO_BITS: u64 = 0x8000000000000000;
const NAN_BITS: u64 = 0x7ff8000000000000;
const INF_BITS: u64 = 0x7ff0000000000000;

#[test]
fn primitive_equality_is_pointwise() {
    assert!(value_eq(&Value::Int(3), &Value::Int(3)));
    assert!(!value_eq(&Value::Int(3), &Value::Int(4)));
    assert!(value_eq(&Value::Bool(true), &Value::Bool(true)));
    assert!(value_eq(&sylt_str("abc"), &sylt_str("abc")));
    assert!(!value_eq(&sylt_str("abc"), &sylt_str("abd")));
    assert!(value_eq(&Value::Nil, &Value::Nil));
}

#[test]
fn mismatched_tags_are_unequal_not_an_error() {
    assert!(!value_eq(&Value::Int(1), &Value::Bool(true)));
    assert!(!value_eq(&Value::Nil, &Value::Int(0)));
    assert!(!value_eq(&sylt_str("1"), &Value::Int(1)));
}

#[test]
fn float_equality_is_numeric() {
    // The two zeroes are equal; a NaN equals nothing, itself included.
    assert!(value_eq(&Value::Float(0), &Value::Float(NEG_ZERO_BITS)));
    assert!(value_eq(&Value::Float(ONE_BITS), &Value::Float(ONE_BITS)));
    assert!(!value_eq(&Value::Float(NAN_BITS), &Value::Float(NAN_BITS)));
}

#[test]
fn tuple_equality_is_elementwise() {
    let a = Value::Tuple(vec![Value::Int(1), sylt_str("x")]);
    let b = Value::Tuple(vec![Value::Int(1), sylt_str("x")]);
    let c = Value::Tuple(vec![Value::Int(1), sylt_str("y")]);
    assert!(value_eq(&a, &b));
    assert!(!value_eq(&a, &c));
    assert!(!value_eq(&a, &Value::Tuple(vec![Value::Int(1)])));
}

#[test]
fn union_equals_any_member() {
    // A union equals a plain value iff any member does, symmetrically.
    let u = Value::Union(vec![Value::Int(1), Value::Int(2)]);
    assert!(value_eq(&u, &Value::Int(2)));
    assert!(value_eq(&Value::Int(1), &u));
    assert!(!value_eq(&u, &Value::Int(3)));
}

#[test]
fn hash_agrees_with_equality() {
    // Hashing mirrors structural equality on the hashable values.
    let a = Value::Tuple(vec![Value::Int(1), Value::Bool(true), sylt_str("s")]);
    let b = Value::Tuple(vec![Value::Int(1), Value::Bool(true), sylt_str("s")]);
    assert_eq!(try_hash(&a).unwrap(), try_hash(&b).unwrap());
    // The two zeroes are equal, so they hash alike.
    assert_eq!(
        try_hash(&Value::Float(0)).unwrap(),
        try_hash(&Value::Float(NEG_ZERO_BITS)).unwrap()
    );
}

#[test]
fn hashing_a_non_finite_float_fails_fast() {
    // A NaN or an infinity is never a pool key: hashing fails, it
    // never silently succeeds.
    assert!(try_hash(&Value::Float(NAN_BITS)).is_none());
    assert!(try_hash(&Value::Float(INF_BITS)).is_none());
    // Even buried inside a tuple.
    let t = Value::Tuple(vec![Value::Int(1), Value::Float(NAN_BITS)]);
    assert!(try_hash(&t).is_none());
}

#[test]
fn unhashable_variants_fail_fast() {
    assert!(try_hash(&Value::List(0)).is_none());
    assert!(try_hash(&Value::Unknown).is_none());
}

#[test]
fn list_clone_aliases_the_backing_store() {
    // Assigning a list value to a second variable copies the handle:
    // mutating through the second is observable through the first.
    let mut heap = Heap::new();
    let h = heap.new_list(vec![Value::Int(1), Value::Int(2)]);
    let first = Value::List(h);
    let second = first.clone();
    let handle = match second {
        Value::List(h2) => h2,
        _ => panic!("expected a list"),
    };
    heap.list_set(handle, 0, Value::Int(99));
    match first {
        Value::List(h1) => {
            assert!(value_eq(heap.list_get(h1, 0), &Value::Int(99)));
            assert_eq!(heap.list_len(h1), 2);
        }
        _ => panic!("expected a list"),
    }
}

#[test]
fn tuples_and_strings_copy_without_aliasing() {
    // A tuple or string copy holds its own contents: no heap mutation
    // can reach it, so the copy and the original never interfere.
    let mut heap = Heap::new();
    let h = heap.new_list(vec![Value::Int(7)]);
    let t1 = Value::Tuple(vec![Value::Int(1)]);
    let t2 = t1.clone();
    let s1 = sylt_str("abc");
    let s2 = s1.clone();
    // Mutate the heap arbitrarily; the inline values are untouched.
    heap.list_set(h, 0, Value::Int(8));
    assert!(value_eq(&t1, &t2));
    assert!(value_eq(&s1, &s2));
    assert!(value_eq(&t2, &Value::Tuple(vec![Value::Int(1)])));
    assert!(value_eq(&s2, &sylt_str("abc")));
}

#[test]
fn upvalue_cell_is_shared_not_a_snapshot() {
    // A closure captures a cell by handle; reassigning the cell in the
    // enclosing scope is observed when the closure later reads it.
    let mut heap = Heap::new();
    let cell = heap.new_cell(Value::Int(1));
    let closure = Value::Function(vec![cell], Type::Function(vec![], Box::new(Type::Int)), 0);
    // The enclosing scope reassigns the variable.
    heap.cell_set(cell, Value::Int(42));
    // The closure reads through its captured handle and sees the new
    // value.
    match closure {
        Value::Function(ups, _, _) => {
            assert!(value_eq(heap.cell_get(ups[0]), &Value::Int(42)));
        }
        _ => panic!("expected a function"),
    }
}

#[test]
fn default_of_list_of_int_is_one_int_element() {
    // The placeholder for a declared `List(Int)` return is a fresh
    // one-element list holding the default integer.
    let mut heap = Heap::new();
    let v = from_type(&Type::List(Box::new(Type::Int)), &mut heap);
    match v {
        Value::List(h) => {
            assert_eq!(heap.list_len(h), 1);
            assert!(value_eq(heap.list_get(h, 0), &Value::Int(1)));
        }
        _ => panic!("expected a list"),
    }
}

#[test]
fn defaults_of_primitives() {
    let mut heap = Heap::new();
    assert!(value_eq(&from_type(&Type::Int, &mut heap), &Value::Int(1)));
    assert!(value_eq(&from_type(&Type::Bool, &mut heap), &Value::Bool(true)));
    assert!(value_eq(&from_type(&Type::String, &mut heap), &sylt_str("")));
    assert!(value_eq(&from_type(&Type::Void, &mut heap), &Value::Nil));
    assert!(value_eq(&from_type(&Type::Float, &mut heap), &Value::Float(ONE_BITS)));
    assert!(matches!(from_type(&Type::Unknown, &mut heap), Value::Unknown));
}

#[test]
fn type_of_primitives() {
    assert!(matches!(type_of(&Value::Int(5)), Type::Int));
    assert!(matches!(type_of(&Value::Bool(false)), Type::Bool));
    assert!(matches!(type_of(&sylt_str("x")), Type::String));
    assert!(matches!(type_of(&Value::Nil), Type::Void));
}

#[test]
fn is_nil_only_for_nil() {
    assert!(Value::Nil.is_nil());
    assert!(!Value::Int(0).is_nil());
}

#[test]
fn matchable_unpacks_tuples() {
    let t = Value::Tuple(vec![Value::Int(1), Value::Int(2)]);
    match make_matchable(&t) {
        MatchableValue::Two(a, b) => {
            assert!(value_eq(a, &Value::Int(1)));
            assert!(value_eq(b, &Value::Int(2)));
        }
        _ => panic!("expected a two-element match"),
    }
    let v = Value::Int(9);
    match make_matchable(&v) {
        MatchableValue::One(a) => assert!(value_eq(a, &Value::Int(9))),
        _ => panic!("expected a one-value match"),
    }
    let e = Value::Tuple(vec![]);
    assert!(matches!(make_matchable(&e), MatchableValue::Empty));
}

#[test]
fn binding_table_is_in_registration_order() {
    let names = lib_bindings();
    assert_eq!(names.len(), 21);
    assert_eq!(names[0], "l_update");
    assert_eq!(names[19], "l_load_image");
    assert_eq!(names[20], "l_load_audio");
}

#[test]
fn unpacking_handle_tuples() {
    let pair = Value::Tuple(vec![Value::Int(3), Value::Int(4)]);
    assert_eq!(unpack_int_int_tuple(&pair), (3, 4));
    let sprite = Value::Tuple(vec![sylt_str("image"), Value::Int(7)]);
    assert_eq!(unpack_sprite_id(&sprite), 7);
    let audio = Value::Tuple(vec![sylt_str("audio"), Value::Int(2)]);
    assert_eq!(unpack_audio_id(&audio), 2);
}

#[test]
fn image_load_in_typecheck_mode_is_a_pure_placeholder() {
    // In typecheck mode the image loader performs no effect and hands
    // back a placeholder handle of the right shape.
    let args = vec![
        sylt_str("tiles.png"),
        Value::Tuple(vec![Value::Int(16), Value::Int(16)]),
    ];
    match l_load_image_prepare(&args, true) {
        Ok(LoadAction::Placeholder(v)) => match v {
            Value::Tuple(vs) => {
                assert_eq!(vs.len(), 2);
                assert!(value_eq(&vs[0], &sylt_str("image")));
                assert!(value_eq(&vs[1], &Value::Int(0)));
            }
            _ => panic!("expected a handle tuple"),
        },
        _ => panic!("expected a placeholder"),
    }
}

#[test]
fn image_load_in_real_mode_names_the_load_to_perform() {
    let args = vec![
        sylt_str("tiles.png"),
        Value::Tuple(vec![Value::Int(16), Value::Int(32)]),
    ];
    match l_load_image_prepare(&args, false) {
        Ok(LoadAction::LoadImage {
            path,
            tile_w,
            tile_h,
        }) => {
            assert_eq!(path, "tiles.png");
            assert_eq!(tile_w, 16);
            assert_eq!(tile_h, 32);
        }
        _ => panic!("expected a load instruction"),
    }
}

#[test]
fn ill_shaped_extern_arguments_are_a_shape_mismatch() {
    // The wrong argument shapes give the distinct mismatch error kind,
    // carrying the function name and the argument types.
    let args = vec![Value::Int(1)];
    match l_load_image_prepare(&args, false) {
        Err(RuntimeError::ExternTypeMismatch(name, tys)) => {
            assert_eq!(name, "l_load_image");
            assert_eq!(tys.len(), 1);
        }
        _ => panic!("expected a shape mismatch"),
    }
    match l_load_audio_prepare(&args, true) {
        Err(RuntimeError::ExternTypeMismatch(name, _)) => {
            // The mismatch names the failing function itself.
            assert_eq!(name, "l_load_audio");
        }
        _ => panic!("expected a shape mismatch"),
    }
}

#[test]
fn audio_load_modes() {
    let args = vec![sylt_str("pling.wav")];
    match l_load_audio_prepare(&args, true) {
        Ok(LoadAction::Placeholder(v)) => match v {
            Value::Tuple(vs) => {
                assert!(value_eq(&vs[0], &sylt_str("audio")));
                assert!(value_eq(&vs[1], &Value::Int(0)));
            }
            _ => panic!("expected a handle tuple"),
        },
        _ => panic!("expected a placeholder"),
    }
    match l_load_audio_prepare(&args, false) {
        Ok(LoadAction::LoadAudio { path }) => assert_eq!(path, "pling.wav"),
        _ => panic!("expected a load instruction"),
    }
}

#[test]
fn hash_agreement_reaches_nested_floats() {
    // Structurally equal tuples that differ only between the two
    // zeroes still hash alike.
    let a = Value::Tuple(vec![Value::Float(0), Value::Int(1)]);
    let b = Value::Tuple(vec![Value::Float(NEG_ZERO_BITS), Value::Int(1)]);
    assert!(value_eq(&a, &b));
    assert_eq!(try_hash(&a).unwrap(), try_hash(&b).unwrap());
}

#[test]
fn hash_value_agrees_with_try_hash() {
    // The precondition form computes the same hash the total form
    // reports.
    let v = Value::Tuple(vec![Value::Int(7), sylt_str("x")]);
    assert_eq!(hash_value(&v), try_hash(&v).unwrap());
    assert_eq!(hash_value(&Value::Nil), try_hash(&Value::Nil).unwrap());
}

#[test]
fn values_render_in_the_fixed_format() {
    assert_eq!(Value::Nil.to_text(), "(nil)");
    assert_eq!(Value::Bool(true).to_text(), "(bool true)");
    assert_eq!(Value::Int(42).to_text(), "(int 42)");
    assert_eq!(Value::Int(-7).to_text(), "(int -7)");
    assert_eq!(Value::Int(0).to_text(), "(int 0)");
    assert_eq!(sylt_str("hi").to_text(), "(string \"hi\")");
    assert_eq!(
        Value::Tuple(vec![Value::Int(1), Value::Int(2)]).to_text(),
        "((int 1), (int 2))"
    );
    assert_eq!(Value::List(3).to_text(), "(array #3)");
    assert_eq!(Value::Unknown.to_text(), "(unknown)");
}
