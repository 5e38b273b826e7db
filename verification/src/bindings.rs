//! The host-binding layer.
//!
//! Extern functions are registered by name, in a fixed order; the
//! virtual machine resolves `ExternFunction` values against that table
//! by index. The host performs the real effects (graphics, audio,
//! input, file loads); this module holds the part the library can
//! decide itself: the registration order, the argument-shape checks,
//! and the placeholder results an extern call must produce in typecheck
//! mode — without performing its real side effect.

use vstd::prelude::*;

verus! {

use crate::convert::types_of_values;
use crate::error::{RuntimeError, RuntimeErrorV};
use crate::value::{lemma_view_values, view_values, Value, ValueV};

/// The names of the host-library bindings, in registration order. The
/// host pairs each name with its real function; indices into this
/// table are what `ExternFunction` values carry.
pub fn lib_bindings() -> (r: Vec<String>)
    ensures
        r@.len() == 21,
        r@[0]@ == "l_update"@,
        r@[1]@ == "l_render"@,
        r@[2]@ == "l_gfx_rect"@,
        r@[3]@ == "l_gfx_sprite"@,
        r@[4]@ == "l_delta"@,
        r@[5]@ == "l_time"@,
        r@[6]@ == "l_random"@,
        r@[7]@ == "l_bind_key"@,
        r@[8]@ == "l_bind_quit"@,
        r@[9]@ == "l_bind_button"@,
        r@[10]@ == "l_bind_axis"@,
        r@[11]@ == "l_bind_mouse"@,
        r@[12]@ == "l_input_down"@,
        r@[13]@ == "l_input_up"@,
        r@[14]@ == "l_input_pressed"@,
        r@[15]@ == "l_input_released"@,
        r@[16]@ == "l_input_value"@,
        r@[17]@ == "l_audio_play"@,
        r@[18]@ == "l_audio_master_gain"@,
        r@[19]@ == "l_load_image"@,
        r@[20]@ == "l_load_audio"@,
{
    let mut lib: Vec<String> = Vec::new();
    lib.push("l_update".to_owned());
    lib.push("l_render".to_owned());
    lib.push("l_gfx_rect".to_owned());
    lib.push("l_gfx_sprite".to_owned());
    lib.push("l_delta".to_owned());
    lib.push("l_time".to_owned());
    lib.push("l_random".to_owned());
    lib.push("l_bind_key".to_owned());
    lib.push("l_bind_quit".to_owned());
    lib.push("l_bind_button".to_owned());
    lib.push("l_bind_axis".to_owned());
    lib.push("l_bind_mouse".to_owned());
    lib.push("l_input_down".to_owned());
    lib.push("l_input_up".to_owned());
    lib.push("l_input_pressed".to_owned());
    lib.push("l_input_released".to_owned());
    lib.push("l_input_value".to_owned());
    lib.push("l_audio_play".to_owned());
    lib.push("l_audio_master_gain".to_owned());
    lib.push("l_load_image".to_owned());
    lib.push("l_load_audio".to_owned());
    lib
}

/// Whether the value is a tuple whose first two elements are integers.
pub open spec fn is_int_int_tuple(v: ValueV) -> bool {
    v matches ValueV::Tuple(vs) && vs.len() >= 2 && (vs[0] is Int) && (vs[1] is Int)
}

/// Pulls the two integers out of an `(int, int)` tuple.
pub fn unpack_int_int_tuple(value: &Value) -> (r: (i64, i64))
    requires
        is_int_int_tuple(value@),
    ensures
        value@ matches ValueV::Tuple(vs) ==> r.0 == vs[0]->Int_0 && r.1 == vs[1]->Int_0,
{
    match value {
        Value::Tuple(t) => {
            proof {
                lemma_view_values(t@);
            }
            let w = match &t[0] {
                Value::Int(w) => *w,
                _ => unreached(),
            };
            let h = match &t[1] {
                Value::Int(h) => *h,
                _ => unreached(),
            };
            (w, h)
        },
        _ => unreached(),
    }
}

/// Whether the value is a handle tuple `(tag, id)` with the given tag
/// and a usable id.
pub open spec fn is_handle_tuple(v: ValueV, tag: Seq<char>) -> bool {
    v matches ValueV::Tuple(vs) && vs.len() >= 2 && vs[0] == ValueV::String(tag) && (
    vs[1] matches ValueV::Int(id) && 0 <= id <= usize::MAX as int)
}

/// Pulls the id out of a sprite handle, `("image", id)`.
pub fn unpack_sprite_id(sprite: &Value) -> (r: usize)
    requires
        is_handle_tuple(sprite@, "image"@),
    ensures
        sprite@ matches ValueV::Tuple(vs) ==> r == vs[1]->Int_0,
{
    match sprite {
        Value::Tuple(t) => {
            proof {
                lemma_view_values(t@);
            }
            match &t[1] {
                Value::Int(id) => *id as usize,
                _ => unreached(),
            }
        },
        _ => unreached(),
    }
}

/// Pulls the id out of an audio handle, `("audio", id)`.
pub fn unpack_audio_id(audio: &Value) -> (r: usize)
    requires
        is_handle_tuple(audio@, "audio"@),
    ensures
        audio@ matches ValueV::Tuple(vs) ==> r == vs[1]->Int_0,
{
    match audio {
        Value::Tuple(t) => {
            proof {
                lemma_view_values(t@);
            }
            match &t[1] {
                Value::Int(id) => *id as usize,
                _ => unreached(),
            }
        },
        _ => unreached(),
    }
}

/// What an asset-loading extern call should do, decided from its
/// arguments alone.
pub enum LoadAction {
    /// Typecheck mode: return this placeholder; perform no effect.
    Placeholder(Value),
    /// Load the image at this path with this tile size, then answer
    /// with [`l_load_image_result`].
    LoadImage { path: String, tile_w: i64, tile_h: i64 },
    /// Load the audio at this path, then answer with
    /// [`l_load_audio_result`].
    LoadAudio { path: String },
}

/// The handle tuple `("image", slot)`.
pub fn l_load_image_result(slot: i64) -> (v: Value)
    ensures
        v@ matches ValueV::Tuple(vs) && vs.len() == 2 && vs[0] == ValueV::String("image"@)
            && vs[1] == ValueV::Int(slot),
{
    let mut t: Vec<Value> = Vec::new();
    t.push(crate::value::sylt_str("image"));
    t.push(Value::Int(slot));
    proof {
        lemma_view_values(t@);
    }
    Value::Tuple(t)
}

/// The handle tuple `("audio", id)`.
pub fn l_load_audio_result(id: i64) -> (v: Value)
    ensures
        v@ matches ValueV::Tuple(vs) && vs.len() == 2 && vs[0] == ValueV::String("audio"@)
            && vs[1] == ValueV::Int(id),
{
    let mut t: Vec<Value> = Vec::new();
    t.push(crate::value::sylt_str("audio"));
    t.push(Value::Int(id));
    proof {
        lemma_view_values(t@);
    }
    Value::Tuple(t)
}

/// Whether these are well-shaped arguments for the image loader: a
/// path and a tile-size `(int, int)` tuple.
pub open spec fn image_args_ok(vs: Seq<ValueV>) -> bool {
    vs.len() == 2 && (vs[0] is String) && is_int_int_tuple(vs[1])
}

/// Whether these are well-shaped arguments for the audio loader: a
/// single path.
pub open spec fn audio_args_ok(vs: Seq<ValueV>) -> bool {
    vs.len() == 1 && (vs[0] is String)
}

/// Decides what the `l_load_image` extern call does: in typecheck mode
/// a placeholder handle — and no effect at all; for a real run, the
/// load the host must perform. Ill-shaped arguments are an
/// argument-shape mismatch, never a host failure.
pub fn l_load_image_prepare(values: &Vec<Value>, typecheck: bool) -> (r: Result<
    LoadAction,
    RuntimeError,
>)
    ensures
        image_args_ok(view_values(values@)) && typecheck ==> (r matches Result::Ok(
            LoadAction::Placeholder(v),
        ) && (v@ matches ValueV::Tuple(vs) && vs.len() == 2 && vs[0] == ValueV::String("image"@)
            && vs[1] == ValueV::Int(0))),
        image_args_ok(view_values(values@)) && !typecheck ==> (r matches Result::Ok(
            LoadAction::LoadImage { path, tile_w, tile_h },
        ) && view_values(values@)[0] == ValueV::String(path@) && (
        view_values(values@)[1] matches ValueV::Tuple(ts) && tile_w == ts[0]->Int_0 && tile_h
            == ts[1]->Int_0)),
        !image_args_ok(view_values(values@)) ==> (r matches Result::Err(e) && (e@
            matches RuntimeErrorV::ExternTypeMismatch(name, tys) && name == "l_load_image"@ && tys
            == crate::convert::spec_types_of(view_values(values@)))),
{
    proof {
        lemma_view_values(values@);
    }
    if values.len() == 2 {
        let shape_ok = matches!(&values[0], Value::String(_)) && (match &values[1] {
            Value::Tuple(t) => t.len() >= 2 && matches!(&t[0], Value::Int(_)) && matches!(
                &t[1],
                Value::Int(_),
            ),
            _ => false,
        });
        proof {
            match values@[1] {
                Value::Tuple(t) => {
                    lemma_view_values(t@);
                },
                _ => {},
            }
        }
        if shape_ok {
            if typecheck {
                return Ok(LoadAction::Placeholder(l_load_image_result(0)));
            }
            let path = match &values[0] {
                Value::String(p) => p.clone(),
                _ => unreached(),
            };
            let (w, h) = unpack_int_int_tuple(&values[1]);
            return Ok(LoadAction::LoadImage { path, tile_w: w, tile_h: h });
        }
    }
    Err(
        RuntimeError::ExternTypeMismatch("l_load_image".to_owned(), types_of_values(values)),
    )
}

/// Decides what the `l_load_audio` extern call does; see
/// [`l_load_image_prepare`]. A mismatch carries this function's own
/// name.
pub fn l_load_audio_prepare(values: &Vec<Value>, typecheck: bool) -> (r: Result<
    LoadAction,
    RuntimeError,
>)
    ensures
        audio_args_ok(view_values(values@)) && typecheck ==> (r matches Result::Ok(
            LoadAction::Placeholder(v),
        ) && (v@ matches ValueV::Tuple(vs) && vs.len() == 2 && vs[0] == ValueV::String("audio"@)
            && vs[1] == ValueV::Int(0))),
        audio_args_ok(view_values(values@)) && !typecheck ==> (r matches Result::Ok(
            LoadAction::LoadAudio { path },
        ) && view_values(values@)[0] == ValueV::String(path@)),
        !audio_args_ok(view_values(values@)) ==> (r matches Result::Err(e) && (e@
            matches RuntimeErrorV::ExternTypeMismatch(name, tys) && name == "l_load_audio"@ && tys
            == crate::convert::spec_types_of(view_values(values@)))),
{
    proof {
        lemma_view_values(values@);
    }
    if values.len() == 1 {
        if matches!(&values[0], Value::String(_)) {
            if typecheck {
                return Ok(LoadAction::Placeholder(l_load_audio_result(0)));
            }
            let path = match &values[0] {
                Value::String(p) => p.clone(),
                _ => unreached(),
            };
            return Ok(LoadAction::LoadAudio { path });
        }
    }
    Err(
        RuntimeError::ExternTypeMismatch("l_load_audio".to_owned(), types_of_values(values)),
    )
}

} // verus!
