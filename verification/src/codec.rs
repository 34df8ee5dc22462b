//! The wire-format codec for elements.
//!
//! Every element reaches the library as one JSON object with a `t`
//! discriminator.  Decoding is strict on the discriminator, lenient on
//! unknown fields, and validates the geometry; encoding lays a decoded
//! element back out in a fixed field order.

use vstd::prelude::*;
use crate::element::{
    Element, ElementV, Line, LineV, Pad, PadV, PythonError, Rect, RectV, Smd, SmdV, Text, TextV,
    Name, Reference, element_valid, line_valid, pad_valid, rect_valid, smd_valid, text_valid,
};
use crate::error::{MpError, MpErrorV};
use crate::geom::NM_LIMIT;
use crate::json::{
    JErr, Json, JsonV, fields_view, sp_obj_get, obj_get, sp_parse, parse_json, arr_view,
};
use crate::layers::{Layer, layer_of_text, is_footprint_layer};
use crate::strutil::str_eq;

verus! {

broadcast use vstd::string::group_string_axioms;

/// The diagnostic for a variant whose fields are missing, mistyped or
/// out of the variant's invariants.
pub open spec fn bad_elem_text(name: Seq<char>, s: Seq<char>) -> Seq<char> {
    "bad "@ + name + " in Element "@ + s
}

/// The number bound to `key`.
pub open spec fn g_num(fields: Seq<(Seq<char>, JsonV)>, key: Seq<char>) -> Option<int> {
    match sp_obj_get(fields, key) {
        Some(JsonV::Num(v)) => Some(v),
        _ => None,
    }
}

/// The boolean bound to `key`.
pub open spec fn g_bool(fields: Seq<(Seq<char>, JsonV)>, key: Seq<char>) -> Option<bool> {
    match sp_obj_get(fields, key) {
        Some(JsonV::Bool(b)) => Some(b),
        _ => None,
    }
}

/// The string bound to `key`.
pub open spec fn g_str(fields: Seq<(Seq<char>, JsonV)>, key: Seq<char>) -> Option<Seq<char>> {
    match sp_obj_get(fields, key) {
        Some(JsonV::Str(t)) => Some(t),
        _ => None,
    }
}

/// The optional number bound to `key`: absent and null both mean none,
/// and any other kind of value is an error.
pub open spec fn g_opt_num(fields: Seq<(Seq<char>, JsonV)>, key: Seq<char>) -> Result<
    Option<int>,
    (),
> {
    match sp_obj_get(fields, key) {
        None => Ok(None),
        Some(JsonV::Null) => Ok(None),
        Some(JsonV::Num(v)) => Ok(Some(v)),
        Some(_) => Err(()),
    }
}

/// The optional boolean bound to `key`, as [`g_opt_num`].
pub open spec fn g_opt_bool(fields: Seq<(Seq<char>, JsonV)>, key: Seq<char>) -> Result<
    Option<bool>,
    (),
> {
    match sp_obj_get(fields, key) {
        None => Ok(None),
        Some(JsonV::Null) => Ok(None),
        Some(JsonV::Bool(b)) => Ok(Some(b)),
        Some(_) => Err(()),
    }
}

/// The footprint layer bound to `key` as a wire name.
pub open spec fn g_layer(fields: Seq<(Seq<char>, JsonV)>, key: Seq<char>) -> Option<Layer> {
    match g_str(fields, key) {
        Some(t) => layer_of_text(t),
        None => None,
    }
}

/// The footprint layers named by a list of wire names.
pub open spec fn layers_of_items(items: Seq<JsonV>) -> Option<Seq<Layer>>
    decreases items.len(),
{
    if items.len() == 0 {
        Some(Seq::empty())
    } else {
        match items[0] {
            JsonV::Str(t) => match layer_of_text(t) {
                Some(l) => match layers_of_items(items.drop_first()) {
                    Some(rest) => Some(seq![l] + rest),
                    None => None,
                },
                None => None,
            },
            _ => None,
        }
    }
}

/// The list of footprint layers bound to `key`.
pub open spec fn g_layers(fields: Seq<(Seq<char>, JsonV)>, key: Seq<char>) -> Option<Seq<Layer>> {
    match sp_obj_get(fields, key) {
        Some(JsonV::Arr(items)) => layers_of_items(items),
        _ => None,
    }
}

/// A rectangle read from an object's fields; `forced` carries the
/// layer when the discriminator was a layer-stamped alias.
pub open spec fn sp_rect(
    fields: Seq<(Seq<char>, JsonV)>,
    forced: Option<Layer>,
    s: Seq<char>,
) -> Result<ElementV, MpErrorV> {
    let lo = match forced {
        Some(l) => Some(l),
        None => g_layer(fields, "layer"@),
    };
    if g_num(fields, "x"@) is Some && g_num(fields, "y"@) is Some && g_num(fields, "dx"@) is Some
        && g_num(fields, "dy"@) is Some && g_num(fields, "w"@) is Some && g_bool(
        fields,
        "filled"@,
    ) is Some && lo is Some && g_opt_num(fields, "corner"@) is Ok {
        let r = RectV {
            x: g_num(fields, "x"@)->Some_0,
            y: g_num(fields, "y"@)->Some_0,
            dx: g_num(fields, "dx"@)->Some_0,
            dy: g_num(fields, "dy"@)->Some_0,
            w: g_num(fields, "w"@)->Some_0,
            filled: g_bool(fields, "filled"@)->Some_0,
            layer: lo->Some_0,
            corner: g_opt_num(fields, "corner"@)->Ok_0,
        };
        if rect_valid(r) {
            Ok(ElementV::Rect(r))
        } else {
            Err(MpErrorV::BadElement(bad_elem_text("Rect"@, s)))
        }
    } else {
        Err(MpErrorV::BadElement(bad_elem_text("Rect"@, s)))
    }
}

/// A segment read from an object's fields.
pub open spec fn sp_line(fields: Seq<(Seq<char>, JsonV)>, s: Seq<char>) -> Result<
    ElementV,
    MpErrorV,
> {
    if g_num(fields, "x1"@) is Some && g_num(fields, "y1"@) is Some && g_num(
        fields,
        "x2"@,
    ) is Some && g_num(fields, "y2"@) is Some && g_num(fields, "w"@) is Some && g_layer(
        fields,
        "layer"@,
    ) is Some {
        let l = LineV {
            x1: g_num(fields, "x1"@)->Some_0,
            y1: g_num(fields, "y1"@)->Some_0,
            x2: g_num(fields, "x2"@)->Some_0,
            y2: g_num(fields, "y2"@)->Some_0,
            w: g_num(fields, "w"@)->Some_0,
            layer: g_layer(fields, "layer"@)->Some_0,
        };
        if line_valid(l) {
            Ok(ElementV::Line(l))
        } else {
            Err(MpErrorV::BadElement(bad_elem_text("Line"@, s)))
        }
    } else {
        Err(MpErrorV::BadElement(bad_elem_text("Line"@, s)))
    }
}

/// A text read from an object's fields; `name` names the variant in
/// the diagnostic.
pub open spec fn sp_text(
    fields: Seq<(Seq<char>, JsonV)>,
    s: Seq<char>,
    name: Seq<char>,
) -> Result<TextV, MpErrorV> {
    if g_num(fields, "x"@) is Some && g_num(fields, "y"@) is Some && g_num(fields, "dy"@) is Some
        && g_str(fields, "txt"@) is Some && g_num(fields, "thickness"@) is Some && g_opt_bool(
        fields,
        "shorten"@,
    ) is Ok && g_layer(fields, "layer"@) is Some {
        let t = TextV {
            x: g_num(fields, "x"@)->Some_0,
            y: g_num(fields, "y"@)->Some_0,
            dy: g_num(fields, "dy"@)->Some_0,
            txt: g_str(fields, "txt"@)->Some_0,
            thickness: g_num(fields, "thickness"@)->Some_0,
            shorten: g_opt_bool(fields, "shorten"@)->Ok_0,
            layer: g_layer(fields, "layer"@)->Some_0,
        };
        if text_valid(t) {
            Ok(t)
        } else {
            Err(MpErrorV::BadElement(bad_elem_text(name, s)))
        }
    } else {
        Err(MpErrorV::BadElement(bad_elem_text(name, s)))
    }
}

/// A surface-mount pad read from an object's fields.
pub open spec fn sp_smd(fields: Seq<(Seq<char>, JsonV)>, s: Seq<char>) -> Result<
    ElementV,
    MpErrorV,
> {
    if g_str(fields, "name"@) is Some && g_num(fields, "x"@) is Some && g_num(
        fields,
        "y"@,
    ) is Some && g_num(fields, "dx"@) is Some && g_num(fields, "dy"@) is Some && g_layers(
        fields,
        "layers"@,
    ) is Some {
        let m = SmdV {
            name: g_str(fields, "name"@)->Some_0,
            x: g_num(fields, "x"@)->Some_0,
            y: g_num(fields, "y"@)->Some_0,
            dx: g_num(fields, "dx"@)->Some_0,
            dy: g_num(fields, "dy"@)->Some_0,
            layers: g_layers(fields, "layers"@)->Some_0,
        };
        if smd_valid(m) {
            Ok(ElementV::Smd(m))
        } else {
            Err(MpErrorV::BadElement(bad_elem_text("Smd"@, s)))
        }
    } else {
        Err(MpErrorV::BadElement(bad_elem_text("Smd"@, s)))
    }
}

/// A through-hole pad read from an object's fields.
pub open spec fn sp_pad(fields: Seq<(Seq<char>, JsonV)>, s: Seq<char>) -> Result<
    ElementV,
    MpErrorV,
> {
    if g_str(fields, "name"@) is Some && g_num(fields, "x"@) is Some && g_num(
        fields,
        "y"@,
    ) is Some && g_num(fields, "dx"@) is Some && g_num(fields, "dy"@) is Some && g_num(
        fields,
        "drill"@,
    ) is Some && g_layers(fields, "layers"@) is Some {
        let p = PadV {
            name: g_str(fields, "name"@)->Some_0,
            x: g_num(fields, "x"@)->Some_0,
            y: g_num(fields, "y"@)->Some_0,
            dx: g_num(fields, "dx"@)->Some_0,
            dy: g_num(fields, "dy"@)->Some_0,
            drill: g_num(fields, "drill"@)->Some_0,
            layers: g_layers(fields, "layers"@)->Some_0,
        };
        if pad_valid(p) {
            Ok(ElementV::Pad(p))
        } else {
            Err(MpErrorV::BadElement(bad_elem_text("Pad"@, s)))
        }
    } else {
        Err(MpErrorV::BadElement(bad_elem_text("Pad"@, s)))
    }
}

/// The element a parsed wire value denotes.  `s` is the original text,
/// quoted in diagnostics.
pub open spec fn sp_elem_of_json(j: JsonV, s: Seq<char>) -> Result<ElementV, MpErrorV> {
    match j {
        JsonV::Obj(fields) => match sp_obj_get(fields, "t"@) {
            None => Err(MpErrorV::BadElement("missing 't' in Element "@ + s)),
            Some(tv) => match tv {
                JsonV::Str(t) => if t == "Rect"@ {
                    sp_rect(fields, None, s)
                } else if t == "FFab"@ {
                    sp_rect(fields, Some(Layer::FFab), s)
                } else if t == "FCrtYd"@ {
                    sp_rect(fields, Some(Layer::FCrtYd), s)
                } else if t == "FPaste"@ {
                    sp_rect(fields, Some(Layer::FPaste), s)
                } else if t == "FMask"@ {
                    sp_rect(fields, Some(Layer::FMask), s)
                } else if t == "Line"@ {
                    sp_line(fields, s)
                } else if t == "Name"@ {
                    match sp_text(fields, s, "Name"@) {
                        Ok(tv) => Ok(ElementV::Name(TextV { shorten: Some(true), ..tv })),
                        Err(e) => Err(e),
                    }
                } else if t == "Reference"@ {
                    match sp_text(fields, s, "Reference"@) {
                        Ok(tv) => Ok(ElementV::Reference(tv)),
                        Err(e) => Err(e),
                    }
                } else if t == "Smd"@ {
                    sp_smd(fields, s)
                } else if t == "Pad"@ {
                    sp_pad(fields, s)
                } else if t == "PythonError"@ {
                    match g_str(fields, "message"@) {
                        Some(m) => Ok(ElementV::PythonError(m)),
                        None => Err(MpErrorV::BadElement(bad_elem_text("PythonError"@, s))),
                    }
                } else {
                    Err(MpErrorV::BadElement("Unknown type: "@ + t))
                },
                _ => Err(MpErrorV::BadElement("unknown 't' in Element "@ + s)),
            },
        },
        _ => Err(MpErrorV::BadElement("missing 't' in Element "@ + s)),
    }
}

/// The element a wire text denotes: parse, then read the object.
pub open spec fn sp_decode(s: Seq<char>) -> Result<ElementV, MpErrorV> {
    match sp_parse(s) {
        Err(JErr::Syntax) => Err(MpErrorV::Json("bad JSON in Element "@ + s)),
        Err(JErr::Range) => Err(
            MpErrorV::BadElement("non-finite or out-of-range number in Element "@ + s),
        ),
        Ok(j) => sp_elem_of_json(j, s),
    }
}

/// A decoded element honours its variant's invariants.
pub proof fn lemma_decode_valid(s: Seq<char>)
    ensures
        sp_decode(s) is Ok ==> element_valid(sp_decode(s)->Ok_0),
{
}

/// Decoding is a function of the text alone: two decodes of equal
/// texts yield structurally equal results.
pub proof fn lemma_decode_deterministic(s1: Seq<char>, s2: Seq<char>)
    requires
        s1 == s2,
    ensures
        sp_decode(s1) == sp_decode(s2),
{
}


/// Exec twin of [`g_num`].
fn get_num(fields: &Vec<(String, Json)>, key: &str) -> (r: Option<i64>)
    ensures
        match r {
            Some(v) => g_num(fields_view(fields@), key@) == Some(v as int),
            None => g_num(fields_view(fields@), key@) is None,
        },
{
    match obj_get(fields, key) {
        Some(j) => match j {
            Json::Num(v) => Some(*v),
            _ => None,
        },
        None => None,
    }
}

/// Exec twin of [`g_bool`].
fn get_bool(fields: &Vec<(String, Json)>, key: &str) -> (r: Option<bool>)
    ensures
        match r {
            Some(v) => g_bool(fields_view(fields@), key@) == Some(v),
            None => g_bool(fields_view(fields@), key@) is None,
        },
{
    match obj_get(fields, key) {
        Some(j) => match j {
            Json::Bool(b) => Some(*b),
            _ => None,
        },
        None => None,
    }
}

/// Exec twin of [`g_str`].
fn get_str(fields: &Vec<(String, Json)>, key: &str) -> (r: Option<String>)
    ensures
        match r {
            Some(v) => g_str(fields_view(fields@), key@) == Some(v@),
            None => g_str(fields_view(fields@), key@) is None,
        },
{
    match obj_get(fields, key) {
        Some(j) => match j {
            Json::Str(t) => Some(t.clone()),
            _ => None,
        },
        None => None,
    }
}

/// Exec twin of [`g_opt_num`].
fn get_opt_num(fields: &Vec<(String, Json)>, key: &str) -> (r: Result<Option<i64>, ()>)
    ensures
        match r {
            Ok(None) => g_opt_num(fields_view(fields@), key@) == Ok::<Option<int>, ()>(None),
            Ok(Some(v)) => g_opt_num(fields_view(fields@), key@) == Ok::<Option<int>, ()>(
                Some(v as int),
            ),
            Err(()) => g_opt_num(fields_view(fields@), key@) is Err,
        },
{
    match obj_get(fields, key) {
        None => Ok(None),
        Some(j) => match j {
            Json::Null => Ok(None),
            Json::Num(v) => Ok(Some(*v)),
            _ => Err(()),
        },
    }
}

/// Exec twin of [`g_opt_bool`].
fn get_opt_bool(fields: &Vec<(String, Json)>, key: &str) -> (r: Result<Option<bool>, ()>)
    ensures
        match r {
            Ok(v) => g_opt_bool(fields_view(fields@), key@) == Ok::<Option<bool>, ()>(v),
            Err(()) => g_opt_bool(fields_view(fields@), key@) is Err,
        },
{
    match obj_get(fields, key) {
        None => Ok(None),
        Some(j) => match j {
            Json::Null => Ok(None),
            Json::Bool(b) => Ok(Some(*b)),
            _ => Err(()),
        },
    }
}

/// Exec twin of [`crate::layers::layer_of_text`].
pub fn layer_from_text(s: &str) -> (r: Option<Layer>)
    ensures
        r == layer_of_text(s@),
{
    if str_eq(s, "F.Cu") {
        Some(Layer::FCu)
    } else if str_eq(s, "*.Cu") {
        Some(Layer::Cu)
    } else if str_eq(s, "F.SilkS") {
        Some(Layer::FSilkS)
    } else if str_eq(s, "F.Fab") {
        Some(Layer::FFab)
    } else if str_eq(s, "F.CrtYd") {
        Some(Layer::FCrtYd)
    } else if str_eq(s, "F.Mask") {
        Some(Layer::FMask)
    } else if str_eq(s, "*.Mask") {
        Some(Layer::Mask)
    } else if str_eq(s, "F.Paste") {
        Some(Layer::FPaste)
    } else {
        None
    }
}

/// Exec twin of [`g_layer`].
fn get_layer(fields: &Vec<(String, Json)>, key: &str) -> (r: Option<Layer>)
    ensures
        r == g_layer(fields_view(fields@), key@),
{
    match get_str(fields, key) {
        Some(t) => layer_from_text(t.as_str()),
        None => None,
    }
}

/// Exec twin of [`g_layers`].
fn get_layers(fields: &Vec<(String, Json)>, key: &str) -> (r: Option<Vec<Layer>>)
    ensures
        match r {
            Some(ls) => g_layers(fields_view(fields@), key@) == Some(ls@),
            None => g_layers(fields_view(fields@), key@) is None,
        },
{
    let items = match obj_get(fields, key) {
        Some(j) => match j {
            Json::Arr(items) => items,
            _ => {
                return None;
            },
        },
        None => {
            return None;
        },
    };
    let ghost vs = arr_view(items@);
    proof {
        crate::json::lemma_view_arr(*items);
    }
    let mut out: Vec<Layer> = Vec::new();
    let mut ii: usize = 0;
    proof {
        assert(vs.skip(0) =~= vs);
    }
    while ii < items.len()
        invariant
            vs == arr_view(items@),
            ii <= items@.len(),
            g_layers(fields_view(fields@), key@) == layers_of_items(vs),
            (match layers_of_items(vs.skip(ii as int)) {
                Some(rest) => layers_of_items(vs) == Some(out@ + rest),
                None => layers_of_items(vs) is None,
            }),
        decreases items@.len() - ii,
    {
        let ghost rest0 = vs.skip(ii as int);
        let l = match &items[ii] {
            Json::Str(t) => match layer_from_text(t.as_str()) {
                Some(l) => l,
                None => {
                    proof {
                        assert(rest0[0] == vs[ii as int]);
                    }
                    return None;
                },
            },
            _ => {
                proof {
                    assert(rest0[0] == vs[ii as int]);
                }
                return None;
            },
        };
        let ghost out0 = out@;
        out.push(l);
        proof {
            assert(rest0[0] == vs[ii as int]);
            assert(rest0.drop_first() =~= vs.skip(ii + 1));
            match layers_of_items(vs.skip(ii + 1)) {
                Some(rest) => {
                    assert(layers_of_items(rest0) == Some(seq![l] + rest));
                    assert(out@ + rest =~= out0 + (seq![l] + rest));
                },
                None => {},
            }
        }
        ii += 1;
    }
    proof {
        assert(vs.skip(items@.len() as int).len() == 0);
        assert(out@ + Seq::<Layer>::empty() =~= out@);
    }
    Some(out)
}

/// Builds the diagnostic of [`bad_elem_text`].
fn bad_elem(name: &str, s: &str) -> (r: MpError)
    ensures
        r@ == MpErrorV::BadElement(bad_elem_text(name@, s@)),
{
    let mut m = String::from_str("bad ");
    m.append(name);
    m.append(" in Element ");
    m.append(s);
    proof {
        assert(m@ =~= bad_elem_text(name@, s@));
    }
    MpError::BadElement(m)
}

/// Builds a diagnostic of the form `prefix` then the element text.
fn prefixed_msg(prefix: &str, s: &str) -> (r: String)
    ensures
        r@ == prefix@ + s@,
{
    let mut m = String::from_str(prefix);
    m.append(s);
    m
}

/// Exec twin of [`crate::element::rect_valid`].
fn rect_check(r: &Rect) -> (b: bool)
    ensures
        b == rect_valid(r@),
{
    let corner_ok = match r.corner {
        Some(c) => {
            let half = if r.dx <= r.dy {
                r.dx / 2
            } else {
                r.dy / 2
            };
            0 <= c && c <= half
        },
        None => true,
    };
    -NM_LIMIT <= r.x && r.x <= NM_LIMIT && -NM_LIMIT <= r.y && r.y <= NM_LIMIT && 0 < r.dx && r.dx
        <= NM_LIMIT && 0 < r.dy && r.dy <= NM_LIMIT && 0 <= r.w && r.w <= NM_LIMIT && (r.filled
        || r.w > 0) && corner_ok && crate::layers::is_footprint_layer_of(r.layer)
}

/// Exec twin of [`crate::element::line_valid`].
fn line_check(l: &Line) -> (b: bool)
    ensures
        b == line_valid(l@),
{
    -NM_LIMIT <= l.x1 && l.x1 <= NM_LIMIT && -NM_LIMIT <= l.y1 && l.y1 <= NM_LIMIT && -NM_LIMIT
        <= l.x2 && l.x2 <= NM_LIMIT && -NM_LIMIT <= l.y2 && l.y2 <= NM_LIMIT && 0 < l.w && l.w
        <= NM_LIMIT && crate::layers::is_footprint_layer_of(l.layer)
}

/// Exec twin of [`crate::element::text_valid`].
fn text_check(t: &Text) -> (b: bool)
    ensures
        b == text_valid(t@),
{
    -NM_LIMIT <= t.x && t.x <= NM_LIMIT && -NM_LIMIT <= t.y && t.y <= NM_LIMIT && 0 < t.dy && t.dy
        <= NM_LIMIT && 0 < t.thickness && t.thickness <= NM_LIMIT
        && crate::layers::is_footprint_layer_of(t.layer)
}

/// The layer list checks shared by the two pad kinds.
fn layers_check(ls: &Vec<Layer>) -> (b: bool)
    ensures
        b == (ls@.contains(Layer::FCu) && forall|i: int|
            0 <= i < ls@.len() ==> is_footprint_layer(#[trigger] ls@[i])),
{
    let mut has_cu = false;
    let mut all_fp = true;
    let mut i: usize = 0;
    while i < ls.len()
        invariant
            i <= ls@.len(),
            has_cu == exists|k: int| 0 <= k < i && ls@[k] == Layer::FCu,
            all_fp == forall|k: int| 0 <= k < i ==> is_footprint_layer(#[trigger] ls@[k]),
        decreases ls@.len() - i,
    {
        let l = ls[i];
        if matches!(l, Layer::FCu) {
            has_cu = true;
        }
        if !crate::layers::is_footprint_layer_of(l) {
            all_fp = false;
        }
        i += 1;
    }
    proof {
        if has_cu {
            assert(ls@.contains(Layer::FCu));
        }
        if ls@.contains(Layer::FCu) {
            let k = choose|k: int| 0 <= k < ls@.len() && ls@[k] == Layer::FCu;
            assert(0 <= k < i && ls@[k] == Layer::FCu);
        }
    }
    has_cu && all_fp
}

/// Exec twin of [`crate::element::smd_valid`].
fn smd_check(m: &Smd) -> (b: bool)
    ensures
        b == smd_valid(m@),
{
    -NM_LIMIT <= m.x && m.x <= NM_LIMIT && -NM_LIMIT <= m.y && m.y <= NM_LIMIT && 0 < m.dx && m.dx
        <= NM_LIMIT && 0 < m.dy && m.dy <= NM_LIMIT && layers_check(&m.layers)
}

/// Exec twin of [`crate::element::pad_valid`].
fn pad_check(p: &Pad) -> (b: bool)
    ensures
        b == pad_valid(p@),
{
    let half = if p.dx <= p.dy {
        p.dx
    } else {
        p.dy
    };
    -NM_LIMIT <= p.x && p.x <= NM_LIMIT && -NM_LIMIT <= p.y && p.y <= NM_LIMIT && 0 < p.dx && p.dx
        <= NM_LIMIT && 0 < p.dy && p.dy <= NM_LIMIT && 0 < p.drill && p.drill < half
        && layers_check(&p.layers)
}

/// Exec twin of [`sp_rect`].
fn rect_of_fields(fields: &Vec<(String, Json)>, forced: Option<Layer>, s: &str) -> (r: Result<
    Element,
    MpError,
>)
    ensures
        match r {
            Ok(e) => sp_rect(fields_view(fields@), forced, s@) == Ok::<ElementV, MpErrorV>(e@),
            Err(er) => sp_rect(fields_view(fields@), forced, s@) == Err::<ElementV, MpErrorV>(er@),
        },
{
    let lo = match forced {
        Some(l) => Some(l),
        None => get_layer(fields, "layer"),
    };
    let x = get_num(fields, "x");
    let y = get_num(fields, "y");
    let dx = get_num(fields, "dx");
    let dy = get_num(fields, "dy");
    let w = get_num(fields, "w");
    let filled = get_bool(fields, "filled");
    let corner = get_opt_num(fields, "corner");
    if x.is_some() && y.is_some() && dx.is_some() && dy.is_some() && w.is_some()
        && filled.is_some() && lo.is_some() && corner.is_ok() {
        let r = Rect {
            x: x.unwrap(),
            y: y.unwrap(),
            dx: dx.unwrap(),
            dy: dy.unwrap(),
            w: w.unwrap(),
            filled: filled.unwrap(),
            layer: lo.unwrap(),
            corner: corner.unwrap(),
        };
        if rect_check(&r) {
            Ok(Element::Rect(r))
        } else {
            Err(bad_elem("Rect", s))
        }
    } else {
        Err(bad_elem("Rect", s))
    }
}

/// Exec twin of [`sp_line`].
fn line_of_fields(fields: &Vec<(String, Json)>, s: &str) -> (r: Result<Element, MpError>)
    ensures
        match r {
            Ok(e) => sp_line(fields_view(fields@), s@) == Ok::<ElementV, MpErrorV>(e@),
            Err(er) => sp_line(fields_view(fields@), s@) == Err::<ElementV, MpErrorV>(er@),
        },
{
    let x1 = get_num(fields, "x1");
    let y1 = get_num(fields, "y1");
    let x2 = get_num(fields, "x2");
    let y2 = get_num(fields, "y2");
    let w = get_num(fields, "w");
    let lo = get_layer(fields, "layer");
    if x1.is_some() && y1.is_some() && x2.is_some() && y2.is_some() && w.is_some() && lo.is_some()
    {
        let l = Line {
            x1: x1.unwrap(),
            y1: y1.unwrap(),
            x2: x2.unwrap(),
            y2: y2.unwrap(),
            w: w.unwrap(),
            layer: lo.unwrap(),
        };
        if line_check(&l) {
            Ok(Element::Line(l))
        } else {
            Err(bad_elem("Line", s))
        }
    } else {
        Err(bad_elem("Line", s))
    }
}

/// Exec twin of [`sp_text`].
fn text_of_fields(fields: &Vec<(String, Json)>, s: &str, name: &str) -> (r: Result<Text, MpError>)
    ensures
        match r {
            Ok(t) => sp_text(fields_view(fields@), s@, name@) == Ok::<TextV, MpErrorV>(t@),
            Err(er) => sp_text(fields_view(fields@), s@, name@) == Err::<TextV, MpErrorV>(er@),
        },
{
    let x = get_num(fields, "x");
    let y = get_num(fields, "y");
    let dy = get_num(fields, "dy");
    let txt = get_str(fields, "txt");
    let thickness = get_num(fields, "thickness");
    let shorten = get_opt_bool(fields, "shorten");
    let lo = get_layer(fields, "layer");
    if x.is_some() && y.is_some() && dy.is_some() && txt.is_some() && thickness.is_some()
        && shorten.is_ok() && lo.is_some() {
        let t = Text {
            x: x.unwrap(),
            y: y.unwrap(),
            dy: dy.unwrap(),
            txt: txt.unwrap(),
            thickness: thickness.unwrap(),
            shorten: shorten.unwrap(),
            layer: lo.unwrap(),
        };
        if text_check(&t) {
            Ok(t)
        } else {
            Err(bad_elem(name, s))
        }
    } else {
        Err(bad_elem(name, s))
    }
}

/// Exec twin of [`sp_smd`].
fn smd_of_fields(fields: &Vec<(String, Json)>, s: &str) -> (r: Result<Element, MpError>)
    ensures
        match r {
            Ok(e) => sp_smd(fields_view(fields@), s@) == Ok::<ElementV, MpErrorV>(e@),
            Err(er) => sp_smd(fields_view(fields@), s@) == Err::<ElementV, MpErrorV>(er@),
        },
{
    let name = get_str(fields, "name");
    let x = get_num(fields, "x");
    let y = get_num(fields, "y");
    let dx = get_num(fields, "dx");
    let dy = get_num(fields, "dy");
    let layers = get_layers(fields, "layers");
    if name.is_some() && x.is_some() && y.is_some() && dx.is_some() && dy.is_some()
        && layers.is_some() {
        let m = Smd {
            name: name.unwrap(),
            x: x.unwrap(),
            y: y.unwrap(),
            dx: dx.unwrap(),
            dy: dy.unwrap(),
            layers: layers.unwrap(),
        };
        if smd_check(&m) {
            Ok(Element::Smd(m))
        } else {
            Err(bad_elem("Smd", s))
        }
    } else {
        Err(bad_elem("Smd", s))
    }
}

/// Exec twin of [`sp_pad`].
fn pad_of_fields(fields: &Vec<(String, Json)>, s: &str) -> (r: Result<Element, MpError>)
    ensures
        match r {
            Ok(e) => sp_pad(fields_view(fields@), s@) == Ok::<ElementV, MpErrorV>(e@),
            Err(er) => sp_pad(fields_view(fields@), s@) == Err::<ElementV, MpErrorV>(er@),
        },
{
    let name = get_str(fields, "name");
    let x = get_num(fields, "x");
    let y = get_num(fields, "y");
    let dx = get_num(fields, "dx");
    let dy = get_num(fields, "dy");
    let drill = get_num(fields, "drill");
    let layers = get_layers(fields, "layers");
    if name.is_some() && x.is_some() && y.is_some() && dx.is_some() && dy.is_some()
        && drill.is_some() && layers.is_some() {
        let p = Pad {
            name: name.unwrap(),
            x: x.unwrap(),
            y: y.unwrap(),
            dx: dx.unwrap(),
            dy: dy.unwrap(),
            drill: drill.unwrap(),
            layers: layers.unwrap(),
        };
        if pad_check(&p) {
            Ok(Element::Pad(p))
        } else {
            Err(bad_elem("Pad", s))
        }
    } else {
        Err(bad_elem("Pad", s))
    }
}

/// Exec twin of [`sp_elem_of_json`].
pub fn elem_of_json(j: &Json, s: &str) -> (r: Result<Element, MpError>)
    ensures
        match r {
            Ok(e) => sp_elem_of_json(j@, s@) == Ok::<ElementV, MpErrorV>(e@),
            Err(er) => sp_elem_of_json(j@, s@) == Err::<ElementV, MpErrorV>(er@),
        },
{
    let fields = match j {
        Json::Obj(fields) => fields,
        _ => {
            return Err(MpError::BadElement(prefixed_msg("missing 't' in Element ", s)));
        },
    };
    proof {
        crate::json::lemma_view_obj(*fields);
    }
    let t = match obj_get(fields, "t") {
        None => {
            return Err(MpError::BadElement(prefixed_msg("missing 't' in Element ", s)));
        },
        Some(tv) => match tv {
            Json::Str(t) => t,
            _ => {
                return Err(MpError::BadElement(prefixed_msg("unknown 't' in Element ", s)));
            },
        },
    };
    let t = t.as_str();
    if str_eq(t, "Rect") {
        rect_of_fields(fields, None, s)
    } else if str_eq(t, "FFab") {
        rect_of_fields(fields, Some(Layer::FFab), s)
    } else if str_eq(t, "FCrtYd") {
        rect_of_fields(fields, Some(Layer::FCrtYd), s)
    } else if str_eq(t, "FPaste") {
        rect_of_fields(fields, Some(Layer::FPaste), s)
    } else if str_eq(t, "FMask") {
        rect_of_fields(fields, Some(Layer::FMask), s)
    } else if str_eq(t, "Line") {
        line_of_fields(fields, s)
    } else if str_eq(t, "Name") {
        match text_of_fields(fields, s, "Name") {
            Ok(tv) => Ok(Element::Name(Name { text: Text { shorten: Some(true), ..tv } })),
            Err(e) => Err(e),
        }
    } else if str_eq(t, "Reference") {
        match text_of_fields(fields, s, "Reference") {
            Ok(tv) => Ok(Element::Reference(Reference { text: tv })),
            Err(e) => Err(e),
        }
    } else if str_eq(t, "Smd") {
        smd_of_fields(fields, s)
    } else if str_eq(t, "Pad") {
        pad_of_fields(fields, s)
    } else if str_eq(t, "PythonError") {
        match get_str(fields, "message") {
            Some(m) => Ok(Element::PythonError(PythonError { message: m })),
            None => Err(bad_elem("PythonError", s)),
        }
    } else {
        Err(MpError::BadElement(prefixed_msg("Unknown type: ", t)))
    }
}

impl Element {
    /// Decodes one wire text into a validated element, exactly as
    /// [`sp_decode`] lays it down.
    pub fn try_from_wire(s: &str) -> (r: Result<Element, MpError>)
        ensures
            match r {
                Ok(e) => sp_decode(s@) == Ok::<ElementV, MpErrorV>(e@) && element_valid(e@),
                Err(er) => sp_decode(s@) == Err::<ElementV, MpErrorV>(er@),
            },
    {
        match parse_json(s) {
            Err(JErr::Syntax) => Err(MpError::Json(prefixed_msg("bad JSON in Element ", s))),
            Err(JErr::Range) => Err(
                MpError::BadElement(
                    prefixed_msg("non-finite or out-of-range number in Element ", s),
                ),
            ),
            Ok(j) => {
                let r = elem_of_json(&j, s);
                proof {
                    lemma_decode_valid(s@);
                }
                r
            },
        }
    }
}


/// The canonical field list of an encoded rectangle.
pub open spec fn rect_fields(r: RectV) -> Seq<(Seq<char>, JsonV)> {
    let base = seq![
        ("t"@, JsonV::Str("Rect"@)),
        ("x"@, JsonV::Num(r.x)),
        ("y"@, JsonV::Num(r.y)),
        ("dx"@, JsonV::Num(r.dx)),
        ("dy"@, JsonV::Num(r.dy)),
        ("w"@, JsonV::Num(r.w)),
        ("filled"@, JsonV::Bool(r.filled)),
        ("layer"@, JsonV::Str(crate::layers::layer_text(r.layer))),
    ];
    match r.corner {
        Some(c) => base.push(("corner"@, JsonV::Num(c))),
        None => base,
    }
}

/// The canonical field list of an encoded segment.
pub open spec fn line_fields(l: LineV) -> Seq<(Seq<char>, JsonV)> {
    seq![
        ("t"@, JsonV::Str("Line"@)),
        ("x1"@, JsonV::Num(l.x1)),
        ("y1"@, JsonV::Num(l.y1)),
        ("x2"@, JsonV::Num(l.x2)),
        ("y2"@, JsonV::Num(l.y2)),
        ("w"@, JsonV::Num(l.w)),
        ("layer"@, JsonV::Str(crate::layers::layer_text(l.layer))),
    ]
}

/// The canonical field list of an encoded text, under the given
/// discriminator.
pub open spec fn text_fields(t: TextV, tag: Seq<char>) -> Seq<(Seq<char>, JsonV)> {
    let base = seq![
        ("t"@, JsonV::Str(tag)),
        ("x"@, JsonV::Num(t.x)),
        ("y"@, JsonV::Num(t.y)),
        ("dy"@, JsonV::Num(t.dy)),
        ("txt"@, JsonV::Str(t.txt)),
        ("thickness"@, JsonV::Num(t.thickness)),
        ("layer"@, JsonV::Str(crate::layers::layer_text(t.layer))),
    ];
    match t.shorten {
        Some(b) => base.push(("shorten"@, JsonV::Bool(b))),
        None => base,
    }
}

/// The wire names of a layer list.
pub open spec fn layer_strs(ls: Seq<Layer>) -> Seq<JsonV> {
    Seq::new(ls.len(), |i: int| JsonV::Str(crate::layers::layer_text(ls[i])))
}

/// The canonical field list of an encoded surface-mount pad.
pub open spec fn smd_fields(m: SmdV) -> Seq<(Seq<char>, JsonV)> {
    seq![
        ("t"@, JsonV::Str("Smd"@)),
        ("name"@, JsonV::Str(m.name)),
        ("x"@, JsonV::Num(m.x)),
        ("y"@, JsonV::Num(m.y)),
        ("dx"@, JsonV::Num(m.dx)),
        ("dy"@, JsonV::Num(m.dy)),
        ("layers"@, JsonV::Arr(layer_strs(m.layers))),
    ]
}

/// The canonical field list of an encoded through-hole pad.
pub open spec fn pad_fields(p: PadV) -> Seq<(Seq<char>, JsonV)> {
    seq![
        ("t"@, JsonV::Str("Pad"@)),
        ("name"@, JsonV::Str(p.name)),
        ("x"@, JsonV::Num(p.x)),
        ("y"@, JsonV::Num(p.y)),
        ("dx"@, JsonV::Num(p.dx)),
        ("dy"@, JsonV::Num(p.dy)),
        ("drill"@, JsonV::Num(p.drill)),
        ("layers"@, JsonV::Arr(layer_strs(p.layers))),
    ]
}

/// The canonical wire value of an element.
pub open spec fn sp_elem_json(e: ElementV) -> JsonV {
    match e {
        ElementV::Rect(r) => JsonV::Obj(rect_fields(r)),
        ElementV::Line(l) => JsonV::Obj(line_fields(l)),
        ElementV::Name(t) => JsonV::Obj(text_fields(t, "Name"@)),
        ElementV::Reference(t) => JsonV::Obj(text_fields(t, "Reference"@)),
        ElementV::Smd(m) => JsonV::Obj(smd_fields(m)),
        ElementV::Pad(p) => JsonV::Obj(pad_fields(p)),
        ElementV::PythonError(m) => JsonV::Obj(
            seq![("t"@, JsonV::Str("PythonError"@)), ("message"@, JsonV::Str(m))],
        ),
    }
}

/// Pushes one field with a literal key.
fn push_field(fields: &mut Vec<(String, Json)>, key: &str, value: Json)
    ensures
        fields_view(final(fields)@) =~= fields_view(old(fields)@).push((key@, value@)),
{
    let ghost f0 = fields@;
    fields.push((String::from_str(key), value));
    proof {
        assert(fields_view(fields@) =~= fields_view(f0).push((key@, value@)));
    }
}

/// The wire value of an element, built in canonical field order.
fn elem_to_json(e: &Element) -> (r: Json)
    ensures
        r@ == sp_elem_json(e@),
{
    let mut fields: Vec<(String, Json)> = Vec::new();
    proof {
        assert(fields_view(fields@) =~= Seq::<(Seq<char>, JsonV)>::empty());
    }
    match e {
        Element::Rect(r) => {
            push_field(&mut fields, "t", Json::Str(String::from_str("Rect")));
            push_field(&mut fields, "x", Json::Num(r.x));
            push_field(&mut fields, "y", Json::Num(r.y));
            push_field(&mut fields, "dx", Json::Num(r.dx));
            push_field(&mut fields, "dy", Json::Num(r.dy));
            push_field(&mut fields, "w", Json::Num(r.w));
            push_field(&mut fields, "filled", Json::Bool(r.filled));
            push_field(
                &mut fields,
                "layer",
                Json::Str(String::from_str(crate::layers::layer_text_of(r.layer))),
            );
            if let Some(c) = r.corner {
                push_field(&mut fields, "corner", Json::Num(c));
            }
            proof {
                crate::json::lemma_view_obj(fields);
                assert(fields_view(fields@) =~= rect_fields(r@));
            }
            Json::Obj(fields)
        },
        Element::Line(l) => {
            push_field(&mut fields, "t", Json::Str(String::from_str("Line")));
            push_field(&mut fields, "x1", Json::Num(l.x1));
            push_field(&mut fields, "y1", Json::Num(l.y1));
            push_field(&mut fields, "x2", Json::Num(l.x2));
            push_field(&mut fields, "y2", Json::Num(l.y2));
            push_field(&mut fields, "w", Json::Num(l.w));
            push_field(
                &mut fields,
                "layer",
                Json::Str(String::from_str(crate::layers::layer_text_of(l.layer))),
            );
            proof {
                crate::json::lemma_view_obj(fields);
                assert(fields_view(fields@) =~= line_fields(l@));
            }
            Json::Obj(fields)
        },
        Element::Name(n) => {
            push_text_fields(&mut fields, &n.text, "Name");
            proof {
                crate::json::lemma_view_obj(fields);
            }
            Json::Obj(fields)
        },
        Element::Reference(n) => {
            push_text_fields(&mut fields, &n.text, "Reference");
            proof {
                crate::json::lemma_view_obj(fields);
            }
            Json::Obj(fields)
        },
        Element::Smd(m) => {
            push_field(&mut fields, "t", Json::Str(String::from_str("Smd")));
            push_field(&mut fields, "name", Json::Str(m.name.clone()));
            push_field(&mut fields, "x", Json::Num(m.x));
            push_field(&mut fields, "y", Json::Num(m.y));
            push_field(&mut fields, "dx", Json::Num(m.dx));
            push_field(&mut fields, "dy", Json::Num(m.dy));
            push_field(&mut fields, "layers", layers_json(&m.layers));
            proof {
                crate::json::lemma_view_obj(fields);
                assert(fields_view(fields@) =~= smd_fields(m@));
            }
            Json::Obj(fields)
        },
        Element::Pad(p) => {
            push_field(&mut fields, "t", Json::Str(String::from_str("Pad")));
            push_field(&mut fields, "name", Json::Str(p.name.clone()));
            push_field(&mut fields, "x", Json::Num(p.x));
            push_field(&mut fields, "y", Json::Num(p.y));
            push_field(&mut fields, "dx", Json::Num(p.dx));
            push_field(&mut fields, "dy", Json::Num(p.dy));
            push_field(&mut fields, "drill", Json::Num(p.drill));
            push_field(&mut fields, "layers", layers_json(&p.layers));
            proof {
                crate::json::lemma_view_obj(fields);
                assert(fields_view(fields@) =~= pad_fields(p@));
            }
            Json::Obj(fields)
        },
        Element::PythonError(pe) => {
            push_field(&mut fields, "t", Json::Str(String::from_str("PythonError")));
            push_field(&mut fields, "message", Json::Str(pe.message.clone()));
            proof {
                crate::json::lemma_view_obj(fields);
                assert(fields_view(fields@) =~= seq![
                    ("t"@, JsonV::Str("PythonError"@)),
                    ("message"@, JsonV::Str(pe.message@)),
                ]);
            }
            Json::Obj(fields)
        },
    }
}

/// Pushes the fields shared by the two text-bearing variants.
fn push_text_fields(fields: &mut Vec<(String, Json)>, t: &Text, tag: &str)
    requires
        old(fields)@.len() == 0,
    ensures
        fields_view(final(fields)@) =~= text_fields(t@, tag@),
{
    proof {
        assert(fields_view(fields@) =~= Seq::<(Seq<char>, JsonV)>::empty());
    }
    push_field(fields, "t", Json::Str(String::from_str(tag)));
    push_field(fields, "x", Json::Num(t.x));
    push_field(fields, "y", Json::Num(t.y));
    push_field(fields, "dy", Json::Num(t.dy));
    push_field(fields, "txt", Json::Str(t.txt.clone()));
    push_field(fields, "thickness", Json::Num(t.thickness));
    push_field(
        fields,
        "layer",
        Json::Str(String::from_str(crate::layers::layer_text_of(t.layer))),
    );
    if let Some(b) = t.shorten {
        push_field(fields, "shorten", Json::Bool(b));
    }
    proof {
        assert(fields_view(fields@) =~= text_fields(t@, tag@));
    }
}

/// The wire names of a layer list as a JSON array.
fn layers_json(ls: &Vec<Layer>) -> (r: Json)
    ensures
        r@ == JsonV::Arr(layer_strs(ls@)),
{
    let mut items: Vec<Json> = Vec::new();
    let mut i: usize = 0;
    proof {
        assert(arr_view(items@) =~= layer_strs(ls@.take(0)));
    }
    while i < ls.len()
        invariant
            i <= ls@.len(),
            items@.len() == i,
            arr_view(items@) =~= layer_strs(ls@.take(i as int)),
        decreases ls@.len() - i,
    {
        let ghost a0 = items@;
        items.push(Json::Str(String::from_str(crate::layers::layer_text_of(ls[i]))));
        proof {
            assert(arr_view(items@) =~= layer_strs(ls@.take(i + 1))) by {
                assert(items@.len() == i + 1);
                assert forall|k: int| 0 <= k < i + 1 implies arr_view(items@)[k] == layer_strs(
                    ls@.take(i + 1),
                )[k] by {
                    assert(ls@.take(i + 1)[k] == ls@[k]);
                    if k < i {
                        assert(items@[k] == a0[k]);
                        assert(arr_view(a0)[k] == layer_strs(ls@.take(i as int))[k]);
                        assert(ls@.take(i as int)[k] == ls@[k]);
                    } else {
                        assert(items@[k] == a0.push(items@[i as int])[k]);
                    }
                }
            }
        }
        i += 1;
    }
    proof {
        assert(ls@.take(ls@.len() as int) =~= ls@);
        crate::json::lemma_view_arr(items);
    }
    Json::Arr(items)
}

impl Element {
    /// Encodes the element as one canonical wire text.
    pub fn to_wire(&self) -> (r: String)
        ensures
            r@ == crate::json::json_text(sp_elem_json(self@)),
    {
        let j = elem_to_json(self);
        crate::json::json_to_string(&j)
    }
}

/// A decoded element: a name text always carries the shorten mark.
pub open spec fn normalized(e: ElementV) -> bool {
    match e {
        ElementV::Name(t) => t.shorten == Some(true),
        _ => true,
    }
}

/// Decoding leaves every element normalized.
pub proof fn lemma_decode_normalized(s: Seq<char>)
    ensures
        sp_decode(s) is Ok ==> normalized(sp_decode(s)->Ok_0),
{
}


/// The wire names of valid layers decode back to the same layers.
proof fn lemma_layers_roundtrip(ls: Seq<Layer>)
    requires
        forall|i: int| 0 <= i < ls.len() ==> is_footprint_layer(#[trigger] ls[i]),
    ensures
        layers_of_items(layer_strs(ls)) == Some(ls),
    decreases ls.len(),
{
    if ls.len() == 0 {
        assert(layer_strs(ls).len() == 0);
    } else {
        crate::layers::lemma_layer_text_roundtrip(ls[0]);
        assert(layer_strs(ls)[0] == JsonV::Str(crate::layers::layer_text(ls[0])));
        assert(layer_strs(ls).drop_first() =~= layer_strs(ls.drop_first()));
        lemma_layers_roundtrip(ls.drop_first());
        assert(seq![ls[0]] + ls.drop_first() =~= ls);
    }
}

/// An encoded rectangle decodes back to itself.
#[verifier::rlimit(100)]
#[verifier::spinoff_prover]
proof fn lemma_roundtrip_rect(r: RectV, s: Seq<char>)
    requires
        rect_valid(r),
    ensures
        sp_elem_of_json(JsonV::Obj(rect_fields(r)), s) == Ok::<ElementV, MpErrorV>(
            ElementV::Rect(r),
        ),
{
    lemma_wire_keys();
    let fields = rect_fields(r);
    match r.corner {
        Some(c) => {
        assert(fields =~= seq![("t"@, JsonV::Str("Rect"@)), ("x"@, JsonV::Num(r.x)), ("y"@, JsonV::Num(r.y)), ("dx"@, JsonV::Num(r.dx)), ("dy"@, JsonV::Num(r.dy)), ("w"@, JsonV::Num(r.w)), ("filled"@, JsonV::Bool(r.filled)), ("layer"@, JsonV::Str(crate::layers::layer_text(r.layer))), ("corner"@, JsonV::Num(c))]);
        assert(fields.skip(0) =~= fields);
        assert(fields.skip(0)[0] == fields[0]);
        assert(fields.skip(0).drop_first() =~= fields.skip(1));
        assert(fields.skip(1)[0] == fields[1]);
        assert(fields.skip(1).drop_first() =~= fields.skip(2));
        assert(fields.skip(2)[0] == fields[2]);
        assert(fields.skip(2).drop_first() =~= fields.skip(3));
        assert(fields.skip(3)[0] == fields[3]);
        assert(fields.skip(3).drop_first() =~= fields.skip(4));
        assert(fields.skip(4)[0] == fields[4]);
        assert(fields.skip(4).drop_first() =~= fields.skip(5));
        assert(fields.skip(5)[0] == fields[5]);
        assert(fields.skip(5).drop_first() =~= fields.skip(6));
        assert(fields.skip(6)[0] == fields[6]);
        assert(fields.skip(6).drop_first() =~= fields.skip(7));
        assert(fields.skip(7)[0] == fields[7]);
        assert(fields.skip(7).drop_first() =~= fields.skip(8));
        assert(fields.skip(8)[0] == fields[8]);
        assert(fields.skip(8).drop_first() =~= fields.skip(9));
        assert(sp_obj_get(fields.skip(0), "t"@) == Some(fields[0].1));
        assert(sp_obj_get(fields, "t"@) == Some(fields[0].1));
        assert(sp_obj_get(fields.skip(1), "x"@) == Some(fields[1].1));
        assert(sp_obj_get(fields.skip(0), "x"@) == sp_obj_get(fields.skip(1), "x"@));
        assert(sp_obj_get(fields, "x"@) == Some(fields[1].1));
        assert(sp_obj_get(fields.skip(2), "y"@) == Some(fields[2].1));
        assert(sp_obj_get(fields.skip(1), "y"@) == sp_obj_get(fields.skip(2), "y"@));
        assert(sp_obj_get(fields.skip(0), "y"@) == sp_obj_get(fields.skip(1), "y"@));
        assert(sp_obj_get(fields, "y"@) == Some(fields[2].1));
        assert(sp_obj_get(fields.skip(3), "dx"@) == Some(fields[3].1));
        assert(sp_obj_get(fields.skip(2), "dx"@) == sp_obj_get(fields.skip(3), "dx"@));
        assert(sp_obj_get(fields.skip(1), "dx"@) == sp_obj_get(fields.skip(2), "dx"@));
        assert(sp_obj_get(fields.skip(0), "dx"@) == sp_obj_get(fields.skip(1), "dx"@));
        assert(sp_obj_get(fields, "dx"@) == Some(fields[3].1));
        assert(sp_obj_get(fields.skip(4), "dy"@) == Some(fields[4].1));
        assert(sp_obj_get(fields.skip(3), "dy"@) == sp_obj_get(fields.skip(4), "dy"@));
        assert(sp_obj_get(fields.skip(2), "dy"@) == sp_obj_get(fields.skip(3), "dy"@));
        assert(sp_obj_get(fields.skip(1), "dy"@) == sp_obj_get(fields.skip(2), "dy"@));
        assert(sp_obj_get(fields.skip(0), "dy"@) == sp_obj_get(fields.skip(1), "dy"@));
        assert(sp_obj_get(fields, "dy"@) == Some(fields[4].1));
        assert(sp_obj_get(fields.skip(5), "w"@) == Some(fields[5].1));
        assert(sp_obj_get(fields.skip(4), "w"@) == sp_obj_get(fields.skip(5), "w"@));
        assert(sp_obj_get(fields.skip(3), "w"@) == sp_obj_get(fields.skip(4), "w"@));
        assert(sp_obj_get(fields.skip(2), "w"@) == sp_obj_get(fields.skip(3), "w"@));
        assert(sp_obj_get(fields.skip(1), "w"@) == sp_obj_get(fields.skip(2), "w"@));
        assert(sp_obj_get(fields.skip(0), "w"@) == sp_obj_get(fields.skip(1), "w"@));
        assert(sp_obj_get(fields, "w"@) == Some(fields[5].1));
        assert(sp_obj_get(fields.skip(6), "filled"@) == Some(fields[6].1));
        assert(sp_obj_get(fields.skip(5), "filled"@) == sp_obj_get(fields.skip(6), "filled"@));
        assert(sp_obj_get(fields.skip(4), "filled"@) == sp_obj_get(fields.skip(5), "filled"@));
        assert(sp_obj_get(fields.skip(3), "filled"@) == sp_obj_get(fields.skip(4), "filled"@));
        assert(sp_obj_get(fields.skip(2), "filled"@) == sp_obj_get(fields.skip(3), "filled"@));
        assert(sp_obj_get(fields.skip(1), "filled"@) == sp_obj_get(fields.skip(2), "filled"@));
        assert(sp_obj_get(fields.skip(0), "filled"@) == sp_obj_get(fields.skip(1), "filled"@));
        assert(sp_obj_get(fields, "filled"@) == Some(fields[6].1));
        assert(sp_obj_get(fields.skip(7), "layer"@) == Some(fields[7].1));
        assert(sp_obj_get(fields.skip(6), "layer"@) == sp_obj_get(fields.skip(7), "layer"@));
        assert(sp_obj_get(fields.skip(5), "layer"@) == sp_obj_get(fields.skip(6), "layer"@));
        assert(sp_obj_get(fields.skip(4), "layer"@) == sp_obj_get(fields.skip(5), "layer"@));
        assert(sp_obj_get(fields.skip(3), "layer"@) == sp_obj_get(fields.skip(4), "layer"@));
        assert(sp_obj_get(fields.skip(2), "layer"@) == sp_obj_get(fields.skip(3), "layer"@));
        assert(sp_obj_get(fields.skip(1), "layer"@) == sp_obj_get(fields.skip(2), "layer"@));
        assert(sp_obj_get(fields.skip(0), "layer"@) == sp_obj_get(fields.skip(1), "layer"@));
        assert(sp_obj_get(fields, "layer"@) == Some(fields[7].1));
        assert(sp_obj_get(fields.skip(8), "corner"@) == Some(fields[8].1));
        assert(sp_obj_get(fields.skip(7), "corner"@) == sp_obj_get(fields.skip(8), "corner"@));
        assert(sp_obj_get(fields.skip(6), "corner"@) == sp_obj_get(fields.skip(7), "corner"@));
        assert(sp_obj_get(fields.skip(5), "corner"@) == sp_obj_get(fields.skip(6), "corner"@));
        assert(sp_obj_get(fields.skip(4), "corner"@) == sp_obj_get(fields.skip(5), "corner"@));
        assert(sp_obj_get(fields.skip(3), "corner"@) == sp_obj_get(fields.skip(4), "corner"@));
        assert(sp_obj_get(fields.skip(2), "corner"@) == sp_obj_get(fields.skip(3), "corner"@));
        assert(sp_obj_get(fields.skip(1), "corner"@) == sp_obj_get(fields.skip(2), "corner"@));
        assert(sp_obj_get(fields.skip(0), "corner"@) == sp_obj_get(fields.skip(1), "corner"@));
        assert(sp_obj_get(fields, "corner"@) == Some(fields[8].1));
        },
        None => {
        assert(fields =~= seq![("t"@, JsonV::Str("Rect"@)), ("x"@, JsonV::Num(r.x)), ("y"@, JsonV::Num(r.y)), ("dx"@, JsonV::Num(r.dx)), ("dy"@, JsonV::Num(r.dy)), ("w"@, JsonV::Num(r.w)), ("filled"@, JsonV::Bool(r.filled)), ("layer"@, JsonV::Str(crate::layers::layer_text(r.layer)))]);
        assert(fields.skip(0) =~= fields);
        assert(fields.skip(0)[0] == fields[0]);
        assert(fields.skip(0).drop_first() =~= fields.skip(1));
        assert(fields.skip(1)[0] == fields[1]);
        assert(fields.skip(1).drop_first() =~= fields.skip(2));
        assert(fields.skip(2)[0] == fields[2]);
        assert(fields.skip(2).drop_first() =~= fields.skip(3));
        assert(fields.skip(3)[0] == fields[3]);
        assert(fields.skip(3).drop_first() =~= fields.skip(4));
        assert(fields.skip(4)[0] == fields[4]);
        assert(fields.skip(4).drop_first() =~= fields.skip(5));
        assert(fields.skip(5)[0] == fields[5]);
        assert(fields.skip(5).drop_first() =~= fields.skip(6));
        assert(fields.skip(6)[0] == fields[6]);
        assert(fields.skip(6).drop_first() =~= fields.skip(7));
        assert(fields.skip(7)[0] == fields[7]);
        assert(fields.skip(7).drop_first() =~= fields.skip(8));
        assert(sp_obj_get(fields.skip(0), "t"@) == Some(fields[0].1));
        assert(sp_obj_get(fields, "t"@) == Some(fields[0].1));
        assert(sp_obj_get(fields.skip(1), "x"@) == Some(fields[1].1));
        assert(sp_obj_get(fields.skip(0), "x"@) == sp_obj_get(fields.skip(1), "x"@));
        assert(sp_obj_get(fields, "x"@) == Some(fields[1].1));
        assert(sp_obj_get(fields.skip(2), "y"@) == Some(fields[2].1));
        assert(sp_obj_get(fields.skip(1), "y"@) == sp_obj_get(fields.skip(2), "y"@));
        assert(sp_obj_get(fields.skip(0), "y"@) == sp_obj_get(fields.skip(1), "y"@));
        assert(sp_obj_get(fields, "y"@) == Some(fields[2].1));
        assert(sp_obj_get(fields.skip(3), "dx"@) == Some(fields[3].1));
        assert(sp_obj_get(fields.skip(2), "dx"@) == sp_obj_get(fields.skip(3), "dx"@));
        assert(sp_obj_get(fields.skip(1), "dx"@) == sp_obj_get(fields.skip(2), "dx"@));
        assert(sp_obj_get(fields.skip(0), "dx"@) == sp_obj_get(fields.skip(1), "dx"@));
        assert(sp_obj_get(fields, "dx"@) == Some(fields[3].1));
        assert(sp_obj_get(fields.skip(4), "dy"@) == Some(fields[4].1));
        assert(sp_obj_get(fields.skip(3), "dy"@) == sp_obj_get(fields.skip(4), "dy"@));
        assert(sp_obj_get(fields.skip(2), "dy"@) == sp_obj_get(fields.skip(3), "dy"@));
        assert(sp_obj_get(fields.skip(1), "dy"@) == sp_obj_get(fields.skip(2), "dy"@));
        assert(sp_obj_get(fields.skip(0), "dy"@) == sp_obj_get(fields.skip(1), "dy"@));
        assert(sp_obj_get(fields, "dy"@) == Some(fields[4].1));
        assert(sp_obj_get(fields.skip(5), "w"@) == Some(fields[5].1));
        assert(sp_obj_get(fields.skip(4), "w"@) == sp_obj_get(fields.skip(5), "w"@));
        assert(sp_obj_get(fields.skip(3), "w"@) == sp_obj_get(fields.skip(4), "w"@));
        assert(sp_obj_get(fields.skip(2), "w"@) == sp_obj_get(fields.skip(3), "w"@));
        assert(sp_obj_get(fields.skip(1), "w"@) == sp_obj_get(fields.skip(2), "w"@));
        assert(sp_obj_get(fields.skip(0), "w"@) == sp_obj_get(fields.skip(1), "w"@));
        assert(sp_obj_get(fields, "w"@) == Some(fields[5].1));
        assert(sp_obj_get(fields.skip(6), "filled"@) == Some(fields[6].1));
        assert(sp_obj_get(fields.skip(5), "filled"@) == sp_obj_get(fields.skip(6), "filled"@));
        assert(sp_obj_get(fields.skip(4), "filled"@) == sp_obj_get(fields.skip(5), "filled"@));
        assert(sp_obj_get(fields.skip(3), "filled"@) == sp_obj_get(fields.skip(4), "filled"@));
        assert(sp_obj_get(fields.skip(2), "filled"@) == sp_obj_get(fields.skip(3), "filled"@));
        assert(sp_obj_get(fields.skip(1), "filled"@) == sp_obj_get(fields.skip(2), "filled"@));
        assert(sp_obj_get(fields.skip(0), "filled"@) == sp_obj_get(fields.skip(1), "filled"@));
        assert(sp_obj_get(fields, "filled"@) == Some(fields[6].1));
        assert(sp_obj_get(fields.skip(7), "layer"@) == Some(fields[7].1));
        assert(sp_obj_get(fields.skip(6), "layer"@) == sp_obj_get(fields.skip(7), "layer"@));
        assert(sp_obj_get(fields.skip(5), "layer"@) == sp_obj_get(fields.skip(6), "layer"@));
        assert(sp_obj_get(fields.skip(4), "layer"@) == sp_obj_get(fields.skip(5), "layer"@));
        assert(sp_obj_get(fields.skip(3), "layer"@) == sp_obj_get(fields.skip(4), "layer"@));
        assert(sp_obj_get(fields.skip(2), "layer"@) == sp_obj_get(fields.skip(3), "layer"@));
        assert(sp_obj_get(fields.skip(1), "layer"@) == sp_obj_get(fields.skip(2), "layer"@));
        assert(sp_obj_get(fields.skip(0), "layer"@) == sp_obj_get(fields.skip(1), "layer"@));
        assert(sp_obj_get(fields, "layer"@) == Some(fields[7].1));
        assert(fields.skip(8).len() == 0);
        assert(sp_obj_get(fields.skip(8), "corner"@) is None);
        assert(sp_obj_get(fields.skip(7), "corner"@) == sp_obj_get(fields.skip(8), "corner"@));
        assert(sp_obj_get(fields.skip(6), "corner"@) == sp_obj_get(fields.skip(7), "corner"@));
        assert(sp_obj_get(fields.skip(5), "corner"@) == sp_obj_get(fields.skip(6), "corner"@));
        assert(sp_obj_get(fields.skip(4), "corner"@) == sp_obj_get(fields.skip(5), "corner"@));
        assert(sp_obj_get(fields.skip(3), "corner"@) == sp_obj_get(fields.skip(4), "corner"@));
        assert(sp_obj_get(fields.skip(2), "corner"@) == sp_obj_get(fields.skip(3), "corner"@));
        assert(sp_obj_get(fields.skip(1), "corner"@) == sp_obj_get(fields.skip(2), "corner"@));
        assert(sp_obj_get(fields.skip(0), "corner"@) == sp_obj_get(fields.skip(1), "corner"@));
        assert(sp_obj_get(fields, "corner"@) is None);
        },
    }
    crate::layers::lemma_layer_text_roundtrip(r.layer);
}

/// An encoded segment decodes back to itself.
#[verifier::rlimit(100)]
#[verifier::spinoff_prover]
proof fn lemma_roundtrip_line(l: LineV, s: Seq<char>)
    requires
        line_valid(l),
    ensures
        sp_elem_of_json(JsonV::Obj(line_fields(l)), s) == Ok::<ElementV, MpErrorV>(
            ElementV::Line(l),
        ),
{
    lemma_wire_keys();
    let fields = line_fields(l);
    {
        assert(fields =~= seq![("t"@, JsonV::Str("Line"@)), ("x1"@, JsonV::Num(l.x1)), ("y1"@, JsonV::Num(l.y1)), ("x2"@, JsonV::Num(l.x2)), ("y2"@, JsonV::Num(l.y2)), ("w"@, JsonV::Num(l.w)), ("layer"@, JsonV::Str(crate::layers::layer_text(l.layer)))]);
        assert(fields.skip(0) =~= fields);
        assert(fields.skip(0)[0] == fields[0]);
        assert(fields.skip(0).drop_first() =~= fields.skip(1));
        assert(fields.skip(1)[0] == fields[1]);
        assert(fields.skip(1).drop_first() =~= fields.skip(2));
        assert(fields.skip(2)[0] == fields[2]);
        assert(fields.skip(2).drop_first() =~= fields.skip(3));
        assert(fields.skip(3)[0] == fields[3]);
        assert(fields.skip(3).drop_first() =~= fields.skip(4));
        assert(fields.skip(4)[0] == fields[4]);
        assert(fields.skip(4).drop_first() =~= fields.skip(5));
        assert(fields.skip(5)[0] == fields[5]);
        assert(fields.skip(5).drop_first() =~= fields.skip(6));
        assert(fields.skip(6)[0] == fields[6]);
        assert(fields.skip(6).drop_first() =~= fields.skip(7));
        assert(sp_obj_get(fields.skip(0), "t"@) == Some(fields[0].1));
        assert(sp_obj_get(fields, "t"@) == Some(fields[0].1));
        assert(sp_obj_get(fields.skip(1), "x1"@) == Some(fields[1].1));
        assert(sp_obj_get(fields.skip(0), "x1"@) == sp_obj_get(fields.skip(1), "x1"@));
        assert(sp_obj_get(fields, "x1"@) == Some(fields[1].1));
        assert(sp_obj_get(fields.skip(2), "y1"@) == Some(fields[2].1));
        assert(sp_obj_get(fields.skip(1), "y1"@) == sp_obj_get(fields.skip(2), "y1"@));
        assert(sp_obj_get(fields.skip(0), "y1"@) == sp_obj_get(fields.skip(1), "y1"@));
        assert(sp_obj_get(fields, "y1"@) == Some(fields[2].1));
        assert(sp_obj_get(fields.skip(3), "x2"@) == Some(fields[3].1));
        assert(sp_obj_get(fields.skip(2), "x2"@) == sp_obj_get(fields.skip(3), "x2"@));
        assert(sp_obj_get(fields.skip(1), "x2"@) == sp_obj_get(fields.skip(2), "x2"@));
        assert(sp_obj_get(fields.skip(0), "x2"@) == sp_obj_get(fields.skip(1), "x2"@));
        assert(sp_obj_get(fields, "x2"@) == Some(fields[3].1));
        assert(sp_obj_get(fields.skip(4), "y2"@) == Some(fields[4].1));
        assert(sp_obj_get(fields.skip(3), "y2"@) == sp_obj_get(fields.skip(4), "y2"@));
        assert(sp_obj_get(fields.skip(2), "y2"@) == sp_obj_get(fields.skip(3), "y2"@));
        assert(sp_obj_get(fields.skip(1), "y2"@) == sp_obj_get(fields.skip(2), "y2"@));
        assert(sp_obj_get(fields.skip(0), "y2"@) == sp_obj_get(fields.skip(1), "y2"@));
        assert(sp_obj_get(fields, "y2"@) == Some(fields[4].1));
        assert(sp_obj_get(fields.skip(5), "w"@) == Some(fields[5].1));
        assert(sp_obj_get(fields.skip(4), "w"@) == sp_obj_get(fields.skip(5), "w"@));
        assert(sp_obj_get(fields.skip(3), "w"@) == sp_obj_get(fields.skip(4), "w"@));
        assert(sp_obj_get(fields.skip(2), "w"@) == sp_obj_get(fields.skip(3), "w"@));
        assert(sp_obj_get(fields.skip(1), "w"@) == sp_obj_get(fields.skip(2), "w"@));
        assert(sp_obj_get(fields.skip(0), "w"@) == sp_obj_get(fields.skip(1), "w"@));
        assert(sp_obj_get(fields, "w"@) == Some(fields[5].1));
        assert(sp_obj_get(fields.skip(6), "layer"@) == Some(fields[6].1));
        assert(sp_obj_get(fields.skip(5), "layer"@) == sp_obj_get(fields.skip(6), "layer"@));
        assert(sp_obj_get(fields.skip(4), "layer"@) == sp_obj_get(fields.skip(5), "layer"@));
        assert(sp_obj_get(fields.skip(3), "layer"@) == sp_obj_get(fields.skip(4), "layer"@));
        assert(sp_obj_get(fields.skip(2), "layer"@) == sp_obj_get(fields.skip(3), "layer"@));
        assert(sp_obj_get(fields.skip(1), "layer"@) == sp_obj_get(fields.skip(2), "layer"@));
        assert(sp_obj_get(fields.skip(0), "layer"@) == sp_obj_get(fields.skip(1), "layer"@));
        assert(sp_obj_get(fields, "layer"@) == Some(fields[6].1));
    }
    crate::layers::lemma_layer_text_roundtrip(l.layer);
}

/// An encoded text decodes back to itself under its discriminator.
#[verifier::rlimit(100)]
#[verifier::spinoff_prover]
proof fn lemma_roundtrip_text(t: TextV, tag: Seq<char>, s: Seq<char>, name: Seq<char>)
    requires
        text_valid(t),
        tag != "t"@,
    ensures
        sp_obj_get(text_fields(t, tag), "t"@) == Some(JsonV::Str(tag)),
        sp_text(text_fields(t, tag), s, name) == Ok::<TextV, MpErrorV>(t),
{
    lemma_wire_keys();
    let fields = text_fields(t, tag);
    match t.shorten {
        Some(b) => {
        assert(fields =~= seq![("t"@, JsonV::Str(tag)), ("x"@, JsonV::Num(t.x)), ("y"@, JsonV::Num(t.y)), ("dy"@, JsonV::Num(t.dy)), ("txt"@, JsonV::Str(t.txt)), ("thickness"@, JsonV::Num(t.thickness)), ("layer"@, JsonV::Str(crate::layers::layer_text(t.layer))), ("shorten"@, JsonV::Bool(b))]);
        assert(fields.skip(0) =~= fields);
        assert(fields.skip(0)[0] == fields[0]);
        assert(fields.skip(0).drop_first() =~= fields.skip(1));
        assert(fields.skip(1)[0] == fields[1]);
        assert(fields.skip(1).drop_first() =~= fields.skip(2));
        assert(fields.skip(2)[0] == fields[2]);
        assert(fields.skip(2).drop_first() =~= fields.skip(3));
        assert(fields.skip(3)[0] == fields[3]);
        assert(fields.skip(3).drop_first() =~= fields.skip(4));
        assert(fields.skip(4)[0] == fields[4]);
        assert(fields.skip(4).drop_first() =~= fields.skip(5));
        assert(fields.skip(5)[0] == fields[5]);
        assert(fields.skip(5).drop_first() =~= fields.skip(6));
        assert(fields.skip(6)[0] == fields[6]);
        assert(fields.skip(6).drop_first() =~= fields.skip(7));
        assert(fields.skip(7)[0] == fields[7]);
        assert(fields.skip(7).drop_first() =~= fields.skip(8));
        assert(sp_obj_get(fields.skip(0), "t"@) == Some(fields[0].1));
        assert(sp_obj_get(fields, "t"@) == Some(fields[0].1));
        assert(sp_obj_get(fields.skip(1), "x"@) == Some(fields[1].1));
        assert(sp_obj_get(fields.skip(0), "x"@) == sp_obj_get(fields.skip(1), "x"@));
        assert(sp_obj_get(fields, "x"@) == Some(fields[1].1));
        assert(sp_obj_get(fields.skip(2), "y"@) == Some(fields[2].1));
        assert(sp_obj_get(fields.skip(1), "y"@) == sp_obj_get(fields.skip(2), "y"@));
        assert(sp_obj_get(fields.skip(0), "y"@) == sp_obj_get(fields.skip(1), "y"@));
        assert(sp_obj_get(fields, "y"@) == Some(fields[2].1));
        assert(sp_obj_get(fields.skip(3), "dy"@) == Some(fields[3].1));
        assert(sp_obj_get(fields.skip(2), "dy"@) == sp_obj_get(fields.skip(3), "dy"@));
        assert(sp_obj_get(fields.skip(1), "dy"@) == sp_obj_get(fields.skip(2), "dy"@));
        assert(sp_obj_get(fields.skip(0), "dy"@) == sp_obj_get(fields.skip(1), "dy"@));
        assert(sp_obj_get(fields, "dy"@) == Some(fields[3].1));
        assert(sp_obj_get(fields.skip(4), "txt"@) == Some(fields[4].1));
        assert(sp_obj_get(fields.skip(3), "txt"@) == sp_obj_get(fields.skip(4), "txt"@));
        assert(sp_obj_get(fields.skip(2), "txt"@) == sp_obj_get(fields.skip(3), "txt"@));
        assert(sp_obj_get(fields.skip(1), "txt"@) == sp_obj_get(fields.skip(2), "txt"@));
        assert(sp_obj_get(fields.skip(0), "txt"@) == sp_obj_get(fields.skip(1), "txt"@));
        assert(sp_obj_get(fields, "txt"@) == Some(fields[4].1));
        assert(sp_obj_get(fields.skip(5), "thickness"@) == Some(fields[5].1));
        assert(sp_obj_get(fields.skip(4), "thickness"@) == sp_obj_get(fields.skip(5), "thickness"@));
        assert(sp_obj_get(fields.skip(3), "thickness"@) == sp_obj_get(fields.skip(4), "thickness"@));
        assert(sp_obj_get(fields.skip(2), "thickness"@) == sp_obj_get(fields.skip(3), "thickness"@));
        assert(sp_obj_get(fields.skip(1), "thickness"@) == sp_obj_get(fields.skip(2), "thickness"@));
        assert(sp_obj_get(fields.skip(0), "thickness"@) == sp_obj_get(fields.skip(1), "thickness"@));
        assert(sp_obj_get(fields, "thickness"@) == Some(fields[5].1));
        assert(sp_obj_get(fields.skip(6), "layer"@) == Some(fields[6].1));
        assert(sp_obj_get(fields.skip(5), "layer"@) == sp_obj_get(fields.skip(6), "layer"@));
        assert(sp_obj_get(fields.skip(4), "layer"@) == sp_obj_get(fields.skip(5), "layer"@));
        assert(sp_obj_get(fields.skip(3), "layer"@) == sp_obj_get(fields.skip(4), "layer"@));
        assert(sp_obj_get(fields.skip(2), "layer"@) == sp_obj_get(fields.skip(3), "layer"@));
        assert(sp_obj_get(fields.skip(1), "layer"@) == sp_obj_get(fields.skip(2), "layer"@));
        assert(sp_obj_get(fields.skip(0), "layer"@) == sp_obj_get(fields.skip(1), "layer"@));
        assert(sp_obj_get(fields, "layer"@) == Some(fields[6].1));
        assert(sp_obj_get(fields.skip(7), "shorten"@) == Some(fields[7].1));
        assert(sp_obj_get(fields.skip(6), "shorten"@) == sp_obj_get(fields.skip(7), "shorten"@));
        assert(sp_obj_get(fields.skip(5), "shorten"@) == sp_obj_get(fields.skip(6), "shorten"@));
        assert(sp_obj_get(fields.skip(4), "shorten"@) == sp_obj_get(fields.skip(5), "shorten"@));
        assert(sp_obj_get(fields.skip(3), "shorten"@) == sp_obj_get(fields.skip(4), "shorten"@));
        assert(sp_obj_get(fields.skip(2), "shorten"@) == sp_obj_get(fields.skip(3), "shorten"@));
        assert(sp_obj_get(fields.skip(1), "shorten"@) == sp_obj_get(fields.skip(2), "shorten"@));
        assert(sp_obj_get(fields.skip(0), "shorten"@) == sp_obj_get(fields.skip(1), "shorten"@));
        assert(sp_obj_get(fields, "shorten"@) == Some(fields[7].1));
        },
        None => {
        assert(fields =~= seq![("t"@, JsonV::Str(tag)), ("x"@, JsonV::Num(t.x)), ("y"@, JsonV::Num(t.y)), ("dy"@, JsonV::Num(t.dy)), ("txt"@, JsonV::Str(t.txt)), ("thickness"@, JsonV::Num(t.thickness)), ("layer"@, JsonV::Str(crate::layers::layer_text(t.layer)))]);
        assert(fields.skip(0) =~= fields);
        assert(fields.skip(0)[0] == fields[0]);
        assert(fields.skip(0).drop_first() =~= fields.skip(1));
        assert(fields.skip(1)[0] == fields[1]);
        assert(fields.skip(1).drop_first() =~= fields.skip(2));
        assert(fields.skip(2)[0] == fields[2]);
        assert(fields.skip(2).drop_first() =~= fields.skip(3));
        assert(fields.skip(3)[0] == fields[3]);
        assert(fields.skip(3).drop_first() =~= fields.skip(4));
        assert(fields.skip(4)[0] == fields[4]);
        assert(fields.skip(4).drop_first() =~= fields.skip(5));
        assert(fields.skip(5)[0] == fields[5]);
        assert(fields.skip(5).drop_first() =~= fields.skip(6));
        assert(fields.skip(6)[0] == fields[6]);
        assert(fields.skip(6).drop_first() =~= fields.skip(7));
        assert(sp_obj_get(fields.skip(0), "t"@) == Some(fields[0].1));
        assert(sp_obj_get(fields, "t"@) == Some(fields[0].1));
        assert(sp_obj_get(fields.skip(1), "x"@) == Some(fields[1].1));
        assert(sp_obj_get(fields.skip(0), "x"@) == sp_obj_get(fields.skip(1), "x"@));
        assert(sp_obj_get(fields, "x"@) == Some(fields[1].1));
        assert(sp_obj_get(fields.skip(2), "y"@) == Some(fields[2].1));
        assert(sp_obj_get(fields.skip(1), "y"@) == sp_obj_get(fields.skip(2), "y"@));
        assert(sp_obj_get(fields.skip(0), "y"@) == sp_obj_get(fields.skip(1), "y"@));
        assert(sp_obj_get(fields, "y"@) == Some(fields[2].1));
        assert(sp_obj_get(fields.skip(3), "dy"@) == Some(fields[3].1));
        assert(sp_obj_get(fields.skip(2), "dy"@) == sp_obj_get(fields.skip(3), "dy"@));
        assert(sp_obj_get(fields.skip(1), "dy"@) == sp_obj_get(fields.skip(2), "dy"@));
        assert(sp_obj_get(fields.skip(0), "dy"@) == sp_obj_get(fields.skip(1), "dy"@));
        assert(sp_obj_get(fields, "dy"@) == Some(fields[3].1));
        assert(sp_obj_get(fields.skip(4), "txt"@) == Some(fields[4].1));
        assert(sp_obj_get(fields.skip(3), "txt"@) == sp_obj_get(fields.skip(4), "txt"@));
        assert(sp_obj_get(fields.skip(2), "txt"@) == sp_obj_get(fields.skip(3), "txt"@));
        assert(sp_obj_get(fields.skip(1), "txt"@) == sp_obj_get(fields.skip(2), "txt"@));
        assert(sp_obj_get(fields.skip(0), "txt"@) == sp_obj_get(fields.skip(1), "txt"@));
        assert(sp_obj_get(fields, "txt"@) == Some(fields[4].1));
        assert(sp_obj_get(fields.skip(5), "thickness"@) == Some(fields[5].1));
        assert(sp_obj_get(fields.skip(4), "thickness"@) == sp_obj_get(fields.skip(5), "thickness"@));
        assert(sp_obj_get(fields.skip(3), "thickness"@) == sp_obj_get(fields.skip(4), "thickness"@));
        assert(sp_obj_get(fields.skip(2), "thickness"@) == sp_obj_get(fields.skip(3), "thickness"@));
        assert(sp_obj_get(fields.skip(1), "thickness"@) == sp_obj_get(fields.skip(2), "thickness"@));
        assert(sp_obj_get(fields.skip(0), "thickness"@) == sp_obj_get(fields.skip(1), "thickness"@));
        assert(sp_obj_get(fields, "thickness"@) == Some(fields[5].1));
        assert(sp_obj_get(fields.skip(6), "layer"@) == Some(fields[6].1));
        assert(sp_obj_get(fields.skip(5), "layer"@) == sp_obj_get(fields.skip(6), "layer"@));
        assert(sp_obj_get(fields.skip(4), "layer"@) == sp_obj_get(fields.skip(5), "layer"@));
        assert(sp_obj_get(fields.skip(3), "layer"@) == sp_obj_get(fields.skip(4), "layer"@));
        assert(sp_obj_get(fields.skip(2), "layer"@) == sp_obj_get(fields.skip(3), "layer"@));
        assert(sp_obj_get(fields.skip(1), "layer"@) == sp_obj_get(fields.skip(2), "layer"@));
        assert(sp_obj_get(fields.skip(0), "layer"@) == sp_obj_get(fields.skip(1), "layer"@));
        assert(sp_obj_get(fields, "layer"@) == Some(fields[6].1));
        assert(fields.skip(7).len() == 0);
        assert(sp_obj_get(fields.skip(7), "shorten"@) is None);
        assert(sp_obj_get(fields.skip(6), "shorten"@) == sp_obj_get(fields.skip(7), "shorten"@));
        assert(sp_obj_get(fields.skip(5), "shorten"@) == sp_obj_get(fields.skip(6), "shorten"@));
        assert(sp_obj_get(fields.skip(4), "shorten"@) == sp_obj_get(fields.skip(5), "shorten"@));
        assert(sp_obj_get(fields.skip(3), "shorten"@) == sp_obj_get(fields.skip(4), "shorten"@));
        assert(sp_obj_get(fields.skip(2), "shorten"@) == sp_obj_get(fields.skip(3), "shorten"@));
        assert(sp_obj_get(fields.skip(1), "shorten"@) == sp_obj_get(fields.skip(2), "shorten"@));
        assert(sp_obj_get(fields.skip(0), "shorten"@) == sp_obj_get(fields.skip(1), "shorten"@));
        assert(sp_obj_get(fields, "shorten"@) is None);
        },
    }
    crate::layers::lemma_layer_text_roundtrip(t.layer);
}

/// An encoded surface-mount pad decodes back to itself.
#[verifier::rlimit(100)]
#[verifier::spinoff_prover]
proof fn lemma_roundtrip_smd(m: SmdV, s: Seq<char>)
    requires
        smd_valid(m),
    ensures
        sp_elem_of_json(JsonV::Obj(smd_fields(m)), s) == Ok::<ElementV, MpErrorV>(
            ElementV::Smd(m),
        ),
{
    lemma_wire_keys();
    let fields = smd_fields(m);
    {
        assert(fields =~= seq![("t"@, JsonV::Str("Smd"@)), ("name"@, JsonV::Str(m.name)), ("x"@, JsonV::Num(m.x)), ("y"@, JsonV::Num(m.y)), ("dx"@, JsonV::Num(m.dx)), ("dy"@, JsonV::Num(m.dy)), ("layers"@, JsonV::Arr(layer_strs(m.layers)))]);
        assert(fields.skip(0) =~= fields);
        assert(fields.skip(0)[0] == fields[0]);
        assert(fields.skip(0).drop_first() =~= fields.skip(1));
        assert(fields.skip(1)[0] == fields[1]);
        assert(fields.skip(1).drop_first() =~= fields.skip(2));
        assert(fields.skip(2)[0] == fields[2]);
        assert(fields.skip(2).drop_first() =~= fields.skip(3));
        assert(fields.skip(3)[0] == fields[3]);
        assert(fields.skip(3).drop_first() =~= fields.skip(4));
        assert(fields.skip(4)[0] == fields[4]);
        assert(fields.skip(4).drop_first() =~= fields.skip(5));
        assert(fields.skip(5)[0] == fields[5]);
        assert(fields.skip(5).drop_first() =~= fields.skip(6));
        assert(fields.skip(6)[0] == fields[6]);
        assert(fields.skip(6).drop_first() =~= fields.skip(7));
        assert(sp_obj_get(fields.skip(0), "t"@) == Some(fields[0].1));
        assert(sp_obj_get(fields, "t"@) == Some(fields[0].1));
        assert(sp_obj_get(fields.skip(1), "name"@) == Some(fields[1].1));
        assert(sp_obj_get(fields.skip(0), "name"@) == sp_obj_get(fields.skip(1), "name"@));
        assert(sp_obj_get(fields, "name"@) == Some(fields[1].1));
        assert(sp_obj_get(fields.skip(2), "x"@) == Some(fields[2].1));
        assert(sp_obj_get(fields.skip(1), "x"@) == sp_obj_get(fields.skip(2), "x"@));
        assert(sp_obj_get(fields.skip(0), "x"@) == sp_obj_get(fields.skip(1), "x"@));
        assert(sp_obj_get(fields, "x"@) == Some(fields[2].1));
        assert(sp_obj_get(fields.skip(3), "y"@) == Some(fields[3].1));
        assert(sp_obj_get(fields.skip(2), "y"@) == sp_obj_get(fields.skip(3), "y"@));
        assert(sp_obj_get(fields.skip(1), "y"@) == sp_obj_get(fields.skip(2), "y"@));
        assert(sp_obj_get(fields.skip(0), "y"@) == sp_obj_get(fields.skip(1), "y"@));
        assert(sp_obj_get(fields, "y"@) == Some(fields[3].1));
        assert(sp_obj_get(fields.skip(4), "dx"@) == Some(fields[4].1));
        assert(sp_obj_get(fields.skip(3), "dx"@) == sp_obj_get(fields.skip(4), "dx"@));
        assert(sp_obj_get(fields.skip(2), "dx"@) == sp_obj_get(fields.skip(3), "dx"@));
        assert(sp_obj_get(fields.skip(1), "dx"@) == sp_obj_get(fields.skip(2), "dx"@));
        assert(sp_obj_get(fields.skip(0), "dx"@) == sp_obj_get(fields.skip(1), "dx"@));
        assert(sp_obj_get(fields, "dx"@) == Some(fields[4].1));
        assert(sp_obj_get(fields.skip(5), "dy"@) == Some(fields[5].1));
        assert(sp_obj_get(fields.skip(4), "dy"@) == sp_obj_get(fields.skip(5), "dy"@));
        assert(sp_obj_get(fields.skip(3), "dy"@) == sp_obj_get(fields.skip(4), "dy"@));
        assert(sp_obj_get(fields.skip(2), "dy"@) == sp_obj_get(fields.skip(3), "dy"@));
        assert(sp_obj_get(fields.skip(1), "dy"@) == sp_obj_get(fields.skip(2), "dy"@));
        assert(sp_obj_get(fields.skip(0), "dy"@) == sp_obj_get(fields.skip(1), "dy"@));
        assert(sp_obj_get(fields, "dy"@) == Some(fields[5].1));
        assert(sp_obj_get(fields.skip(6), "layers"@) == Some(fields[6].1));
        assert(sp_obj_get(fields.skip(5), "layers"@) == sp_obj_get(fields.skip(6), "layers"@));
        assert(sp_obj_get(fields.skip(4), "layers"@) == sp_obj_get(fields.skip(5), "layers"@));
        assert(sp_obj_get(fields.skip(3), "layers"@) == sp_obj_get(fields.skip(4), "layers"@));
        assert(sp_obj_get(fields.skip(2), "layers"@) == sp_obj_get(fields.skip(3), "layers"@));
        assert(sp_obj_get(fields.skip(1), "layers"@) == sp_obj_get(fields.skip(2), "layers"@));
        assert(sp_obj_get(fields.skip(0), "layers"@) == sp_obj_get(fields.skip(1), "layers"@));
        assert(sp_obj_get(fields, "layers"@) == Some(fields[6].1));
    }
    lemma_layers_roundtrip(m.layers);
}

/// An encoded through-hole pad decodes back to itself.
#[verifier::rlimit(100)]
#[verifier::spinoff_prover]
proof fn lemma_roundtrip_pad(p: PadV, s: Seq<char>)
    requires
        pad_valid(p),
    ensures
        sp_elem_of_json(JsonV::Obj(pad_fields(p)), s) == Ok::<ElementV, MpErrorV>(
            ElementV::Pad(p),
        ),
{
    lemma_wire_keys();
    let fields = pad_fields(p);
    {
        assert(fields =~= seq![("t"@, JsonV::Str("Pad"@)), ("name"@, JsonV::Str(p.name)), ("x"@, JsonV::Num(p.x)), ("y"@, JsonV::Num(p.y)), ("dx"@, JsonV::Num(p.dx)), ("dy"@, JsonV::Num(p.dy)), ("drill"@, JsonV::Num(p.drill)), ("layers"@, JsonV::Arr(layer_strs(p.layers)))]);
        assert(fields.skip(0) =~= fields);
        assert(fields.skip(0)[0] == fields[0]);
        assert(fields.skip(0).drop_first() =~= fields.skip(1));
        assert(fields.skip(1)[0] == fields[1]);
        assert(fields.skip(1).drop_first() =~= fields.skip(2));
        assert(fields.skip(2)[0] == fields[2]);
        assert(fields.skip(2).drop_first() =~= fields.skip(3));
        assert(fields.skip(3)[0] == fields[3]);
        assert(fields.skip(3).drop_first() =~= fields.skip(4));
        assert(fields.skip(4)[0] == fields[4]);
        assert(fields.skip(4).drop_first() =~= fields.skip(5));
        assert(fields.skip(5)[0] == fields[5]);
        assert(fields.skip(5).drop_first() =~= fields.skip(6));
        assert(fields.skip(6)[0] == fields[6]);
        assert(fields.skip(6).drop_first() =~= fields.skip(7));
        assert(fields.skip(7)[0] == fields[7]);
        assert(fields.skip(7).drop_first() =~= fields.skip(8));
        assert(sp_obj_get(fields.skip(0), "t"@) == Some(fields[0].1));
        assert(sp_obj_get(fields, "t"@) == Some(fields[0].1));
        assert(sp_obj_get(fields.skip(1), "name"@) == Some(fields[1].1));
        assert(sp_obj_get(fields.skip(0), "name"@) == sp_obj_get(fields.skip(1), "name"@));
        assert(sp_obj_get(fields, "name"@) == Some(fields[1].1));
        assert(sp_obj_get(fields.skip(2), "x"@) == Some(fields[2].1));
        assert(sp_obj_get(fields.skip(1), "x"@) == sp_obj_get(fields.skip(2), "x"@));
        assert(sp_obj_get(fields.skip(0), "x"@) == sp_obj_get(fields.skip(1), "x"@));
        assert(sp_obj_get(fields, "x"@) == Some(fields[2].1));
        assert(sp_obj_get(fields.skip(3), "y"@) == Some(fields[3].1));
        assert(sp_obj_get(fields.skip(2), "y"@) == sp_obj_get(fields.skip(3), "y"@));
        assert(sp_obj_get(fields.skip(1), "y"@) == sp_obj_get(fields.skip(2), "y"@));
        assert(sp_obj_get(fields.skip(0), "y"@) == sp_obj_get(fields.skip(1), "y"@));
        assert(sp_obj_get(fields, "y"@) == Some(fields[3].1));
        assert(sp_obj_get(fields.skip(4), "dx"@) == Some(fields[4].1));
        assert(sp_obj_get(fields.skip(3), "dx"@) == sp_obj_get(fields.skip(4), "dx"@));
        assert(sp_obj_get(fields.skip(2), "dx"@) == sp_obj_get(fields.skip(3), "dx"@));
        assert(sp_obj_get(fields.skip(1), "dx"@) == sp_obj_get(fields.skip(2), "dx"@));
        assert(sp_obj_get(fields.skip(0), "dx"@) == sp_obj_get(fields.skip(1), "dx"@));
        assert(sp_obj_get(fields, "dx"@) == Some(fields[4].1));
        assert(sp_obj_get(fields.skip(5), "dy"@) == Some(fields[5].1));
        assert(sp_obj_get(fields.skip(4), "dy"@) == sp_obj_get(fields.skip(5), "dy"@));
        assert(sp_obj_get(fields.skip(3), "dy"@) == sp_obj_get(fields.skip(4), "dy"@));
        assert(sp_obj_get(fields.skip(2), "dy"@) == sp_obj_get(fields.skip(3), "dy"@));
        assert(sp_obj_get(fields.skip(1), "dy"@) == sp_obj_get(fields.skip(2), "dy"@));
        assert(sp_obj_get(fields.skip(0), "dy"@) == sp_obj_get(fields.skip(1), "dy"@));
        assert(sp_obj_get(fields, "dy"@) == Some(fields[5].1));
        assert(sp_obj_get(fields.skip(6), "drill"@) == Some(fields[6].1));
        assert(sp_obj_get(fields.skip(5), "drill"@) == sp_obj_get(fields.skip(6), "drill"@));
        assert(sp_obj_get(fields.skip(4), "drill"@) == sp_obj_get(fields.skip(5), "drill"@));
        assert(sp_obj_get(fields.skip(3), "drill"@) == sp_obj_get(fields.skip(4), "drill"@));
        assert(sp_obj_get(fields.skip(2), "drill"@) == sp_obj_get(fields.skip(3), "drill"@));
        assert(sp_obj_get(fields.skip(1), "drill"@) == sp_obj_get(fields.skip(2), "drill"@));
        assert(sp_obj_get(fields.skip(0), "drill"@) == sp_obj_get(fields.skip(1), "drill"@));
        assert(sp_obj_get(fields, "drill"@) == Some(fields[6].1));
        assert(sp_obj_get(fields.skip(7), "layers"@) == Some(fields[7].1));
        assert(sp_obj_get(fields.skip(6), "layers"@) == sp_obj_get(fields.skip(7), "layers"@));
        assert(sp_obj_get(fields.skip(5), "layers"@) == sp_obj_get(fields.skip(6), "layers"@));
        assert(sp_obj_get(fields.skip(4), "layers"@) == sp_obj_get(fields.skip(5), "layers"@));
        assert(sp_obj_get(fields.skip(3), "layers"@) == sp_obj_get(fields.skip(4), "layers"@));
        assert(sp_obj_get(fields.skip(2), "layers"@) == sp_obj_get(fields.skip(3), "layers"@));
        assert(sp_obj_get(fields.skip(1), "layers"@) == sp_obj_get(fields.skip(2), "layers"@));
        assert(sp_obj_get(fields.skip(0), "layers"@) == sp_obj_get(fields.skip(1), "layers"@));
        assert(sp_obj_get(fields, "layers"@) == Some(fields[7].1));
    }
    lemma_layers_roundtrip(p.layers);
}

/// Round trip: a valid, normalized element survives encoding and
/// decoding unchanged, whatever text stands in the diagnostics slot.
/// A decoded element is always normalized, so decode then re-encode
/// preserves every field.
#[verifier::rlimit(100)]
#[verifier::spinoff_prover]
pub proof fn lemma_roundtrip(e: ElementV, s: Seq<char>)
    requires
        element_valid(e),
        normalized(e),
    ensures
        sp_elem_of_json(sp_elem_json(e), s) == Ok::<ElementV, MpErrorV>(e),
{
    lemma_wire_keys();
    match e {
        ElementV::Rect(r) => {
            assert(sp_elem_json(e) == JsonV::Obj(rect_fields(r)));
            lemma_roundtrip_rect(r, s);
        },
        ElementV::Line(l) => {
            assert(sp_elem_json(e) == JsonV::Obj(line_fields(l)));
            lemma_roundtrip_line(l, s);
        },
        ElementV::Name(t) => {
            assert(sp_elem_json(e) == JsonV::Obj(text_fields(t, "Name"@)));
            lemma_roundtrip_text(t, "Name"@, s, "Name"@);
            assert(TextV { shorten: Some(true), ..t } == t);
        },
        ElementV::Reference(t) => {
            assert(sp_elem_json(e) == JsonV::Obj(text_fields(t, "Reference"@)));
            lemma_roundtrip_text(t, "Reference"@, s, "Reference"@);
        },
        ElementV::Smd(m) => {
            assert(sp_elem_json(e) == JsonV::Obj(smd_fields(m)));
            lemma_roundtrip_smd(m, s);
        },
        ElementV::Pad(p) => {
            assert(sp_elem_json(e) == JsonV::Obj(pad_fields(p)));
            lemma_roundtrip_pad(p, s);
        },
        ElementV::PythonError(m) => {
            let fields = seq![("t"@, JsonV::Str("PythonError"@)), ("message"@, JsonV::Str(m))];
            assert(sp_elem_json(e) == JsonV::Obj(fields));
            assert(fields.skip(0) =~= fields);
            assert(fields.skip(0)[0] == fields[0]);
            assert(fields.skip(0).drop_first() =~= fields.skip(1));
            assert(fields.skip(1)[0] == fields[1]);
            assert(sp_obj_get(fields.skip(0), "t"@) == Some(JsonV::Str("PythonError"@)));
            assert(sp_obj_get(fields, "t"@) == Some(JsonV::Str("PythonError"@)));
            assert(sp_obj_get(fields.skip(1), "message"@) == Some(fields[1].1));
            assert(sp_obj_get(fields.skip(0), "message"@) == sp_obj_get(fields.skip(1), "message"@));
            assert(sp_obj_get(fields, "message"@) == Some(JsonV::Str(m)));
            assert(g_str(fields, "message"@) == Some(m));
        },
    }
}



/// The wire keys and discriminators, pinned to their characters, with
/// the disequalities that the field lookups below turn on.
#[verifier::spinoff_prover]
#[verifier::rlimit(100)]
proof fn lemma_wire_keys()
    ensures
        "t"@ == seq!['t'],
        "x"@ == seq!['x'],
        "y"@ == seq!['y'],
        "dx"@ == seq!['d', 'x'],
        "dy"@ == seq!['d', 'y'],
        "w"@ == seq!['w'],
        "filled"@ == seq!['f', 'i', 'l', 'l', 'e', 'd'],
        "layer"@ == seq!['l', 'a', 'y', 'e', 'r'],
        "corner"@ == seq!['c', 'o', 'r', 'n', 'e', 'r'],
        "x1"@ == seq!['x', '1'],
        "y1"@ == seq!['y', '1'],
        "x2"@ == seq!['x', '2'],
        "y2"@ == seq!['y', '2'],
        "txt"@ == seq!['t', 'x', 't'],
        "thickness"@ == seq!['t', 'h', 'i', 'c', 'k', 'n', 'e', 's', 's'],
        "shorten"@ == seq!['s', 'h', 'o', 'r', 't', 'e', 'n'],
        "name"@ == seq!['n', 'a', 'm', 'e'],
        "layers"@ == seq!['l', 'a', 'y', 'e', 'r', 's'],
        "drill"@ == seq!['d', 'r', 'i', 'l', 'l'],
        "message"@ == seq!['m', 'e', 's', 's', 'a', 'g', 'e'],
        "Rect"@ == seq!['R', 'e', 'c', 't'],
        "FFab"@ == seq!['F', 'F', 'a', 'b'],
        "FCrtYd"@ == seq!['F', 'C', 'r', 't', 'Y', 'd'],
        "FPaste"@ == seq!['F', 'P', 'a', 's', 't', 'e'],
        "FMask"@ == seq!['F', 'M', 'a', 's', 'k'],
        "Line"@ == seq!['L', 'i', 'n', 'e'],
        "Name"@ == seq!['N', 'a', 'm', 'e'],
        "Reference"@ == seq!['R', 'e', 'f', 'e', 'r', 'e', 'n', 'c', 'e'],
        "Smd"@ == seq!['S', 'm', 'd'],
        "Pad"@ == seq!['P', 'a', 'd'],
        "PythonError"@ == seq!['P', 'y', 't', 'h', 'o', 'n', 'E', 'r', 'r', 'o', 'r'],
        "FCrtYd"@ != "FMask"@,
        "FCrtYd"@ != "FPaste"@,
        "FCrtYd"@ != "Line"@,
        "FCrtYd"@ != "Name"@,
        "FCrtYd"@ != "Pad"@,
        "FCrtYd"@ != "PythonError"@,
        "FCrtYd"@ != "Reference"@,
        "FCrtYd"@ != "Smd"@,
        "FFab"@ != "FCrtYd"@,
        "FFab"@ != "FMask"@,
        "FFab"@ != "FPaste"@,
        "FFab"@ != "Line"@,
        "FFab"@ != "Name"@,
        "FFab"@ != "Pad"@,
        "FFab"@ != "PythonError"@,
        "FFab"@ != "Reference"@,
        "FFab"@ != "Smd"@,
        "FMask"@ != "Line"@,
        "FMask"@ != "Name"@,
        "FMask"@ != "Pad"@,
        "FMask"@ != "PythonError"@,
        "FMask"@ != "Reference"@,
        "FMask"@ != "Smd"@,
        "FPaste"@ != "FMask"@,
        "FPaste"@ != "Line"@,
        "FPaste"@ != "Name"@,
        "FPaste"@ != "Pad"@,
        "FPaste"@ != "PythonError"@,
        "FPaste"@ != "Reference"@,
        "FPaste"@ != "Smd"@,
        "Line"@ != "Name"@,
        "Line"@ != "Pad"@,
        "Line"@ != "PythonError"@,
        "Line"@ != "Reference"@,
        "Line"@ != "Smd"@,
        "Name"@ != "Pad"@,
        "Name"@ != "PythonError"@,
        "Name"@ != "Reference"@,
        "Name"@ != "Smd"@,
        "Pad"@ != "PythonError"@,
        "Rect"@ != "FCrtYd"@,
        "Rect"@ != "FFab"@,
        "Rect"@ != "FMask"@,
        "Rect"@ != "FPaste"@,
        "Rect"@ != "Line"@,
        "Rect"@ != "Name"@,
        "Rect"@ != "Pad"@,
        "Rect"@ != "PythonError"@,
        "Rect"@ != "Reference"@,
        "Rect"@ != "Smd"@,
        "Reference"@ != "Pad"@,
        "Reference"@ != "PythonError"@,
        "Reference"@ != "Smd"@,
        "Smd"@ != "Pad"@,
        "Smd"@ != "PythonError"@,
        "drill"@ != "layers"@,
        "dx"@ != "corner"@,
        "dx"@ != "drill"@,
        "dx"@ != "dy"@,
        "dx"@ != "filled"@,
        "dx"@ != "layer"@,
        "dx"@ != "layers"@,
        "dx"@ != "w"@,
        "dy"@ != "corner"@,
        "dy"@ != "drill"@,
        "dy"@ != "filled"@,
        "dy"@ != "layer"@,
        "dy"@ != "layers"@,
        "dy"@ != "shorten"@,
        "dy"@ != "thickness"@,
        "dy"@ != "txt"@,
        "dy"@ != "w"@,
        "filled"@ != "corner"@,
        "filled"@ != "layer"@,
        "layer"@ != "corner"@,
        "layer"@ != "shorten"@,
        "name"@ != "drill"@,
        "name"@ != "dx"@,
        "name"@ != "dy"@,
        "name"@ != "layers"@,
        "name"@ != "x"@,
        "name"@ != "y"@,
        "t"@ != "corner"@,
        "t"@ != "drill"@,
        "t"@ != "dx"@,
        "t"@ != "dy"@,
        "t"@ != "filled"@,
        "t"@ != "layer"@,
        "t"@ != "layers"@,
        "t"@ != "message"@,
        "t"@ != "name"@,
        "t"@ != "shorten"@,
        "t"@ != "thickness"@,
        "t"@ != "txt"@,
        "t"@ != "w"@,
        "t"@ != "x"@,
        "t"@ != "x1"@,
        "t"@ != "x2"@,
        "t"@ != "y"@,
        "t"@ != "y1"@,
        "t"@ != "y2"@,
        "thickness"@ != "layer"@,
        "thickness"@ != "shorten"@,
        "txt"@ != "layer"@,
        "txt"@ != "shorten"@,
        "txt"@ != "thickness"@,
        "w"@ != "corner"@,
        "w"@ != "filled"@,
        "w"@ != "layer"@,
        "x"@ != "corner"@,
        "x"@ != "drill"@,
        "x"@ != "dx"@,
        "x"@ != "dy"@,
        "x"@ != "filled"@,
        "x"@ != "layer"@,
        "x"@ != "layers"@,
        "x"@ != "shorten"@,
        "x"@ != "thickness"@,
        "x"@ != "txt"@,
        "x"@ != "w"@,
        "x"@ != "y"@,
        "x1"@ != "layer"@,
        "x1"@ != "w"@,
        "x1"@ != "x2"@,
        "x1"@ != "y1"@,
        "x1"@ != "y2"@,
        "x2"@ != "layer"@,
        "x2"@ != "w"@,
        "x2"@ != "y2"@,
        "y"@ != "corner"@,
        "y"@ != "drill"@,
        "y"@ != "dx"@,
        "y"@ != "dy"@,
        "y"@ != "filled"@,
        "y"@ != "layer"@,
        "y"@ != "layers"@,
        "y"@ != "shorten"@,
        "y"@ != "thickness"@,
        "y"@ != "txt"@,
        "y"@ != "w"@,
        "y1"@ != "layer"@,
        "y1"@ != "w"@,
        "y1"@ != "x2"@,
        "y1"@ != "y2"@,
        "y2"@ != "layer"@,
        "y2"@ != "w"@,
{
    reveal_strlit("t");
    assert("t"@.len() == 1);
    assert("t"@[0] == 't');
    assert("t"@ =~= seq!['t']);
    reveal_strlit("x");
    assert("x"@.len() == 1);
    assert("x"@[0] == 'x');
    assert("x"@ =~= seq!['x']);
    reveal_strlit("y");
    assert("y"@.len() == 1);
    assert("y"@[0] == 'y');
    assert("y"@ =~= seq!['y']);
    reveal_strlit("dx");
    assert("dx"@.len() == 2);
    assert("dx"@[0] == 'd');
    assert("dx"@[1] == 'x');
    assert("dx"@ =~= seq!['d', 'x']);
    reveal_strlit("dy");
    assert("dy"@.len() == 2);
    assert("dy"@[0] == 'd');
    assert("dy"@[1] == 'y');
    assert("dy"@ =~= seq!['d', 'y']);
    reveal_strlit("w");
    assert("w"@.len() == 1);
    assert("w"@[0] == 'w');
    assert("w"@ =~= seq!['w']);
    reveal_strlit("filled");
    assert("filled"@.len() == 6);
    assert("filled"@[0] == 'f');
    assert("filled"@[1] == 'i');
    assert("filled"@[2] == 'l');
    assert("filled"@[3] == 'l');
    assert("filled"@[4] == 'e');
    assert("filled"@[5] == 'd');
    assert("filled"@ =~= seq!['f', 'i', 'l', 'l', 'e', 'd']);
    reveal_strlit("layer");
    assert("layer"@.len() == 5);
    assert("layer"@[0] == 'l');
    assert("layer"@[1] == 'a');
    assert("layer"@[2] == 'y');
    assert("layer"@[3] == 'e');
    assert("layer"@[4] == 'r');
    assert("layer"@ =~= seq!['l', 'a', 'y', 'e', 'r']);
    reveal_strlit("corner");
    assert("corner"@.len() == 6);
    assert("corner"@[0] == 'c');
    assert("corner"@[1] == 'o');
    assert("corner"@[2] == 'r');
    assert("corner"@[3] == 'n');
    assert("corner"@[4] == 'e');
    assert("corner"@[5] == 'r');
    assert("corner"@ =~= seq!['c', 'o', 'r', 'n', 'e', 'r']);
    reveal_strlit("x1");
    assert("x1"@.len() == 2);
    assert("x1"@[0] == 'x');
    assert("x1"@[1] == '1');
    assert("x1"@ =~= seq!['x', '1']);
    reveal_strlit("y1");
    assert("y1"@.len() == 2);
    assert("y1"@[0] == 'y');
    assert("y1"@[1] == '1');
    assert("y1"@ =~= seq!['y', '1']);
    reveal_strlit("x2");
    assert("x2"@.len() == 2);
    assert("x2"@[0] == 'x');
    assert("x2"@[1] == '2');
    assert("x2"@ =~= seq!['x', '2']);
    reveal_strlit("y2");
    assert("y2"@.len() == 2);
    assert("y2"@[0] == 'y');
    assert("y2"@[1] == '2');
    assert("y2"@ =~= seq!['y', '2']);
    reveal_strlit("txt");
    assert("txt"@.len() == 3);
    assert("txt"@[0] == 't');
    assert("txt"@[1] == 'x');
    assert("txt"@[2] == 't');
    assert("txt"@ =~= seq!['t', 'x', 't']);
    reveal_strlit("thickness");
    assert("thickness"@.len() == 9);
    assert("thickness"@[0] == 't');
    assert("thickness"@[1] == 'h');
    assert("thickness"@[2] == 'i');
    assert("thickness"@[3] == 'c');
    assert("thickness"@[4] == 'k');
    assert("thickness"@[5] == 'n');
    assert("thickness"@[6] == 'e');
    assert("thickness"@[7] == 's');
    assert("thickness"@[8] == 's');
    assert("thickness"@ =~= seq!['t', 'h', 'i', 'c', 'k', 'n', 'e', 's', 's']);
    reveal_strlit("shorten");
    assert("shorten"@.len() == 7);
    assert("shorten"@[0] == 's');
    assert("shorten"@[1] == 'h');
    assert("shorten"@[2] == 'o');
    assert("shorten"@[3] == 'r');
    assert("shorten"@[4] == 't');
    assert("shorten"@[5] == 'e');
    assert("shorten"@[6] == 'n');
    assert("shorten"@ =~= seq!['s', 'h', 'o', 'r', 't', 'e', 'n']);
    reveal_strlit("name");
    assert("name"@.len() == 4);
    assert("name"@[0] == 'n');
    assert("name"@[1] == 'a');
    assert("name"@[2] == 'm');
    assert("name"@[3] == 'e');
    assert("name"@ =~= seq!['n', 'a', 'm', 'e']);
    reveal_strlit("layers");
    assert("layers"@.len() == 6);
    assert("layers"@[0] == 'l');
    assert("layers"@[1] == 'a');
    assert("layers"@[2] == 'y');
    assert("layers"@[3] == 'e');
    assert("layers"@[4] == 'r');
    assert("layers"@[5] == 's');
    assert("layers"@ =~= seq!['l', 'a', 'y', 'e', 'r', 's']);
    reveal_strlit("drill");
    assert("drill"@.len() == 5);
    assert("drill"@[0] == 'd');
    assert("drill"@[1] == 'r');
    assert("drill"@[2] == 'i');
    assert("drill"@[3] == 'l');
    assert("drill"@[4] == 'l');
    assert("drill"@ =~= seq!['d', 'r', 'i', 'l', 'l']);
    reveal_strlit("message");
    assert("message"@.len() == 7);
    assert("message"@[0] == 'm');
    assert("message"@[1] == 'e');
    assert("message"@[2] == 's');
    assert("message"@[3] == 's');
    assert("message"@[4] == 'a');
    assert("message"@[5] == 'g');
    assert("message"@[6] == 'e');
    assert("message"@ =~= seq!['m', 'e', 's', 's', 'a', 'g', 'e']);
    reveal_strlit("Rect");
    assert("Rect"@.len() == 4);
    assert("Rect"@[0] == 'R');
    assert("Rect"@[1] == 'e');
    assert("Rect"@[2] == 'c');
    assert("Rect"@[3] == 't');
    assert("Rect"@ =~= seq!['R', 'e', 'c', 't']);
    reveal_strlit("FFab");
    assert("FFab"@.len() == 4);
    assert("FFab"@[0] == 'F');
    assert("FFab"@[1] == 'F');
    assert("FFab"@[2] == 'a');
    assert("FFab"@[3] == 'b');
    assert("FFab"@ =~= seq!['F', 'F', 'a', 'b']);
    reveal_strlit("FCrtYd");
    assert("FCrtYd"@.len() == 6);
    assert("FCrtYd"@[0] == 'F');
    assert("FCrtYd"@[1] == 'C');
    assert("FCrtYd"@[2] == 'r');
    assert("FCrtYd"@[3] == 't');
    assert("FCrtYd"@[4] == 'Y');
    assert("FCrtYd"@[5] == 'd');
    assert("FCrtYd"@ =~= seq!['F', 'C', 'r', 't', 'Y', 'd']);
    reveal_strlit("FPaste");
    assert("FPaste"@.len() == 6);
    assert("FPaste"@[0] == 'F');
    assert("FPaste"@[1] == 'P');
    assert("FPaste"@[2] == 'a');
    assert("FPaste"@[3] == 's');
    assert("FPaste"@[4] == 't');
    assert("FPaste"@[5] == 'e');
    assert("FPaste"@ =~= seq!['F', 'P', 'a', 's', 't', 'e']);
    reveal_strlit("FMask");
    assert("FMask"@.len() == 5);
    assert("FMask"@[0] == 'F');
    assert("FMask"@[1] == 'M');
    assert("FMask"@[2] == 'a');
    assert("FMask"@[3] == 's');
    assert("FMask"@[4] == 'k');
    assert("FMask"@ =~= seq!['F', 'M', 'a', 's', 'k']);
    reveal_strlit("Line");
    assert("Line"@.len() == 4);
    assert("Line"@[0] == 'L');
    assert("Line"@[1] == 'i');
    assert("Line"@[2] == 'n');
    assert("Line"@[3] == 'e');
    assert("Line"@ =~= seq!['L', 'i', 'n', 'e']);
    reveal_strlit("Name");
    assert("Name"@.len() == 4);
    assert("Name"@[0] == 'N');
    assert("Name"@[1] == 'a');
    assert("Name"@[2] == 'm');
    assert("Name"@[3] == 'e');
    assert("Name"@ =~= seq!['N', 'a', 'm', 'e']);
    reveal_strlit("Reference");
    assert("Reference"@.len() == 9);
    assert("Reference"@[0] == 'R');
    assert("Reference"@[1] == 'e');
    assert("Reference"@[2] == 'f');
    assert("Reference"@[3] == 'e');
    assert("Reference"@[4] == 'r');
    assert("Reference"@[5] == 'e');
    assert("Reference"@[6] == 'n');
    assert("Reference"@[7] == 'c');
    assert("Reference"@[8] == 'e');
    assert("Reference"@ =~= seq!['R', 'e', 'f', 'e', 'r', 'e', 'n', 'c', 'e']);
    reveal_strlit("Smd");
    assert("Smd"@.len() == 3);
    assert("Smd"@[0] == 'S');
    assert("Smd"@[1] == 'm');
    assert("Smd"@[2] == 'd');
    assert("Smd"@ =~= seq!['S', 'm', 'd']);
    reveal_strlit("Pad");
    assert("Pad"@.len() == 3);
    assert("Pad"@[0] == 'P');
    assert("Pad"@[1] == 'a');
    assert("Pad"@[2] == 'd');
    assert("Pad"@ =~= seq!['P', 'a', 'd']);
    reveal_strlit("PythonError");
    assert("PythonError"@.len() == 11);
    assert("PythonError"@[0] == 'P');
    assert("PythonError"@[1] == 'y');
    assert("PythonError"@[2] == 't');
    assert("PythonError"@[3] == 'h');
    assert("PythonError"@[4] == 'o');
    assert("PythonError"@[5] == 'n');
    assert("PythonError"@[6] == 'E');
    assert("PythonError"@[7] == 'r');
    assert("PythonError"@[8] == 'r');
    assert("PythonError"@[9] == 'o');
    assert("PythonError"@[10] == 'r');
    assert("PythonError"@ =~= seq!['P', 'y', 't', 'h', 'o', 'n', 'E', 'r', 'r', 'o', 'r']);
    assert("FCrtYd"@ != "FMask"@);
    assert("FCrtYd"@ != "FPaste"@);
    assert("FCrtYd"@ != "Line"@);
    assert("FCrtYd"@ != "Name"@);
    assert("FCrtYd"@ != "Pad"@);
    assert("FCrtYd"@ != "PythonError"@);
    assert("FCrtYd"@ != "Reference"@);
    assert("FCrtYd"@ != "Smd"@);
    assert("FFab"@ != "FCrtYd"@);
    assert("FFab"@ != "FMask"@);
    assert("FFab"@ != "FPaste"@);
    assert("FFab"@ != "Line"@);
    assert("FFab"@ != "Name"@);
    assert("FFab"@ != "Pad"@);
    assert("FFab"@ != "PythonError"@);
    assert("FFab"@ != "Reference"@);
    assert("FFab"@ != "Smd"@);
    assert("FMask"@ != "Line"@);
    assert("FMask"@ != "Name"@);
    assert("FMask"@ != "Pad"@);
    assert("FMask"@ != "PythonError"@);
    assert("FMask"@ != "Reference"@);
    assert("FMask"@ != "Smd"@);
    assert("FPaste"@ != "FMask"@);
    assert("FPaste"@ != "Line"@);
    assert("FPaste"@ != "Name"@);
    assert("FPaste"@ != "Pad"@);
    assert("FPaste"@ != "PythonError"@);
    assert("FPaste"@ != "Reference"@);
    assert("FPaste"@ != "Smd"@);
    assert("Line"@ != "Name"@);
    assert("Line"@ != "Pad"@);
    assert("Line"@ != "PythonError"@);
    assert("Line"@ != "Reference"@);
    assert("Line"@ != "Smd"@);
    assert("Name"@ != "Pad"@);
    assert("Name"@ != "PythonError"@);
    assert("Name"@ != "Reference"@);
    assert("Name"@ != "Smd"@);
    assert("Pad"@ != "PythonError"@);
    assert("Rect"@ != "FCrtYd"@);
    assert("Rect"@ != "FFab"@);
    assert("Rect"@ != "FMask"@);
    assert("Rect"@ != "FPaste"@);
    assert("Rect"@ != "Line"@);
    assert("Rect"@ != "Name"@);
    assert("Rect"@ != "Pad"@);
    assert("Rect"@ != "PythonError"@);
    assert("Rect"@ != "Reference"@);
    assert("Rect"@ != "Smd"@);
    assert("Reference"@ != "Pad"@);
    assert("Reference"@ != "PythonError"@);
    assert("Reference"@ != "Smd"@);
    assert("Smd"@ != "Pad"@);
    assert("Smd"@ != "PythonError"@);
    assert("drill"@ != "layers"@);
    assert("dx"@ != "corner"@);
    assert("dx"@ != "drill"@);
    assert("dx"@ != "dy"@);
    assert("dx"@ != "filled"@);
    assert("dx"@ != "layer"@);
    assert("dx"@ != "layers"@);
    assert("dx"@ != "w"@);
    assert("dy"@ != "corner"@);
    assert("dy"@ != "drill"@);
    assert("dy"@ != "filled"@);
    assert("dy"@ != "layer"@);
    assert("dy"@ != "layers"@);
    assert("dy"@ != "shorten"@);
    assert("dy"@ != "thickness"@);
    assert("dy"@ != "txt"@);
    assert("dy"@ != "w"@);
    assert("filled"@ != "corner"@);
    assert("filled"@ != "layer"@);
    assert("layer"@ != "corner"@);
    assert("layer"@ != "shorten"@);
    assert("name"@ != "drill"@);
    assert("name"@ != "dx"@);
    assert("name"@ != "dy"@);
    assert("name"@ != "layers"@);
    assert("name"@ != "x"@);
    assert("name"@ != "y"@);
    assert("t"@ != "corner"@);
    assert("t"@ != "drill"@);
    assert("t"@ != "dx"@);
    assert("t"@ != "dy"@);
    assert("t"@ != "filled"@);
    assert("t"@ != "layer"@);
    assert("t"@ != "layers"@);
    assert("t"@ != "message"@);
    assert("t"@ != "name"@);
    assert("t"@ != "shorten"@);
    assert("t"@ != "thickness"@);
    assert("t"@ != "txt"@);
    assert("t"@ != "w"@);
    assert("t"@ != "x"@);
    assert("t"@ != "x1"@);
    assert("t"@ != "x2"@);
    assert("t"@ != "y"@);
    assert("t"@ != "y1"@);
    assert("t"@ != "y2"@);
    assert("thickness"@ != "layer"@);
    assert("thickness"@ != "shorten"@);
    assert("txt"@ != "layer"@);
    assert("txt"@ != "shorten"@);
    assert("txt"@ != "thickness"@);
    assert("w"@ != "corner"@);
    assert("w"@ != "filled"@);
    assert("w"@ != "layer"@);
    assert("x"@ != "corner"@);
    assert("x"@ != "drill"@);
    assert("x"@ != "dx"@);
    assert("x"@ != "dy"@);
    assert("x"@ != "filled"@);
    assert("x"@ != "layer"@);
    assert("x"@ != "layers"@);
    assert("x"@ != "shorten"@);
    assert("x"@ != "thickness"@);
    assert("x"@ != "txt"@);
    assert("x"@ != "w"@);
    assert("x"@ != "y"@);
    assert("x1"@ != "layer"@);
    assert("x1"@ != "w"@);
    assert("x1"@ != "x2"@);
    assert("x1"@ != "y1"@);
    assert("x1"@ != "y2"@);
    assert("x2"@ != "layer"@);
    assert("x2"@ != "w"@);
    assert("x2"@ != "y2"@);
    assert("y"@ != "corner"@);
    assert("y"@ != "drill"@);
    assert("y"@ != "dx"@);
    assert("y"@ != "dy"@);
    assert("y"@ != "filled"@);
    assert("y"@ != "layer"@);
    assert("y"@ != "layers"@);
    assert("y"@ != "shorten"@);
    assert("y"@ != "thickness"@);
    assert("y"@ != "txt"@);
    assert("y"@ != "w"@);
    assert("y1"@ != "layer"@);
    assert("y1"@ != "w"@);
    assert("y1"@ != "x2"@);
    assert("y1"@ != "y2"@);
    assert("y2"@ != "layer"@);
    assert("y2"@ != "w"@);
}



} // verus!
