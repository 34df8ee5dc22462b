use madparts::element::{Element, TextExt};
use madparts::error::MpError;
use madparts::geom::Bound;
use madparts::layers::Layer;

fn decode(s: &str) -> Result<Element, MpError> {
    Element::try_from_wire(s)
}

#[test]
fn decodes_filled_rect() {
    let e = decode(r#"{"t":"Rect","x":0,"y":0,"dx":2,"dy":1,"w":0.1,"filled":true,"layer":"F.Cu"}"#)
        .unwrap();
    match &e {
        Element::Rect(r) => {
            assert_eq!(r.x, 0);
            assert_eq!(r.y, 0);
            assert_eq!(r.dx, 2_000_000);
            assert_eq!(r.dy, 1_000_000);
            assert_eq!(r.w, 100_000);
            assert!(r.filled);
            assert_eq!(r.layer, Layer::FCu);
            assert_eq!(r.corner, None);
        },
        other => panic!("expected a rect, got {:?}", other),
    }
}

#[test]
fn rect_bound_is_inflated_by_half_the_stroke() {
    let e = decode(r#"{"t":"Rect","x":0,"y":0,"dx":2,"dy":1,"w":0.1,"filled":true,"layer":"F.Cu"}"#)
        .unwrap();
    let b = madparts::element::bound(&vec![e], &vec![TextExt { w: 0, h: 0 }]);
    assert_eq!(
        b,
        Bound { min_x: -1_050_000, min_y: -550_000, max_x: 1_050_000, max_y: 550_000 }
    );
}

#[test]
fn missing_discriminator_is_rejected() {
    let r = decode(r#"{"x":1}"#);
    match r {
        Err(MpError::BadElement(m)) => assert!(m.starts_with("missing 't' in Element ")),
        other => panic!("expected a bad-element error, got {:?}", other),
    }
}

#[test]
fn unknown_discriminator_is_rejected() {
    let r = decode(r#"{"t":"Blob"}"#);
    match r {
        Err(MpError::BadElement(m)) => assert_eq!(m, "Unknown type: Blob"),
        other => panic!("expected a bad-element error, got {:?}", other),
    }
}

#[test]
fn non_finite_coordinate_is_rejected_at_decode() {
    let r = decode(r#"{"t":"Rect","x":Infinity,"y":0,"dx":2,"dy":1,"w":0.1,"filled":true,"layer":"F.Cu"}"#);
    match r {
        Err(MpError::BadElement(m)) => {
            assert!(m.starts_with("non-finite or out-of-range number in Element "))
        },
        other => panic!("expected a bad-element error, got {:?}", other),
    }
    let r = decode(r#"{"t":"Rect","x":NaN,"y":0,"dx":2,"dy":1,"w":0.1,"filled":true,"layer":"F.Cu"}"#);
    assert!(matches!(r, Err(MpError::BadElement(_))));
    let r = decode(r#"{"t":"Rect","x":1e999,"y":0,"dx":2,"dy":1,"w":0.1,"filled":true,"layer":"F.Cu"}"#);
    assert!(matches!(r, Err(MpError::BadElement(_))));
}

#[test]
fn malformed_json_is_rejected_as_json_error() {
    let r = decode("{nope");
    match r {
        Err(MpError::Json(m)) => assert!(m.starts_with("bad JSON in Element ")),
        other => panic!("expected a json error, got {:?}", other),
    }
}

#[test]
fn unfilled_rect_needs_positive_stroke() {
    let r = decode(r#"{"t":"Rect","x":0,"y":0,"dx":2,"dy":1,"w":0,"filled":false,"layer":"F.Cu"}"#);
    assert!(matches!(r, Err(MpError::BadElement(_))));
}

#[test]
fn chamfer_may_not_exceed_half_the_short_side() {
    let ok = decode(
        r#"{"t":"Rect","x":0,"y":0,"dx":2,"dy":1,"w":0.1,"filled":false,"layer":"F.Cu","corner":0.5}"#,
    );
    assert!(ok.is_ok());
    let bad = decode(
        r#"{"t":"Rect","x":0,"y":0,"dx":2,"dy":1,"w":0.1,"filled":false,"layer":"F.Cu","corner":0.6}"#,
    );
    assert!(matches!(bad, Err(MpError::BadElement(_))));
}

#[test]
fn layer_alias_promotes_to_rect_on_that_layer() {
    let e = decode(r#"{"t":"FFab","x":0,"y":0,"dx":2,"dy":1,"w":0.1,"filled":false}"#).unwrap();
    match &e {
        Element::Rect(r) => assert_eq!(r.layer, Layer::FFab),
        other => panic!("expected a rect, got {:?}", other),
    }
}

#[test]
fn name_decode_forces_the_shorten_mark() {
    let e = decode(
        r#"{"t":"Name","x":0,"y":-2,"dy":1,"txt":"TSSOP14","thickness":0.15,"layer":"F.Fab"}"#,
    )
    .unwrap();
    match &e {
        Element::Name(n) => {
            assert_eq!(n.text.shorten, Some(true));
            assert_eq!(n.text.txt, "TSSOP14");
            assert_eq!(n.text.dy, 1_000_000);
            assert_eq!(n.text.thickness, 150_000);
        },
        other => panic!("expected a name, got {:?}", other),
    }
}

#[test]
fn smd_must_name_the_top_copper_layer() {
    let bad = decode(
        r#"{"t":"Smd","name":"1","x":0,"y":0,"dx":1,"dy":0.5,"layers":["F.Paste","F.Mask"]}"#,
    );
    assert!(matches!(bad, Err(MpError::BadElement(_))));
    let ok = decode(
        r#"{"t":"Smd","name":"1","x":-2,"y":0,"dx":1,"dy":0.5,"layers":["F.Cu","F.Paste","F.Mask"]}"#,
    )
    .unwrap();
    match &ok {
        Element::Smd(m) => {
            assert_eq!(m.layers, vec![Layer::FCu, Layer::FPaste, Layer::FMask]);
            assert_eq!(m.x, -2_000_000);
        },
        other => panic!("expected a surface-mount pad, got {:?}", other),
    }
}

#[test]
fn pad_drill_must_fit_inside_the_pad() {
    let bad = decode(
        r#"{"t":"Pad","name":"1","x":0,"y":0,"dx":1,"dy":1.2,"drill":1,"layers":["F.Cu"]}"#,
    );
    assert!(matches!(bad, Err(MpError::BadElement(_))));
    let ok = decode(
        r#"{"t":"Pad","name":"1","x":0,"y":0,"dx":1,"dy":1.2,"drill":0.6,"layers":["F.Cu"]}"#,
    );
    assert!(ok.is_ok());
}

#[test]
fn python_error_is_a_valid_element() {
    let e = decode(r#"{"t":"PythonError","message":"NameError: x"}"#).unwrap();
    match &e {
        Element::PythonError(p) => assert_eq!(p.message, "NameError: x"),
        other => panic!("expected a diagnostic element, got {:?}", other),
    }
}

#[test]
fn extra_fields_are_ignored() {
    let e = decode(
        r#"{"t":"Line","x1":0,"y1":0,"x2":1,"y2":1,"w":0.2,"layer":"F.SilkS","note":["x",{"y":1}]}"#,
    );
    assert!(e.is_ok());
}

#[test]
fn decode_then_reencode_preserves_all_fields() {
    let texts = [
        r#"{"t":"Rect","x":0,"y":0,"dx":2,"dy":1,"w":0.1,"filled":true,"layer":"F.Cu"}"#,
        r#"{"t":"Rect","x":-1.5,"y":2,"dx":2,"dy":1,"w":0.1,"filled":false,"layer":"F.CrtYd","corner":0.25}"#,
        r#"{"t":"Line","x1":0,"y1":0,"x2":1,"y2":1,"w":0.2,"layer":"F.SilkS"}"#,
        r#"{"t":"Name","x":0,"y":-2,"dy":1,"txt":"TSSOP14","thickness":0.15,"layer":"F.Fab"}"#,
        r#"{"t":"Reference","x":0,"y":2,"dy":1,"txt":"REF**","thickness":0.15,"layer":"F.SilkS"}"#,
        r#"{"t":"Smd","name":"1","x":-2,"y":0,"dx":1,"dy":0.5,"layers":["F.Cu","F.Paste","F.Mask"]}"#,
        r#"{"t":"Pad","name":"2","x":0,"y":0,"dx":1,"dy":1.2,"drill":0.6,"layers":["F.Cu"]}"#,
        r#"{"t":"PythonError","message":"NameError: x\n  at \"<string>\""}"#,
    ];
    for s in texts {
        let e1 = decode(s).unwrap();
        let wire = e1.to_wire();
        let e2 = decode(&wire).expect(&wire);
        assert_eq!(e1, e2, "round trip through {}", wire);
    }
}

#[test]
fn canonical_encoding_of_a_rect() {
    let e = decode(r#"{ "t":"Rect", "x":0, "y":0, "dx":2, "dy":1, "w":0.1, "filled":true, "layer":"F.Cu" }"#)
        .unwrap();
    assert_eq!(
        e.to_wire(),
        r#"{"t":"Rect","x":0,"y":0,"dx":2,"dy":1,"w":0.1,"filled":true,"layer":"F.Cu"}"#
    );
}

#[test]
fn decoding_is_deterministic() {
    let s = r#"{"t":"Line","x1":0,"y1":0,"x2":1,"y2":1,"w":0.2,"layer":"F.SilkS"}"#;
    assert_eq!(decode(s).unwrap(), decode(s).unwrap());
}

#[test]
fn exponent_numbers_decode_exactly() {
    let e = decode(r#"{"t":"Rect","x":1e-1,"y":-2.5e1,"dx":2,"dy":1,"w":1E-1,"filled":true,"layer":"F.Cu"}"#)
        .unwrap();
    match &e {
        Element::Rect(r) => {
            assert_eq!(r.x, 100_000);
            assert_eq!(r.y, -25_000_000);
            assert_eq!(r.w, 100_000);
        },
        other => panic!("expected a rect, got {:?}", other),
    }
}

#[test]
fn numbers_finer_than_a_nanometre_are_out_of_range() {
    let r = decode(r#"{"t":"Rect","x":0.0000001,"y":0,"dx":2,"dy":1,"w":0.1,"filled":true,"layer":"F.Cu"}"#);
    match r {
        Err(MpError::BadElement(m)) => {
            assert!(m.starts_with("non-finite or out-of-range number in Element "))
        },
        other => panic!("expected a bad-element error, got {:?}", other),
    }
    // the finest representable value is accepted
    let ok = decode(r#"{"t":"Rect","x":0.000001,"y":0,"dx":2,"dy":1,"w":0.1,"filled":true,"layer":"F.Cu"}"#)
        .unwrap();
    match &ok {
        Element::Rect(rc) => assert_eq!(rc.x, 1),
        other => panic!("expected a rect, got {:?}", other),
    }
}

#[test]
fn leading_zeros_are_not_json() {
    let r = decode(r#"{"t":"Rect","x":007,"y":0,"dx":2,"dy":1,"w":0.1,"filled":true,"layer":"F.Cu"}"#);
    assert!(matches!(r, Err(MpError::Json(_))));
}

#[test]
fn string_escapes_decode() {
    let e = decode(r#"{"t":"PythonError","message":"a\nb\t\"q\" A \\"}"#).unwrap();
    match &e {
        Element::PythonError(p) => assert_eq!(p.message, "a\nb\t\"q\" A \\"),
        other => panic!("expected a diagnostic element, got {:?}", other),
    }
}

#[test]
fn lone_surrogate_escapes_are_refused() {
    let r = decode(r#"{"t":"PythonError","message":"\uD800"}"#);
    assert!(matches!(r, Err(MpError::Json(_))));
}

#[test]
fn a_reference_may_switch_shortening_off_on_the_wire() {
    let e = decode(
        r#"{"t":"Reference","x":0,"y":2,"dy":1,"txt":"REFERENCE9","thickness":0.15,"shorten":false,"layer":"F.SilkS"}"#,
    )
    .unwrap();
    match &e {
        Element::Reference(n) => {
            assert_eq!(n.text.shorten, Some(false));
            assert_eq!(n.text.shortened_text(), "REFERENCE9");
        },
        other => panic!("expected a reference, got {:?}", other),
    }
}

#[test]
fn an_overlong_exponent_is_out_of_range_not_noise() {
    let r = decode(r#"{"t":"Rect","x":1e10000,"y":0,"dx":2,"dy":1,"w":0.1,"filled":true,"layer":"F.Cu"}"#);
    match r {
        Err(MpError::BadElement(m)) => {
            assert!(m.starts_with("non-finite or out-of-range number in Element "))
        },
        other => panic!("expected a bad-element error, got {:?}", other),
    }
}
