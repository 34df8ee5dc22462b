use madparts::element::Element;
use madparts::error::MpError;
use madparts::kicad::{export_string, to_footprint};

fn decode(s: &str) -> Element {
    Element::try_from_wire(s).unwrap()
}

#[test]
fn filled_rect_exports_to_one_rect_entry() {
    let e = decode(r#"{"t":"Rect","x":0,"y":0,"dx":2,"dy":1,"w":0.1,"filled":true,"layer":"F.Cu"}"#);
    let f = to_footprint(&vec![e]);
    assert_eq!(f.rects.len(), 1);
    assert_eq!(f.lines.len(), 0);
    assert_eq!(f.smd.len(), 0);
    assert_eq!(f.pad.len(), 0);
}

#[test]
fn unfilled_rect_exports_to_four_lines_clockwise_from_top_left() {
    let e = decode(r#"{"t":"Rect","x":0,"y":0,"dx":2,"dy":1,"w":0.1,"filled":false,"layer":"F.Cu"}"#);
    let f = to_footprint(&vec![e]);
    assert_eq!(f.rects.len(), 0);
    assert_eq!(f.lines.len(), 4);
    let mm = 1_000_000i64;
    let pts: Vec<(i64, i64, i64, i64)> =
        f.lines.iter().map(|l| (l.x1, l.y1, l.x2, l.y2)).collect();
    assert_eq!(
        pts,
        vec![
            (-mm, -mm / 2, mm, -mm / 2),
            (mm, -mm / 2, mm, mm / 2),
            (mm, mm / 2, -mm, mm / 2),
            (-mm, mm / 2, -mm, -mm / 2),
        ]
    );
    // the loop is closed: each line starts where the previous ended
    for k in 0..4 {
        let a = &f.lines[k];
        let b = &f.lines[(k + 1) % 4];
        assert_eq!((a.x2, a.y2), (b.x1, b.y1));
    }
}

#[test]
fn export_needs_a_name() {
    let e = decode(r#"{"t":"Rect","x":0,"y":0,"dx":2,"dy":1,"w":0.1,"filled":true,"layer":"F.Cu"}"#);
    let f = to_footprint(&vec![e]);
    match export_string(&f, 0) {
        Err(MpError::Save(m)) => assert_eq!(m, "footprint is missing a name"),
        other => panic!("expected a save error, got {:?}", other),
    }
}

#[test]
fn export_needs_a_reference() {
    let name = decode(
        r#"{"t":"Name","x":0,"y":-2,"dy":1,"txt":"TSSOP14","thickness":0.15,"layer":"F.Fab"}"#,
    );
    let f = to_footprint(&vec![name]);
    match export_string(&f, 0) {
        Err(MpError::Save(m)) => assert_eq!(m, "footprint is missing a reference"),
        other => panic!("expected a save error, got {:?}", other),
    }
}

fn example_elements() -> Vec<Element> {
    vec![
        decode(r#"{"t":"Name","x":0,"y":-2,"dy":1,"txt":"TSSOP14","thickness":0.15,"layer":"F.Fab"}"#),
        decode(r#"{"t":"Reference","x":0,"y":2,"dy":1,"txt":"REF**","thickness":0.15,"layer":"F.SilkS"}"#),
        decode(r#"{"t":"Smd","name":"1","x":-2,"y":0,"dx":1,"dy":0.5,"layers":["F.Cu","F.Paste","F.Mask"]}"#),
    ]
}

#[test]
fn export_opens_with_the_module_line() {
    let f = to_footprint(&example_elements());
    let out = export_string(&f, 0x5F5E100).unwrap();
    assert!(out.starts_with("(module TSSOP14 (layer F.Cu) (tedit 5F5E100)\n"));
    assert!(out.contains("  (tags \"\")\n"));
    assert!(out.contains("  (attr smd)\n"));
    assert!(out.ends_with(")\n"));
}

#[test]
fn export_contains_exactly_one_smd_pad_entry() {
    let f = to_footprint(&example_elements());
    let out = export_string(&f, 1).unwrap();
    let needle = "  (pad 1 smd rect (at -2 0) (size 1 0.5) (layers F.Cu F.Paste F.Mask))\n";
    assert_eq!(out.matches(needle).count(), 1);
    assert_eq!(out.matches("(pad ").count(), 1);
    assert_eq!(out.matches("(fp_line ").count(), 0);
}

#[test]
fn export_writes_the_anchored_texts() {
    let f = to_footprint(&example_elements());
    let out = export_string(&f, 1).unwrap();
    assert!(out.contains("  (fp_text reference REF** (at 0 2) layer F.SilkS)\n"));
    assert!(out.contains("    (effects (font (size 1 1) (thickness 0.15)))\n  )\n"));
    assert!(out.contains("  (fp_text value TSSOP14 (at 0 -2) layer F.Fab)\n"));
    assert!(out.contains("  (fp_text user %R (at 0 0) layer F.Fab)\n"));
    assert!(out.contains("    (effects (font (size 0.8 0.8) (thickness 0.1)))\n"));
}

#[test]
fn through_hole_pads_export_with_their_drill() {
    let mut es = example_elements();
    es.push(decode(
        r#"{"t":"Pad","name":"2","x":0.5,"y":-0.25,"dx":1,"dy":1.2,"drill":0.6,"layers":["F.Cu"]}"#,
    ));
    let f = to_footprint(&es);
    let out = export_string(&f, 1).unwrap();
    assert!(out.contains(
        "  (pad 2 thru_hole circle (at 0.5 -0.25) (size 1 1.2) (drill 0.6) (layers *.Cu *.Mask))\n"
    ));
}

#[test]
fn lines_export_in_input_order() {
    let mut es = example_elements();
    es.push(decode(r#"{"t":"Line","x1":0,"y1":0,"x2":1,"y2":0,"w":0.2,"layer":"F.SilkS"}"#));
    es.push(decode(r#"{"t":"Line","x1":1,"y1":0,"x2":1,"y2":1,"w":0.2,"layer":"F.SilkS"}"#));
    let f = to_footprint(&es);
    let out = export_string(&f, 1).unwrap();
    let first = out.find("(fp_line (start 0 0) (end 1 0)").unwrap();
    let second = out.find("(fp_line (start 1 0) (end 1 1)").unwrap();
    assert!(first < second);
}

#[test]
fn last_name_wins() {
    let es = vec![
        decode(r#"{"t":"Name","x":0,"y":-2,"dy":1,"txt":"ONE","thickness":0.15,"layer":"F.Fab"}"#),
        decode(r#"{"t":"Name","x":0,"y":-2,"dy":1,"txt":"TWO","thickness":0.15,"layer":"F.Fab"}"#),
    ];
    let f = to_footprint(&es);
    assert_eq!(f.name.as_ref().unwrap().txt, "TWO");
}
