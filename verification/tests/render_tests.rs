use madparts::element::{Element, TextExt, bound};
use madparts::geom::Bound;
use madparts::layers::{Layer, Rgba, layer_color_of};
use madparts::render::{DrawCmd, render_commands};

fn decode(s: &str) -> Element {
    Element::try_from_wire(s).unwrap()
}

#[test]
fn empty_element_list_fills_background_and_returns() {
    let cmds = render_commands(&vec![], &Bound::default(), 800, 600);
    assert_eq!(cmds.len(), 2);
    assert!(matches!(cmds[0], DrawCmd::SetColor(_)));
    assert!(matches!(cmds[1], DrawCmd::FillBackground));
}

#[test]
fn pointlike_bound_degrades_to_the_background() {
    let name = decode(
        r#"{"t":"Name","x":0,"y":0,"dy":1,"txt":"X","thickness":0.15,"layer":"F.Fab"}"#,
    );
    let exts = vec![TextExt { w: 0, h: 0 }];
    let b = bound(&vec![name.clone()], &exts);
    assert_eq!(b, Bound { min_x: 0, min_y: 0, max_x: 0, max_y: 0 });
    let cmds = render_commands(&vec![name], &b, 800, 600);
    assert_eq!(cmds.len(), 2);
}

#[test]
fn flat_bound_still_fits_by_the_other_axis() {
    let line = decode(r#"{"t":"Line","x1":-1,"y1":0,"x2":1,"y2":0,"w":0.2,"layer":"F.SilkS"}"#);
    let exts = vec![TextExt { w: 0, h: 0 }];
    let b = bound(&vec![line.clone()], &exts);
    let cmds = render_commands(&vec![line], &b, 800, 600);
    assert!(cmds.iter().any(|c| matches!(c, DrawCmd::Fit { .. })));
}

#[test]
fn a_rect_draws_only_on_its_own_layer() {
    let e = decode(r#"{"t":"Rect","x":0,"y":0,"dx":2,"dy":1,"w":0.1,"filled":true,"layer":"F.Cu"}"#);
    assert_eq!(e.draw_element(Layer::FSilkS).len(), 0);
    assert_eq!(e.draw_element(Layer::FFab).len(), 0);
    let on_cu = e.draw_element(Layer::FCu);
    assert_eq!(on_cu.len(), 2);
    assert!(matches!(on_cu[1], DrawCmd::FillRect { .. }));
}

#[test]
fn a_name_draws_only_on_the_fabrication_layer() {
    let e = decode(
        r#"{"t":"Name","x":0,"y":0,"dy":1,"txt":"TSSOP14","thickness":0.15,"layer":"F.Fab"}"#,
    );
    assert_eq!(e.draw_element(Layer::FCu).len(), 0);
    let cmds = e.draw_element(Layer::FFab);
    assert_eq!(cmds.len(), 2);
    match &cmds[1] {
        DrawCmd::TextAt { text, size, .. } => {
            // the shorten mark was forced at decode, so the long name is cut
            assert_eq!(text, "TSSO…");
            assert_eq!(*size, 1_000_000);
        },
        other => panic!("expected a text command, got {:?}", other),
    }
}

#[test]
fn a_pad_draws_its_disk_its_drill_and_its_label() {
    let e = decode(
        r#"{"t":"Pad","name":"7","x":0,"y":0,"dx":1,"dy":1.2,"drill":0.6,"layers":["F.Cu"]}"#,
    );
    let cmds = e.draw_element(Layer::FCu);
    assert_eq!(cmds.len(), 6);
    assert!(matches!(cmds[1], DrawCmd::FillCircle { d: 1_000_000, .. }));
    assert!(matches!(cmds[2], DrawCmd::SetColor(Rgba { r: 0, g: 0, b: 0, a: 1000 })));
    assert!(matches!(cmds[3], DrawCmd::FillCircle { d: 600_000, .. }));
    match &cmds[5] {
        DrawCmd::TextAt { size, .. } => {
            // min(dx / 1 glyph, dy) scaled by nine tenths
            assert_eq!(*size, 900_000);
        },
        other => panic!("expected a label, got {:?}", other),
    }
}

#[test]
fn a_script_error_never_draws() {
    let e = decode(r#"{"t":"PythonError","message":"NameError: x"}"#);
    assert_eq!(e.draw_element(Layer::FCu).len(), 0);
    assert_eq!(e.draw_element(Layer::FFab).len(), 0);
}

#[test]
fn layers_are_drawn_bottom_up() {
    let copper = decode(
        r#"{"t":"Rect","x":0,"y":0,"dx":2,"dy":1,"w":0.1,"filled":true,"layer":"F.Cu"}"#,
    );
    let fab = decode(
        r#"{"t":"Rect","x":0,"y":0,"dx":2,"dy":1,"w":0.1,"filled":true,"layer":"F.Fab"}"#,
    );
    let exts = vec![TextExt { w: 0, h: 0 }, TextExt { w: 0, h: 0 }];
    let es = vec![fab, copper];
    let b = bound(&es, &exts);
    let cmds = render_commands(&es, &b, 800, 600);
    let mut colors_in_order: Vec<Rgba> = Vec::new();
    for c in &cmds {
        if let DrawCmd::SetColor(rgba) = c {
            colors_in_order.push(*rgba);
        }
    }
    let cu = layer_color_of(Layer::FCu);
    let fabc = layer_color_of(Layer::FFab);
    let cu_pos = colors_in_order.iter().position(|c| *c == cu).unwrap();
    let fab_pos = colors_in_order.iter().position(|c| *c == fabc).unwrap();
    assert!(cu_pos < fab_pos, "copper must be drawn before the fabrication layer");
}

#[test]
fn the_frame_has_axes_and_a_grid() {
    let e = decode(r#"{"t":"Rect","x":0,"y":0,"dx":4,"dy":2,"w":0.1,"filled":true,"layer":"F.Cu"}"#);
    let exts = vec![TextExt { w: 0, h: 0 }];
    let es = vec![e];
    let b = bound(&es, &exts);
    let cmds = render_commands(&es, &b, 800, 600);
    let segments = cmds.iter().filter(|c| matches!(c, DrawCmd::Segment { .. })).count();
    assert_eq!(segments, 2);
    // dots at every integer millimetre within twice the extent:
    // dx spans 4.1 mm -> 8 columns, dy spans 2.1 mm -> 4 rows
    let dots = cmds.iter().filter(|c| matches!(c, DrawCmd::Dot { .. })).count();
    assert_eq!(dots, 16 * 8);
}
