//! The renderer's command generation.
//!
//! The library decides everything the canvas shows — the fit, the
//! axes, the dot grid, and each element's marks, layer by layer in
//! ascending z — and hands the decisions over as a list of drawing
//! commands in nanometre coordinates.  The shell replays them on the
//! drawing backend, measuring text as it goes.

use vstd::prelude::*;
use crate::element::{
    Element, ElementV, elems_view, element_valid, layer_routing, shortened_spec,
};
use crate::geom::{Bound, BoundV, bound_wf};
use crate::layers::{
    Layer, Rgba, layer_color, layer_color_of, footprint_layer_order, footprint_layers_in_order,
};

verus! {

/// One drawing command, in nanometre model coordinates.  A text is
/// centred on its anchor by the replayer, which alone can measure it.
#[derive(Debug)]
pub enum DrawCmd {
    /// Selects the colour for the commands that follow.
    SetColor(Rgba),
    /// Fills the whole canvas.
    FillBackground,
    /// Scales so that a span of (sw, sh) fills the canvas and moves
    /// the origin by (tx, ty).
    Fit { sw: i64, sh: i64, tx: i64, ty: i64 },
    /// A stroked segment with round caps.
    Segment { x1: i64, y1: i64, x2: i64, y2: i64, w: i64 },
    /// A single-pixel dot at an integer millimetre coordinate.
    Dot { x_mm: i64, y_mm: i64 },
    /// A filled axis-aligned rectangle from its top-left corner.
    FillRect { x0: i64, y0: i64, dx: i64, dy: i64 },
    /// A stroked closed path.
    StrokePath { pts: Vec<(i64, i64)>, w: i64 },
    /// A filled disk of the given diameter.
    FillCircle { x: i64, y: i64, d: i64 },
    /// A text centred on (x, y) at the given glyph height.
    TextAt { x: i64, y: i64, size: i64, text: String },
}

/// The mathematical image of a [`DrawCmd`].
pub enum DrawCmdV {
    SetColor(Rgba),
    FillBackground,
    Fit { sw: int, sh: int, tx: int, ty: int },
    Segment { x1: int, y1: int, x2: int, y2: int, w: int },
    Dot { x_mm: int, y_mm: int },
    FillRect { x0: int, y0: int, dx: int, dy: int },
    StrokePath { pts: Seq<(int, int)>, w: int },
    FillCircle { x: int, y: int, d: int },
    TextAt { x: int, y: int, size: int, text: Seq<char> },
}

impl View for DrawCmd {
    type V = DrawCmdV;

    open spec fn view(&self) -> DrawCmdV {
        match self {
            DrawCmd::SetColor(c) => DrawCmdV::SetColor(*c),
            DrawCmd::FillBackground => DrawCmdV::FillBackground,
            DrawCmd::Fit { sw, sh, tx, ty } => DrawCmdV::Fit {
                sw: *sw as int,
                sh: *sh as int,
                tx: *tx as int,
                ty: *ty as int,
            },
            DrawCmd::Segment { x1, y1, x2, y2, w } => DrawCmdV::Segment {
                x1: *x1 as int,
                y1: *y1 as int,
                x2: *x2 as int,
                y2: *y2 as int,
                w: *w as int,
            },
            DrawCmd::Dot { x_mm, y_mm } => DrawCmdV::Dot {
                x_mm: *x_mm as int,
                y_mm: *y_mm as int,
            },
            DrawCmd::FillRect { x0, y0, dx, dy } => DrawCmdV::FillRect {
                x0: *x0 as int,
                y0: *y0 as int,
                dx: *dx as int,
                dy: *dy as int,
            },
            DrawCmd::StrokePath { pts, w } => DrawCmdV::StrokePath {
                pts: Seq::new(pts@.len(), |i: int| (pts@[i].0 as int, pts@[i].1 as int)),
                w: *w as int,
            },
            DrawCmd::FillCircle { x, y, d } => DrawCmdV::FillCircle {
                x: *x as int,
                y: *y as int,
                d: *d as int,
            },
            DrawCmd::TextAt { x, y, size, text } => DrawCmdV::TextAt {
                x: *x as int,
                y: *y as int,
                size: *size as int,
                text: text@,
            },
        }
    }
}

/// The images of a command list.
pub open spec fn cmds_view(cs: Seq<DrawCmd>) -> Seq<DrawCmdV> {
    Seq::new(cs.len(), |i: int| cs[i]@)
}

/// Pure white, for pad labels.
pub open spec fn white() -> Rgba {
    Rgba { r: 1000, g: 1000, b: 1000, a: 1000 }
}

/// Pure black, for drill holes.
pub open spec fn black() -> Rgba {
    Rgba { r: 0, g: 0, b: 0, a: 1000 }
}

/// The corner path of an unfilled rectangle, with the top-left corner
/// chamfered when a chamfer is set.
pub open spec fn outline_pts(r: crate::element::RectV) -> Seq<(int, int)> {
    let tail = seq![
        (r.x + r.dx / 2, r.y - r.dy / 2),
        (r.x + r.dx / 2, r.y + r.dy / 2),
        (r.x - r.dx / 2, r.y + r.dy / 2),
    ];
    match r.corner {
        Some(c) => seq![(r.x - r.dx / 2, r.y - r.dy / 2 + c), (r.x - r.dx / 2 + c, r.y - r.dy / 2)]
            + tail,
        None => seq![(r.x - r.dx / 2, r.y - r.dy / 2)] + tail,
    }
}

/// The glyph height for a pad label: the name must fit the pad, and
/// nine tenths of the tighter dimension are used.
pub open spec fn pad_label_size(dx: int, dy: int, n: int) -> int {
    if n == 0 {
        dy * 9 / 10
    } else {
        vstd::math::min(dx / n, dy) * 9 / 10
    }
}

/// The marks of a text element: its colour, then the shortened text
/// centred on the anchor.
pub open spec fn text_cmds(t: crate::element::TextV, layer: Layer) -> Seq<DrawCmdV> {
    seq![
        DrawCmdV::SetColor(layer_color(layer)),
        DrawCmdV::TextAt { x: t.x, y: t.y, size: t.dy, text: shortened_spec(t) },
    ]
}

/// The marks an element leaves when the given layer is drawn: nothing
/// at all unless the element routes to that layer.
pub open spec fn elem_cmds(e: ElementV, layer: Layer) -> Seq<DrawCmdV> {
    match e {
        ElementV::Rect(r) => if layer == r.layer {
            if r.filled {
                seq![
                    DrawCmdV::SetColor(layer_color(layer)),
                    DrawCmdV::FillRect {
                        x0: r.x - r.dx / 2,
                        y0: r.y - r.dy / 2,
                        dx: r.dx,
                        dy: r.dy,
                    },
                ]
            } else {
                seq![
                    DrawCmdV::SetColor(layer_color(layer)),
                    DrawCmdV::StrokePath { pts: outline_pts(r), w: r.w },
                ]
            }
        } else {
            Seq::empty()
        },
        ElementV::Line(l) => if layer == l.layer {
            seq![
                DrawCmdV::SetColor(layer_color(layer)),
                DrawCmdV::Segment { x1: l.x1, y1: l.y1, x2: l.x2, y2: l.y2, w: l.w },
            ]
        } else {
            Seq::empty()
        },
        ElementV::Name(t) => if layer == Layer::FFab {
            text_cmds(t, layer)
        } else {
            Seq::empty()
        },
        ElementV::Reference(t) => if layer == Layer::FSilkS {
            text_cmds(t, layer)
        } else {
            Seq::empty()
        },
        ElementV::Smd(m) => if layer == Layer::FCu {
            seq![
                DrawCmdV::SetColor(layer_color(layer)),
                DrawCmdV::FillRect { x0: m.x - m.dx / 2, y0: m.y - m.dy / 2, dx: m.dx, dy: m.dy },
                DrawCmdV::SetColor(white()),
                DrawCmdV::TextAt {
                    x: m.x,
                    y: m.y,
                    size: pad_label_size(m.dx, m.dy, m.name.len() as int),
                    text: m.name,
                },
            ]
        } else {
            Seq::empty()
        },
        ElementV::Pad(p) => if layer == Layer::FCu {
            seq![
                DrawCmdV::SetColor(layer_color(layer)),
                DrawCmdV::FillCircle { x: p.x, y: p.y, d: p.dx },
                DrawCmdV::SetColor(black()),
                DrawCmdV::FillCircle { x: p.x, y: p.y, d: p.drill },
                DrawCmdV::SetColor(white()),
                DrawCmdV::TextAt {
                    x: p.x,
                    y: p.y,
                    size: pad_label_size(p.dx, p.dy, p.name.len() as int),
                    text: p.name,
                },
            ]
        } else {
            Seq::empty()
        },
        ElementV::PythonError(_) => Seq::empty(),
    }
}

/// Only elements routed to a layer leave marks there: an element that
/// does not participate in the drawn layer emits no command at all.
pub proof fn lemma_draw_respects_routing(e: ElementV, layer: Layer)
    ensures
        elem_cmds(e, layer).len() > 0 ==> layer_routing(e).contains(layer),
{
    match e {
        ElementV::Rect(r) => {
            if layer == r.layer {
                assert(layer_routing(e).contains(layer));
            }
        },
        ElementV::Line(l) => {
            if layer == l.layer {
                assert(layer_routing(e).contains(layer));
            }
        },
        ElementV::Name(_) => {
            if layer == Layer::FFab {
                assert(layer_routing(e).contains(layer));
            }
        },
        ElementV::Reference(_) => {
            if layer == Layer::FSilkS {
                assert(layer_routing(e).contains(layer));
            }
        },
        ElementV::Smd(_) => {
            if layer == Layer::FCu {
                assert(layer_routing(e).contains(layer));
            }
        },
        ElementV::Pad(_) => {
            if layer == Layer::FCu {
                assert(layer_routing(e).contains(layer));
            }
        },
        ElementV::PythonError(_) => {},
    }
}

/// Exec twin of [`pad_label_size`].
fn pad_label_size_of(dx: i64, dy: i64, name: &str) -> (r: i64)
    requires
        0 < dx <= crate::geom::NM_LIMIT,
        0 < dy <= crate::geom::NM_LIMIT,
    ensures
        r == pad_label_size(dx as int, dy as int, name@.len() as int),
{
    let n = name.unicode_len();
    if n == 0 {
        dy * 9 / 10
    } else if n as u64 > 1000000000000u64 {
        // more glyphs than any pad is wide in nanometres: size zero
        proof {
            assert(dx as int / (name@.len() as int) == 0) by (nonlinear_arith)
                requires
                    0 < dx as int <= 1000000000000,
                    name@.len() as int > 1000000000000,
            ;
        }
        0
    } else {
        let nn = n as u64 as i64;
        let fit = dx / nn;
        let base = if fit <= dy {
            fit
        } else {
            dy
        };
        base * 9 / 10
    }
}

impl Element {
    /// The marks this element leaves when `layer` is drawn.
    pub fn draw_element(&self, layer: Layer) -> (r: Vec<DrawCmd>)
        requires
            element_valid(self@),
        ensures
            cmds_view(r@) == elem_cmds(self@, layer),
    {
        let mut out: Vec<DrawCmd> = Vec::new();
        match self {
            Element::Rect(rc) => {
                if layer_eq(layer, rc.layer) {
                    out.push(DrawCmd::SetColor(layer_color_of(layer)));
                    if rc.filled {
                        out.push(
                            DrawCmd::FillRect {
                                x0: rc.x - rc.dx / 2,
                                y0: rc.y - rc.dy / 2,
                                dx: rc.dx,
                                dy: rc.dy,
                            },
                        );
                    } else {
                        let mut pts: Vec<(i64, i64)> = Vec::new();
                        match rc.corner {
                            Some(c) => {
                                pts.push((rc.x - rc.dx / 2, rc.y - rc.dy / 2 + c));
                                pts.push((rc.x - rc.dx / 2 + c, rc.y - rc.dy / 2));
                            },
                            None => {
                                pts.push((rc.x - rc.dx / 2, rc.y - rc.dy / 2));
                            },
                        }
                        pts.push((rc.x + rc.dx / 2, rc.y - rc.dy / 2));
                        pts.push((rc.x + rc.dx / 2, rc.y + rc.dy / 2));
                        pts.push((rc.x - rc.dx / 2, rc.y + rc.dy / 2));
                        let cmd = DrawCmd::StrokePath { pts, w: rc.w };
                        proof {
                            assert(cmd@ matches DrawCmdV::StrokePath { pts: p, w } && p =~= outline_pts(
                                rc@,
                            ) && w == rc.w as int);
                        }
                        out.push(cmd);
                    }
                }
            },
            Element::Line(l) => {
                if layer_eq(layer, l.layer) {
                    out.push(DrawCmd::SetColor(layer_color_of(layer)));
                    out.push(
                        DrawCmd::Segment { x1: l.x1, y1: l.y1, x2: l.x2, y2: l.y2, w: l.w },
                    );
                }
            },
            Element::Name(n) => {
                if layer_eq(layer, Layer::FFab) {
                    out.push(DrawCmd::SetColor(layer_color_of(layer)));
                    let text = n.text.shortened_text();
                    out.push(
                        DrawCmd::TextAt { x: n.text.x, y: n.text.y, size: n.text.dy, text },
                    );
                }
            },
            Element::Reference(n) => {
                if layer_eq(layer, Layer::FSilkS) {
                    out.push(DrawCmd::SetColor(layer_color_of(layer)));
                    let text = n.text.shortened_text();
                    out.push(
                        DrawCmd::TextAt { x: n.text.x, y: n.text.y, size: n.text.dy, text },
                    );
                }
            },
            Element::Smd(m) => {
                if layer_eq(layer, Layer::FCu) {
                    out.push(DrawCmd::SetColor(layer_color_of(layer)));
                    out.push(
                        DrawCmd::FillRect {
                            x0: m.x - m.dx / 2,
                            y0: m.y - m.dy / 2,
                            dx: m.dx,
                            dy: m.dy,
                        },
                    );
                    out.push(DrawCmd::SetColor(Rgba { r: 1000, g: 1000, b: 1000, a: 1000 }));
                    let size = pad_label_size_of(m.dx, m.dy, m.name.as_str());
                    out.push(DrawCmd::TextAt { x: m.x, y: m.y, size, text: m.name.clone() });
                }
            },
            Element::Pad(p) => {
                if layer_eq(layer, Layer::FCu) {
                    out.push(DrawCmd::SetColor(layer_color_of(layer)));
                    out.push(DrawCmd::FillCircle { x: p.x, y: p.y, d: p.dx });
                    out.push(DrawCmd::SetColor(Rgba { r: 0, g: 0, b: 0, a: 1000 }));
                    out.push(DrawCmd::FillCircle { x: p.x, y: p.y, d: p.drill });
                    out.push(DrawCmd::SetColor(Rgba { r: 1000, g: 1000, b: 1000, a: 1000 }));
                    let size = pad_label_size_of(p.dx, p.dy, p.name.as_str());
                    out.push(DrawCmd::TextAt { x: p.x, y: p.y, size, text: p.name.clone() });
                }
            },
            Element::PythonError(_) => {},
        }
        proof {
            assert(cmds_view(out@) =~= elem_cmds(self@, layer));
        }
        out
    }
}

/// Exec equality on layers.
fn layer_eq(a: Layer, b: Layer) -> (r: bool)
    ensures
        r == (a == b),
{
    a == b
}


/// The axis cross: two hairlines through the origin, reaching twice
/// the larger bound extent each way.
pub open spec fn axes_cmds(dw: int, dh: int) -> Seq<DrawCmdV> {
    let m = vstd::math::max(dw, dh);
    seq![
        DrawCmdV::SetColor(layer_color(Layer::Axes)),
        DrawCmdV::Segment { x1: -2 * m, y1: 0, x2: 2 * m, y2: 0, w: 10000 },
        DrawCmdV::Segment { x1: 0, y1: -2 * m, x2: 0, y2: 2 * m, w: 10000 },
    ]
}

/// One column of grid dots at millimetre x `ix`, y from `iy0` to `iy1`.
pub open spec fn grid_col(ix: int, iy0: int, iy1: int) -> Seq<DrawCmdV>
    decreases iy1 - iy0,
{
    if iy0 >= iy1 {
        Seq::empty()
    } else {
        grid_col(ix, iy0, iy1 - 1).push(DrawCmdV::Dot { x_mm: ix, y_mm: iy1 - 1 })
    }
}

/// The grid dots for x from `ix0` to `ix1`, column by column.
pub open spec fn grid_cols(ix0: int, ix1: int, iy0: int, iy1: int) -> Seq<DrawCmdV>
    decreases ix1 - ix0,
{
    if ix0 >= ix1 {
        Seq::empty()
    } else {
        grid_cols(ix0, ix1 - 1, iy0, iy1) + grid_col(ix1 - 1, iy0, iy1)
    }
}

/// The dot grid: a dot at every integer millimetre coordinate within
/// twice the bound's extent, in grid colour.
pub open spec fn grid_cmds(dw: int, dh: int) -> Seq<DrawCmdV> {
    let gx = 2 * (dw / 1000000);
    let gy = 2 * (dh / 1000000);
    seq![DrawCmdV::SetColor(layer_color(Layer::Grid))] + grid_cols(-gx, gx, -gy, gy)
}

/// One layer's pass over the elements, in input order.
pub open spec fn layer_pass(es: Seq<ElementV>, layer: Layer) -> Seq<DrawCmdV>
    decreases es.len(),
{
    if es.len() == 0 {
        Seq::empty()
    } else {
        layer_pass(es.drop_last(), layer) + elem_cmds(es.last(), layer)
    }
}

/// The first `k` layer passes in ascending z-order.
pub open spec fn passes(es: Seq<ElementV>, k: int) -> Seq<DrawCmdV>
    decreases k,
{
    if k <= 0 {
        Seq::empty()
    } else {
        passes(es, k - 1) + layer_pass(es, footprint_layer_order()[k - 1])
    }
}

/// The whole frame.  An empty element list or a pointlike bound stops
/// after the background; otherwise the fit preserves aspect: when the
/// canvas is wider than the drawing, height limits, else width does.
pub open spec fn render_spec(es: Seq<ElementV>, b: BoundV, w: int, h: int) -> Seq<DrawCmdV> {
    let base = seq![
        DrawCmdV::SetColor(layer_color(Layer::Background)),
        DrawCmdV::FillBackground,
    ];
    if es.len() == 0 {
        base
    } else {
        let dw = b.max_x - b.min_x;
        let dh = b.max_y - b.min_y;
        if dw == 0 && dh == 0 {
            base
        } else {
            let height_limits = w * dh > h * dw;
            let sw = if height_limits {
                w * dh / h
            } else {
                dw
            };
            let sh = if height_limits {
                dh
            } else {
                h * dw / w
            };
            let fit = DrawCmdV::Fit {
                sw,
                sh,
                tx: -b.min_x + (sw - dw) / 2,
                ty: -b.min_y + (sh - dh) / 2,
            };
            base + seq![fit] + axes_cmds(dw, dh) + grid_cmds(dw, dh) + passes(es, 8)
        }
    }
}

/// An empty element list gets the background and nothing else.
pub proof fn lemma_render_empty(b: BoundV, w: int, h: int)
    ensures
        render_spec(Seq::empty(), b, w, h) == seq![
            DrawCmdV::SetColor(layer_color(Layer::Background)),
            DrawCmdV::FillBackground,
        ],
{
}

/// A pointlike bound degrades to the background alone; a bound that is
/// flat on one axis only still fits, scaled by the other axis.
pub proof fn lemma_render_degenerate(es: Seq<ElementV>, b: BoundV, w: int, h: int)
    requires
        b.max_x == b.min_x,
        b.max_y == b.min_y,
    ensures
        render_spec(es, b, w, h) == seq![
            DrawCmdV::SetColor(layer_color(Layer::Background)),
            DrawCmdV::FillBackground,
        ],
{
}

/// Appends one column of grid dots.
fn push_grid_col(out: &mut Vec<DrawCmd>, ix: i64, gy: i64)
    requires
        0 <= gy <= 100000000,
        -100000000 <= ix <= 100000000,
    ensures
        cmds_view(final(out)@) == cmds_view(old(out)@) + grid_col(ix as int, -gy as int, gy as int),
{
    let mut iy: i64 = -gy;
    proof {
        assert(grid_col(ix as int, -gy as int, -gy as int) =~= Seq::<DrawCmdV>::empty());
        assert(cmds_view(out@) =~= cmds_view(out@) + grid_col(ix as int, -gy as int, -gy as int));
    }
    while iy < gy
        invariant
            -gy <= iy <= gy || (iy == -gy && gy == 0),
            -100000000 <= ix <= 100000000,
            0 <= gy <= 100000000,
            cmds_view(out@) == cmds_view(old(out)@) + grid_col(ix as int, -gy as int, iy as int),
        decreases gy - iy,
    {
        let ghost prev = cmds_view(out@);
        out.push(DrawCmd::Dot { x_mm: ix, y_mm: iy });
        iy += 1;
        proof {
            assert(cmds_view(out@) =~= prev.push(
                DrawCmdV::Dot { x_mm: ix as int, y_mm: iy - 1 },
            ));
            assert(cmds_view(out@) =~= cmds_view(old(out)@) + grid_col(
                ix as int,
                -gy as int,
                iy as int,
            ));
        }
    }
}

/// The whole frame as commands; exec twin of [`render_spec`].
pub fn render_commands(elements: &Vec<Element>, b: &Bound, w: u64, h: u64) -> (r: Vec<DrawCmd>)
    requires
        forall|i: int| 0 <= i < elements@.len() ==> element_valid(#[trigger] elements@[i]@),
        bound_wf(b@),
        1 <= w <= 100000,
        1 <= h <= 100000,
    ensures
        cmds_view(r@) == render_spec(elems_view(elements@), b@, w as int, h as int),
{
    let ghost es = elems_view(elements@);
    let mut out: Vec<DrawCmd> = Vec::new();
    out.push(DrawCmd::SetColor(layer_color_of(Layer::Background)));
    out.push(DrawCmd::FillBackground);
    if elements.len() == 0 {
        proof {
            assert(cmds_view(out@) =~= render_spec(es, b@, w as int, h as int));
        }
        return out;
    }
    let dw = b.max_x - b.min_x;
    let dh = b.max_y - b.min_y;
    if dw == 0 && dh == 0 {
        proof {
            assert(cmds_view(out@) =~= render_spec(es, b@, w as int, h as int));
        }
        return out;
    }
    // aspect-preserving fit
    let wi = w as i64;
    let hi = h as i64;
    proof {
        assert(0 <= dw <= 6000000000000 && 0 <= dh <= 6000000000000);
        assert((wi as int) * (dh as int) <= 600000000000000000 && (wi as int) * (dh as int) >= 0)
            by (nonlinear_arith)
            requires
                1 <= wi <= 100000,
                0 <= dh <= 6000000000000,
        ;
        assert((hi as int) * (dw as int) <= 600000000000000000 && (hi as int) * (dw as int) >= 0)
            by (nonlinear_arith)
            requires
                1 <= hi <= 100000,
                0 <= dw <= 6000000000000,
        ;
    }
    let height_limits = wi * dh > hi * dw;
    let sw = if height_limits {
        wi * dh / hi
    } else {
        dw
    };
    let sh = if height_limits {
        dh
    } else {
        hi * dw / wi
    };
    proof {
        if height_limits {
            assert(sw >= dw) by (nonlinear_arith)
                requires
                    sw as int == (wi as int) * (dh as int) / (hi as int),
                    wi * dh > hi * dw,
                    hi >= 1,
                    dw >= 0,
                    dh >= 0,
            ;
        } else {
            assert(sh >= dh) by (nonlinear_arith)
                requires
                    sh as int == (hi as int) * (dw as int) / (wi as int),
                    wi * dh <= hi * dw,
                    wi >= 1,
                    dw >= 0,
                    dh >= 0,
            ;
        }
    }
    out.push(
        DrawCmd::Fit { sw, sh, tx: -b.min_x + (sw - dw) / 2, ty: -b.min_y + (sh - dh) / 2 },
    );
    // axes
    let m = if dw >= dh {
        dw
    } else {
        dh
    };
    out.push(DrawCmd::SetColor(layer_color_of(Layer::Axes)));
    out.push(DrawCmd::Segment { x1: -2 * m, y1: 0, x2: 2 * m, y2: 0, w: 10000 });
    out.push(DrawCmd::Segment { x1: 0, y1: -2 * m, x2: 0, y2: 2 * m, w: 10000 });
    let ghost after_axes = cmds_view(out@);
    proof {
        assert(after_axes =~= seq![
            DrawCmdV::SetColor(layer_color(Layer::Background)),
            DrawCmdV::FillBackground,
        ] + seq![
            DrawCmdV::Fit {
                sw: sw as int,
                sh: sh as int,
                tx: -b@.min_x + (sw - dw) / 2,
                ty: -b@.min_y + (sh - dh) / 2,
            },
        ] + axes_cmds(dw as int, dh as int));
    }
    // grid dots
    let gx = 2 * (dw / 1000000);
    let gy = 2 * (dh / 1000000);
    out.push(DrawCmd::SetColor(layer_color_of(Layer::Grid)));
    let ghost grid_start = cmds_view(out@);
    let mut ix: i64 = -gx;
    proof {
        assert(grid_cols(-gx as int, -gx as int, -gy as int, gy as int) =~= Seq::<
            DrawCmdV,
        >::empty());
        assert(cmds_view(out@) =~= grid_start + grid_cols(
            -gx as int,
            -gx as int,
            -gy as int,
            gy as int,
        ));
    }
    while ix < gx
        invariant
            -gx <= ix <= gx || (ix == -gx && gx == 0),
            0 <= gx <= 100000000,
            0 <= gy <= 100000000,
            cmds_view(out@) == grid_start + grid_cols(-gx as int, ix as int, -gy as int, gy as int),
        decreases gx - ix,
    {
        push_grid_col(&mut out, ix, gy);
        ix += 1;
        proof {
            assert(cmds_view(out@) =~= grid_start + grid_cols(
                -gx as int,
                ix as int,
                -gy as int,
                gy as int,
            ));
        }
    }
    let ghost after_grid = cmds_view(out@);
    proof {
        assert(after_grid =~= after_axes + grid_cmds(dw as int, dh as int));
    }
    // elements, layer by layer in ascending z
    let order = footprint_layers_in_order();
    let mut k: usize = 0;
    while k < order.len()
        invariant
            order@ == footprint_layer_order(),
            k <= order@.len(),
            forall|i: int| 0 <= i < elements@.len() ==> element_valid(#[trigger] elements@[i]@),
            es == elems_view(elements@),
            cmds_view(out@) == after_grid + passes(es, k as int),
        decreases order@.len() - k,
    {
        let layer = order[k];
        let mut i: usize = 0;
        let ghost pass_start = cmds_view(out@);
        proof {
            assert(layer_pass(es.take(0), layer) =~= Seq::<DrawCmdV>::empty());
            assert(cmds_view(out@) =~= pass_start + layer_pass(es.take(0), layer));
        }
        while i < elements.len()
            invariant
                i <= elements@.len(),
                forall|j: int| 0 <= j < elements@.len() ==> element_valid(
                    #[trigger] elements@[j]@,
                ),
                es == elems_view(elements@),
                cmds_view(out@) == pass_start + layer_pass(es.take(i as int), layer),
            decreases elements@.len() - i,
        {
            let mut cs = elements[i].draw_element(layer);
            let ghost csv = cmds_view(cs@);
            let ghost before = cmds_view(out@);
            out.append(&mut cs);
            proof {
                assert(cmds_view(out@) =~= before + csv);
                assert(es.take(i + 1).drop_last() =~= es.take(i as int));
                assert(es.take(i + 1).last() == elements@[i as int]@);
                assert(cmds_view(out@) =~= pass_start + layer_pass(es.take(i + 1), layer));
            }
            i += 1;
        }
        proof {
            assert(es.take(elements@.len() as int) =~= es);
        }
        k += 1;
    }
    proof {
        assert(passes(es, 8) == passes(es, order@.len() as int));
        assert(cmds_view(out@) =~= render_spec(es, b@, w as int, h as int));
    }
    out
}

} // verus!
