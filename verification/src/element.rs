//! The validated element model.
//!
//! Elements are the typed geometric primitives a footprint is made of.
//! They are created by decoding the interpreter's wire format, live
//! until the next evaluation replaces them wholesale, and are never
//! mutated.  Every coordinate is a nanometre count; the y-axis grows
//! downward.

use vstd::prelude::*;
use crate::geom::{
    Bound, BoundV, NM_LIMIT, bound_contains, combine_bounds, in_range, origin_bound, bound_wf,
};
use crate::layers::{Layer, is_footprint_layer};

verus! {

/// The measured extent of a rendered text, from a text-metric query
/// against the drawing backend.  The model treats the two lengths as
/// given values; the shell measures them.
#[derive(Clone, Copy, Debug, PartialEq, Eq, Structural)]
pub struct TextExt {
    pub w: i64,
    pub h: i64,
}

/// The mathematical image of a [`TextExt`].
pub struct TextExtV {
    pub w: int,
    pub h: int,
}

impl View for TextExt {
    type V = TextExtV;

    open spec fn view(&self) -> TextExtV {
        TextExtV { w: self.w as int, h: self.h as int }
    }
}

/// A measured extent the bounding-box arithmetic can take.
pub open spec fn text_ext_valid(x: TextExtV) -> bool {
    0 <= x.w <= NM_LIMIT && 0 <= x.h <= NM_LIMIT
}

/// A rectangle centred on (x, y), either filled or drawn as a stroked
/// outline of width `w`, with an optional chamfered corner.
#[derive(Clone, Debug, PartialEq)]
pub struct Rect {
    pub x: i64,
    pub y: i64,
    pub dx: i64,
    pub dy: i64,
    pub w: i64,
    pub filled: bool,
    pub layer: Layer,
    pub corner: Option<i64>,
}

/// A stroked segment between two points; zero length is permitted.
#[derive(Clone, Debug, PartialEq)]
pub struct Line {
    pub x1: i64,
    pub y1: i64,
    pub x2: i64,
    pub y2: i64,
    pub w: i64,
    pub layer: Layer,
}

/// A run of glyphs centred on (x, y) with glyph height `dy`.
#[derive(Clone, Debug, PartialEq)]
pub struct Text {
    pub x: i64,
    pub y: i64,
    pub dy: i64,
    pub txt: String,
    pub thickness: i64,
    pub shorten: Option<bool>,
    pub layer: Layer,
}

/// A surface-mount pad.
#[derive(Clone, Debug, PartialEq)]
pub struct Smd {
    pub name: String,
    pub x: i64,
    pub y: i64,
    pub dx: i64,
    pub dy: i64,
    pub layers: Vec<Layer>,
}

/// A through-hole pad with a drilled hole.
#[derive(Clone, Debug, PartialEq)]
pub struct Pad {
    pub name: String,
    pub x: i64,
    pub y: i64,
    pub dx: i64,
    pub dy: i64,
    pub drill: i64,
    pub layers: Vec<Layer>,
}

/// The footprint's value text; always drawn on the fabrication layer.
#[derive(Clone, Debug, PartialEq)]
pub struct Name {
    pub text: Text,
}

/// The footprint's reference text; always drawn on the silkscreen.
#[derive(Clone, Debug, PartialEq)]
pub struct Reference {
    pub text: Text,
}

/// An interpreter diagnostic carried in-band as an element.  Its
/// presence disables rendering and export for the evaluation.
#[derive(Clone, Debug, PartialEq)]
pub struct PythonError {
    pub message: String,
}

/// The closed union of footprint elements.
#[derive(Clone, Debug, PartialEq)]
pub enum Element {
    Rect(Rect),
    Line(Line),
    Name(Name),
    Reference(Reference),
    Smd(Smd),
    Pad(Pad),
    PythonError(PythonError),
}

/// Mathematical image of a [`Rect`].
pub struct RectV {
    pub x: int,
    pub y: int,
    pub dx: int,
    pub dy: int,
    pub w: int,
    pub filled: bool,
    pub layer: Layer,
    pub corner: Option<int>,
}

/// Mathematical image of a [`Line`].
pub struct LineV {
    pub x1: int,
    pub y1: int,
    pub x2: int,
    pub y2: int,
    pub w: int,
    pub layer: Layer,
}

/// Mathematical image of a [`Text`].
pub struct TextV {
    pub x: int,
    pub y: int,
    pub dy: int,
    pub txt: Seq<char>,
    pub thickness: int,
    pub shorten: Option<bool>,
    pub layer: Layer,
}

/// Mathematical image of an [`Smd`].
pub struct SmdV {
    pub name: Seq<char>,
    pub x: int,
    pub y: int,
    pub dx: int,
    pub dy: int,
    pub layers: Seq<Layer>,
}

/// Mathematical image of a [`Pad`].
pub struct PadV {
    pub name: Seq<char>,
    pub x: int,
    pub y: int,
    pub dx: int,
    pub dy: int,
    pub drill: int,
    pub layers: Seq<Layer>,
}

/// Mathematical image of an [`Element`].
pub enum ElementV {
    Rect(RectV),
    Line(LineV),
    Name(TextV),
    Reference(TextV),
    Smd(SmdV),
    Pad(PadV),
    PythonError(Seq<char>),
}

impl View for Rect {
    type V = RectV;

    open spec fn view(&self) -> RectV {
        RectV {
            x: self.x as int,
            y: self.y as int,
            dx: self.dx as int,
            dy: self.dy as int,
            w: self.w as int,
            filled: self.filled,
            layer: self.layer,
            corner: match self.corner {
                Some(c) => Some(c as int),
                None => None,
            },
        }
    }
}

impl View for Line {
    type V = LineV;

    open spec fn view(&self) -> LineV {
        LineV {
            x1: self.x1 as int,
            y1: self.y1 as int,
            x2: self.x2 as int,
            y2: self.y2 as int,
            w: self.w as int,
            layer: self.layer,
        }
    }
}

impl View for Text {
    type V = TextV;

    open spec fn view(&self) -> TextV {
        TextV {
            x: self.x as int,
            y: self.y as int,
            dy: self.dy as int,
            txt: self.txt@,
            thickness: self.thickness as int,
            shorten: self.shorten,
            layer: self.layer,
        }
    }
}

impl View for Smd {
    type V = SmdV;

    open spec fn view(&self) -> SmdV {
        SmdV {
            name: self.name@,
            x: self.x as int,
            y: self.y as int,
            dx: self.dx as int,
            dy: self.dy as int,
            layers: self.layers@,
        }
    }
}

impl View for Pad {
    type V = PadV;

    open spec fn view(&self) -> PadV {
        PadV {
            name: self.name@,
            x: self.x as int,
            y: self.y as int,
            dx: self.dx as int,
            dy: self.dy as int,
            drill: self.drill as int,
            layers: self.layers@,
        }
    }
}

impl View for Element {
    type V = ElementV;

    open spec fn view(&self) -> ElementV {
        match self {
            Element::Rect(r) => ElementV::Rect(r@),
            Element::Line(l) => ElementV::Line(l@),
            Element::Name(n) => ElementV::Name(n.text@),
            Element::Reference(n) => ElementV::Reference(n.text@),
            Element::Smd(s) => ElementV::Smd(s@),
            Element::Pad(p) => ElementV::Pad(p@),
            Element::PythonError(e) => ElementV::PythonError(e.message@),
        }
    }
}

/// The images of a sequence of elements.
pub open spec fn elems_view(es: Seq<Element>) -> Seq<ElementV> {
    Seq::new(es.len(), |i: int| es[i]@)
}

/// The images of a sequence of measured extents.
pub open spec fn exts_view(xs: Seq<TextExt>) -> Seq<TextExtV> {
    Seq::new(xs.len(), |i: int| xs[i]@)
}

/// A positive extent within the workable range.
pub open spec fn len_ok(v: int) -> bool {
    0 < v <= NM_LIMIT
}

/// The invariants of a rectangle: positive extents, a stroke width
/// that is positive whenever the rectangle is unfilled, and a chamfer
/// no larger than half the shorter side.
pub open spec fn rect_valid(r: RectV) -> bool {
    &&& in_range(r.x)
    &&& in_range(r.y)
    &&& len_ok(r.dx)
    &&& len_ok(r.dy)
    &&& 0 <= r.w <= NM_LIMIT
    &&& (r.filled || r.w > 0)
    &&& match r.corner {
        Some(c) => 0 <= c <= vstd::math::min(r.dx, r.dy) / 2,
        None => true,
    }
    &&& is_footprint_layer(r.layer)
}

/// The invariants of a segment: a positive stroke width.
pub open spec fn line_valid(l: LineV) -> bool {
    &&& in_range(l.x1)
    &&& in_range(l.y1)
    &&& in_range(l.x2)
    &&& in_range(l.y2)
    &&& len_ok(l.w)
    &&& is_footprint_layer(l.layer)
}

/// The invariants of a text: positive glyph height and stroke.
pub open spec fn text_valid(t: TextV) -> bool {
    &&& in_range(t.x)
    &&& in_range(t.y)
    &&& len_ok(t.dy)
    &&& len_ok(t.thickness)
    &&& is_footprint_layer(t.layer)
}

/// The invariants of a surface-mount pad: positive extents and a layer
/// set that contains at least the top copper layer.
pub open spec fn smd_valid(s: SmdV) -> bool {
    &&& in_range(s.x)
    &&& in_range(s.y)
    &&& len_ok(s.dx)
    &&& len_ok(s.dy)
    &&& s.layers.contains(Layer::FCu)
    &&& forall|i: int| 0 <= i < s.layers.len() ==> is_footprint_layer(#[trigger] s.layers[i])
}

/// The invariants of a through-hole pad: as an [`Smd`], with a drill
/// that is positive and strictly inside the pad.
pub open spec fn pad_valid(p: PadV) -> bool {
    &&& in_range(p.x)
    &&& in_range(p.y)
    &&& len_ok(p.dx)
    &&& len_ok(p.dy)
    &&& 0 < p.drill < vstd::math::min(p.dx, p.dy)
    &&& p.layers.contains(Layer::FCu)
    &&& forall|i: int| 0 <= i < p.layers.len() ==> is_footprint_layer(#[trigger] p.layers[i])
}

/// The invariant of each element variant.
pub open spec fn element_valid(e: ElementV) -> bool {
    match e {
        ElementV::Rect(r) => rect_valid(r),
        ElementV::Line(l) => line_valid(l),
        ElementV::Name(t) => text_valid(t),
        ElementV::Reference(t) => text_valid(t),
        ElementV::Smd(s) => smd_valid(s),
        ElementV::Pad(p) => pad_valid(p),
        ElementV::PythonError(_) => true,
    }
}

/// The set of layers on which an element emits drawing commands.
pub open spec fn layer_routing(e: ElementV) -> Set<Layer> {
    match e {
        ElementV::Rect(r) => set![r.layer],
        ElementV::Line(l) => set![l.layer],
        ElementV::Name(_) => set![Layer::FFab],
        ElementV::Reference(_) => set![Layer::FSilkS],
        ElementV::Smd(_) => set![Layer::FCu],
        ElementV::Pad(_) => set![Layer::FCu],
        ElementV::PythonError(_) => Set::empty(),
    }
}

/// The box of a rectangle: its extent inflated by half the stroke on
/// every side; the stroke counts even when the rectangle is unfilled.
pub open spec fn rect_box(r: RectV) -> BoundV {
    BoundV {
        min_x: r.x - r.dx / 2 - r.w / 2,
        min_y: r.y - r.dy / 2 - r.w / 2,
        max_x: r.x + r.dx / 2 + r.w / 2,
        max_y: r.y + r.dy / 2 + r.w / 2,
    }
}

/// The box of a segment: the box of its endpoints inflated by half the
/// stroke width.
pub open spec fn line_box(l: LineV) -> BoundV {
    BoundV {
        min_x: vstd::math::min(l.x1, l.x2) - l.w / 2,
        min_y: vstd::math::min(l.y1, l.y2) - l.w / 2,
        max_x: vstd::math::max(l.x1, l.x2) + l.w / 2,
        max_y: vstd::math::max(l.y1, l.y2) + l.w / 2,
    }
}

/// The box of a surface-mount pad; no stroke is involved.
pub open spec fn smd_box(s: SmdV) -> BoundV {
    BoundV {
        min_x: s.x - s.dx / 2,
        min_y: s.y - s.dy / 2,
        max_x: s.x + s.dx / 2,
        max_y: s.y + s.dy / 2,
    }
}

/// The box of a through-hole pad; the drill never extends the bound.
pub open spec fn pad_box(p: PadV) -> BoundV {
    BoundV {
        min_x: p.x - p.dx / 2,
        min_y: p.y - p.dy / 2,
        max_x: p.x + p.dx / 2,
        max_y: p.y + p.dy / 2,
    }
}

/// The box of a text: the measured extent centred on (x, y).
pub open spec fn text_box(t: TextV, ext: TextExtV) -> BoundV {
    BoundV {
        min_x: t.x - ext.w / 2,
        min_y: t.y - ext.h / 2,
        max_x: t.x + ext.w / 2,
        max_y: t.y + ext.h / 2,
    }
}

/// The box of any element; the extent argument is read only for the
/// two text-bearing variants.  A diagnostic element has no box and is
/// kept away from this function by its callers.
pub open spec fn element_box(e: ElementV, ext: TextExtV) -> BoundV {
    match e {
        ElementV::Rect(r) => rect_box(r),
        ElementV::Line(l) => line_box(l),
        ElementV::Name(t) => text_box(t, ext),
        ElementV::Reference(t) => text_box(t, ext),
        ElementV::Smd(s) => smd_box(s),
        ElementV::Pad(p) => pad_box(p),
        ElementV::PythonError(_) => origin_bound(),
    }
}

/// A valid element's box is well formed.
pub proof fn lemma_element_box_wf(e: ElementV, ext: TextExtV)
    requires
        element_valid(e),
        text_ext_valid(ext),
    ensures
        bound_wf(element_box(e, ext)),
{
}

impl Rect {
    /// The axis-aligned box of this rectangle.
    pub fn bounding_box(&self) -> (r: Bound)
        requires
            rect_valid(self@),
        ensures
            r@ == rect_box(self@),
    {
        Bound {
            min_x: self.x - self.dx / 2 - self.w / 2,
            min_y: self.y - self.dy / 2 - self.w / 2,
            max_x: self.x + self.dx / 2 + self.w / 2,
            max_y: self.y + self.dy / 2 + self.w / 2,
        }
    }
}

impl Line {
    /// The axis-aligned box of this segment.
    pub fn bounding_box(&self) -> (r: Bound)
        requires
            line_valid(self@),
        ensures
            r@ == line_box(self@),
    {
        let mnx = if self.x1 <= self.x2 {
            self.x1
        } else {
            self.x2
        };
        let mny = if self.y1 <= self.y2 {
            self.y1
        } else {
            self.y2
        };
        let mxx = if self.x1 >= self.x2 {
            self.x1
        } else {
            self.x2
        };
        let mxy = if self.y1 >= self.y2 {
            self.y1
        } else {
            self.y2
        };
        Bound {
            min_x: mnx - self.w / 2,
            min_y: mny - self.w / 2,
            max_x: mxx + self.w / 2,
            max_y: mxy + self.w / 2,
        }
    }
}

impl Smd {
    /// The axis-aligned box of this pad.
    pub fn bounding_box(&self) -> (r: Bound)
        requires
            smd_valid(self@),
        ensures
            r@ == smd_box(self@),
    {
        Bound {
            min_x: self.x - self.dx / 2,
            min_y: self.y - self.dy / 2,
            max_x: self.x + self.dx / 2,
            max_y: self.y + self.dy / 2,
        }
    }
}

impl Pad {
    /// The axis-aligned box of this pad.
    pub fn bounding_box(&self) -> (r: Bound)
        requires
            pad_valid(self@),
        ensures
            r@ == pad_box(self@),
    {
        Bound {
            min_x: self.x - self.dx / 2,
            min_y: self.y - self.dy / 2,
            max_x: self.x + self.dx / 2,
            max_y: self.y + self.dy / 2,
        }
    }
}

/// The text a [`Text`] renders and measures as: when the shorten flag
/// is set to true, the first four code points followed by an ellipsis;
/// an absent flag, or one set to false, leaves the text unchanged.
pub open spec fn shortened_spec(t: TextV) -> Seq<char> {
    if t.shorten == Some(true) {
        t.txt.take(vstd::math::min(4, t.txt.len() as int)) + "…"@
    } else {
        t.txt
    }
}

impl Text {
    /// The rendered form of the text: unchanged unless the shorten
    /// flag is set to true.
    pub fn shortened_text(&self) -> (r: String)
        ensures
            r@ == shortened_spec(self@),
    {
        match self.shorten {
            Some(true) => {
                let n = self.txt.as_str().unicode_len();
                let k = if n < 4 {
                    n
                } else {
                    4
                };
                let head = self.txt.as_str().substring_char(0, k);
                let mut out = String::from_str(head);
                out.append("…");
                proof {
                    assert(out@ =~= shortened_spec(self@));
                }
                out
            },
            _ => self.txt.clone(),
        }
    }

    /// The axis-aligned box of this text: the measured extent centred
    /// on the text's anchor.
    pub fn bounding_box(&self, ext: &TextExt) -> (r: Bound)
        requires
            text_valid(self@),
            text_ext_valid(ext@),
        ensures
            r@ == text_box(self@, ext@),
    {
        Bound {
            min_x: self.x - ext.w / 2,
            min_y: self.y - ext.h / 2,
            max_x: self.x + ext.w / 2,
            max_y: self.y + ext.h / 2,
        }
    }
}

impl Element {
    /// The axis-aligned box of this element.  The measured extent is
    /// read only when the element carries text.
    pub fn bounding_box(&self, ext: &TextExt) -> (r: Bound)
        requires
            element_valid(self@),
            !(self@ is PythonError),
            text_ext_valid(ext@),
        ensures
            r@ == element_box(self@, ext@),
    {
        match self {
            Element::Rect(e) => e.bounding_box(),
            Element::Line(e) => e.bounding_box(),
            Element::Name(e) => e.text.bounding_box(ext),
            Element::Reference(e) => e.text.bounding_box(ext),
            Element::Smd(e) => e.bounding_box(),
            Element::Pad(e) => e.bounding_box(),
            Element::PythonError(_) => Bound::default(),
        }
    }
}

/// The bound of a list of elements: the axis-aligned union of their
/// boxes, and the origin-zero bound for an empty list.
pub open spec fn bound_spec(es: Seq<ElementV>, exts: Seq<TextExtV>) -> BoundV
    decreases es.len(),
{
    if es.len() == 0 {
        origin_bound()
    } else if es.len() == 1 {
        element_box(es[0], exts[0])
    } else {
        combine_bounds(
            bound_spec(es.drop_last(), exts.drop_last()),
            element_box(es.last(), exts.last()),
        )
    }
}

/// Every bound of valid elements is well formed: ordered corners
/// within the workable range.
pub proof fn lemma_bound_spec_wf(es: Seq<ElementV>, exts: Seq<TextExtV>)
    requires
        es.len() == exts.len(),
        forall|i: int| 0 <= i < es.len() ==> element_valid(#[trigger] es[i]),
        forall|i: int| 0 <= i < exts.len() ==> text_ext_valid(#[trigger] exts[i]),
    ensures
        bound_wf(bound_spec(es, exts)),
    decreases es.len(),
{
    if es.len() == 1 {
        lemma_element_box_wf(es[0], exts[0]);
    } else if es.len() > 1 {
        lemma_bound_spec_wf(es.drop_last(), exts.drop_last());
        lemma_element_box_wf(es.last(), exts.last());
    }
}

/// The bound of the elements, given the measured extent of each; the
/// extent at an index is read only when the element there bears text.
pub fn bound(v: &Vec<Element>, exts: &Vec<TextExt>) -> (r: Bound)
    requires
        v@.len() == exts@.len(),
        forall|i: int| 0 <= i < v@.len() ==> element_valid(#[trigger] v@[i]@),
        forall|i: int| 0 <= i < v@.len() ==> !(#[trigger] v@[i]@ is PythonError),
        forall|i: int| 0 <= i < exts@.len() ==> text_ext_valid(#[trigger] exts@[i]@),
    ensures
        r@ == bound_spec(elems_view(v@), exts_view(exts@)),
        bound_wf(r@),
{
    proof {
        lemma_bound_spec_wf(elems_view(v@), exts_view(exts@));
    }
    let n = v.len();
    if n == 0 {
        return Bound::default();
    }
    let mut acc = v[0].bounding_box(&exts[0]);
    let mut i: usize = 1;
    proof {
        assert(elems_view(v@).take(1) =~= seq![v@[0]@]);
        assert(exts_view(exts@).take(1) =~= seq![exts@[0]@]);
    }
    while i < n
        invariant
            1 <= i <= n,
            n == v@.len(),
            n == exts@.len(),
            forall|k: int| 0 <= k < v@.len() ==> element_valid(#[trigger] v@[k]@),
            forall|k: int| 0 <= k < v@.len() ==> !(#[trigger] v@[k]@ is PythonError),
            forall|k: int| 0 <= k < exts@.len() ==> text_ext_valid(#[trigger] exts@[k]@),
            acc@ == bound_spec(elems_view(v@).take(i as int), exts_view(exts@).take(i as int)),
        decreases n - i,
    {
        let b = v[i].bounding_box(&exts[i]);
        acc = acc.combine(&b);
        proof {
            let es = elems_view(v@);
            let xs = exts_view(exts@);
            assert(es.take(i + 1).drop_last() =~= es.take(i as int));
            assert(xs.take(i + 1).drop_last() =~= xs.take(i as int));
            assert(es.take(i + 1).last() == v@[i as int]@);
            assert(xs.take(i + 1).last() == exts@[i as int]@);
        }
        i += 1;
    }
    proof {
        assert(elems_view(v@).take(n as int) =~= elems_view(v@));
        assert(exts_view(exts@).take(n as int) =~= exts_view(exts@));
    }
    acc
}

/// The bound covers every element's box: no box sticks out of it.
pub proof fn lemma_bound_covers(es: Seq<ElementV>, exts: Seq<TextExtV>, i: int)
    requires
        es.len() == exts.len(),
        0 <= i < es.len(),
    ensures
        bound_contains(bound_spec(es, exts), element_box(es[i], exts[i])),
    decreases es.len(),
{
    if es.len() == 1 {
    } else if i == es.len() - 1 {
    } else {
        lemma_bound_covers(es.drop_last(), exts.drop_last(), i);
    }
}

/// The bound is the least box with that property: any box that covers
/// every element's box covers the bound, so the bound is exactly the
/// axis-aligned union of the element boxes.
pub proof fn lemma_bound_least(es: Seq<ElementV>, exts: Seq<TextExtV>, b: BoundV)
    requires
        es.len() == exts.len(),
        es.len() >= 1,
        forall|i: int| 0 <= i < es.len() ==> bound_contains(b, element_box(es[i], exts[i])),
    ensures
        bound_contains(b, bound_spec(es, exts)),
    decreases es.len(),
{
    if es.len() == 1 {
        assert(bound_contains(b, element_box(es[0], exts[0])));
    } else {
        lemma_bound_least(es.drop_last(), exts.drop_last(), b);
        assert(bound_contains(b, element_box(es[es.len() - 1], exts[es.len() - 1])));
    }
}

/// Appending an element never shrinks the bound of a non-empty list.
pub proof fn lemma_bound_monotone(es: Seq<ElementV>, exts: Seq<TextExtV>, e: ElementV, x: TextExtV)
    requires
        es.len() == exts.len(),
        es.len() >= 1,
    ensures
        bound_contains(bound_spec(es.push(e), exts.push(x)), bound_spec(es, exts)),
{
    assert(es.push(e).drop_last() =~= es);
    assert(exts.push(x).drop_last() =~= exts);
    assert(es.push(e).last() == e);
    assert(exts.push(x).last() == x);
}

} // verus!
