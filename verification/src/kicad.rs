//! The export engine.
//!
//! Elements are flattened into an export footprint — name, reference,
//! pads and lines — and the footprint is laid out as the CAD text
//! format, one footprint per file.  Filled rectangles stay rectangles
//! in the aggregate (the text format has no entry for them); unfilled
//! rectangles decompose into the four lines of their outline.

use vstd::prelude::*;
use crate::element::{
    Element, ElementV, Line, LineV, Pad, PadV, Rect, RectV, Smd, SmdV, Text, TextV, elems_view,
    element_valid, rect_valid,
};
use crate::error::{MpError, MpErrorV};
use crate::geom::{hex_text, nm_text, push_hex_text, push_nm_text};
use crate::layers::{Layer, layer_text};

verus! {

/// The flattened footprint the serializer consumes.
#[derive(Debug)]
pub struct Footprint {
    pub name: Option<Text>,
    pub reference: Option<Text>,
    pub desc: String,
    pub tags: String,
    pub rects: Vec<Rect>,
    pub pad: Vec<Pad>,
    pub smd: Vec<Smd>,
    pub lines: Vec<Line>,
}

/// The mathematical image of a [`Footprint`].
#[verifier::ext_equal]
pub struct FootprintV {
    pub name: Option<TextV>,
    pub reference: Option<TextV>,
    pub desc: Seq<char>,
    pub tags: Seq<char>,
    pub rects: Seq<RectV>,
    pub pad: Seq<PadV>,
    pub smd: Seq<SmdV>,
    pub lines: Seq<LineV>,
}

impl View for Footprint {
    type V = FootprintV;

    open spec fn view(&self) -> FootprintV {
        FootprintV {
            name: match self.name {
                Some(ref t) => Some(t@),
                None => None,
            },
            reference: match self.reference {
                Some(ref t) => Some(t@),
                None => None,
            },
            desc: self.desc@,
            tags: self.tags@,
            rects: Seq::new(self.rects@.len(), |i: int| self.rects@[i]@),
            pad: Seq::new(self.pad@.len(), |i: int| self.pad@[i]@),
            smd: Seq::new(self.smd@.len(), |i: int| self.smd@[i]@),
            lines: Seq::new(self.lines@.len(), |i: int| self.lines@[i]@),
        }
    }
}

/// The empty footprint.
pub open spec fn empty_footprint() -> FootprintV {
    FootprintV {
        name: None,
        reference: None,
        desc: Seq::empty(),
        tags: Seq::empty(),
        rects: Seq::empty(),
        pad: Seq::empty(),
        smd: Seq::empty(),
        lines: Seq::empty(),
    }
}

impl Default for Footprint {
    /// A footprint with nothing in it.
    fn default() -> (r: Self)
        ensures
            r@ == empty_footprint(),
    {
        let r = Footprint {
            name: None,
            reference: None,
            desc: String::new(),
            tags: String::new(),
            rects: Vec::new(),
            pad: Vec::new(),
            smd: Vec::new(),
            lines: Vec::new(),
        };
        proof {
            assert(r@.desc =~= empty_footprint().desc);
            assert(r@.tags =~= empty_footprint().tags);
            assert(r@.rects =~= empty_footprint().rects);
            assert(r@.pad =~= empty_footprint().pad);
            assert(r@.smd =~= empty_footprint().smd);
            assert(r@.lines =~= empty_footprint().lines);
        }
        r
    }
}

/// The outline of an unfilled rectangle: four lines tracing the
/// perimeter clockwise — top, right, bottom, left — starting at the
/// top-left corner.  The chamfer does not survive the decomposition.
pub open spec fn rect_outline(r: RectV) -> Seq<LineV> {
    seq![
        LineV {
            x1: r.x - r.dx / 2,
            y1: r.y - r.dy / 2,
            x2: r.x + r.dx / 2,
            y2: r.y - r.dy / 2,
            w: r.w,
            layer: r.layer,
        },
        LineV {
            x1: r.x + r.dx / 2,
            y1: r.y - r.dy / 2,
            x2: r.x + r.dx / 2,
            y2: r.y + r.dy / 2,
            w: r.w,
            layer: r.layer,
        },
        LineV {
            x1: r.x + r.dx / 2,
            y1: r.y + r.dy / 2,
            x2: r.x - r.dx / 2,
            y2: r.y + r.dy / 2,
            w: r.w,
            layer: r.layer,
        },
        LineV {
            x1: r.x - r.dx / 2,
            y1: r.y + r.dy / 2,
            x2: r.x - r.dx / 2,
            y2: r.y - r.dy / 2,
            w: r.w,
            layer: r.layer,
        },
    ]
}

/// The outline is a closed loop: each line starts where the one
/// before it ends, and the last returns to the first corner.
pub proof fn lemma_outline_closed(r: RectV)
    ensures
        rect_outline(r).len() == 4,
        forall|k: int|
            0 <= k < 3 ==> (#[trigger] rect_outline(r)[k]).x2 == rect_outline(r)[k + 1].x1
                && rect_outline(r)[k].y2 == rect_outline(r)[k + 1].y1,
        rect_outline(r)[3].x2 == rect_outline(r)[0].x1,
        rect_outline(r)[3].y2 == rect_outline(r)[0].y1,
{
}

/// What one element contributes to the aggregate: a filled rectangle
/// adds one rectangle entry; an unfilled one adds exactly its four
/// outline lines; the name and reference slots take the last writer;
/// a diagnostic element contributes nothing.
pub open spec fn apply_spec(e: ElementV, f: FootprintV) -> FootprintV {
    match e {
        ElementV::Rect(r) => if r.filled {
            FootprintV { rects: f.rects.push(r), ..f }
        } else {
            FootprintV { lines: f.lines + rect_outline(r), ..f }
        },
        ElementV::Line(l) => FootprintV { lines: f.lines.push(l), ..f },
        ElementV::Name(t) => FootprintV { name: Some(t), ..f },
        ElementV::Reference(t) => FootprintV { reference: Some(t), ..f },
        ElementV::Smd(m) => FootprintV { smd: f.smd.push(m), ..f },
        ElementV::Pad(p) => FootprintV { pad: f.pad.push(p), ..f },
        ElementV::PythonError(_) => f,
    }
}

/// Accumulating an element into the export footprint.
pub trait ApplyFootprint {
    /// What the element must satisfy before it is applied.
    spec fn app_wf(&self) -> bool;

    fn apply_footprint(&self, f: &mut Footprint)
        requires
            self.app_wf(),
    ;
}

/// A copy of a text, field for field.
fn clone_text(t: &Text) -> (r: Text)
    ensures
        r@ == t@,
{
    Text {
        x: t.x,
        y: t.y,
        dy: t.dy,
        txt: t.txt.clone(),
        thickness: t.thickness,
        shorten: t.shorten,
        layer: t.layer,
    }
}

/// A copy of a layer list, item for item.
fn copy_layers(v: &Vec<Layer>) -> (r: Vec<Layer>)
    ensures
        r@ == v@,
{
    let mut out: Vec<Layer> = Vec::new();
    let mut i: usize = 0;
    while i < v.len()
        invariant
            i <= v@.len(),
            out@ == v@.take(i as int),
        decreases v@.len() - i,
    {
        out.push(v[i]);
        proof {
            assert(v@.take(i + 1) =~= v@.take(i as int).push(v@[i as int]));
        }
        i += 1;
    }
    proof {
        assert(v@.take(v@.len() as int) =~= v@);
    }
    out
}

impl ApplyFootprint for Rect {
    open spec fn app_wf(&self) -> bool {
        rect_valid(self@)
    }

    /// Filled: one rectangle entry.  Unfilled: the four outline lines.
    fn apply_footprint(&self, f: &mut Footprint)
        ensures
            final(f)@ == apply_spec(ElementV::Rect(self@), old(f)@),
    {
        let ghost f0 = f@;
        if self.filled {
            f.rects.push(
                Rect {
                    x: self.x,
                    y: self.y,
                    dx: self.dx,
                    dy: self.dy,
                    w: self.w,
                    filled: self.filled,
                    layer: self.layer,
                    corner: self.corner,
                },
            );
            proof {
                assert(f@ =~= apply_spec(ElementV::Rect(self@), f0));
            }
        } else {
            f.lines.push(
                Line {
                    x1: self.x - self.dx / 2,
                    y1: self.y - self.dy / 2,
                    x2: self.x + self.dx / 2,
                    y2: self.y - self.dy / 2,
                    w: self.w,
                    layer: self.layer,
                },
            );
            f.lines.push(
                Line {
                    x1: self.x + self.dx / 2,
                    y1: self.y - self.dy / 2,
                    x2: self.x + self.dx / 2,
                    y2: self.y + self.dy / 2,
                    w: self.w,
                    layer: self.layer,
                },
            );
            f.lines.push(
                Line {
                    x1: self.x + self.dx / 2,
                    y1: self.y + self.dy / 2,
                    x2: self.x - self.dx / 2,
                    y2: self.y + self.dy / 2,
                    w: self.w,
                    layer: self.layer,
                },
            );
            f.lines.push(
                Line {
                    x1: self.x - self.dx / 2,
                    y1: self.y + self.dy / 2,
                    x2: self.x - self.dx / 2,
                    y2: self.y - self.dy / 2,
                    w: self.w,
                    layer: self.layer,
                },
            );
            proof {
                assert(f@.lines =~= f0.lines + rect_outline(self@));
                assert(f@ =~= apply_spec(ElementV::Rect(self@), f0));
            }
        }
    }
}

impl ApplyFootprint for Line {
    open spec fn app_wf(&self) -> bool {
        true
    }

    fn apply_footprint(&self, f: &mut Footprint)
        ensures
            final(f)@ == apply_spec(ElementV::Line(self@), old(f)@),
    {
        let ghost f0 = f@;
        f.lines.push(
            Line { x1: self.x1, y1: self.y1, x2: self.x2, y2: self.y2, w: self.w, layer: self.layer },
        );
        proof {
            assert(f@ =~= apply_spec(ElementV::Line(self@), f0));
        }
    }
}

impl ApplyFootprint for crate::element::Name {
    open spec fn app_wf(&self) -> bool {
        true
    }

    /// The last name among the elements wins.
    fn apply_footprint(&self, f: &mut Footprint)
        ensures
            final(f)@ == apply_spec(ElementV::Name(self.text@), old(f)@),
    {
        let ghost f0 = f@;
        f.name = Some(clone_text(&self.text));
        proof {
            assert(f@ =~= apply_spec(ElementV::Name(self.text@), f0));
        }
    }
}

impl ApplyFootprint for crate::element::Reference {
    open spec fn app_wf(&self) -> bool {
        true
    }

    /// The last reference among the elements wins.
    fn apply_footprint(&self, f: &mut Footprint)
        ensures
            final(f)@ == apply_spec(ElementV::Reference(self.text@), old(f)@),
    {
        let ghost f0 = f@;
        f.reference = Some(clone_text(&self.text));
        proof {
            assert(f@ =~= apply_spec(ElementV::Reference(self.text@), f0));
        }
    }
}

impl ApplyFootprint for Smd {
    open spec fn app_wf(&self) -> bool {
        true
    }

    fn apply_footprint(&self, f: &mut Footprint)
        ensures
            final(f)@ == apply_spec(ElementV::Smd(self@), old(f)@),
    {
        let ghost f0 = f@;
        f.smd.push(
            Smd {
                name: self.name.clone(),
                x: self.x,
                y: self.y,
                dx: self.dx,
                dy: self.dy,
                layers: copy_layers(&self.layers),
            },
        );
        proof {
            assert(f@ =~= apply_spec(ElementV::Smd(self@), f0));
        }
    }
}

impl ApplyFootprint for Pad {
    open spec fn app_wf(&self) -> bool {
        true
    }

    fn apply_footprint(&self, f: &mut Footprint)
        ensures
            final(f)@ == apply_spec(ElementV::Pad(self@), old(f)@),
    {
        let ghost f0 = f@;
        f.pad.push(
            Pad {
                name: self.name.clone(),
                x: self.x,
                y: self.y,
                dx: self.dx,
                dy: self.dy,
                drill: self.drill,
                layers: copy_layers(&self.layers),
            },
        );
        proof {
            assert(f@ =~= apply_spec(ElementV::Pad(self@), f0));
        }
    }
}

impl ApplyFootprint for Element {
    open spec fn app_wf(&self) -> bool {
        element_valid(self@)
    }

    /// A diagnostic element contributes nothing to the aggregate.
    fn apply_footprint(&self, f: &mut Footprint)
        ensures
            final(f)@ == apply_spec(self@, old(f)@),
    {
        match self {
            Element::Rect(e) => e.apply_footprint(f),
            Element::Line(e) => e.apply_footprint(f),
            Element::Name(e) => e.apply_footprint(f),
            Element::Reference(e) => e.apply_footprint(f),
            Element::Smd(e) => e.apply_footprint(f),
            Element::Pad(e) => e.apply_footprint(f),
            Element::PythonError(_) => {},
        }
    }
}

/// The aggregate of a whole element list, first to last.
pub open spec fn footprint_spec(es: Seq<ElementV>) -> FootprintV
    decreases es.len(),
{
    if es.len() == 0 {
        empty_footprint()
    } else {
        apply_spec(es.last(), footprint_spec(es.drop_last()))
    }
}

/// Flattens the elements into an export footprint, in order.
pub fn to_footprint(elements: &Vec<Element>) -> (r: Footprint)
    requires
        forall|i: int| 0 <= i < elements@.len() ==> element_valid(#[trigger] elements@[i]@),
    ensures
        r@ == footprint_spec(elems_view(elements@)),
{
    let mut f = Footprint::default();
    let mut i: usize = 0;
    proof {
        assert(elems_view(elements@).take(0) =~= Seq::<ElementV>::empty());
    }
    while i < elements.len()
        invariant
            i <= elements@.len(),
            forall|k: int| 0 <= k < elements@.len() ==> element_valid(#[trigger] elements@[k]@),
            f@ == footprint_spec(elems_view(elements@).take(i as int)),
        decreases elements@.len() - i,
    {
        elements[i].apply_footprint(&mut f);
        proof {
            let es = elems_view(elements@);
            assert(es.take(i + 1).drop_last() =~= es.take(i as int));
            assert(es.take(i + 1).last() == elements@[i as int]@);
        }
        i += 1;
    }
    proof {
        assert(elems_view(elements@).take(elements@.len() as int) =~= elems_view(elements@));
    }
    f
}

/// One exported line entry.
pub open spec fn fp_line_text(l: LineV) -> Seq<char> {
    "  (fp_line (start "@ + nm_text(l.x1) + " "@ + nm_text(l.y1) + ") (end "@ + nm_text(l.x2)
        + " "@ + nm_text(l.y2) + ") (layer "@ + layer_text(l.layer) + ") (width "@ + nm_text(l.w)
        + "))\n"@
}

/// One exported surface-mount pad entry.
pub open spec fn smd_text(m: SmdV) -> Seq<char> {
    "  (pad "@ + m.name + " smd rect (at "@ + nm_text(m.x) + " "@ + nm_text(m.y) + ") (size "@
        + nm_text(m.dx) + " "@ + nm_text(m.dy) + ") (layers F.Cu F.Paste F.Mask))\n"@
}

/// One exported through-hole pad entry.
pub open spec fn pad_text(p: PadV) -> Seq<char> {
    "  (pad "@ + p.name + " thru_hole circle (at "@ + nm_text(p.x) + " "@ + nm_text(p.y)
        + ") (size "@ + nm_text(p.dx) + " "@ + nm_text(p.dy) + ") (drill "@ + nm_text(p.drill)
        + ") (layers *.Cu *.Mask))\n"@
}

/// The line entries, in order.
pub open spec fn lines_text(ls: Seq<LineV>) -> Seq<char>
    decreases ls.len(),
{
    if ls.len() == 0 {
        Seq::empty()
    } else {
        lines_text(ls.drop_last()) + fp_line_text(ls.last())
    }
}

/// The surface-mount pad entries, in order.
pub open spec fn smds_text(ms: Seq<SmdV>) -> Seq<char>
    decreases ms.len(),
{
    if ms.len() == 0 {
        Seq::empty()
    } else {
        smds_text(ms.drop_last()) + smd_text(ms.last())
    }
}

/// The through-hole pad entries, in order.
pub open spec fn pads_text(ps: Seq<PadV>) -> Seq<char>
    decreases ps.len(),
{
    if ps.len() == 0 {
        Seq::empty()
    } else {
        pads_text(ps.drop_last()) + pad_text(ps.last())
    }
}

/// The module line and the fixed attributes that open the file.
pub open spec fn module_part(name_txt: Seq<char>, ts: int) -> Seq<char> {
    "(module "@ + name_txt + " (layer F.Cu) (tedit "@ + hex_text(ts) + ")\n"@ + "  (tags \"\")\n"@
        + "  (attr smd)\n"@
}

/// The anchored reference text entry.
pub open spec fn fp_text_ref(reference: TextV) -> Seq<char> {
    "  (fp_text reference REF** (at "@ + nm_text(reference.x) + " "@ + nm_text(reference.y)
        + ") layer "@ + layer_text(reference.layer) + ")\n"@ + "    (effects (font (size "@
        + nm_text(reference.dy) + " "@ + nm_text(reference.dy) + ") (thickness "@ + nm_text(
        reference.thickness,
    ) + ")))\n"@ + "  )\n"@
}

/// The anchored value text entry.
pub open spec fn fp_text_value(name: TextV) -> Seq<char> {
    "  (fp_text value "@ + name.txt + " (at "@ + nm_text(name.x) + " "@ + nm_text(name.y)
        + ") layer "@ + layer_text(name.layer) + ")\n"@ + "    (effects (font (size "@ + nm_text(
        name.dy,
    ) + " "@ + nm_text(name.dy) + ") (thickness "@ + nm_text(name.thickness) + ")))\n"@ + "  )\n"@
}

/// The fixed user text entry.
pub open spec fn fp_text_user() -> Seq<char> {
    "  (fp_text user %R (at 0 0) layer F.Fab)\n"@
        + "    (effects (font (size 0.8 0.8) (thickness 0.1)))\n"@ + "  )\n"@
}

/// The fixed opening of the exported file, down to the anchored texts.
pub open spec fn header_text(name: TextV, reference: TextV, ts: int) -> Seq<char> {
    module_part(name.txt, ts) + fp_text_ref(reference) + fp_text_value(name) + fp_text_user()
}

/// The whole exported file for a footprint that has both a name and a
/// reference: header, lines, surface-mount pads, through-hole pads.
pub open spec fn export_text(f: FootprintV, ts: int) -> Seq<char> {
    header_text(f.name->Some_0, f.reference->Some_0, ts) + lines_text(f.lines) + smds_text(f.smd)
        + pads_text(f.pad) + ")\n"@
}

/// Appends one line entry.
fn push_fp_line(out: &mut String, l: &Line)
    ensures
        final(out)@ == old(out)@ + fp_line_text(l@),
{
    out.append("  (fp_line (start ");
    push_nm_text(out, l.x1);
    out.append(" ");
    push_nm_text(out, l.y1);
    out.append(") (end ");
    push_nm_text(out, l.x2);
    out.append(" ");
    push_nm_text(out, l.y2);
    out.append(") (layer ");
    out.append(crate::layers::layer_text_of(l.layer));
    out.append(") (width ");
    push_nm_text(out, l.w);
    out.append("))\n");
    proof {
        assert(out@ =~= old(out)@ + fp_line_text(l@));
    }
}

/// Appends one surface-mount pad entry.
fn push_smd(out: &mut String, m: &Smd)
    ensures
        final(out)@ == old(out)@ + smd_text(m@),
{
    out.append("  (pad ");
    out.append(m.name.as_str());
    out.append(" smd rect (at ");
    push_nm_text(out, m.x);
    out.append(" ");
    push_nm_text(out, m.y);
    out.append(") (size ");
    push_nm_text(out, m.dx);
    out.append(" ");
    push_nm_text(out, m.dy);
    out.append(") (layers F.Cu F.Paste F.Mask))\n");
    proof {
        assert(out@ =~= old(out)@ + smd_text(m@));
    }
}

/// Appends one through-hole pad entry.
fn push_pad(out: &mut String, p: &Pad)
    ensures
        final(out)@ == old(out)@ + pad_text(p@),
{
    out.append("  (pad ");
    out.append(p.name.as_str());
    out.append(" thru_hole circle (at ");
    push_nm_text(out, p.x);
    out.append(" ");
    push_nm_text(out, p.y);
    out.append(") (size ");
    push_nm_text(out, p.dx);
    out.append(" ");
    push_nm_text(out, p.dy);
    out.append(") (drill ");
    push_nm_text(out, p.drill);
    out.append(") (layers *.Cu *.Mask))\n");
    proof {
        assert(out@ =~= old(out)@ + pad_text(p@));
    }
}

/// Appends the module line and fixed attributes.
fn push_module_part(out: &mut String, name: &Text, ts: u64)
    ensures
        final(out)@ == old(out)@ + module_part(name@.txt, ts as int),
{
    out.append("(module ");
    out.append(name.txt.as_str());
    out.append(" (layer F.Cu) (tedit ");
    push_hex_text(out, ts);
    out.append(")\n");
    out.append("  (tags \"\")\n");
    out.append("  (attr smd)\n");
    proof {
        assert(out@ =~= old(out)@ + module_part(name@.txt, ts as int));
    }
}

/// Appends the anchored reference text entry.
fn push_fp_text_ref(out: &mut String, reference: &Text)
    ensures
        final(out)@ == old(out)@ + fp_text_ref(reference@),
{
    out.append("  (fp_text reference REF** (at ");
    push_nm_text(out, reference.x);
    out.append(" ");
    push_nm_text(out, reference.y);
    out.append(") layer ");
    out.append(crate::layers::layer_text_of(reference.layer));
    out.append(")\n");
    out.append("    (effects (font (size ");
    push_nm_text(out, reference.dy);
    out.append(" ");
    push_nm_text(out, reference.dy);
    out.append(") (thickness ");
    push_nm_text(out, reference.thickness);
    out.append(")))\n");
    out.append("  )\n");
    proof {
        assert(out@ =~= old(out)@ + fp_text_ref(reference@));
    }
}

/// Appends the anchored value text entry.
fn push_fp_text_value(out: &mut String, name: &Text)
    ensures
        final(out)@ == old(out)@ + fp_text_value(name@),
{
    out.append("  (fp_text value ");
    out.append(name.txt.as_str());
    out.append(" (at ");
    push_nm_text(out, name.x);
    out.append(" ");
    push_nm_text(out, name.y);
    out.append(") layer ");
    out.append(crate::layers::layer_text_of(name.layer));
    out.append(")\n");
    out.append("    (effects (font (size ");
    push_nm_text(out, name.dy);
    out.append(" ");
    push_nm_text(out, name.dy);
    out.append(") (thickness ");
    push_nm_text(out, name.thickness);
    out.append(")))\n");
    out.append("  )\n");
    proof {
        assert(out@ =~= old(out)@ + fp_text_value(name@));
    }
}

/// Appends the file header.
fn push_header(out: &mut String, name: &Text, reference: &Text, ts: u64)
    ensures
        final(out)@ == old(out)@ + header_text(name@, reference@, ts as int),
{
    push_module_part(out, name, ts);
    push_fp_text_ref(out, reference);
    push_fp_text_value(out, name);
    out.append("  (fp_text user %R (at 0 0) layer F.Fab)\n");
    out.append("    (effects (font (size 0.8 0.8) (thickness 0.1)))\n");
    out.append("  )\n");
    proof {
        assert(out@ =~= old(out)@ + header_text(name@, reference@, ts as int));
    }
}

/// Lays the footprint out as the export text.  Success is owed exactly
/// when the footprint carries both a name and a reference; each absence
/// is reported on its own.
pub fn export_string(f: &Footprint, ts: u64) -> (r: Result<String, MpError>)
    ensures
        match r {
            Ok(out) => f@.name is Some && f@.reference is Some && out@ == export_text(
                f@,
                ts as int,
            ),
            Err(e) => match e@ {
                MpErrorV::Save(m) => (f@.name is None && m == "footprint is missing a name"@) || (
                f@.name is Some && f@.reference is None && m
                    == "footprint is missing a reference"@),
                _ => false,
            },
        },
{
    let name = match &f.name {
        Some(n) => n,
        None => {
            return Err(MpError::Save(String::from_str("footprint is missing a name")));
        },
    };
    let reference = match &f.reference {
        Some(n) => n,
        None => {
            return Err(MpError::Save(String::from_str("footprint is missing a reference")));
        },
    };
    let mut out = String::new();
    push_header(&mut out, name, reference, ts);
    let ghost after_header = out@;
    let mut i: usize = 0;
    while i < f.lines.len()
        invariant
            i <= f.lines@.len(),
            out@ == after_header + lines_text(f@.lines.take(i as int)),
            f@.lines.len() == f.lines@.len(),
            forall|k: int| 0 <= k < f.lines@.len() ==> f@.lines[k] == #[trigger] f.lines@[k]@,
        decreases f.lines@.len() - i,
    {
        push_fp_line(&mut out, &f.lines[i]);
        proof {
            assert(f@.lines.take(i + 1).drop_last() =~= f@.lines.take(i as int));
            assert(f@.lines.take(i + 1).last() == f@.lines[i as int]);
        }
        i += 1;
    }
    proof {
        assert(f@.lines.take(f.lines@.len() as int) =~= f@.lines);
    }
    let ghost after_lines = out@;
    let mut i: usize = 0;
    while i < f.smd.len()
        invariant
            i <= f.smd@.len(),
            out@ == after_lines + smds_text(f@.smd.take(i as int)),
            f@.smd.len() == f.smd@.len(),
            forall|k: int| 0 <= k < f.smd@.len() ==> f@.smd[k] == #[trigger] f.smd@[k]@,
        decreases f.smd@.len() - i,
    {
        push_smd(&mut out, &f.smd[i]);
        proof {
            assert(f@.smd.take(i + 1).drop_last() =~= f@.smd.take(i as int));
            assert(f@.smd.take(i + 1).last() == f@.smd[i as int]);
        }
        i += 1;
    }
    proof {
        assert(f@.smd.take(f.smd@.len() as int) =~= f@.smd);
    }
    let ghost after_smd = out@;
    let mut i: usize = 0;
    while i < f.pad.len()
        invariant
            i <= f.pad@.len(),
            out@ == after_smd + pads_text(f@.pad.take(i as int)),
            f@.pad.len() == f.pad@.len(),
            forall|k: int| 0 <= k < f.pad@.len() ==> f@.pad[k] == #[trigger] f.pad@[k]@,
        decreases f.pad@.len() - i,
    {
        push_pad(&mut out, &f.pad[i]);
        proof {
            assert(f@.pad.take(i + 1).drop_last() =~= f@.pad.take(i as int));
            assert(f@.pad.take(i + 1).last() == f@.pad[i as int]);
        }
        i += 1;
    }
    proof {
        assert(f@.pad.take(f.pad@.len() as int) =~= f@.pad);
    }
    out.append(")\n");
    proof {
        assert(out@ =~= export_text(f@, ts as int));
    }
    Ok(out)
}

/// Relies on `std::time::SystemTime::now` read against the Unix epoch
/// with `duration_since` and `as_secs`: the current wall-clock time as
/// seconds since the epoch, and zero on a clock set before it, so the
/// read cannot panic.  Nothing is promised of the value; the caller
/// treats any result as a timestamp.
#[verifier::external_body]
fn now_timestamp() -> u64 {
    match std::time::SystemTime::now().duration_since(std::time::UNIX_EPOCH) {
        Ok(d) => d.as_secs(),
        Err(_) => 0,
    }
}

/// Flattens and serializes in one step, stamping the current time into
/// the header.  Success is owed exactly when a name and a reference
/// are among the elements; the text is [`export_text`] for some stamp.
pub fn save_to_string(elements: &Vec<Element>) -> (r: Result<String, MpError>)
    requires
        forall|i: int| 0 <= i < elements@.len() ==> element_valid(#[trigger] elements@[i]@),
    ensures
        ({
            let f = footprint_spec(elems_view(elements@));
            match r {
                Ok(out) => f.name is Some && f.reference is Some && exists|ts: int|
                    out@ == export_text(f, ts),
                Err(e) => match e@ {
                    MpErrorV::Save(m) => (f.name is None && m == "footprint is missing a name"@)
                        || (f.name is Some && f.reference is None && m
                        == "footprint is missing a reference"@),
                    _ => false,
                },
            }
        }),
{
    let f = to_footprint(elements);
    let ts = now_timestamp();
    let r = export_string(&f, ts);
    proof {
        if r is Ok {
            assert(r->Ok_0@ == export_text(f@, ts as int));
        }
    }
    r
}

} // verus!
