//! The closed registry of rendering layers.
//!
//! Each layer has a fixed z-order (lower layers are drawn first) and a
//! fixed colour.  The chrome layers (background, grid, axes) only frame
//! the canvas; the footprint layers take part in rendering and export.

use vstd::prelude::*;

verus! {

broadcast use vstd::string::group_string_axioms;

/// A named drawing plane.
#[derive(Clone, Copy, Debug, PartialEq, Eq, Structural)]
pub enum Layer {
    Background,
    Grid,
    Axes,
    FCu,
    Cu,
    FSilkS,
    FFab,
    FCrtYd,
    FMask,
    Mask,
    FPaste,
}

/// A colour with red, green, blue and alpha in thousandths: 1000 stands
/// for full intensity, so 760 is an alpha of 0.76.
#[derive(Clone, Copy, Debug, PartialEq, Eq, Structural)]
pub struct Rgba {
    pub r: u16,
    pub g: u16,
    pub b: u16,
    pub a: u16,
}

/// True of the layers that participate in rendering and export, as
/// opposed to the chrome layers that only frame the canvas.
pub open spec fn is_footprint_layer(l: Layer) -> bool {
    match l {
        Layer::Background => false,
        Layer::Grid => false,
        Layer::Axes => false,
        _ => true,
    }
}

/// Exec twin of [`is_footprint_layer`].
pub fn is_footprint_layer_of(l: Layer) -> (r: bool)
    ensures
        r == is_footprint_layer(l),
{
    match l {
        Layer::Background => false,
        Layer::Grid => false,
        Layer::Axes => false,
        _ => true,
    }
}

/// The drawing order: a layer with a smaller z is drawn first.
pub open spec fn layer_z(l: Layer) -> int {
    match l {
        Layer::Background => 0,
        Layer::Grid => 1,
        Layer::Axes => 2,
        Layer::FCu => 3,
        Layer::Cu => 4,
        Layer::FMask => 5,
        Layer::Mask => 6,
        Layer::FPaste => 7,
        Layer::FCrtYd => 8,
        Layer::FFab => 9,
        Layer::FSilkS => 10,
    }
}

/// The fixed colour of each layer.  The two layers without a rendering
/// binding of their own borrow the colour of their front-side twin.
pub open spec fn layer_color(l: Layer) -> Rgba {
    match l {
        Layer::Background => Rgba { r: 50, g: 50, b: 50, a: 1000 },
        Layer::Grid => Rgba { r: 400, g: 400, b: 400, a: 1000 },
        Layer::Axes => Rgba { r: 700, g: 700, b: 700, a: 1000 },
        Layer::FCu => Rgba { r: 780, g: 200, b: 200, a: 1000 },
        Layer::Cu => Rgba { r: 780, g: 200, b: 200, a: 1000 },
        Layer::FSilkS => Rgba { r: 0, g: 800, b: 800, a: 1000 },
        Layer::FFab => Rgba { r: 500, g: 500, b: 500, a: 760 },
        Layer::FCrtYd => Rgba { r: 800, g: 0, b: 800, a: 1000 },
        Layer::FMask => Rgba { r: 600, g: 0, b: 400, a: 800 },
        Layer::Mask => Rgba { r: 600, g: 0, b: 400, a: 800 },
        Layer::FPaste => Rgba { r: 600, g: 600, b: 600, a: 900 },
    }
}

/// Exec twin of [`layer_z`].
pub fn layer_z_of(l: Layer) -> (r: u64)
    ensures
        r == layer_z(l),
{
    match l {
        Layer::Background => 0,
        Layer::Grid => 1,
        Layer::Axes => 2,
        Layer::FCu => 3,
        Layer::Cu => 4,
        Layer::FMask => 5,
        Layer::Mask => 6,
        Layer::FPaste => 7,
        Layer::FCrtYd => 8,
        Layer::FFab => 9,
        Layer::FSilkS => 10,
    }
}

/// Exec twin of [`layer_color`].
pub fn layer_color_of(l: Layer) -> (r: Rgba)
    ensures
        r == layer_color(l),
{
    match l {
        Layer::Background => Rgba { r: 50, g: 50, b: 50, a: 1000 },
        Layer::Grid => Rgba { r: 400, g: 400, b: 400, a: 1000 },
        Layer::Axes => Rgba { r: 700, g: 700, b: 700, a: 1000 },
        Layer::FCu => Rgba { r: 780, g: 200, b: 200, a: 1000 },
        Layer::Cu => Rgba { r: 780, g: 200, b: 200, a: 1000 },
        Layer::FSilkS => Rgba { r: 0, g: 800, b: 800, a: 1000 },
        Layer::FFab => Rgba { r: 500, g: 500, b: 500, a: 760 },
        Layer::FCrtYd => Rgba { r: 800, g: 0, b: 800, a: 1000 },
        Layer::FMask => Rgba { r: 600, g: 0, b: 400, a: 800 },
        Layer::Mask => Rgba { r: 600, g: 0, b: 400, a: 800 },
        Layer::FPaste => Rgba { r: 600, g: 600, b: 600, a: 900 },
    }
}

/// The name a layer bears in the wire format and in the exported text.
pub open spec fn layer_text(l: Layer) -> Seq<char> {
    match l {
        Layer::Background => "Background"@,
        Layer::Grid => "Grid"@,
        Layer::Axes => "Axes"@,
        Layer::FCu => "F.Cu"@,
        Layer::Cu => "*.Cu"@,
        Layer::FSilkS => "F.SilkS"@,
        Layer::FFab => "F.Fab"@,
        Layer::FCrtYd => "F.CrtYd"@,
        Layer::FMask => "F.Mask"@,
        Layer::Mask => "*.Mask"@,
        Layer::FPaste => "F.Paste"@,
    }
}

/// Exec twin of [`layer_text`].
pub fn layer_text_of(l: Layer) -> (r: &'static str)
    ensures
        r@ == layer_text(l),
{
    match l {
        Layer::Background => "Background",
        Layer::Grid => "Grid",
        Layer::Axes => "Axes",
        Layer::FCu => "F.Cu",
        Layer::Cu => "*.Cu",
        Layer::FSilkS => "F.SilkS",
        Layer::FFab => "F.Fab",
        Layer::FCrtYd => "F.CrtYd",
        Layer::FMask => "F.Mask",
        Layer::Mask => "*.Mask",
        Layer::FPaste => "F.Paste",
    }
}

/// The footprint layer a wire-format name denotes, if any.  Chrome
/// layers cannot be named by an element, so they are not recognized.
pub open spec fn layer_of_text(s: Seq<char>) -> Option<Layer> {
    if s == "F.Cu"@ {
        Some(Layer::FCu)
    } else if s == "*.Cu"@ {
        Some(Layer::Cu)
    } else if s == "F.SilkS"@ {
        Some(Layer::FSilkS)
    } else if s == "F.Fab"@ {
        Some(Layer::FFab)
    } else if s == "F.CrtYd"@ {
        Some(Layer::FCrtYd)
    } else if s == "F.Mask"@ {
        Some(Layer::FMask)
    } else if s == "*.Mask"@ {
        Some(Layer::Mask)
    } else if s == "F.Paste"@ {
        Some(Layer::FPaste)
    } else {
        None
    }
}

/// A footprint layer's wire name denotes that layer and no other.
#[verifier::rlimit(100)]
#[verifier::spinoff_prover]
pub proof fn lemma_layer_text_roundtrip(l: Layer)
    requires
        is_footprint_layer(l),
    ensures
        layer_of_text(layer_text(l)) == Some(l),
{
    reveal_strlit("F.Cu");
    assert("F.Cu"@.len() == 4);
    assert("F.Cu"@[0] == 'F');
    assert("F.Cu"@[1] == '.');
    assert("F.Cu"@[2] == 'C');
    assert("F.Cu"@[3] == 'u');
    assert("F.Cu"@ =~= seq!['F', '.', 'C', 'u']);
    reveal_strlit("*.Cu");
    assert("*.Cu"@.len() == 4);
    assert("*.Cu"@[0] == '*');
    assert("*.Cu"@[1] == '.');
    assert("*.Cu"@[2] == 'C');
    assert("*.Cu"@[3] == 'u');
    assert("*.Cu"@ =~= seq!['*', '.', 'C', 'u']);
    reveal_strlit("F.SilkS");
    assert("F.SilkS"@.len() == 7);
    assert("F.SilkS"@[0] == 'F');
    assert("F.SilkS"@[1] == '.');
    assert("F.SilkS"@[2] == 'S');
    assert("F.SilkS"@[3] == 'i');
    assert("F.SilkS"@[4] == 'l');
    assert("F.SilkS"@[5] == 'k');
    assert("F.SilkS"@[6] == 'S');
    assert("F.SilkS"@ =~= seq!['F', '.', 'S', 'i', 'l', 'k', 'S']);
    reveal_strlit("F.Fab");
    assert("F.Fab"@.len() == 5);
    assert("F.Fab"@[0] == 'F');
    assert("F.Fab"@[1] == '.');
    assert("F.Fab"@[2] == 'F');
    assert("F.Fab"@[3] == 'a');
    assert("F.Fab"@[4] == 'b');
    assert("F.Fab"@ =~= seq!['F', '.', 'F', 'a', 'b']);
    reveal_strlit("F.CrtYd");
    assert("F.CrtYd"@.len() == 7);
    assert("F.CrtYd"@[0] == 'F');
    assert("F.CrtYd"@[1] == '.');
    assert("F.CrtYd"@[2] == 'C');
    assert("F.CrtYd"@[3] == 'r');
    assert("F.CrtYd"@[4] == 't');
    assert("F.CrtYd"@[5] == 'Y');
    assert("F.CrtYd"@[6] == 'd');
    assert("F.CrtYd"@ =~= seq!['F', '.', 'C', 'r', 't', 'Y', 'd']);
    reveal_strlit("F.Mask");
    assert("F.Mask"@.len() == 6);
    assert("F.Mask"@[0] == 'F');
    assert("F.Mask"@[1] == '.');
    assert("F.Mask"@[2] == 'M');
    assert("F.Mask"@[3] == 'a');
    assert("F.Mask"@[4] == 's');
    assert("F.Mask"@[5] == 'k');
    assert("F.Mask"@ =~= seq!['F', '.', 'M', 'a', 's', 'k']);
    reveal_strlit("*.Mask");
    assert("*.Mask"@.len() == 6);
    assert("*.Mask"@[0] == '*');
    assert("*.Mask"@[1] == '.');
    assert("*.Mask"@[2] == 'M');
    assert("*.Mask"@[3] == 'a');
    assert("*.Mask"@[4] == 's');
    assert("*.Mask"@[5] == 'k');
    assert("*.Mask"@ =~= seq!['*', '.', 'M', 'a', 's', 'k']);
    reveal_strlit("F.Paste");
    assert("F.Paste"@.len() == 7);
    assert("F.Paste"@[0] == 'F');
    assert("F.Paste"@[1] == '.');
    assert("F.Paste"@[2] == 'P');
    assert("F.Paste"@[3] == 'a');
    assert("F.Paste"@[4] == 's');
    assert("F.Paste"@[5] == 't');
    assert("F.Paste"@[6] == 'e');
    assert("F.Paste"@ =~= seq!['F', '.', 'P', 'a', 's', 't', 'e']);
    assert("F.Cu"@ != "*.Cu"@);
    assert("F.Cu"@ != "F.SilkS"@);
    assert("*.Cu"@ != "F.SilkS"@);
    assert("F.Cu"@ != "F.Fab"@);
    assert("*.Cu"@ != "F.Fab"@);
    assert("F.SilkS"@ != "F.Fab"@);
    assert("F.Cu"@ != "F.CrtYd"@);
    assert("*.Cu"@ != "F.CrtYd"@);
    assert("F.SilkS"@ != "F.CrtYd"@);
    assert("F.Fab"@ != "F.CrtYd"@);
    assert("F.Cu"@ != "F.Mask"@);
    assert("*.Cu"@ != "F.Mask"@);
    assert("F.SilkS"@ != "F.Mask"@);
    assert("F.Fab"@ != "F.Mask"@);
    assert("F.CrtYd"@ != "F.Mask"@);
    assert("F.Cu"@ != "*.Mask"@);
    assert("*.Cu"@ != "*.Mask"@);
    assert("F.SilkS"@ != "*.Mask"@);
    assert("F.Fab"@ != "*.Mask"@);
    assert("F.CrtYd"@ != "*.Mask"@);
    assert("F.Mask"@ != "*.Mask"@);
    assert("F.Cu"@ != "F.Paste"@);
    assert("*.Cu"@ != "F.Paste"@);
    assert("F.SilkS"@ != "F.Paste"@);
    assert("F.Fab"@ != "F.Paste"@);
    assert("F.CrtYd"@ != "F.Paste"@);
    assert("F.Mask"@ != "F.Paste"@);
    assert("*.Mask"@ != "F.Paste"@);
}
/// Every layer a wire name can denote takes part in the footprint.
pub proof fn lemma_layer_of_text_footprint(s: Seq<char>)
    ensures
        layer_of_text(s) is Some ==> is_footprint_layer(layer_of_text(s)->Some_0),
{
}

/// The footprint layers in ascending z-order; the renderer walks them
/// from the bottom up so that translucent upper layers composite over
/// opaque lower ones.
pub fn footprint_layers_in_order() -> (r: Vec<Layer>)
    ensures
        r@ == footprint_layer_order(),
{
    let mut v: Vec<Layer> = Vec::new();
    v.push(Layer::FCu);
    v.push(Layer::Cu);
    v.push(Layer::FMask);
    v.push(Layer::Mask);
    v.push(Layer::FPaste);
    v.push(Layer::FCrtYd);
    v.push(Layer::FFab);
    v.push(Layer::FSilkS);
    proof {
        assert(v@ =~= footprint_layer_order());
    }
    v
}

/// The order in which the renderer visits the footprint layers.
pub open spec fn footprint_layer_order() -> Seq<Layer> {
    seq![
        Layer::FCu,
        Layer::Cu,
        Layer::FMask,
        Layer::Mask,
        Layer::FPaste,
        Layer::FCrtYd,
        Layer::FFab,
        Layer::FSilkS,
    ]
}

/// The renderer's walk really is ascending in z and covers exactly the
/// footprint layers.
pub proof fn lemma_footprint_order_sound()
    ensures
        forall|i: int, j: int|
            0 <= i < j < footprint_layer_order().len() ==> layer_z(
                footprint_layer_order()[i],
            ) < layer_z(footprint_layer_order()[j]),
        forall|i: int|
            0 <= i < footprint_layer_order().len() ==> is_footprint_layer(
                footprint_layer_order()[i],
            ),
{
}

} // verus!
