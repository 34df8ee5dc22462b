//! A library for authoring electronic component footprints.
//!
//! A footprint is the 2D artwork for a single part on a printed circuit
//! board: its pads, silkscreen, courtyard and fabrication outline.  The
//! library owns the validated element model, the wire-format codec that
//! turns interpreter output into elements, the bounding-box and layer
//! logic, the renderer's command generation, the exporter that writes the
//! CAD text format, and the state machine of the editor's main loop.
//!
//! All geometry is carried in nanometres (one millionth of a millimetre)
//! as signed integers, so every computation here is exact.  The thin
//! shell around the library converts to the drawing toolkit's units at
//! the edge.

use vstd::prelude::*;

pub mod codec;
pub mod element;
pub mod error;
pub mod geom;
pub mod json;
pub mod kicad;
pub mod layers;
pub mod render;
pub mod settings;
pub mod state;
pub mod strutil;

verus! {

/// The version text shown in the window title.
pub open spec fn version_text() -> Seq<char> {
    "0.1.0"@
}

/// The version string shown in the window title.
pub fn version() -> (r: &'static str)
    ensures
        r@ == version_text(),
{
    "0.1.0"
}

} // verus!
