//! How a painted colour is combined with what lies beneath it.

use vstd::prelude::*;

verus! {

/// The two compositing rules the renderer knows.
///
/// `Overlay` is plain source-over painting. `Darken` multiplies the new
/// colour into the backdrop and stands in for overprinting inks.
#[derive(Debug, Copy, Clone, Hash, PartialEq, Eq, Structural)]
pub enum BlendMode {
    Overlay,
    Darken,
}

/// The blend mode selected by an overprint flag.
pub open spec fn overprint_blend(overprint: bool) -> BlendMode {
    if overprint {
        BlendMode::Darken
    } else {
        BlendMode::Overlay
    }
}

impl BlendMode {
    /// Chooses the blend mode for a paint operation from the overprint flag
    /// of the graphics state: overprinting darkens, anything else overlays.
    pub fn from_overprint(overprint: bool) -> (mode: BlendMode)
        ensures
            mode == overprint_blend(overprint),
    {
        if overprint {
            BlendMode::Darken
        } else {
            BlendMode::Overlay
        }
    }
}

} // verus!
