//! What is handed to a backend: how an outline is painted.

use vstd::prelude::*;
use crate::blend::BlendMode;
use crate::text::DrawKind;

verus! {

/// The encoder that turns the glyphs of a font into outlines. It keeps no
/// state: every glyph is built afresh.
#[derive(Debug, Clone, Copy, PartialEq, Eq, Structural)]
pub struct OutlineBuilder {}

impl Default for OutlineBuilder {
    fn default() -> (r: Self)
        ensures
            r == (OutlineBuilder {  }),
    {
        OutlineBuilder {  }
    }
}

/// A paint: a colour, its opacity, and how it is blended.
#[derive(Debug, Clone, Copy, PartialEq, Eq)]
pub struct FillMode<C, A> {
    pub color: C,
    pub alpha: A,
    pub mode: BlendMode,
}

/// How an outline is painted: filled, stroked, or both, with a paint of
/// type `F` and a stroke of type `S`.
#[derive(Debug, Clone, Copy, PartialEq, Eq)]
pub enum DrawMode<F, S> {
    Fill { fill: F },
    Stroke { stroke: F, stroke_mode: S },
    FillStroke { fill: F, stroke: F, stroke_mode: S },
}

impl<F, S> DrawMode<F, S> {
    /// Whether the outline is filled, stroked, or both.
    pub open spec fn spec_kind(&self) -> DrawKind {
        match self {
            DrawMode::Fill { .. } => DrawKind::Fill,
            DrawMode::Stroke { .. } => DrawKind::Stroke,
            DrawMode::FillStroke { .. } => DrawKind::FillStroke,
        }
    }

    /// Whether the outline is filled, stroked, or both.
    #[verifier::when_used_as_spec(spec_kind)]
    pub fn kind(&self) -> (kind: DrawKind)
        ensures
            kind == self.spec_kind(),
    {
        match self {
            DrawMode::Fill { .. } => DrawKind::Fill,
            DrawMode::Stroke { .. } => DrawKind::Stroke,
            DrawMode::FillStroke { .. } => DrawKind::FillStroke,
        }
    }

    /// The paint to fill with, if the outline is filled.
    pub fn fill(&self) -> (r: Option<&F>)
        ensures
            r == (match self {
                DrawMode::Fill { fill } => Some(fill),
                DrawMode::FillStroke { fill, .. } => Some(fill),
                DrawMode::Stroke { .. } => None,
            }),
    {
        match self {
            DrawMode::Fill { fill } => Some(fill),
            DrawMode::FillStroke { fill, .. } => Some(fill),
            DrawMode::Stroke { .. } => None,
        }
    }

    /// The paint and the stroke to stroke with, if the outline is stroked.
    pub fn stroke(&self) -> (r: Option<(&F, &S)>)
        ensures
            r == (match self {
                DrawMode::FillStroke { stroke, stroke_mode, .. } => Some((stroke, stroke_mode)),
                DrawMode::Stroke { stroke, stroke_mode } => Some((stroke, stroke_mode)),
                DrawMode::Fill { .. } => None,
            }),
    {
        match self {
            DrawMode::FillStroke { stroke, stroke_mode, .. } => Some((stroke, stroke_mode)),
            DrawMode::Stroke { stroke, stroke_mode } => Some((stroke, stroke_mode)),
            DrawMode::Fill { .. } => None,
        }
    }

    /// The draw mode of the kind `kind` with the paints `fill` and `stroke`
    /// and the stroke `stroke_mode`.
    pub fn of_kind(kind: DrawKind, fill: F, stroke: F, stroke_mode: S) -> (mode: Self)
        ensures
            mode == (match kind {
                DrawKind::Fill => DrawMode::Fill { fill },
                DrawKind::Stroke => DrawMode::Stroke { stroke, stroke_mode },
                DrawKind::FillStroke => DrawMode::FillStroke { fill, stroke, stroke_mode },
            }),
    {
        match kind {
            DrawKind::Fill => DrawMode::Fill { fill },
            DrawKind::Stroke => DrawMode::Stroke { stroke, stroke_mode },
            DrawKind::FillStroke => DrawMode::FillStroke { fill, stroke, stroke_mode },
        }
    }
}

} // verus!
