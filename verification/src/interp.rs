//! The operators of a content stream as a state machine: what each does to
//! the state that is no number, and what it leaves to do to whoever owns
//! the numbers and the backend.

use vstd::prelude::*;
use vstd::string::StringExecFns;
use std::sync::Arc;
use crate::blend::{overprint_blend, BlendMode};
use crate::clip::{clip_plan, plan_clip, ClipPlan, FillRule, Winding};
use crate::colorspace::{ExtGState, ObjectRef, Resources, XObjectKind};
use crate::error::{RenderError, ResourceKind};
use crate::fontentry::FontEntry;
use crate::graphics::{apply, StackOp};
use crate::names::{find, position};
use crate::text::{
    char_codes, draw_text, is_shown, run_text, text_draw_kind, DrawKind, ShownGlyph, TextMode,
};

verus! {

/// The operators of a content stream, without their numeric operands.
#[derive(Debug, Clone, PartialEq, Eq)]
pub enum Op {
    BeginMarkedContent,
    EndMarkedContent,
    MarkedContentPoint,
    Close,
    MoveTo,
    LineTo,
    CurveTo,
    Rect,
    EndPath,
    Stroke,
    FillAndStroke { winding: Winding },
    Fill { winding: Winding },
    Shade,
    Clip { winding: Winding },
    Save,
    Restore,
    Transform,
    LineWidth,
    Dash,
    LineJoin,
    LineCap,
    MiterLimit,
    Flatness,
    GraphicsState { name: String },
    StrokeColor,
    FillColor,
    FillColorSpace { name: String },
    StrokeColorSpace { name: String },
    RenderingIntent,
    BeginText,
    EndText,
    CharSpacing,
    WordSpacing,
    TextScaling,
    Leading,
    TextFont { name: String },
    TextRenderMode { mode: TextMode },
    TextRise,
    MoveTextPosition,
    SetTextMatrix,
    TextNewline,
    TextDraw,
    TextDrawAdjusted,
    XObject { name: String },
    InlineImage,
    /// An operator that is not known.
    Unknown,
}

/// The part of the graphics state that is no number: the clip in force,
/// whether it is known to be a rectangle, and the overprint settings.
#[derive(Debug, Copy, Clone, PartialEq, Eq)]
pub struct GraphicsState<C> {
    pub clip_path_id: Option<C>,
    pub clip_is_rect: bool,
    pub overprint_fill: bool,
    pub overprint_stroke: bool,
    pub overprint_mode: i32,
}

/// The part of the text state that is no number: the font and the
/// rendering mode.
#[derive(Debug, Clone, PartialEq, Eq)]
pub struct TextState {
    pub font_entry: Option<Arc<FontEntry>>,
    pub mode: TextMode,
}

/// The state that `Save` saves and `Restore` restores: graphics state, text
/// state, and the numbers `numbers` of both, which belong to the caller.
#[derive(Debug, Clone, PartialEq, Eq)]
pub struct Saved<N, C> {
    pub graphics_state: GraphicsState<C>,
    pub text_state: TextState,
    pub numbers: N,
}

/// A colour space as a colour space operator selects it.
#[derive(Debug, Copy, Clone, Hash, PartialEq, Eq, Structural)]
pub enum SpaceBinding {
    DeviceGray,
    DeviceRGB,
    DeviceCMYK,
    Pattern,
    /// The entry with this index of the colour spaces of the resources.
    Resource(usize),
}

/// A piece of a path.
#[derive(Debug, Copy, Clone, Hash, PartialEq, Eq, Structural)]
pub enum Segment {
    MoveTo,
    LineTo,
    CurveTo,
    Rect,
    Close,
}

/// What is left to do for an operator once the state is updated.
///
/// `flush` says that the contour under construction is to be moved to the
/// outline first. `clip` is the clip to paint within.
#[derive(Debug, Copy, Clone, PartialEq, Eq)]
pub enum Action<C> {
    /// Nothing.
    Nothing,
    /// Append a piece to the path.
    Append { flush: bool, segment: Segment },
    /// Make the path the new clip where `clip_after` says so, then drop
    /// outline and contour.
    EndPath { flush: bool, clip_after: Option<FillRule> },
    /// Paint the outline within `clip`, make it the new clip where
    /// `clip_after` says so, then drop it.
    ///
    /// To make the outline the new clip, classify it under the current
    /// transform, ask [`RenderState::plan_clip`] and report the new clip
    /// path with [`RenderState::set_clip`].
    Draw { flush: bool, kind: DrawKind, fill_rule: FillRule, fill: BlendMode, stroke: BlendMode, clip:
        Option<C>, clip_after: Option<FillRule> },
    /// Update the numbers as the operator says.
    Numbers,
    /// Apply the numeric entries of the extended graphics state with this
    /// index in the resources; where `font` is given, fetch that font and
    /// report it with [`RenderState::set_font`].
    ExtGState { index: usize, font: Option<ObjectRef> },
    /// Convert the operands to a colour, for stroking or filling, with
    /// this blend mode.
    Color { stroke: bool, mode: BlendMode },
    /// Bind the colour space for stroking or filling and make black the
    /// colour.
    ColorSpace { stroke: bool, space: SpaceBinding },
    /// Fetch this font and report it with [`RenderState::set_font`].
    Font { font: ObjectRef },
    /// Show the text of the operator and emit its span.
    Text { kind: Option<DrawKind>, fill: BlendMode, stroke: BlendMode, clip: Option<C> },
    /// Draw the image.
    Image { xobject: ObjectRef, mode: BlendMode, clip: Option<C> },
    /// Draw the image that the operator holds.
    InlineImage { mode: BlendMode, clip: Option<C> },
    /// Interpret the form within [`RenderState::form_state`].
    Form { xobject: ObjectRef },
    /// Report the PostScript object and go on.
    Postscript { xobject: ObjectRef },
    /// A resource is missing and errors are tolerated: go on.
    Skipped { kind: ResourceKind },
    /// The operator is not known: report it and go on.
    Unknown,
}

/// The state of the interpreter: the current state, the saved states,
/// whether a contour is under construction, and the fill rule of the clip
/// that the next painting operator is to set.
pub struct RenderState<N, C> {
    pub current: Saved<N, C>,
    pub stack: Vec<Saved<N, C>>,
    pub contour_open: bool,
    pub pending_clip: Option<FillRule>,
}

/// The state of the interpreter as a value.
pub struct Machine<N, C> {
    pub current: Saved<N, C>,
    pub stack: Seq<Saved<N, C>>,
    pub contour_open: bool,
    pub pending_clip: Option<FillRule>,
}

/// The graphics state after the extended graphics state `gs` is applied.
pub open spec fn with_ext_gstate<C>(g: GraphicsState<C>, gs: ExtGState) -> GraphicsState<C> {
    let fill = match gs.overprint_fill {
        Some(v) => v,
        None => match gs.overprint {
            Some(v) => v,
            None => g.overprint_fill,
        },
    };
    let stroke = match gs.overprint {
        Some(v) => v,
        None => g.overprint_stroke,
    };
    let mode = match gs.overprint_mode {
        Some(m) => m,
        None => g.overprint_mode,
    };
    GraphicsState {
        clip_path_id: g.clip_path_id,
        clip_is_rect: g.clip_is_rect,
        overprint_fill: fill,
        overprint_stroke: stroke,
        overprint_mode: mode,
    }
}

/// The colour space that a name selects: one of the four built-in names, or
/// a colour space of the resources.
pub open spec fn named_space(name: Seq<char>, resources: Resources) -> Option<SpaceBinding> {
    if name == "DeviceGray"@ {
        Some(SpaceBinding::DeviceGray)
    } else if name == "DeviceRGB"@ {
        Some(SpaceBinding::DeviceRGB)
    } else if name == "DeviceCMYK"@ {
        Some(SpaceBinding::DeviceCMYK)
    } else if name == "Pattern"@ {
        Some(SpaceBinding::Pattern)
    } else {
        match position(resources.color_spaces@, name) {
            Some(i) => Some(SpaceBinding::Resource(i as usize)),
            None => None,
        }
    }
}

/// What becomes of a missing resource: tolerated, the operator is skipped;
/// otherwise it fails the page.
pub open spec fn missing<N, C>(
    m: Machine<N, C>,
    kind: ResourceKind,
    name: String,
    allow_error: bool,
) -> Result<(Machine<N, C>, Action<C>), RenderError> {
    if allow_error {
        Ok((m, Action::Skipped { kind }))
    } else {
        Err(RenderError::MissingResource { kind, name })
    }
}

/// The action of a painting operator.
pub open spec fn paint<N, C>(m: Machine<N, C>, kind: DrawKind, fill_rule: FillRule) -> Action<C> {
    Action::Draw {
        flush: m.contour_open,
        kind,
        fill_rule,
        fill: overprint_blend(m.current.graphics_state.overprint_fill),
        stroke: overprint_blend(m.current.graphics_state.overprint_stroke),
        clip: m.current.graphics_state.clip_path_id,
        clip_after: m.pending_clip,
    }
}

/// The state after a painting operator: no contour, no clip to set.
pub open spec fn painted<N, C>(m: Machine<N, C>) -> Machine<N, C> {
    Machine { current: m.current, stack: m.stack, contour_open: false, pending_clip: None }
}

/// The state with the contour under construction open or not.
pub open spec fn with_contour<N, C>(m: Machine<N, C>, open: bool) -> Machine<N, C> {
    Machine {
        current: m.current,
        stack: m.stack,
        contour_open: open,
        pending_clip: m.pending_clip,
    }
}

/// The state with another graphics state.
pub open spec fn with_graphics<N, C>(m: Machine<N, C>, g: GraphicsState<C>) -> Machine<N, C> {
    Machine {
        current: Saved {
            graphics_state: g,
            text_state: m.current.text_state,
            numbers: m.current.numbers,
        },
        stack: m.stack,
        contour_open: m.contour_open,
        pending_clip: m.pending_clip,
    }
}

/// The state with another text state.
pub open spec fn with_text<N, C>(m: Machine<N, C>, t: TextState) -> Machine<N, C> {
    Machine {
        current: Saved {
            graphics_state: m.current.graphics_state,
            text_state: t,
            numbers: m.current.numbers,
        },
        stack: m.stack,
        contour_open: m.contour_open,
        pending_clip: m.pending_clip,
    }
}

/// What the operator `op` makes of the state `m`: the state after it and
/// what is left to do, or the error that ends the page.
///
/// - Path construction appends to the contour; `MoveTo` and `Rect` start a
///   new one and so flush the one under construction.
/// - Painting flushes, paints with the blend modes that the overprint
///   flags select, and leaves no contour behind.
/// - A clip operator takes effect when the next painting operator, or the
///   end of the path, is done: the path then becomes the new clip.
/// - `Save` pushes the current state; `Restore` pops it and fails on an
///   empty stack.
/// - Operators that name a resource look it up; a missing one is skipped
///   where errors are tolerated and fails the page otherwise.
/// - Marked content, shading and the rendering intent change nothing.
pub open spec fn effect<N, C>(m: Machine<N, C>, op: Op, resources: Resources, allow_error: bool) -> Result<
    (Machine<N, C>, Action<C>),
    RenderError,
> {
    let g = m.current.graphics_state;
    match op {
        Op::BeginMarkedContent | Op::EndMarkedContent | Op::MarkedContentPoint | Op::Shade
        | Op::RenderingIntent | Op::EndText => Ok((m, Action::Nothing)),
        Op::Unknown => Ok((m, Action::Unknown)),
        Op::Close => Ok((m, Action::Append { flush: false, segment: Segment::Close })),
        Op::MoveTo => Ok(
            (
                with_contour(m, true),
                Action::Append { flush: m.contour_open, segment: Segment::MoveTo },
            ),
        ),
        Op::LineTo => Ok(
            (with_contour(m, true), Action::Append { flush: false, segment: Segment::LineTo }),
        ),
        Op::CurveTo => Ok(
            (with_contour(m, true), Action::Append { flush: false, segment: Segment::CurveTo }),
        ),
        Op::Rect => Ok(
            (
                with_contour(m, false),
                Action::Append { flush: m.contour_open, segment: Segment::Rect },
            ),
        ),
        Op::EndPath => Ok(
            (painted(m), Action::EndPath { flush: m.contour_open, clip_after: m.pending_clip }),
        ),
        Op::Stroke => Ok((painted(m), paint(m, DrawKind::Stroke, FillRule::Winding))),
        Op::FillAndStroke { winding } => Ok(
            (painted(m), paint(m, DrawKind::FillStroke, winding.cvt())),
        ),
        Op::Fill { winding } => Ok((painted(m), paint(m, DrawKind::Fill, winding.cvt()))),
        Op::Clip { winding } => Ok(
            (
                Machine {
                    current: m.current,
                    stack: m.stack,
                    contour_open: m.contour_open,
                    pending_clip: Some(winding.cvt()),
                },
                Action::Nothing,
            ),
        ),
        Op::Save => Ok(
            (
                Machine {
                    current: m.current,
                    stack: m.stack.push(m.current),
                    contour_open: m.contour_open,
                    pending_clip: m.pending_clip,
                },
                Action::Nothing,
            ),
        ),
        Op::Restore => if m.stack.len() > 0 {
            Ok(
                (
                    Machine {
                        current: m.stack.last(),
                        stack: m.stack.drop_last(),
                        contour_open: m.contour_open,
                        pending_clip: m.pending_clip,
                    },
                    Action::Nothing,
                ),
            )
        } else {
            Err(RenderError::GraphicsStackUnderflow)
        },
        Op::Transform | Op::LineWidth | Op::Dash | Op::LineJoin | Op::LineCap | Op::MiterLimit
        | Op::Flatness | Op::BeginText | Op::CharSpacing | Op::WordSpacing | Op::TextScaling
        | Op::Leading | Op::TextRise | Op::MoveTextPosition | Op::SetTextMatrix
        | Op::TextNewline => Ok((m, Action::Numbers)),
        Op::GraphicsState { name } => match position(resources.graphics_states@, name@) {
            Some(i) => {
                let gs = resources.graphics_states@[i].1;
                Ok(
                    (
                        with_graphics(m, with_ext_gstate(g, gs)),
                        Action::ExtGState { index: i as usize, font: gs.font },
                    ),
                )
            },
            None => missing(m, ResourceKind::ExtGState, name, allow_error),
        },
        Op::StrokeColor => Ok(
            (m, Action::Color { stroke: true, mode: overprint_blend(g.overprint_stroke) }),
        ),
        Op::FillColor => Ok(
            (m, Action::Color { stroke: false, mode: overprint_blend(g.overprint_fill) }),
        ),
        Op::FillColorSpace { name } => match named_space(name@, resources) {
            Some(space) => Ok((m, Action::ColorSpace { stroke: false, space })),
            None => missing(m, ResourceKind::ColorSpace, name, allow_error),
        },
        Op::StrokeColorSpace { name } => match named_space(name@, resources) {
            Some(space) => Ok((m, Action::ColorSpace { stroke: true, space })),
            None => missing(m, ResourceKind::ColorSpace, name, allow_error),
        },
        Op::TextFont { name } => match position(resources.fonts@, name@) {
            Some(i) => Ok((m, Action::Font { font: resources.fonts@[i].1 })),
            None => if allow_error {
                Ok(
                    (
                        with_text(
                            m,
                            TextState { font_entry: None, mode: m.current.text_state.mode },
                        ),
                        Action::Skipped { kind: ResourceKind::Font },
                    ),
                )
            } else {
                Err(RenderError::MissingResource { kind: ResourceKind::Font, name })
            },
        },
        Op::TextRenderMode { mode } => Ok(
            (
                with_text(m, TextState { font_entry: m.current.text_state.font_entry, mode }),
                Action::Nothing,
            ),
        ),
        Op::TextDraw | Op::TextDrawAdjusted => Ok(
            (
                m,
                Action::Text {
                    kind: text_draw_kind(m.current.text_state.mode),
                    fill: overprint_blend(g.overprint_fill),
                    stroke: overprint_blend(g.overprint_stroke),
                    clip: g.clip_path_id,
                },
            ),
        ),
        Op::XObject { name } => match position(resources.xobjects@, name@) {
            Some(i) => {
                let (xobject, kind) = resources.xobjects@[i].1;
                Ok(
                    (
                        m,
                        match kind {
                            XObjectKind::Image => Action::Image {
                                xobject,
                                mode: overprint_blend(g.overprint_fill),
                                clip: g.clip_path_id,
                            },
                            XObjectKind::Form => Action::Form { xobject },
                            XObjectKind::Postscript => Action::Postscript { xobject },
                        },
                    ),
                )
            },
            None => missing(m, ResourceKind::XObject, name, allow_error),
        },
        Op::InlineImage => Ok(
            (
                m,
                Action::InlineImage {
                    mode: overprint_blend(g.overprint_fill),
                    clip: g.clip_path_id,
                },
            ),
        ),
    }
}

/// Whether the operator builds, paints or clips a path.
pub open spec fn is_path_op(op: Op) -> bool {
    op is Close || op is MoveTo || op is LineTo || op is CurveTo || op is Rect || op is EndPath
        || op is Stroke || op is FillAndStroke || op is Fill || op is Clip
}

/// Whether the operator names a resource.
pub open spec fn is_resource_op(op: Op) -> bool {
    op is GraphicsState || op is FillColorSpace || op is StrokeColorSpace || op is TextFont
        || op is XObject
}

/// The operator `op` as an operation on the stack of saved states, where
/// `after` is the current state that any other operator leaves.
pub open spec fn stack_op<N, C>(op: Op, after: Saved<N, C>) -> StackOp<Saved<N, C>> {
    match op {
        Op::Save => StackOp::Save,
        Op::Restore => StackOp::Restore,
        _ => StackOp::Change(after),
    }
}

/// Every operator acts on the current state and the saved states as
/// `Save`, as `Restore`, or as a change of the current state alone; so
/// what holds of balanced sequences of these holds of the interpreter.
pub proof fn lemma_effect_on_stack<N, C>(
    m: Machine<N, C>,
    op: Op,
    resources: Resources,
    allow_error: bool,
)
    ensures
        match effect(m, op, resources, allow_error) {
            Ok((after, _)) => apply(stack_op(op, after.current), (m.current, m.stack)) == Some(
                (after.current, after.stack),
            ),
            Err(_) => true,
        },
        op == Op::Restore ==> (effect(m, op, resources, allow_error) is Err <==> apply(
            StackOp::<Saved<N, C>>::Restore,
            (m.current, m.stack),
        ) is None),
{
}

/// Calls `Arc::clone`: another handle to the same font entry.
#[verifier::external_body]
fn share(font: &Arc<FontEntry>) -> (r: Arc<FontEntry>)
    ensures
        r == *font,
{
    Arc::clone(font)
}

impl TextState {
    /// The text state at the start of a page: no font, filled text.
    pub fn new() -> (r: TextState)
        ensures
            r == (TextState { font_entry: None, mode: TextMode::Fill }),
    {
        TextState { font_entry: None, mode: TextMode::Fill }
    }

    /// Shows the bytes `data` of a text operator in the font of the text
    /// state; see [`draw_text`](crate::text::draw_text). Without a font
    /// nothing is shown.
    pub fn draw_text(&self, data: &Vec<u8>, text: &mut String) -> (glyphs: Vec<ShownGlyph>)
        ensures
            match self.font_entry {
                None => glyphs@.len() == 0 && final(text)@ == old(text)@,
                Some(entry) => {
                    &&& glyphs@.len() == char_codes(data@, entry.is_cid).len()
                    &&& final(text)@ == old(text)@ + run_text(
                        entry.mappings(),
                        entry.is_cid,
                        char_codes(data@, entry.is_cid),
                        glyphs@.len() as int,
                    )
                    &&& forall|i: int|
                        0 <= i < glyphs@.len() ==> is_shown(
                            #[trigger] glyphs@[i],
                            entry.mappings(),
                            entry.is_cid,
                            char_codes(data@, entry.is_cid),
                            old(text)@,
                            i,
                        )
                },
            },
    {
        match &self.font_entry {
            None => Vec::new(),
            Some(entry) => draw_text(&**entry, data, text),
        }
    }

    /// A copy of the text state, which shares the font.
    pub fn copy(&self) -> (r: TextState)
        ensures
            r == *self,
    {
        TextState {
            font_entry: match &self.font_entry {
                Some(font) => Some(share(font)),
                None => None,
            },
            mode: self.mode,
        }
    }
}

impl<N: Copy, C: Copy> Saved<N, C> {
    /// A copy of the state, which shares the font.
    pub fn copy(&self) -> (r: Saved<N, C>)
        ensures
            r == *self,
    {
        Saved {
            graphics_state: self.graphics_state,
            text_state: self.text_state.copy(),
            numbers: self.numbers,
        }
    }
}

/// Looks up the colour space that a name selects; see [`named_space`].
pub fn color_space(name: &String, resources: &Resources) -> (r: Option<SpaceBinding>)
    ensures
        r == named_space(name@, *resources),
{
    if *name == String::from_str("DeviceGray") {
        Some(SpaceBinding::DeviceGray)
    } else if *name == String::from_str("DeviceRGB") {
        Some(SpaceBinding::DeviceRGB)
    } else if *name == String::from_str("DeviceCMYK") {
        Some(SpaceBinding::DeviceCMYK)
    } else if *name == String::from_str("Pattern") {
        Some(SpaceBinding::Pattern)
    } else {
        match find(&resources.color_spaces, name) {
            Some(i) => Some(SpaceBinding::Resource(i)),
            None => None,
        }
    }
}

impl<N: Copy, C: Copy> RenderState<N, C> {
    /// The state as a value.
    pub open spec fn view(&self) -> Machine<N, C> {
        Machine {
            current: self.current,
            stack: self.stack@,
            contour_open: self.contour_open,
            pending_clip: self.pending_clip,
        }
    }

    /// The state at the start of a page: no clip, no overprint, no font,
    /// filled text, nothing saved and no contour; `numbers` are the
    /// numbers of the initial state.
    pub fn new(numbers: N) -> (r: Self)
        ensures
            r@ == (Machine {
                current: Saved {
                    graphics_state: GraphicsState::<C> {
                        clip_path_id: None,
                        clip_is_rect: false,
                        overprint_fill: false,
                        overprint_stroke: false,
                        overprint_mode: 0,
                    },
                    text_state: TextState { font_entry: None, mode: TextMode::Fill },
                    numbers,
                },
                stack: Seq::empty(),
                contour_open: false,
                pending_clip: None,
            }),
    {
        RenderState {
            current: Saved {
                graphics_state: GraphicsState {
                    clip_path_id: None,
                    clip_is_rect: false,
                    overprint_fill: false,
                    overprint_stroke: false,
                    overprint_mode: 0,
                },
                text_state: TextState { font_entry: None, mode: TextMode::Fill },
                numbers,
            },
            stack: Vec::new(),
            contour_open: false,
            pending_clip: None,
        }
    }

    /// The blend mode for filling.
    pub fn blend_mode_fill(&self) -> (mode: BlendMode)
        ensures
            mode == overprint_blend(self.current.graphics_state.overprint_fill),
    {
        BlendMode::from_overprint(self.current.graphics_state.overprint_fill)
    }

    /// The blend mode for stroking.
    pub fn blend_mode_stroke(&self) -> (mode: BlendMode)
        ensures
            mode == overprint_blend(self.current.graphics_state.overprint_stroke),
    {
        BlendMode::from_overprint(self.current.graphics_state.overprint_stroke)
    }

    fn paint_action(&self, kind: DrawKind, fill_rule: FillRule) -> (a: Action<C>)
        ensures
            a == paint(self@, kind, fill_rule),
    {
        Action::Draw {
            flush: self.contour_open,
            kind,
            fill_rule,
            fill: self.blend_mode_fill(),
            stroke: self.blend_mode_stroke(),
            clip: self.current.graphics_state.clip_path_id,
            clip_after: self.pending_clip,
        }
    }

    fn missing_resource(&self, kind: ResourceKind, name: &String, allow_error: bool) -> (r: Result<
        Action<C>,
        RenderError,
    >)
        ensures
            match missing(self@, kind, *name, allow_error) {
                Ok((m, a)) => r == Ok::<Action<C>, RenderError>(a) && m == self@,
                Err(e) => r == Err::<Action<C>, RenderError>(e),
            },
    {
        if allow_error {
            Ok(Action::Skipped { kind })
        } else {
            Err(RenderError::MissingResource { kind, name: name.clone() })
        }
    }

    /// The operators that build, paint or clip a path.
    fn path_op(&mut self, op: &Op, resources: &Resources, allow_error: bool) -> (r: Result<
        Action<C>,
        RenderError,
    >)
        requires
            is_path_op(*op),
        ensures
            match effect(old(self)@, *op, *resources, allow_error) {
                Ok((m, a)) => r == Ok::<Action<C>, RenderError>(a) && final(self)@ == m,
                Err(e) => r == Err::<Action<C>, RenderError>(e) && final(self)@ == old(self)@,
            },
    {
        match op {
            Op::Close => Ok(Action::Append { flush: false, segment: Segment::Close }),
            Op::MoveTo => {
                let flush: bool = self.contour_open;
                self.contour_open = true;
                Ok(Action::Append { flush, segment: Segment::MoveTo })
            },
            Op::LineTo => {
                self.contour_open = true;
                Ok(Action::Append { flush: false, segment: Segment::LineTo })
            },
            Op::CurveTo => {
                self.contour_open = true;
                Ok(Action::Append { flush: false, segment: Segment::CurveTo })
            },
            Op::Rect => {
                let flush: bool = self.contour_open;
                self.contour_open = false;
                Ok(Action::Append { flush, segment: Segment::Rect })
            },
            Op::EndPath => {
                let action = Action::EndPath {
                    flush: self.contour_open,
                    clip_after: self.pending_clip,
                };
                self.contour_open = false;
                self.pending_clip = None;
                Ok(action)
            },
            Op::Stroke => {
                let action = self.paint_action(DrawKind::Stroke, FillRule::Winding);
                self.contour_open = false;
                self.pending_clip = None;
                Ok(action)
            },
            Op::FillAndStroke { winding } => {
                let action = self.paint_action(DrawKind::FillStroke, winding.cvt());
                self.contour_open = false;
                self.pending_clip = None;
                Ok(action)
            },
            Op::Fill { winding } => {
                let action = self.paint_action(DrawKind::Fill, winding.cvt());
                self.contour_open = false;
                self.pending_clip = None;
                Ok(action)
            },
            Op::Clip { winding } => {
                self.pending_clip = Some(winding.cvt());
                Ok(Action::Nothing)
            },
            _ => Ok(Action::Nothing),
        }
    }

    /// The operators that name a resource.
    fn resource_op(&mut self, op: &Op, resources: &Resources, allow_error: bool) -> (r: Result<
        Action<C>,
        RenderError,
    >)
        requires
            is_resource_op(*op),
        ensures
            match effect(old(self)@, *op, *resources, allow_error) {
                Ok((m, a)) => r == Ok::<Action<C>, RenderError>(a) && final(self)@ == m,
                Err(e) => r == Err::<Action<C>, RenderError>(e) && final(self)@ == old(self)@,
            },
    {
        match op {
            Op::GraphicsState { name } => match find(&resources.graphics_states, name) {
                Some(i) => {
                    let gs: ExtGState = resources.graphics_states[i].1;
                    let g = self.current.graphics_state;
                    let fill: bool = match gs.overprint_fill {
                        Some(v) => v,
                        None => match gs.overprint {
                            Some(v) => v,
                            None => g.overprint_fill,
                        },
                    };
                    let stroke: bool = match gs.overprint {
                        Some(v) => v,
                        None => g.overprint_stroke,
                    };
                    let mode: i32 = match gs.overprint_mode {
                        Some(m) => m,
                        None => g.overprint_mode,
                    };
                    self.current.graphics_state = GraphicsState {
                        clip_path_id: g.clip_path_id,
                        clip_is_rect: g.clip_is_rect,
                        overprint_fill: fill,
                        overprint_stroke: stroke,
                        overprint_mode: mode,
                    };
                    Ok(Action::ExtGState { index: i, font: gs.font })
                },
                None => self.missing_resource(ResourceKind::ExtGState, name, allow_error),
            },
            Op::FillColorSpace { name } => match color_space(name, resources) {
                Some(space) => Ok(Action::ColorSpace { stroke: false, space }),
                None => self.missing_resource(ResourceKind::ColorSpace, name, allow_error),
            },
            Op::StrokeColorSpace { name } => match color_space(name, resources) {
                Some(space) => Ok(Action::ColorSpace { stroke: true, space }),
                None => self.missing_resource(ResourceKind::ColorSpace, name, allow_error),
            },
            Op::TextFont { name } => match find(&resources.fonts, name) {
                Some(i) => Ok(Action::Font { font: resources.fonts[i].1 }),
                None => {
                    if allow_error {
                        self.current.text_state.font_entry = None;
                        Ok(Action::Skipped { kind: ResourceKind::Font })
                    } else {
                        Err(
                            RenderError::MissingResource {
                                kind: ResourceKind::Font,
                                name: name.clone(),
                            },
                        )
                    }
                },
            },
            Op::XObject { name } => match find(&resources.xobjects, name) {
                Some(i) => {
                    let (xobject, kind): (ObjectRef, XObjectKind) = resources.xobjects[i].1;
                    Ok(
                        match kind {
                            XObjectKind::Image => Action::Image {
                                xobject,
                                mode: self.blend_mode_fill(),
                                clip: self.current.graphics_state.clip_path_id,
                            },
                            XObjectKind::Form => Action::Form { xobject },
                            XObjectKind::Postscript => Action::Postscript { xobject },
                        },
                    )
                },
                None => self.missing_resource(ResourceKind::XObject, name, allow_error),
            },
            _ => Ok(Action::Nothing),
        }
    }

    /// The operators that neither touch a path nor name a resource.
    fn plain_op(&mut self, op: &Op, resources: &Resources, allow_error: bool) -> (r: Result<
        Action<C>,
        RenderError,
    >)
        requires
            !is_path_op(*op),
            !is_resource_op(*op),
        ensures
            match effect(old(self)@, *op, *resources, allow_error) {
                Ok((m, a)) => r == Ok::<Action<C>, RenderError>(a) && final(self)@ == m,
                Err(e) => r == Err::<Action<C>, RenderError>(e) && final(self)@ == old(self)@,
            },
    {
        match op {
            Op::Save => {
                let saved = self.current.copy();
                self.stack.push(saved);
                Ok(Action::Nothing)
            },
            Op::Restore => match self.stack.pop() {
                Some(saved) => {
                    self.current = saved;
                    Ok(Action::Nothing)
                },
                None => Err(RenderError::GraphicsStackUnderflow),
            },
            Op::Transform | Op::LineWidth | Op::Dash | Op::LineJoin | Op::LineCap
            | Op::MiterLimit | Op::Flatness | Op::BeginText | Op::CharSpacing | Op::WordSpacing
            | Op::TextScaling | Op::Leading | Op::TextRise | Op::MoveTextPosition
            | Op::SetTextMatrix | Op::TextNewline => Ok(Action::Numbers),
            Op::StrokeColor => Ok(Action::Color { stroke: true, mode: self.blend_mode_stroke() }),
            Op::FillColor => Ok(Action::Color { stroke: false, mode: self.blend_mode_fill() }),
            Op::TextRenderMode { mode } => {
                self.current.text_state.mode = *mode;
                Ok(Action::Nothing)
            },
            Op::TextDraw | Op::TextDrawAdjusted => Ok(
                Action::Text {
                    kind: self.current.text_state.mode.draw_kind(),
                    fill: self.blend_mode_fill(),
                    stroke: self.blend_mode_stroke(),
                    clip: self.current.graphics_state.clip_path_id,
                },
            ),
            Op::InlineImage => Ok(
                Action::InlineImage {
                    mode: self.blend_mode_fill(),
                    clip: self.current.graphics_state.clip_path_id,
                },
            ),
            Op::Unknown => Ok(Action::Unknown),
            _ => Ok(Action::Nothing),
        }
    }

    /// Executes one operator on the state and says what is left to do; see
    /// [`effect`]. On an error the state is unchanged.
    pub fn draw_op(&mut self, op: &Op, resources: &Resources, allow_error: bool) -> (r: Result<
        Action<C>,
        RenderError,
    >)
        ensures
            match effect(old(self)@, *op, *resources, allow_error) {
                Ok((m, a)) => r == Ok::<Action<C>, RenderError>(a) && final(self)@ == m,
                Err(e) => r == Err::<Action<C>, RenderError>(e) && final(self)@ == old(self)@,
            },
    {
        match op {
            Op::Close | Op::MoveTo | Op::LineTo | Op::CurveTo | Op::Rect | Op::EndPath
            | Op::Stroke | Op::FillAndStroke { .. } | Op::Fill { .. } | Op::Clip { .. } => {
                self.path_op(op, resources, allow_error)
            },
            Op::GraphicsState { .. } | Op::FillColorSpace { .. } | Op::StrokeColorSpace { .. }
            | Op::TextFont { .. } | Op::XObject { .. } => {
                self.resource_op(op, resources, allow_error)
            },
            _ => self.plain_op(op, resources, allow_error),
        }
    }

    /// Decides how a new clip path is combined with the clip in force,
    /// given whether the new path is a rectangle; see [`clip_plan`].
    pub fn plan_clip(&self, new_rect: bool) -> (plan: ClipPlan<C>)
        ensures
            plan == clip_plan(
                self.current.graphics_state.clip_is_rect,
                new_rect,
                self.current.graphics_state.clip_path_id,
            ),
    {
        plan_clip(
            self.current.graphics_state.clip_is_rect,
            new_rect,
            self.current.graphics_state.clip_path_id,
        )
    }

    /// Makes `id` the clip in force, made by `plan`.
    pub fn set_clip(&mut self, id: C, plan: ClipPlan<C>)
        ensures
            final(self)@ == with_graphics(
                old(self)@,
                GraphicsState {
                    clip_path_id: Some(id),
                    clip_is_rect: plan.gives_rect(),
                    overprint_fill: old(self).current.graphics_state.overprint_fill,
                    overprint_stroke: old(self).current.graphics_state.overprint_stroke,
                    overprint_mode: old(self).current.graphics_state.overprint_mode,
                },
            ),
    {
        let g = self.current.graphics_state;
        self.current.graphics_state = GraphicsState {
            clip_path_id: Some(id),
            clip_is_rect: plan.gives_rect(),
            overprint_fill: g.overprint_fill,
            overprint_stroke: g.overprint_stroke,
            overprint_mode: g.overprint_mode,
        };
    }

    /// Makes `font` the font of the text state; without a font, text is
    /// not shown.
    pub fn set_font(&mut self, font: Option<Arc<FontEntry>>)
        ensures
            final(self)@ == with_text(
                old(self)@,
                TextState { font_entry: font, mode: old(self).current.text_state.mode },
            ),
    {
        self.current.text_state.font_entry = font;
    }

    /// The state in which a form is interpreted: the current state, with
    /// nothing saved, no contour and no clip to set. Nothing of it comes
    /// back.
    pub fn form_state(&self) -> (r: Self)
        ensures
            r@ == (Machine {
                current: self.current,
                stack: Seq::empty(),
                contour_open: false,
                pending_clip: None,
            }),
    {
        RenderState {
            current: self.current.copy(),
            stack: Vec::new(),
            contour_open: false,
            pending_clip: None,
        }
    }
}

} // verus!
