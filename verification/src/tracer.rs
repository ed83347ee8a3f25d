//! A backend that paints nothing and records what it is asked to paint.

use vstd::prelude::*;
use crate::backend::DrawMode;
use crate::clip::{ClipPathId, ClipPaths, FillRule};

verus! {

/// An outline that was painted.
#[derive(Debug)]
pub struct VectorPath<O, F, S, T> {
    pub outline: O,
    pub fill: Option<F>,
    pub stroke: Option<(F, S)>,
    pub transform: T,
    pub op_nr: usize,
    pub clip: Option<ClipPathId>,
}

/// What was painted: an outline, an image, an inline image, or text.
#[derive(Debug)]
pub enum DrawItem<V, I, L, X> {
    Vector(V),
    Image(I),
    InlineImage(L),
    Text(X, Option<ClipPathId>),
}

/// The outline `outline` painted as `mode` says by operator number `op_nr`.
pub open spec fn traced<O, F, S, T>(
    outline: O,
    mode: DrawMode<F, S>,
    transform: T,
    clip: Option<ClipPathId>,
    op_nr: usize,
) -> VectorPath<O, F, S, T> {
    VectorPath {
        outline,
        fill: match mode {
            DrawMode::Fill { fill } => Some(fill),
            DrawMode::FillStroke { fill, .. } => Some(fill),
            DrawMode::Stroke { .. } => None,
        },
        stroke: match mode {
            DrawMode::FillStroke { stroke, stroke_mode, .. } => Some((stroke, stroke_mode)),
            DrawMode::Stroke { stroke, stroke_mode } => Some((stroke, stroke_mode)),
            DrawMode::Fill { .. } => None,
        },
        transform,
        op_nr,
        clip,
    }
}

/// The recorder: the items painted so far, the clip paths registered, the
/// view box, and the number of the operator at work.
pub struct Tracer<Item, O, R> {
    pub items: Vec<Item>,
    pub clip_paths: ClipPaths<O>,
    pub view_box: R,
    pub op_nr: usize,
}

impl<Item, O, R: Copy> Tracer<Item, O, R> {
    /// A recorder that has recorded nothing, with the view box `view_box`.
    pub fn new(view_box: R) -> (r: Self)
        ensures
            r.items@.len() == 0,
            r.clip_paths@.len() == 0,
            r.clip_paths.wf(),
            r.view_box == view_box,
            r.op_nr == 0,
    {
        Tracer { items: Vec::new(), clip_paths: ClipPaths::new(), view_box, op_nr: 0 }
    }

    /// Ends the recording and hands out the items.
    pub fn finish(self) -> (items: Vec<Item>)
        ensures
            items == self.items,
    {
        self.items
    }

    /// The view box.
    pub fn view_box(&self) -> (r: R)
        ensures
            r == self.view_box,
    {
        self.view_box
    }

    /// Sets the view box.
    pub fn set_view_box(&mut self, r: R)
        ensures
            *final(self) == (Tracer { view_box: r, ..*old(self) }),
    {
        self.view_box = r;
    }

    /// Notes the number of the operator at work.
    pub fn bug_op(&mut self, op_nr: usize)
        ensures
            *final(self) == (Tracer { op_nr, ..*old(self) }),
    {
        self.op_nr = op_nr;
    }

    /// Registers a clip path; see [`ClipPaths::create_clip_path`].
    pub fn create_clip_path(&mut self, path: O, fill_rule: FillRule, parent: Option<ClipPathId>) -> (id:
        ClipPathId)
        ensures
            id.0 == old(self).clip_paths@.len(),
            final(self).clip_paths@.len() == old(self).clip_paths@.len() + 1,
            final(self).clip_paths@.last().path == path,
            final(self).clip_paths@.last().fill_rule == fill_rule,
            final(self).clip_paths@.take(id.0 as int) == old(self).clip_paths@,
            old(self).clip_paths.wf() ==> final(self).clip_paths.wf(),
            final(self).items == old(self).items,
            final(self).view_box == old(self).view_box,
            final(self).op_nr == old(self).op_nr,
    {
        let id = self.clip_paths.create_clip_path(path, fill_rule, parent);
        assert(self.clip_paths@.take(id.0 as int) =~= old(self).clip_paths@);
        id
    }

    /// Records an item.
    pub fn add(&mut self, item: Item)
        ensures
            final(self).items@ == old(self).items@.push(item),
            final(self).clip_paths == old(self).clip_paths,
            final(self).view_box == old(self).view_box,
            final(self).op_nr == old(self).op_nr,
    {
        self.items.push(item);
    }
}

impl<O, F, S, T, I, L, X, P, R: Copy> Tracer<DrawItem<VectorPath<O, F, S, T>, I, L, X>, P, R> {
    /// Records an outline painted as `mode` says.
    pub fn draw(&mut self, outline: O, mode: DrawMode<F, S>, transform: T, clip: Option<ClipPathId>)
        ensures
            final(self).items@ == old(self).items@.push(
                DrawItem::Vector(traced(outline, mode, transform, clip, old(self).op_nr)),
            ),
            final(self).clip_paths == old(self).clip_paths,
            final(self).view_box == old(self).view_box,
            final(self).op_nr == old(self).op_nr,
    {
        let op_nr: usize = self.op_nr;
        let item = match mode {
            DrawMode::Fill { fill } => VectorPath {
                outline,
                fill: Some(fill),
                stroke: None,
                transform,
                op_nr,
                clip,
            },
            DrawMode::Stroke { stroke, stroke_mode } => VectorPath {
                outline,
                fill: None,
                stroke: Some((stroke, stroke_mode)),
                transform,
                op_nr,
                clip,
            },
            DrawMode::FillStroke { fill, stroke, stroke_mode } => VectorPath {
                outline,
                fill: Some(fill),
                stroke: Some((stroke, stroke_mode)),
                transform,
                op_nr,
                clip,
            },
        };
        self.items.push(DrawItem::Vector(item));
    }

    /// Records a span of text.
    pub fn add_text(&mut self, span: X, clip: Option<ClipPathId>)
        ensures
            final(self).items@ == old(self).items@.push(DrawItem::Text(span, clip)),
            final(self).clip_paths == old(self).clip_paths,
            final(self).view_box == old(self).view_box,
            final(self).op_nr == old(self).op_nr,
    {
        self.items.push(DrawItem::Text(span, clip));
    }
}

} // verus!
