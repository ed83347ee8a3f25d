//! Clip paths by identifier: each is registered once and may name a parent,
//! within which it lies.

use vstd::prelude::*;

verus! {

/// The identifier of a registered clip path: its position in the registry.
#[derive(Debug, Copy, Clone, Hash, PartialEq, Eq, Structural)]
pub struct ClipPathId(pub usize);

/// The rule that tells the inside of a path from its outside.
#[derive(Debug, Copy, Clone, Hash, PartialEq, Eq, Structural)]
pub enum FillRule {
    Winding,
    EvenOdd,
}

/// The fill rule as a painting operator names it.
#[derive(Debug, Copy, Clone, Hash, PartialEq, Eq, Structural)]
pub enum Winding {
    EvenOdd,
    NonZero,
}

impl Winding {
    /// The fill rule that the operator's winding rule stands for.
    pub open spec fn spec_cvt(self) -> FillRule {
        match self {
            Winding::NonZero => FillRule::Winding,
            Winding::EvenOdd => FillRule::EvenOdd,
        }
    }

    /// The fill rule that the operator's winding rule stands for.
    #[verifier::when_used_as_spec(spec_cvt)]
    pub fn cvt(self) -> (rule: FillRule)
        ensures
            rule == self.spec_cvt(),
    {
        match self {
            Winding::NonZero => FillRule::Winding,
            Winding::EvenOdd => FillRule::EvenOdd,
        }
    }
}

/// A registered clip path: an outline with its fill rule, and the clip path
/// it was made within.
#[derive(Debug)]
pub struct ClipPath<O> {
    pub path: O,
    pub fill_rule: FillRule,
    pub parent: Option<ClipPathId>,
}

/// Whether every clip path of `paths` names as parent, if any, one that
/// was registered before it.
pub open spec fn parents_precede<O>(paths: Seq<ClipPath<O>>) -> bool {
    forall|i: int|
        0 <= i < paths.len() ==> match (#[trigger] paths[i]).parent {
            Some(p) => p.0 < i,
            None => true,
        }
}

/// The points that clip path number `i` lets through: those inside its own
/// outline, by `shape`, that its parent lets through too.
pub open spec fn region<O, P>(
    paths: Seq<ClipPath<O>>,
    shape: spec_fn(O, FillRule) -> Set<P>,
    i: int,
) -> Set<P>
    decreases i,
{
    if 0 <= i < paths.len() {
        let own = shape(paths[i].path, paths[i].fill_rule);
        match paths[i].parent {
            Some(p) => if p.0 < i {
                own.intersect(region(paths, shape, p.0 as int))
            } else {
                own
            },
            None => own,
        }
    } else {
        Set::empty()
    }
}

/// A clip path lets through nothing that its parent holds back, whatever
/// the shapes of the outlines are.
pub proof fn lemma_clip_within_parent<O, P>(
    paths: Seq<ClipPath<O>>,
    shape: spec_fn(O, FillRule) -> Set<P>,
    i: int,
)
    requires
        parents_precede(paths),
        0 <= i < paths.len(),
        paths[i].parent is Some,
    ensures
        region(paths, shape, i).subset_of(region(paths, shape, (paths[i].parent->0).0 as int)),
        region(paths, shape, i).subset_of(shape(paths[i].path, paths[i].fill_rule)),
{
}

/// A clip path lets through nothing that any clip path above it holds back.
pub proof fn lemma_clip_within_ancestors<O, P>(
    paths: Seq<ClipPath<O>>,
    shape: spec_fn(O, FillRule) -> Set<P>,
    i: int,
    a: int,
)
    requires
        parents_precede(paths),
        0 <= i < paths.len(),
        is_ancestor(paths, a, i),
    ensures
        region(paths, shape, i).subset_of(region(paths, shape, a)),
    decreases i,
{
    let p = (paths[i].parent->0).0 as int;
    if p != a {
        lemma_clip_within_ancestors(paths, shape, p, a);
    }
}

/// Whether clip path `a` is the parent of clip path `i`, or the parent of
/// its parent, and so on.
pub open spec fn is_ancestor<O>(paths: Seq<ClipPath<O>>, a: int, i: int) -> bool
    decreases i,
{
    if 0 <= i < paths.len() {
        match paths[i].parent {
            Some(p) => p.0 < i && (p.0 == a || is_ancestor(paths, a, p.0 as int)),
            None => false,
        }
    } else {
        false
    }
}

/// The registry of clip paths.
pub struct ClipPaths<O> {
    paths: Vec<ClipPath<O>>,
}

impl<O> ClipPaths<O> {
    /// Whether every parent was registered before its child.
    pub open spec fn wf(&self) -> bool {
        parents_precede(self@)
    }

    /// The registered clip paths in the order of their identifiers.
    pub closed spec fn view(&self) -> Seq<ClipPath<O>> {
        self.paths@
    }

    /// An empty registry.
    pub fn new() -> (r: Self)
        ensures
            r@ == Seq::<ClipPath<O>>::empty(),
            r.wf(),
    {
        ClipPaths { paths: Vec::new() }
    }

    /// How many clip paths are registered.
    pub fn len(&self) -> (n: usize)
        ensures
            n == self@.len(),
    {
        self.paths.len()
    }

    /// The clip path with the identifier `id`, if it is registered.
    pub fn get(&self, id: ClipPathId) -> (r: Option<&ClipPath<O>>)
        ensures
            match r {
                Some(p) => id.0 < self@.len() && *p == self@[id.0 as int],
                None => id.0 >= self@.len(),
            },
    {
        if id.0 < self.paths.len() {
            Some(&self.paths[id.0])
        } else {
            None
        }
    }

    /// Registers a clip path and returns its identifier. A parent that is
    /// not registered is dropped.
    pub fn create_clip_path(&mut self, path: O, fill_rule: FillRule, parent: Option<ClipPathId>) -> (id:
        ClipPathId)
        ensures
            id.0 == old(self)@.len(),
            final(self)@ == old(self)@.push(
                ClipPath {
                    path,
                    fill_rule,
                    parent: match parent {
                        Some(p) => if p.0 < old(self)@.len() {
                            Some(p)
                        } else {
                            None
                        },
                        None => None,
                    },
                },
            ),
            old(self).wf() ==> final(self).wf(),
    {
        let id: usize = self.paths.len();
        let parent: Option<ClipPathId> = match parent {
            Some(p) => if p.0 < id {
                Some(p)
            } else {
                None
            },
            None => None,
        };
        self.paths.push(ClipPath { path, fill_rule, parent });
        ClipPathId(id)
    }
}

/// How a new clip path is combined with the clip in force.
#[derive(Debug, Copy, Clone, Hash, PartialEq, Eq, Structural)]
pub enum ClipPlan<C> {
    /// Both are rectangles: the new clip is the rectangle they share.
    IntersectRects,
    /// The clip in force is a rectangle: the new path is cut to it.
    CutNewByRect,
    /// The new path is a rectangle: the path in force is cut to it.
    CutCurrentByRect,
    /// Nothing is in force and the new path is a rectangle.
    Rect,
    /// Neither is a rectangle: the new path is registered within the clip
    /// in force.
    Within { parent: C },
    /// Nothing is in force: the new path is registered as it is.
    Plain,
}

impl<C> ClipPlan<C> {
    /// Whether the clip that results is known to be a rectangle.
    pub open spec fn spec_gives_rect(&self) -> bool {
        *self is IntersectRects || *self is Rect
    }

    /// Whether the clip that results is known to be a rectangle.
    #[verifier::when_used_as_spec(spec_gives_rect)]
    pub fn gives_rect(&self) -> (b: bool)
        ensures
            b == self.spec_gives_rect(),
    {
        match self {
            ClipPlan::IntersectRects => true,
            ClipPlan::Rect => true,
            _ => false,
        }
    }

    /// The parent handed to the backend with the new clip path.
    pub open spec fn spec_parent(self) -> Option<C> {
        match self {
            ClipPlan::Within { parent } => Some(parent),
            _ => None,
        }
    }
}

/// The plan for a new clip path, given whether the clip in force is known
/// to be a rectangle (`current_rect`), whether the new path is one
/// (`new_rect`), and the identifier of the clip in force.
pub open spec fn clip_plan<C>(current_rect: bool, new_rect: bool, current: Option<C>) -> ClipPlan<
    C,
> {
    match current {
        Some(parent) => if current_rect && new_rect {
            ClipPlan::IntersectRects
        } else if current_rect {
            ClipPlan::CutNewByRect
        } else if new_rect {
            ClipPlan::CutCurrentByRect
        } else {
            ClipPlan::Within { parent }
        },
        None => if new_rect {
            ClipPlan::Rect
        } else {
            ClipPlan::Plain
        },
    }
}

/// Decides how a new clip path is combined with the clip in force; see
/// [`clip_plan`].
pub fn plan_clip<C: Copy>(current_rect: bool, new_rect: bool, current: Option<C>) -> (plan: ClipPlan<
    C,
>)
    ensures
        plan == clip_plan(current_rect, new_rect, current),
{
    match current {
        Some(parent) => if current_rect && new_rect {
            ClipPlan::IntersectRects
        } else if current_rect {
            ClipPlan::CutNewByRect
        } else if new_rect {
            ClipPlan::CutCurrentByRect
        } else {
            ClipPlan::Within { parent }
        },
        None => if new_rect {
            ClipPlan::Rect
        } else {
            ClipPlan::Plain
        },
    }
}

} // verus!
