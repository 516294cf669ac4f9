//! The tools and the state machine of the drawing in progress.
//!
//! A drag becomes a shape only if it is large enough: an arrow when it
//! moved more than [`MIN_DRAG`] pixels along either axis, a rectangle or a
//! blur region when it did so along both, a freehand stroke when it has at
//! least two points.

use vstd::prelude::*;
use crate::shapes::{
    ArrowShape, BlurShape, Color, FreehandModel, FreehandShape, RectShape, Shape, ShapeModel,
    view_of,
};

verus! {

/// A drag must exceed this many pixels to count.
pub const MIN_DRAG: u32 = 2;

/// The annotation tool in use.
#[derive(Debug, Clone, Copy, PartialEq, Eq, Structural)]
pub enum ToolKind {
    Arrow,
    Rectangle,
    Text,
    Freehand,
    Blur,
}

/// The drawing in progress, if any.
#[derive(Debug, PartialEq, Eq)]
pub enum ActiveDraw {
    Idle,
    Arrow { start: (i32, i32), current: (i32, i32) },
    Rectangle { start: (i32, i32), current: (i32, i32) },
    Freehand { points: Vec<(i32, i32)> },
    Blur { start: (i32, i32), current: (i32, i32) },
}

/// What an [`ActiveDraw`] holds, as mathematical values.
pub enum DrawModel {
    Idle,
    Arrow { start: (i32, i32), current: (i32, i32) },
    Rectangle { start: (i32, i32), current: (i32, i32) },
    Freehand { points: Seq<(i32, i32)> },
    Blur { start: (i32, i32), current: (i32, i32) },
}

/// Distance between two coordinates.
pub open spec fn span(a: i32, b: i32) -> int {
    if a < b {
        b - a
    } else {
        a - b
    }
}

/// The smaller of two coordinates.
pub open spec fn lower(a: i32, b: i32) -> i32 {
    if a < b {
        a
    } else {
        b
    }
}

/// The rectangle spanned by two corners, in normal form.
pub open spec fn spanned_rect(
    start: (i32, i32),
    current: (i32, i32),
    color: Color,
    line_width: u32,
) -> RectShape {
    RectShape {
        x: lower(start.0, current.0),
        y: lower(start.1, current.1),
        width: span(start.0, current.0) as u32,
        height: span(start.1, current.1) as u32,
        color,
        line_width,
    }
}

/// The blur region spanned by two corners, in normal form.
pub open spec fn spanned_blur(start: (i32, i32), current: (i32, i32), block_size: u32) -> BlurShape {
    BlurShape {
        x: lower(start.0, current.0),
        y: lower(start.1, current.1),
        width: span(start.0, current.0) as u32,
        height: span(start.1, current.1) as u32,
        block_size,
    }
}

impl DrawModel {
    /// The state after the pointer went down at `(x, y)` with `tool`.
    pub open spec fn began(tool: ToolKind, x: i32, y: i32) -> DrawModel {
        match tool {
            ToolKind::Arrow => DrawModel::Arrow { start: (x, y), current: (x, y) },
            ToolKind::Rectangle => DrawModel::Rectangle { start: (x, y), current: (x, y) },
            ToolKind::Freehand => DrawModel::Freehand { points: seq![(x, y)] },
            ToolKind::Blur => DrawModel::Blur { start: (x, y), current: (x, y) },
            ToolKind::Text => DrawModel::Idle,
        }
    }

    /// The state after the pointer moved to `(x, y)`.
    pub open spec fn updated(self, x: i32, y: i32) -> DrawModel {
        match self {
            DrawModel::Arrow { start, current } => DrawModel::Arrow { start, current: (x, y) },
            DrawModel::Rectangle { start, current } => DrawModel::Rectangle {
                start,
                current: (x, y),
            },
            DrawModel::Blur { start, current } => DrawModel::Blur { start, current: (x, y) },
            DrawModel::Freehand { points } => DrawModel::Freehand { points: points.push((x, y)) },
            DrawModel::Idle => DrawModel::Idle,
        }
    }

    /// The shape as it stands, whatever its size.
    pub open spec fn preview(self, color: Color, line_width: u32, blur_block_size: u32) -> Option<
        ShapeModel,
    > {
        match self {
            DrawModel::Arrow { start, current } => Some(
                ShapeModel::Arrow(ArrowShape { start, end: current, color, line_width }),
            ),
            DrawModel::Rectangle { start, current } => Some(
                ShapeModel::Rectangle(spanned_rect(start, current, color, line_width)),
            ),
            DrawModel::Freehand { points } => Some(
                ShapeModel::Freehand(FreehandModel { points, color, line_width }),
            ),
            DrawModel::Blur { start, current } => Some(
                ShapeModel::Blur(spanned_blur(start, current, blur_block_size)),
            ),
            DrawModel::Idle => None,
        }
    }

    /// Whether the drawing is large enough to become a shape.
    pub open spec fn large_enough(self) -> bool {
        match self {
            DrawModel::Arrow { start, current } => span(start.0, current.0) > MIN_DRAG || span(
                start.1,
                current.1,
            ) > MIN_DRAG,
            DrawModel::Rectangle { start, current } => span(start.0, current.0) > MIN_DRAG && span(
                start.1,
                current.1,
            ) > MIN_DRAG,
            DrawModel::Blur { start, current } => span(start.0, current.0) > MIN_DRAG && span(
                start.1,
                current.1,
            ) > MIN_DRAG,
            DrawModel::Freehand { points } => points.len() >= 2,
            DrawModel::Idle => false,
        }
    }

    /// The shape that finishing the drawing commits, if any.
    pub open spec fn finished(self, color: Color, line_width: u32, blur_block_size: u32) -> Option<
        ShapeModel,
    > {
        if self.large_enough() {
            self.preview(color, line_width, blur_block_size)
        } else {
            None
        }
    }
}

impl View for ActiveDraw {
    type V = DrawModel;

    open spec fn view(&self) -> DrawModel {
        match self {
            ActiveDraw::Idle => DrawModel::Idle,
            ActiveDraw::Arrow { start, current } => DrawModel::Arrow {
                start: *start,
                current: *current,
            },
            ActiveDraw::Rectangle { start, current } => DrawModel::Rectangle {
                start: *start,
                current: *current,
            },
            ActiveDraw::Freehand { points } => DrawModel::Freehand { points: points@ },
            ActiveDraw::Blur { start, current } => DrawModel::Blur {
                start: *start,
                current: *current,
            },
        }
    }
}

/// Distance between two coordinates.
fn distance(a: i32, b: i32) -> (d: u32)
    ensures
        d == span(a, b),
{
    if a < b {
        (b as i64 - a as i64) as u32
    } else {
        (a as i64 - b as i64) as u32
    }
}

/// The smaller of two coordinates.
fn smaller(a: i32, b: i32) -> (m: i32)
    ensures
        m == lower(a, b),
{
    if a < b {
        a
    } else {
        b
    }
}

/// A copy of a list of points.
fn copy_points(points: &Vec<(i32, i32)>) -> (copy: Vec<(i32, i32)>)
    ensures
        copy@ == points@,
{
    let mut copy: Vec<(i32, i32)> = Vec::new();
    let mut i: usize = 0;
    while i < points.len()
        invariant
            i <= points@.len(),
            copy@ == points@.take(i as int),
        decreases points@.len() - i,
    {
        copy.push(points[i]);
        assert(points@.take(i as int).push(points@[i as int]) =~= points@.take(i as int + 1));
        i = i + 1;
    }
    assert(points@.take(points@.len() as int) =~= points@);
    copy
}

impl Clone for ActiveDraw {
    fn clone(&self) -> (copy: Self)
        ensures
            copy@ == self@,
    {
        match self {
            ActiveDraw::Idle => ActiveDraw::Idle,
            ActiveDraw::Arrow { start, current } => ActiveDraw::Arrow {
                start: *start,
                current: *current,
            },
            ActiveDraw::Rectangle { start, current } => ActiveDraw::Rectangle {
                start: *start,
                current: *current,
            },
            ActiveDraw::Freehand { points } => ActiveDraw::Freehand {
                points: copy_points(points),
            },
            ActiveDraw::Blur { start, current } => ActiveDraw::Blur {
                start: *start,
                current: *current,
            },
        }
    }
}

impl ActiveDraw {
    /// Starts a drawing at `(x, y)`. The text tool starts none.
    pub fn begin(tool: ToolKind, x: i32, y: i32) -> (draw: Self)
        ensures
            draw@ == DrawModel::began(tool, x, y),
    {
        match tool {
            ToolKind::Arrow => ActiveDraw::Arrow { start: (x, y), current: (x, y) },
            ToolKind::Rectangle => ActiveDraw::Rectangle { start: (x, y), current: (x, y) },
            ToolKind::Freehand => {
                let mut points: Vec<(i32, i32)> = Vec::new();
                points.push((x, y));
                assert(points@ =~= seq![(x, y)]);
                ActiveDraw::Freehand { points }
            },
            ToolKind::Blur => ActiveDraw::Blur { start: (x, y), current: (x, y) },
            ToolKind::Text => ActiveDraw::Idle,
        }
    }

    /// Moves the drawing's free end to `(x, y)`; a freehand stroke gains
    /// the point.
    pub fn update(&mut self, x: i32, y: i32)
        ensures
            final(self)@ == old(self)@.updated(x, y),
    {
        match self {
            ActiveDraw::Arrow { current, .. } => *current = (x, y),
            ActiveDraw::Rectangle { current, .. } => *current = (x, y),
            ActiveDraw::Blur { current, .. } => *current = (x, y),
            ActiveDraw::Freehand { points } => points.push((x, y)),
            ActiveDraw::Idle => {},
        }
    }

    /// Ends the drawing. Yields its shape if it is large enough, nothing
    /// otherwise.
    pub fn finish(self, color: &Color, line_width: u32, blur_block_size: u32) -> (shape: Option<
        Shape,
    >)
        ensures
            view_of(shape) == self@.finished(*color, line_width, blur_block_size),
    {
        match self {
            ActiveDraw::Arrow { start, current } => {
                if distance(start.0, current.0) > MIN_DRAG || distance(start.1, current.1)
                    > MIN_DRAG {
                    Some(Shape::Arrow(ArrowShape { start, end: current, color: *color, line_width }))
                } else {
                    None
                }
            },
            ActiveDraw::Rectangle { start, current } => {
                let x: i32 = smaller(start.0, current.0);
                let y: i32 = smaller(start.1, current.1);
                let w: u32 = distance(start.0, current.0);
                let h: u32 = distance(start.1, current.1);
                if w > MIN_DRAG && h > MIN_DRAG {
                    Some(
                        Shape::Rectangle(
                            RectShape { x, y, width: w, height: h, color: *color, line_width },
                        ),
                    )
                } else {
                    None
                }
            },
            ActiveDraw::Freehand { points } => {
                if points.len() > 1 {
                    Some(Shape::Freehand(FreehandShape { points, color: *color, line_width }))
                } else {
                    None
                }
            },
            ActiveDraw::Blur { start, current } => {
                let x: i32 = smaller(start.0, current.0);
                let y: i32 = smaller(start.1, current.1);
                let w: u32 = distance(start.0, current.0);
                let h: u32 = distance(start.1, current.1);
                if w > MIN_DRAG && h > MIN_DRAG {
                    Some(
                        Shape::Blur(
                            BlurShape { x, y, width: w, height: h, block_size: blur_block_size },
                        ),
                    )
                } else {
                    None
                }
            },
            ActiveDraw::Idle => None,
        }
    }

    /// The shape as it stands, for display while the drawing goes on.
    /// Unlike [`ActiveDraw::finish`] it keeps the drawing and never
    /// discards a small one.
    pub fn to_preview_shape(&self, color: &Color, line_width: u32, blur_block_size: u32) -> (shape:
        Option<Shape>)
        ensures
            view_of(shape) == self@.preview(*color, line_width, blur_block_size),
    {
        match self {
            ActiveDraw::Arrow { start, current } => Some(
                Shape::Arrow(
                    ArrowShape { start: *start, end: *current, color: *color, line_width },
                ),
            ),
            ActiveDraw::Rectangle { start, current } => {
                let x: i32 = smaller(start.0, current.0);
                let y: i32 = smaller(start.1, current.1);
                Some(
                    Shape::Rectangle(
                        RectShape {
                            x,
                            y,
                            width: distance(start.0, current.0),
                            height: distance(start.1, current.1),
                            color: *color,
                            line_width,
                        },
                    ),
                )
            },
            ActiveDraw::Freehand { points } => Some(
                Shape::Freehand(
                    FreehandShape { points: copy_points(points), color: *color, line_width },
                ),
            ),
            ActiveDraw::Blur { start, current } => {
                let x: i32 = smaller(start.0, current.0);
                let y: i32 = smaller(start.1, current.1);
                Some(
                    Shape::Blur(
                        BlurShape {
                            x,
                            y,
                            width: distance(start.0, current.0),
                            height: distance(start.1, current.1),
                            block_size: blur_block_size,
                        },
                    ),
                )
            },
            ActiveDraw::Idle => None,
        }
    }
}

/// Whether a shape is more than a slip of the pointer: an arrow longer
/// than [`MIN_DRAG`] pixels along an axis, a rectangle or blur region
/// wider and higher than that, a stroke of two points or more, a text
/// that is not empty.
pub open spec fn substantial(shape: ShapeModel) -> bool {
    match shape {
        ShapeModel::Arrow(a) => span(a.start.0, a.end.0) > MIN_DRAG || span(a.start.1, a.end.1)
            > MIN_DRAG,
        ShapeModel::Rectangle(r) => r.width > MIN_DRAG && r.height > MIN_DRAG,
        ShapeModel::Blur(b) => b.width > MIN_DRAG && b.height > MIN_DRAG,
        ShapeModel::Freehand(f) => f.points.len() >= 2,
        ShapeModel::Text(t) => t.text.len() > 0,
    }
}

/// Whatever a drawing commits is substantial: no drawing, however it
/// went, commits a degenerate shape.
pub proof fn lemma_finished_is_substantial(
    draw: DrawModel,
    color: Color,
    line_width: u32,
    blur_block_size: u32,
)
    ensures
        draw.finished(color, line_width, blur_block_size) matches Some(shape) ==> substantial(
            shape,
        ),
{
}

/// A rectangle or blur drag that moved [`MIN_DRAG`] pixels or less along
/// at least one axis commits nothing.
pub proof fn lemma_small_region_discarded(
    start: (i32, i32),
    current: (i32, i32),
    color: Color,
    line_width: u32,
    blur_block_size: u32,
)
    requires
        span(start.0, current.0) <= MIN_DRAG || span(start.1, current.1) <= MIN_DRAG,
    ensures
        (DrawModel::Rectangle { start, current }).finished(color, line_width, blur_block_size)
            is None,
        (DrawModel::Blur { start, current }).finished(color, line_width, blur_block_size) is None,
{
}

/// A rectangle or blur drag that moved more than [`MIN_DRAG`] pixels along
/// both axes commits a shape in normal form: its corner is the smaller
/// coordinate on each axis, and its extents are positive and reach exactly
/// to the larger one.
pub proof fn lemma_large_region_committed(
    start: (i32, i32),
    current: (i32, i32),
    color: Color,
    line_width: u32,
    blur_block_size: u32,
)
    requires
        span(start.0, current.0) > MIN_DRAG,
        span(start.1, current.1) > MIN_DRAG,
    ensures
        (DrawModel::Rectangle { start, current }).finished(color, line_width, blur_block_size)
            matches Some(ShapeModel::Rectangle(r)) && {
            &&& r.x <= start.0 && r.x <= current.0 && (r.x == start.0 || r.x == current.0)
            &&& r.y <= start.1 && r.y <= current.1 && (r.y == start.1 || r.y == current.1)
            &&& r.width > MIN_DRAG && r.height > MIN_DRAG
            &&& r.x + r.width >= start.0 && r.x + r.width >= current.0
            &&& r.x + r.width == start.0 || r.x + r.width == current.0
            &&& r.y + r.height >= start.1 && r.y + r.height >= current.1
            &&& r.y + r.height == start.1 || r.y + r.height == current.1
            &&& r.color == color && r.line_width == line_width
        },
        (DrawModel::Blur { start, current }).finished(color, line_width, blur_block_size)
            matches Some(ShapeModel::Blur(b)) && {
            &&& b.x <= start.0 && b.x <= current.0 && (b.x == start.0 || b.x == current.0)
            &&& b.y <= start.1 && b.y <= current.1 && (b.y == start.1 || b.y == current.1)
            &&& b.width > MIN_DRAG && b.height > MIN_DRAG
            &&& b.x + b.width >= start.0 && b.x + b.width >= current.0
            &&& b.x + b.width == start.0 || b.x + b.width == current.0
            &&& b.y + b.height >= start.1 && b.y + b.height >= current.1
            &&& b.y + b.height == start.1 || b.y + b.height == current.1
            &&& b.block_size == blur_block_size
        },
{
}

/// An arrow drag commits its arrow exactly when it moved more than
/// [`MIN_DRAG`] pixels along at least one axis; one axis is enough, unlike
/// for a rectangle.
pub proof fn lemma_arrow_threshold(
    start: (i32, i32),
    current: (i32, i32),
    color: Color,
    line_width: u32,
    blur_block_size: u32,
)
    ensures
        span(start.0, current.0) <= MIN_DRAG && span(start.1, current.1) <= MIN_DRAG ==> (
        DrawModel::Arrow { start, current }).finished(color, line_width, blur_block_size) is None,
        span(start.0, current.0) > MIN_DRAG || span(start.1, current.1) > MIN_DRAG ==> (
        DrawModel::Arrow { start, current }).finished(color, line_width, blur_block_size) == Some(
            ShapeModel::Arrow(ArrowShape { start, end: current, color, line_width }),
        ),
{
}

/// A freehand stroke with fewer than two points commits nothing; with two
/// or more it commits a stroke through exactly the recorded points, in
/// the recorded order.
pub proof fn lemma_freehand_threshold(
    points: Seq<(i32, i32)>,
    color: Color,
    line_width: u32,
    blur_block_size: u32,
)
    ensures
        points.len() < 2 ==> (DrawModel::Freehand { points }).finished(
            color,
            line_width,
            blur_block_size,
        ) is None,
        points.len() >= 2 ==> (DrawModel::Freehand { points }).finished(
            color,
            line_width,
            blur_block_size,
        ) == Some(ShapeModel::Freehand(FreehandModel { points, color, line_width })),
{
}

/// A freehand stroke records the point where it began and then every
/// point it was moved to, in that order.
pub proof fn lemma_freehand_records_in_order(x: i32, y: i32, moves: Seq<(i32, i32)>)
    ensures
        recorded(DrawModel::began(ToolKind::Freehand, x, y), moves, moves.len() as int)
            == (DrawModel::Freehand { points: seq![(x, y)] + moves }),
{
    lemma_recorded_prefix(x, y, moves, moves.len() as int);
    assert(moves.take(moves.len() as int) =~= moves);
}

/// The state after the first `n` of `moves` were applied to `draw`.
pub open spec fn recorded(draw: DrawModel, moves: Seq<(i32, i32)>, n: int) -> DrawModel
    decreases n,
{
    if n <= 0 {
        draw
    } else {
        recorded(draw, moves, n - 1).updated(moves[n - 1].0, moves[n - 1].1)
    }
}

proof fn lemma_recorded_prefix(x: i32, y: i32, moves: Seq<(i32, i32)>, n: int)
    requires
        0 <= n <= moves.len(),
    ensures
        recorded(DrawModel::began(ToolKind::Freehand, x, y), moves, n) == (DrawModel::Freehand {
            points: seq![(x, y)] + moves.take(n),
        }),
    decreases n,
{
    if n > 0 {
        lemma_recorded_prefix(x, y, moves, n - 1);
        assert((seq![(x, y)] + moves.take(n - 1)).push((moves[n - 1].0, moves[n - 1].1)) =~= seq![
            (x, y),
        ] + moves.take(n));
    } else {
        assert(seq![(x, y)] + moves.take(0) =~= seq![(x, y)]);
    }
}

} // verus!
