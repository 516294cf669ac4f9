//! The state of an editing session, and what to paint for a frame and for
//! the exported image.
//!
//! The base image is never changed while editing. A frame shows every blur
//! region pixelated from the untouched base image, so overlapping regions
//! do not build on each other on screen. The exported image applies the
//! blur regions one after the other to a copy of the base image, so there
//! each region does build on the ones before it.

use vstd::prelude::*;
use vstd::string::*;
use crate::blur::{copy_fits, pixelate_region, pixelate_region_copy, pixelated_copy, pixelated_data};
use crate::config::Config;
use crate::history::{after_commit, after_redo, after_undo};
use crate::raster::RasterBuffer;
use crate::shapes::{BlurShape, Color, Shape, ShapeModel, TextShape, color_of_hex};
use crate::tools::{ActiveDraw, DrawModel, ToolKind, lemma_finished_is_substantial, substantial};

verus! {

/// Everything an editing session holds.
pub struct CanvasState {
    pub surface: RasterBuffer,
    pub shapes: Vec<Shape>,
    pub undo_stack: Vec<Shape>,
    pub active_draw: ActiveDraw,
    pub current_tool: ToolKind,
    pub current_color: Color,
    pub line_width: u32,
    pub font_size: u32,
    pub blur_block_size: u32,
    pub pending_text_position: Option<(i32, i32)>,
}

/// One thing to paint, in the order of the list it stands in.
#[derive(Debug, PartialEq, Eq)]
pub enum FrameStep {
    /// The base image, unscaled, at the origin.
    PaintBase,
    /// A pixelated patch with its top left corner at `(x, y)`.
    PaintPatch { x: i32, y: i32, patch: RasterBuffer },
    /// The committed shape at `index`, as strokes, fill or text.
    DrawShape { index: usize },
    /// The drawing in progress, as strokes or fill.
    DrawPreview(Shape),
    /// The dashed outline of the blur region in progress.
    OutlineBlur(BlurShape),
    /// Nothing: a blur region that cannot be shown, or no drawing in
    /// progress.
    Skip,
}

/// The exported image before its vector overlays: the base image with
/// every blur region applied, and the committed shapes still to draw on
/// top, by index, in drawing order.
#[derive(Debug, PartialEq, Eq)]
pub struct FinalImage {
    pub pixels: RasterBuffer,
    pub overlays: Vec<usize>,
}

/// Why no exported image could be made.
#[derive(Debug, Clone, Copy, PartialEq, Eq, Structural)]
pub enum CompositeError {
    /// The base image is no well-formed buffer: its rows do not fit its
    /// stride, or its data does not hold its rows.
    MalformedBase,
}

impl CompositeError {
    /// The error in words.
    pub fn message(&self) -> (text: &'static str)
        ensures
            text@ == "the base image is not a well-formed raster buffer"@,
    {
        "the base image is not a well-formed raster buffer"
    }
}

/// An extent as the pixelation takes it: limited to the largest `i32`.
pub open spec fn saturated(extent: u32) -> i32 {
    if extent > 0x7fff_ffff {
        0x7fff_ffff
    } else {
        extent as i32
    }
}

/// The step that shows a committed shape on screen. A blur region is
/// pixelated from `surface` alone, whatever else has been drawn.
pub open spec fn shows_committed(
    surface: RasterBuffer,
    shape: Shape,
    index: int,
    step: FrameStep,
) -> bool {
    match shape {
        Shape::Blur(b) => if surface.well_formed() && copy_fits(
            saturated(b.width) as int,
            saturated(b.height) as int,
        ) {
            &&& step matches FrameStep::PaintPatch { x, y, patch }
            &&& x == b.x
            &&& y == b.y
            &&& patch.well_formed()
            &&& patch.width == saturated(b.width)
            &&& patch.height == saturated(b.height)
            &&& patch.stride == 4 * saturated(b.width)
            &&& patch.data@ == pixelated_copy(
                surface,
                b.x as int,
                b.y as int,
                saturated(b.width) as int,
                saturated(b.height) as int,
                b.block_size,
            )
        } else {
            step is Skip
        },
        _ => step == (FrameStep::DrawShape { index: index as usize }),
    }
}

/// The step that shows the drawing in progress, given its preview.
pub open spec fn shows_preview(preview: Option<ShapeModel>, step: FrameStep) -> bool {
    match preview {
        None => step is Skip,
        Some(ShapeModel::Blur(b)) => step == FrameStep::OutlineBlur(b),
        Some(model) => step matches FrameStep::DrawPreview(shape) && shape@ == model,
    }
}

/// The data of the base image after the blur regions among the first `n`
/// shapes were applied in order, each to the result of the one before.
pub open spec fn blurs_applied(
    data: Seq<u8>,
    stride: int,
    width: int,
    height: int,
    shapes: Seq<Shape>,
    n: int,
) -> Seq<u8>
    decreases n,
{
    if n <= 0 {
        data
    } else {
        let earlier = blurs_applied(data, stride, width, height, shapes, n - 1);
        match shapes[n - 1] {
            Shape::Blur(b) => pixelated_data(
                earlier,
                stride,
                width,
                height,
                b.x as int,
                b.y as int,
                saturated(b.width) as int,
                saturated(b.height) as int,
                b.block_size,
            ),
            _ => earlier,
        }
    }
}

/// The indices, in increasing order, of the shapes among the first `n`
/// that are no blur regions.
pub open spec fn overlay_indices(shapes: Seq<Shape>, n: int) -> Seq<usize>
    decreases n,
{
    if n <= 0 {
        Seq::empty()
    } else {
        let earlier = overlay_indices(shapes, n - 1);
        if shapes[n - 1] is Blur {
            earlier
        } else {
            earlier.push((n - 1) as usize)
        }
    }
}

fn saturate(extent: u32) -> (limited: i32)
    ensures
        limited == saturated(extent),
{
    if extent > 0x7fff_ffff {
        0x7fff_ffff
    } else {
        extent as i32
    }
}

impl CanvasState {
    /// The invariant of a session: its base image is a well-formed buffer.
    pub open spec fn well_formed(&self) -> bool {
        self.surface.well_formed()
    }

    /// Whether every shape of the session, committed or undone, is
    /// substantial. The operations of the session keep it so.
    pub open spec fn only_substantial(&self) -> bool {
        &&& forall|i: int| 0 <= i < self.shapes@.len() ==> substantial(#[trigger] self.shapes@[i]@)
        &&& forall|i: int|
            0 <= i < self.undo_stack@.len() ==> substantial(#[trigger] self.undo_stack@[i]@)
    }

    /// Whether `self` and `other` agree on the base image and on every
    /// tool and style setting.
    pub open spec fn same_settings(&self, other: &CanvasState) -> bool {
        &&& self.surface == other.surface
        &&& self.current_tool == other.current_tool
        &&& self.current_color == other.current_color
        &&& self.line_width == other.line_width
        &&& self.font_size == other.font_size
        &&& self.blur_block_size == other.blur_block_size
    }

    /// A fresh session on `surface`: nothing drawn, the arrow tool chosen,
    /// the styles taken from `config`.
    pub fn new(surface: RasterBuffer, config: &Config) -> (state: Self)
        ensures
            state.surface == surface,
            state.shapes@.len() == 0,
            state.undo_stack@.len() == 0,
            state.active_draw is Idle,
            state.current_tool == ToolKind::Arrow,
            state.current_color == color_of_hex(
                vstd::utf8::encode_utf8(config.annotation.default_color@),
            ),
            state.line_width == config.annotation.line_width,
            state.font_size == config.annotation.font_size,
            state.blur_block_size == config.annotation.blur_block_size,
            state.pending_text_position is None,
    {
        CanvasState {
            surface,
            shapes: Vec::new(),
            undo_stack: Vec::new(),
            active_draw: ActiveDraw::Idle,
            current_tool: ToolKind::Arrow,
            current_color: Color::from_hex(config.annotation.default_color.as_str()),
            line_width: config.annotation.line_width,
            font_size: config.annotation.font_size,
            blur_block_size: config.annotation.blur_block_size,
            pending_text_position: None,
        }
    }

    /// Takes back the last committed shape, if there is one.
    pub fn undo(&mut self)
        ensures
            (final(self).shapes@, final(self).undo_stack@) == after_undo(
                old(self).shapes@,
                old(self).undo_stack@,
            ),
            final(self).same_settings(old(self)),
            final(self).active_draw == old(self).active_draw,
            final(self).pending_text_position == old(self).pending_text_position,
            old(self).only_substantial() ==> final(self).only_substantial(),
    {
        if let Some(shape) = self.shapes.pop() {
            self.undo_stack.push(shape);
        }
    }

    /// Commits again the shape that was taken back last, if there is one.
    pub fn redo(&mut self)
        ensures
            (final(self).shapes@, final(self).undo_stack@) == after_redo(
                old(self).shapes@,
                old(self).undo_stack@,
            ),
            final(self).same_settings(old(self)),
            final(self).active_draw == old(self).active_draw,
            final(self).pending_text_position == old(self).pending_text_position,
            old(self).only_substantial() ==> final(self).only_substantial(),
    {
        if let Some(shape) = self.undo_stack.pop() {
            self.shapes.push(shape);
        }
    }

    /// Remembers where the next text goes. Only the text tool does so.
    pub fn set_pending_text_anchor(&mut self, x: i32, y: i32)
        ensures
            final(self).pending_text_position == if old(self).current_tool == ToolKind::Text {
                Some((x, y))
            } else {
                old(self).pending_text_position
            },
            final(self).same_settings(old(self)),
            final(self).shapes == old(self).shapes,
            final(self).undo_stack == old(self).undo_stack,
            final(self).active_draw == old(self).active_draw,
    {
        if self.current_tool == ToolKind::Text {
            self.pending_text_position = Some((x, y));
        }
    }

    /// Commits `text` at the remembered anchor, in the current colour and
    /// font size, and forgets the anchor. Without an anchor, or with an
    /// empty text, nothing is committed.
    pub fn add_text(&mut self, text: String)
        ensures
            final(self).pending_text_position is None,
            final(self).same_settings(old(self)),
            final(self).active_draw == old(self).active_draw,
            (final(self).shapes@, final(self).undo_stack@) == match old(
                self,
            ).pending_text_position {
                Some((x, y)) if text@.len() > 0 => after_commit(
                    old(self).shapes@,
                    old(self).undo_stack@,
                    Shape::Text(
                        TextShape {
                            x,
                            y,
                            text,
                            color: old(self).current_color,
                            font_size: old(self).font_size,
                        },
                    ),
                ),
                _ => (old(self).shapes@, old(self).undo_stack@),
            },
            old(self).only_substantial() ==> final(self).only_substantial(),
    {
        let pending = self.pending_text_position;
        self.pending_text_position = None;
        if let Some((x, y)) = pending {
            if !text.as_str().is_empty() {
                self.undo_stack.clear();
                self.shapes.push(
                    Shape::Text(
                        TextShape {
                            x,
                            y,
                            text,
                            color: self.current_color,
                            font_size: self.font_size,
                        },
                    ),
                );
                assert(self.undo_stack@ =~= Seq::empty());
            }
        }
    }

    /// Starts a drawing at `(x, y)` with the current tool. The text tool
    /// leaves the drawing in progress as it is.
    pub fn begin_draw(&mut self, x: i32, y: i32)
        ensures
            final(self).active_draw@ == if old(self).current_tool == ToolKind::Text {
                old(self).active_draw@
            } else {
                DrawModel::began(old(self).current_tool, x, y)
            },
            final(self).same_settings(old(self)),
            final(self).shapes == old(self).shapes,
            final(self).undo_stack == old(self).undo_stack,
            final(self).pending_text_position == old(self).pending_text_position,
    {
        if self.current_tool == ToolKind::Text {
            return ;
        }
        self.active_draw = ActiveDraw::begin(self.current_tool, x, y);
    }

    /// Moves the free end of the drawing in progress to `(x, y)`.
    pub fn update_draw(&mut self, x: i32, y: i32)
        ensures
            final(self).active_draw@ == old(self).active_draw@.updated(x, y),
            final(self).same_settings(old(self)),
            final(self).shapes == old(self).shapes,
            final(self).undo_stack == old(self).undo_stack,
            final(self).pending_text_position == old(self).pending_text_position,
    {
        self.active_draw.update(x, y);
    }

    /// Ends the drawing in progress at `(x, y)`. If it is large enough its
    /// shape is committed, which empties the redo history, and its index
    /// is returned; otherwise it is dropped and nothing else changes.
    pub fn finish_draw(&mut self, x: i32, y: i32) -> (committed: Option<usize>)
        ensures
            final(self).active_draw is Idle,
            final(self).same_settings(old(self)),
            final(self).pending_text_position == old(self).pending_text_position,
            match old(self).active_draw@.updated(x, y).finished(
                old(self).current_color,
                old(self).line_width,
                old(self).blur_block_size,
            ) {
                Some(model) => {
                    &&& committed == Some(old(self).shapes@.len() as usize)
                    &&& final(self).shapes@.len() == old(self).shapes@.len() + 1
                    &&& final(self).shapes@.drop_last() == old(self).shapes@
                    &&& final(self).shapes@.last()@ == model
                    &&& final(self).undo_stack@.len() == 0
                },
                None => {
                    &&& committed is None
                    &&& final(self).shapes@ == old(self).shapes@
                    &&& final(self).undo_stack@ == old(self).undo_stack@
                },
            },
            old(self).only_substantial() ==> final(self).only_substantial(),
    {
        proof {
            lemma_finished_is_substantial(
                self.active_draw@.updated(x, y),
                self.current_color,
                self.line_width,
                self.blur_block_size,
            );
        }
        self.active_draw.update(x, y);
        let mut draw = ActiveDraw::Idle;
        std::mem::swap(&mut self.active_draw, &mut draw);
        match draw.finish(&self.current_color, self.line_width, self.blur_block_size) {
            Some(shape) => {
                let index: usize = self.shapes.len();
                let ghost before = self.shapes@;
                self.undo_stack.clear();
                self.shapes.push(shape);
                assert(self.shapes@.drop_last() =~= before);
                Some(index)
            },
            None => None,
        }
    }

    /// The pixelated patch that shows the blur region `blur` on screen,
    /// made from the untouched base image. `None` when the region has no
    /// pixels or the base image is not well formed.
    pub fn blur_patch(&self, blur: &BlurShape) -> (patch: Option<RasterBuffer>)
        ensures
            patch is Some <==> self.well_formed() && copy_fits(
                saturated(blur.width) as int,
                saturated(blur.height) as int,
            ),
            patch matches Some(p) ==> {
                &&& p.well_formed()
                &&& p.width == saturated(blur.width)
                &&& p.height == saturated(blur.height)
                &&& p.stride == 4 * saturated(blur.width)
                &&& p.data@ == pixelated_copy(
                    self.surface,
                    blur.x as int,
                    blur.y as int,
                    saturated(blur.width) as int,
                    saturated(blur.height) as int,
                    blur.block_size,
                )
            },
    {
        pixelate_region_copy(
            &self.surface,
            blur.x,
            blur.y,
            saturate(blur.width),
            saturate(blur.height),
            blur.block_size,
        )
    }

    /// What to paint for one frame, in order: the base image; then one
    /// step for each committed shape, in drawing order, where a blur
    /// region becomes a patch pixelated from the base image alone; then
    /// one step for the drawing in progress, where a blur region is only
    /// outlined. A blur region without pixels, or any blur region while
    /// the base image is not well formed, is skipped. The session itself
    /// is not changed.
    pub fn render_frame(&self) -> (steps: Vec<FrameStep>)
        ensures
            steps@.len() == self.shapes@.len() + 2,
            steps@[0] is PaintBase,
            forall|i: int|
                0 <= i < self.shapes@.len() ==> shows_committed(
                    self.surface,
                    self.shapes@[i],
                    i,
                    #[trigger] steps@[i + 1],
                ),
            shows_preview(
                self.active_draw@.preview(
                    self.current_color,
                    self.line_width,
                    self.blur_block_size,
                ),
                steps@.last(),
            ),
    {
        let mut steps: Vec<FrameStep> = Vec::new();
        steps.push(FrameStep::PaintBase);
        let mut i: usize = 0;
        while i < self.shapes.len()
            invariant
                i <= self.shapes@.len(),
                steps@.len() == i + 1,
                steps@[0] is PaintBase,
                forall|k: int|
                    0 <= k < i ==> shows_committed(
                        self.surface,
                        self.shapes@[k],
                        k,
                        #[trigger] steps@[k + 1],
                    ),
            decreases self.shapes@.len() - i,
        {
            let step = match &self.shapes[i] {
                Shape::Blur(blur) => match self.blur_patch(blur) {
                    Some(patch) => FrameStep::PaintPatch { x: blur.x, y: blur.y, patch },
                    None => FrameStep::Skip,
                },
                _ => FrameStep::DrawShape { index: i },
            };
            steps.push(step);
            i = i + 1;
        }
        let preview = self.active_draw.to_preview_shape(
            &self.current_color,
            self.line_width,
            self.blur_block_size,
        );
        let last = match preview {
            None => FrameStep::Skip,
            Some(Shape::Blur(blur)) => FrameStep::OutlineBlur(blur),
            Some(shape) => FrameStep::DrawPreview(shape),
        };
        steps.push(last);
        steps
    }
}

/// The exported image of a session: a copy of the base image to which the
/// committed blur regions were applied one after the other, in drawing
/// order, each to the pixels the earlier ones left; and the other
/// committed shapes, in drawing order, to be drawn on top of it. The
/// session is not changed. Fails, and only then, when the base image is
/// not well formed.
pub fn render_final_image(state: &CanvasState) -> (result: Result<FinalImage, CompositeError>)
    ensures
        result is Ok <==> state.well_formed(),
        result matches Err(e) ==> e == CompositeError::MalformedBase,
        result matches Ok(image) ==> {
            &&& image.pixels.well_formed()
            &&& image.pixels.same_layout(&state.surface)
            &&& image.pixels.data@ == blurs_applied(
                state.surface.data@,
                state.surface.stride as int,
                state.surface.width as int,
                state.surface.height as int,
                state.shapes@,
                state.shapes@.len() as int,
            )
            &&& image.overlays@ == overlay_indices(state.shapes@, state.shapes@.len() as int)
        },
{
    if !state.surface.is_well_formed() {
        return Err(CompositeError::MalformedBase);
    }
    let mut pixels = state.surface.duplicate();
    let mut i: usize = 0;
    while i < state.shapes.len()
        invariant
            i <= state.shapes@.len(),
            state.well_formed(),
            pixels.well_formed(),
            pixels.same_layout(&state.surface),
            pixels.data@ == blurs_applied(
                state.surface.data@,
                state.surface.stride as int,
                state.surface.width as int,
                state.surface.height as int,
                state.shapes@,
                i as int,
            ),
        decreases state.shapes@.len() - i,
    {
        if let Shape::Blur(blur) = &state.shapes[i] {
            pixelate_region(
                &mut pixels,
                blur.x,
                blur.y,
                saturate(blur.width),
                saturate(blur.height),
                blur.block_size,
            );
        }
        i = i + 1;
    }
    let mut overlays: Vec<usize> = Vec::new();
    let mut k: usize = 0;
    while k < state.shapes.len()
        invariant
            k <= state.shapes@.len(),
            overlays@ == overlay_indices(state.shapes@, k as int),
        decreases state.shapes@.len() - k,
    {
        if !state.shapes[k].is_blur() {
            overlays.push(k);
        }
        k = k + 1;
    }
    Ok(FinalImage { pixels, overlays })
}

/// In the exported image blur regions build on each other: a blur region
/// is applied to the pixels that the shapes before it left, not to the
/// base image; any other shape leaves the pixels as they are.
pub proof fn lemma_export_compounds(
    data: Seq<u8>,
    stride: int,
    width: int,
    height: int,
    shapes: Seq<Shape>,
    n: int,
)
    requires
        0 <= n < shapes.len(),
    ensures
        blurs_applied(data, stride, width, height, shapes, n + 1) == match shapes[n] {
            Shape::Blur(b) => pixelated_data(
                blurs_applied(data, stride, width, height, shapes, n),
                stride,
                width,
                height,
                b.x as int,
                b.y as int,
                saturated(b.width) as int,
                saturated(b.height) as int,
                b.block_size,
            ),
            _ => blurs_applied(data, stride, width, height, shapes, n),
        },
{
}

/// On screen blur regions do not build on each other: the patch for a
/// blur region depends on the base image and on that region alone, so it
/// is the same wherever the region stands among the committed shapes.
pub proof fn lemma_frame_blur_is_independent(
    surface: RasterBuffer,
    blur: BlurShape,
    first_index: int,
    first: FrameStep,
    second_index: int,
    second: FrameStep,
)
    requires
        shows_committed(surface, Shape::Blur(blur), first_index, first),
        shows_committed(surface, Shape::Blur(blur), second_index, second),
    ensures
        first is Skip <==> second is Skip,
        first matches FrameStep::PaintPatch { x: x1, y: y1, patch: p1 } ==> second matches FrameStep::PaintPatch {
            x: x2,
            y: y2,
            patch: p2,
        } && x1 == x2 && y1 == y2 && p1.same_layout(&p2) && p1.data@ == p2.data@ && p1.data@
            == pixelated_copy(
            surface,
            blur.x as int,
            blur.y as int,
            saturated(blur.width) as int,
            saturated(blur.height) as int,
            blur.block_size,
        ),
{
}

} // verus!
