use razorshot::blur::{pixelate_region, pixelate_region_copy};
use razorshot::canvas::{render_final_image, CanvasState, CompositeError, FrameStep};
use razorshot::config::Config;
use razorshot::raster::RasterBuffer;
use razorshot::shapes::{ArrowShape, BlurShape, Color, RectShape, Shape, TextShape};
use razorshot::tools::{ActiveDraw, ToolKind};

const RED: Color = Color { r: 255, g: 0, b: 0, a: 255 };

fn base() -> RasterBuffer {
    // Four columns with the values 0, 100, 200 and 40, two rows.
    let mut data = Vec::new();
    for _ in 0..2 {
        for value in [0u8, 100, 200, 40] {
            data.extend_from_slice(&[value; 4]);
        }
    }
    RasterBuffer::from_raw(4, 2, 16, data).unwrap()
}

fn session() -> CanvasState {
    CanvasState::new(base(), &Config::default())
}

fn arrow(n: i32) -> Shape {
    Shape::Arrow(ArrowShape { start: (0, 0), end: (n, n), color: RED, line_width: 3 })
}

fn first_row(buffer: &RasterBuffer) -> Vec<u8> {
    (0..buffer.width).map(|x| buffer.get(x, 0, 0)).collect()
}

#[test]
fn new_session_takes_its_style_from_the_configuration() {
    let state = session();
    assert_eq!(state.surface, base());
    assert!(state.shapes.is_empty());
    assert!(state.undo_stack.is_empty());
    assert_eq!(state.active_draw, ActiveDraw::Idle);
    assert_eq!(state.current_tool, ToolKind::Arrow);
    assert_eq!(state.current_color, RED);
    assert_eq!(state.line_width, 3);
    assert_eq!(state.font_size, 16);
    assert_eq!(state.blur_block_size, 10);
    assert_eq!(state.pending_text_position, None);
}

#[test]
fn undo_then_redo_restores_the_shape() {
    let mut state = session();
    state.shapes = vec![arrow(1), arrow(2), arrow(3)];
    state.undo_stack = vec![arrow(9)];
    state.undo();
    assert_eq!(state.shapes, vec![arrow(1), arrow(2)]);
    assert_eq!(state.undo_stack, vec![arrow(9), arrow(3)]);
    state.redo();
    assert_eq!(state.shapes, vec![arrow(1), arrow(2), arrow(3)]);
    assert_eq!(state.undo_stack, vec![arrow(9)]);
}

#[test]
fn undo_and_redo_on_nothing_do_nothing() {
    let mut state = session();
    state.undo();
    state.redo();
    assert!(state.shapes.is_empty());
    assert!(state.undo_stack.is_empty());
    state.shapes = vec![arrow(1)];
    state.redo();
    assert_eq!(state.shapes, vec![arrow(1)]);
    state.undo();
    state.undo();
    assert!(state.shapes.is_empty());
    assert_eq!(state.undo_stack, vec![arrow(1)]);
}

#[test]
fn redo_comes_back_in_reverse_order() {
    let mut state = session();
    state.shapes = vec![arrow(1), arrow(2), arrow(3)];
    state.undo();
    state.undo();
    state.redo();
    assert_eq!(state.shapes, vec![arrow(1), arrow(2)]);
    state.redo();
    assert_eq!(state.shapes, vec![arrow(1), arrow(2), arrow(3)]);
}

#[test]
fn commit_clears_redo() {
    let mut state = session();
    state.shapes = vec![arrow(1)];
    state.undo_stack = vec![arrow(2)];
    state.begin_draw(0, 0);
    state.update_draw(2, 1);
    let committed = state.finish_draw(3, 3);
    assert_eq!(committed, Some(1));
    assert_eq!(state.shapes, vec![arrow(1), arrow(3)]);
    assert!(state.undo_stack.is_empty());
    assert_eq!(state.active_draw, ActiveDraw::Idle);
    state.redo();
    assert_eq!(state.shapes, vec![arrow(1), arrow(3)]);
}

#[test]
fn discarded_drawing_keeps_redo() {
    let mut state = session();
    state.shapes = vec![arrow(1)];
    state.undo_stack = vec![arrow(2)];
    state.current_tool = ToolKind::Rectangle;
    state.begin_draw(0, 0);
    assert_eq!(state.finish_draw(9, 2), None);
    assert_eq!(state.shapes, vec![arrow(1)]);
    assert_eq!(state.undo_stack, vec![arrow(2)]);
    assert_eq!(state.active_draw, ActiveDraw::Idle);
    // Without a drawing in progress there is nothing to finish.
    assert_eq!(state.finish_draw(50, 50), None);
}

#[test]
fn drawing_uses_the_current_style() {
    let mut state = session();
    state.current_tool = ToolKind::Rectangle;
    state.current_color = Color { r: 1, g: 2, b: 3, a: 4 };
    state.line_width = 8;
    state.begin_draw(10, 10);
    state.update_draw(11, 11);
    assert_eq!(state.active_draw, ActiveDraw::Rectangle { start: (10, 10), current: (11, 11) });
    assert_eq!(state.finish_draw(4, 20), Some(0));
    assert_eq!(
        state.shapes,
        vec![Shape::Rectangle(RectShape {
            x: 4,
            y: 10,
            width: 6,
            height: 10,
            color: Color { r: 1, g: 2, b: 3, a: 4 },
            line_width: 8,
        })]
    );
    state.current_tool = ToolKind::Blur;
    state.blur_block_size = 5;
    state.begin_draw(0, 0);
    assert_eq!(state.finish_draw(3, 3), Some(1));
    assert_eq!(
        state.shapes[1],
        Shape::Blur(BlurShape { x: 0, y: 0, width: 3, height: 3, block_size: 5 })
    );
}

#[test]
fn text_tool_does_not_draw() {
    let mut state = session();
    state.active_draw = ActiveDraw::Arrow { start: (0, 0), current: (9, 9) };
    state.current_tool = ToolKind::Text;
    state.begin_draw(5, 5);
    assert_eq!(state.active_draw, ActiveDraw::Arrow { start: (0, 0), current: (9, 9) });
}

#[test]
fn text_is_committed_at_the_anchor() {
    let mut state = session();
    state.shapes = vec![arrow(1)];
    state.undo_stack = vec![arrow(2)];
    state.current_tool = ToolKind::Text;
    state.font_size = 20;
    state.set_pending_text_anchor(30, 40);
    assert_eq!(state.pending_text_position, Some((30, 40)));
    state.add_text("note".to_string());
    assert_eq!(
        state.shapes,
        vec![
            arrow(1),
            Shape::Text(TextShape {
                x: 30,
                y: 40,
                text: "note".to_string(),
                color: RED,
                font_size: 20,
            }),
        ]
    );
    assert!(state.undo_stack.is_empty());
    assert_eq!(state.pending_text_position, None);
}

#[test]
fn text_without_anchor_or_content_is_dropped() {
    let mut state = session();
    state.undo_stack = vec![arrow(2)];
    state.add_text("lost".to_string());
    assert!(state.shapes.is_empty());
    assert_eq!(state.undo_stack, vec![arrow(2)]);
    state.current_tool = ToolKind::Text;
    state.set_pending_text_anchor(1, 1);
    state.add_text(String::new());
    assert!(state.shapes.is_empty());
    assert_eq!(state.undo_stack, vec![arrow(2)]);
    // The empty text used the anchor up.
    assert_eq!(state.pending_text_position, None);
    state.add_text("late".to_string());
    assert!(state.shapes.is_empty());
}

#[test]
fn anchor_is_for_the_text_tool_only() {
    let mut state = session();
    state.set_pending_text_anchor(1, 1);
    assert_eq!(state.pending_text_position, None);
}

#[test]
fn export_compounds_overlapping_blurs() {
    let mut state = session();
    let left = BlurShape { x: 0, y: 0, width: 2, height: 2, block_size: 2 };
    let middle = BlurShape { x: 1, y: 0, width: 2, height: 2, block_size: 2 };
    state.shapes = vec![Shape::Blur(left), arrow(1), Shape::Blur(middle), arrow(2)];
    let image = render_final_image(&state).unwrap();
    // The second region averages what the first one left: (50 + 200) / 2.
    assert_eq!(first_row(&image.pixels), vec![50, 125, 125, 40]);
    assert_eq!(image.overlays, vec![1, 3]);
    // The session is as it was.
    assert_eq!(state.surface, base());
    assert_eq!(state.shapes.len(), 4);

    // One pass over the union of the two regions gives something else.
    let mut union = base();
    pixelate_region(&mut union, 0, 0, 3, 2, 2);
    assert_eq!(first_row(&union), vec![50, 50, 200, 40]);
    assert_ne!(image.pixels, union);

    // The other order gives yet another image.
    state.shapes = vec![Shape::Blur(middle), Shape::Blur(left)];
    assert_eq!(first_row(&render_final_image(&state).unwrap().pixels), vec![75, 75, 150, 40]);
}

#[test]
fn frame_blurs_from_the_untouched_base() {
    let mut state = session();
    let left = BlurShape { x: 0, y: 0, width: 2, height: 2, block_size: 2 };
    let middle = BlurShape { x: 1, y: 0, width: 2, height: 2, block_size: 2 };
    state.shapes = vec![Shape::Blur(left), arrow(1), Shape::Blur(middle)];
    let steps = state.render_frame();
    assert_eq!(steps.len(), 5);
    assert_eq!(steps[0], FrameStep::PaintBase);
    let left_patch = pixelate_region_copy(&base(), 0, 0, 2, 2, 2).unwrap();
    let middle_patch = pixelate_region_copy(&base(), 1, 0, 2, 2, 2).unwrap();
    assert_eq!(left_patch.data, vec![50; 16]);
    // (100 + 200) / 2, not the 125 of the export.
    assert_eq!(middle_patch.data, vec![150; 16]);
    assert_eq!(steps[1], FrameStep::PaintPatch { x: 0, y: 0, patch: left_patch });
    assert_eq!(steps[2], FrameStep::DrawShape { index: 1 });
    assert_eq!(steps[3], FrameStep::PaintPatch { x: 1, y: 0, patch: middle_patch });
    assert_eq!(steps[4], FrameStep::Skip);
    assert_eq!(state.surface, base());
}

#[test]
fn frame_outlines_a_blur_in_progress() {
    let mut state = session();
    state.current_tool = ToolKind::Blur;
    state.begin_draw(3, 1);
    state.update_draw(1, 0);
    let steps = state.render_frame();
    assert_eq!(
        steps,
        vec![
            FrameStep::PaintBase,
            FrameStep::OutlineBlur(BlurShape { x: 1, y: 0, width: 2, height: 1, block_size: 10 }),
        ]
    );
    // Rendering is repeatable and leaves the drawing in progress.
    assert_eq!(state.render_frame(), steps);
    assert_eq!(state.active_draw, ActiveDraw::Blur { start: (3, 1), current: (1, 0) });
}

#[test]
fn frame_draws_other_previews_as_shapes() {
    let mut state = session();
    state.begin_draw(0, 0);
    state.update_draw(1, 1);
    let steps = state.render_frame();
    assert_eq!(steps, vec![FrameStep::PaintBase, FrameStep::DrawPreview(arrow(1))]);
}

#[test]
fn frame_skips_a_blur_without_pixels() {
    let mut state = session();
    state.shapes = vec![Shape::Blur(BlurShape { x: 0, y: 0, width: 0, height: 4, block_size: 2 })];
    assert_eq!(
        state.render_frame(),
        vec![FrameStep::PaintBase, FrameStep::Skip, FrameStep::Skip]
    );
    assert_eq!(render_final_image(&state).unwrap().pixels, base());
}

#[test]
fn export_without_blur_is_the_base_image() {
    let mut state = session();
    state.shapes = vec![arrow(1), arrow(2)];
    let image = render_final_image(&state).unwrap();
    assert_eq!(image.pixels, base());
    assert_eq!(image.overlays, vec![0, 1]);
}

#[test]
fn export_of_a_malformed_base_fails() {
    let mut state = session();
    state.shapes = vec![arrow(1)];
    state.surface.stride = 15;
    let result = render_final_image(&state);
    assert_eq!(result, Err(CompositeError::MalformedBase));
    assert_eq!(
        CompositeError::MalformedBase.message(),
        "the base image is not a well-formed raster buffer"
    );
    // The session is left as it was, and a mended one exports.
    assert_eq!(state.shapes, vec![arrow(1)]);
    state.surface.stride = 16;
    assert!(render_final_image(&state).is_ok());
}

#[test]
fn frame_skips_blurs_of_a_malformed_base() {
    let mut state = session();
    state.surface.data.pop();
    state.shapes = vec![
        Shape::Blur(BlurShape { x: 0, y: 0, width: 2, height: 2, block_size: 2 }),
        arrow(1),
    ];
    assert_eq!(
        state.render_frame(),
        vec![
            FrameStep::PaintBase,
            FrameStep::Skip,
            FrameStep::DrawShape { index: 1 },
            FrameStep::Skip,
        ]
    );
    assert_eq!(state.blur_patch(&BlurShape { x: 0, y: 0, width: 2, height: 2, block_size: 2 }), None);
}
