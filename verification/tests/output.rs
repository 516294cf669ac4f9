use razorshot::config::{extension_for, Config};
use razorshot::icon::{generate_icon, ICON_SIZE};
use razorshot::output::{to_rgb, to_rgba};
use razorshot::portal::path_of_uri;
use razorshot::raster::RasterBuffer;
use razorshot::selection::{label_baseline, SelectionState};

fn two_by_two() -> RasterBuffer {
    // Blue, green, red, alpha per pixel; one byte of padding per row.
    let data = vec![
        1, 2, 3, 4, 5, 6, 7, 8, 99, //
        11, 12, 13, 14, 15, 16, 17, 18, 98,
    ];
    RasterBuffer::from_raw(2, 2, 9, data).unwrap()
}

#[test]
fn rgba_swaps_red_and_blue() {
    assert_eq!(
        to_rgba(&two_by_two()),
        vec![3, 2, 1, 4, 7, 6, 5, 8, 13, 12, 11, 14, 17, 16, 15, 18]
    );
}

#[test]
fn rgb_drops_the_alpha() {
    assert_eq!(to_rgb(&two_by_two()), vec![3, 2, 1, 7, 6, 5, 13, 12, 11, 17, 16, 15]);
}

#[test]
fn empty_images_have_no_bytes() {
    let empty = RasterBuffer::new(0, 3).unwrap();
    assert!(to_rgba(&empty).is_empty());
    assert!(to_rgb(&empty).is_empty());
}

#[test]
fn duplicate_is_equal_and_separate() {
    let source = two_by_two();
    let mut copy = source.duplicate();
    assert_eq!(copy, source);
    copy.data[0] = 77;
    assert_eq!(source.data[0], 1);
}

#[test]
fn extension_follows_the_format() {
    assert_eq!(extension_for("jpg"), "jpg");
    assert_eq!(extension_for("jpeg"), "jpg");
    assert_eq!(extension_for("png"), "png");
    assert_eq!(extension_for("webp"), "png");
    assert_eq!(extension_for(""), "png");
    // Case is the caller's business here.
    assert_eq!(extension_for("JPG"), "png");
}

#[test]
fn configured_format_may_be_in_any_case() {
    let mut config = Config::default();
    assert_eq!(config.export_extension(), "png");
    config.export_format = "JPEG".to_string();
    assert_eq!(config.export_extension(), "jpg");
    config.export_format = "Jpg".to_string();
    assert_eq!(config.export_extension(), "jpg");
    config.export_format = "tiff".to_string();
    assert_eq!(config.export_extension(), "png");
}

#[test]
fn save_dir_below_home_is_recognised() {
    let mut config = Config::default();
    assert_eq!(config.save_dir_below_home(), Some("Pictures/Screenshots"));
    config.save_dir = "/srv/shots".to_string();
    assert_eq!(config.save_dir_below_home(), None);
    config.save_dir = "~".to_string();
    assert_eq!(config.save_dir_below_home(), None);
    config.save_dir = "~/".to_string();
    assert_eq!(config.save_dir_below_home(), Some(""));
    config.save_dir = "~/\u{e9}t\u{e9}".to_string();
    assert_eq!(config.save_dir_below_home(), Some("\u{e9}t\u{e9}"));
}

#[test]
fn uri_becomes_a_path() {
    assert_eq!(path_of_uri("file:///tmp/a%20b.png"), "/tmp/a b.png");
    assert_eq!(path_of_uri("/tmp/a%20b.png"), "/tmp/a b.png");
    assert_eq!(path_of_uri("file://"), "");
    assert_eq!(path_of_uri("file:/x"), "file:/x");
    assert_eq!(path_of_uri("FILE:///x"), "FILE:///x");
}

#[test]
fn selection_needs_more_than_five_pixels() {
    let mut state = SelectionState::new();
    assert_eq!(state.finish(50, 50), None);
    state.begin(10, 10);
    assert_eq!(state.start, Some((10, 10)));
    assert_eq!(state.current, Some((10, 10)));
    state.update(12, 30);
    assert_eq!(state.current, Some((12, 30)));
    assert_eq!(state.finish(15, 30), None);
    assert_eq!(state.finish(30, 15), None);
    assert_eq!(state.result, None);
    assert_eq!(state.finish(16, 16), Some((10, 10, 6, 6)));
    assert_eq!(state.result, Some((10, 10, 6, 6)));
    // A later drag that is too small keeps the earlier result.
    assert_eq!(state.finish(10, 10), None);
    assert_eq!(state.result, Some((10, 10, 6, 6)));
}

#[test]
fn selection_is_normalised() {
    let mut state = SelectionState::new();
    state.begin(40, 7);
    assert_eq!(state.finish(-10, 90), Some((-10, 7, 50, 83)));
    state.begin(i32::MIN, 0);
    assert_eq!(state.finish(i32::MAX, 10), Some((i32::MIN, 0, i32::MAX, 10)));
}

#[test]
fn outline_needs_an_area() {
    let mut state = SelectionState::new();
    assert_eq!(state.outline(), None);
    state.begin(4, 4);
    assert_eq!(state.outline(), None);
    state.update(9, 4);
    assert_eq!(state.outline(), None);
    state.update(3, 6);
    assert_eq!(state.outline(), Some((3, 4, 1, 2)));
}

#[test]
fn label_goes_above_where_there_is_room() {
    assert_eq!(label_baseline(21, 100), 16);
    assert_eq!(label_baseline(20, 100), 135);
    assert_eq!(label_baseline(0, 30), 45);
    assert_eq!(label_baseline(i32::MAX, i32::MAX), i32::MAX as i64 - 5);
    assert_eq!(label_baseline(-5, i32::MAX), i32::MAX as i64 + 10);
}

#[test]
fn icon_is_a_camera() {
    let data = generate_icon();
    assert_eq!(ICON_SIZE, 48);
    assert_eq!(data.len(), 48 * 48 * 4);
    let pixel = |x: usize, y: usize| {
        let at = (y * 48 + x) * 4;
        (data[at], data[at + 1], data[at + 2], data[at + 3])
    };
    // Centre of the lens, then its rings outwards.
    assert_eq!(pixel(24, 29), (255, 255, 255, 255));
    assert_eq!(pixel(26, 29), (255, 255, 255, 255));
    assert_eq!(pixel(27, 29), (255, 107, 181, 255));
    assert_eq!(pixel(28, 29), (255, 107, 181, 255));
    assert_eq!(pixel(29, 29), (255, 44, 90, 110));
    assert_eq!(pixel(31, 29), (255, 44, 90, 110));
    assert_eq!(pixel(32, 29), (255, 26, 61, 110));
    assert_eq!(pixel(33, 29), (255, 26, 61, 110));
    assert_eq!(pixel(34, 29), (255, 74, 144, 217));
    // Body, viewfinder and the empty corners.
    assert_eq!(pixel(5, 14), (255, 74, 144, 217));
    assert_eq!(pixel(42, 41), (255, 74, 144, 217));
    assert_eq!(pixel(14, 8), (255, 74, 144, 217));
    assert_eq!(pixel(33, 8), (255, 74, 144, 217));
    assert_eq!(pixel(13, 8), (0, 0, 0, 0));
    assert_eq!(pixel(4, 14), (0, 0, 0, 0));
    assert_eq!(pixel(43, 41), (0, 0, 0, 0));
    assert_eq!(pixel(0, 0), (0, 0, 0, 0));
    assert_eq!(pixel(47, 47), (0, 0, 0, 0));
}
