use razorshot::blur::{pixelate_region, pixelate_region_copy};
use razorshot::raster::RasterBuffer;
use razorshot::region::{crop_for_monitor, crop_surface};

/// A buffer without padding in which every channel of pixel `(x, y)` is
/// `value(x, y)`.
fn gray(width: usize, height: usize, value: fn(usize, usize) -> u8) -> RasterBuffer {
    let mut data = Vec::new();
    for y in 0..height {
        for x in 0..width {
            for _ in 0..4 {
                data.push(value(x, y));
            }
        }
    }
    RasterBuffer::from_raw(width, height, 4 * width, data).unwrap()
}

fn checker(x: usize, y: usize) -> u8 {
    if (x + y) % 2 == 0 {
        0
    } else {
        255
    }
}

fn columns(x: usize, _y: usize) -> u8 {
    [0, 100, 200, 40][x]
}

fn ramp(x: usize, y: usize) -> u8 {
    (10 * (3 * y + x) + 1) as u8
}

#[test]
fn checkerboard_blurs_to_127() {
    let mut buffer = gray(4, 4, checker);
    pixelate_region(&mut buffer, 0, 0, 4, 4, 4);
    assert_eq!(buffer.data.len(), 64);
    for byte in &buffer.data {
        assert_eq!(*byte, 127);
    }
}

#[test]
fn uniform_block_is_unchanged() {
    let mut buffer = gray(6, 6, |_, _| 93);
    let before = buffer.clone();
    pixelate_region(&mut buffer, 0, 0, 6, 6, 3);
    assert_eq!(buffer, before);
    pixelate_region(&mut buffer, 1, 2, 4, 3, 7);
    assert_eq!(buffer, before);
}

#[test]
fn channels_are_averaged_separately() {
    // Two pixels side by side, in one block.
    let data = vec![10, 20, 30, 40, 20, 41, 61, 81, 1, 2, 3, 4, 5, 6, 7, 8];
    let mut buffer = RasterBuffer::from_raw(2, 2, 8, data).unwrap();
    pixelate_region(&mut buffer, 0, 0, 2, 1, 2);
    assert_eq!(buffer.data, vec![15, 30, 45, 60, 15, 30, 45, 60, 1, 2, 3, 4, 5, 6, 7, 8]);
}

#[test]
fn edge_blocks_divide_by_their_own_size() {
    // 3 x 3 pixels, blocks of 2: one full block, two cut blocks of two
    // pixels and one of a single pixel.
    let mut buffer = gray(3, 3, ramp);
    pixelate_region(&mut buffer, 0, 0, 3, 3, 2);
    // Full block: (1 + 11 + 31 + 41) / 4 = 21.
    assert_eq!(buffer.get(0, 0, 0), 21);
    assert_eq!(buffer.get(1, 1, 3), 21);
    // Right edge, 1 x 2 pixels: (21 + 51) / 2 = 36, not 72 / 4.
    assert_eq!(buffer.get(2, 0, 1), 36);
    assert_eq!(buffer.get(2, 1, 1), 36);
    // Bottom edge, 2 x 1 pixels: (61 + 71) / 2 = 66.
    assert_eq!(buffer.get(0, 2, 2), 66);
    assert_eq!(buffer.get(1, 2, 2), 66);
    // Corner, a single pixel: itself.
    assert_eq!(buffer.get(2, 2, 0), 81);
}

#[test]
fn mean_is_truncated() {
    let mut buffer = gray(2, 1, |x, _| if x == 0 { 2 } else { 5 });
    pixelate_region(&mut buffer, 0, 0, 2, 1, 2);
    assert_eq!(buffer.data, vec![3; 8]);
}

#[test]
fn region_is_clamped_to_the_image() {
    let mut buffer = gray(4, 1, columns);
    pixelate_region(&mut buffer, -3, -5, 5, 9, 8);
    // Only the pixels 0 and 1 lie in the rectangle: (0 + 100) / 2.
    assert_eq!(buffer.get(0, 0, 0), 50);
    assert_eq!(buffer.get(1, 0, 0), 50);
    assert_eq!(buffer.get(2, 0, 0), 200);
    assert_eq!(buffer.get(3, 0, 0), 40);
    pixelate_region(&mut buffer, 2, 0, i32::MAX, i32::MAX, u32::MAX);
    assert_eq!(buffer.get(1, 0, 0), 50);
    assert_eq!(buffer.get(2, 0, 0), 120);
    assert_eq!(buffer.get(3, 0, 0), 120);
}

#[test]
fn empty_region_changes_nothing() {
    let mut buffer = gray(4, 4, checker);
    let before = buffer.clone();
    pixelate_region(&mut buffer, 0, 0, 0, 4, 2);
    pixelate_region(&mut buffer, 0, 0, 4, -1, 2);
    pixelate_region(&mut buffer, 4, 0, 4, 4, 2);
    pixelate_region(&mut buffer, -4, -4, 4, 4, 2);
    pixelate_region(&mut buffer, i32::MIN, 0, i32::MIN, 4, 2);
    assert_eq!(buffer, before);
}

#[test]
fn blocks_start_at_the_clamped_origin() {
    let mut buffer = gray(4, 1, columns);
    pixelate_region(&mut buffer, 1, 0, 3, 1, 2);
    // Blocks: pixels 1 and 2, then pixel 3 alone.
    assert_eq!(buffer.get(0, 0, 0), 0);
    assert_eq!(buffer.get(1, 0, 0), 150);
    assert_eq!(buffer.get(2, 0, 0), 150);
    assert_eq!(buffer.get(3, 0, 0), 40);
}

#[test]
fn block_size_below_two_counts_as_two() {
    let mut zero = gray(4, 1, columns);
    let mut one = gray(4, 1, columns);
    let mut two = gray(4, 1, columns);
    pixelate_region(&mut zero, 0, 0, 4, 1, 0);
    pixelate_region(&mut one, 0, 0, 4, 1, 1);
    pixelate_region(&mut two, 0, 0, 4, 1, 2);
    assert_eq!(zero, two);
    assert_eq!(one, two);
    assert_eq!(two.get(0, 0, 0), 50);
    assert_eq!(two.get(2, 0, 0), 120);
}

#[test]
fn padding_is_left_alone() {
    let mut data = Vec::new();
    for row in 0..2u8 {
        data.extend_from_slice(&[10, 10, 10, 10, 30, 30, 30, 30]);
        data.extend_from_slice(&[200 + row, 201, 202]);
    }
    let mut buffer = RasterBuffer::from_raw(2, 2, 11, data).unwrap();
    pixelate_region(&mut buffer, 0, 0, 2, 2, 2);
    assert_eq!(&buffer.data[0..8], &[20; 8]);
    assert_eq!(&buffer.data[8..11], &[200, 201, 202]);
    assert_eq!(&buffer.data[11..19], &[20; 8]);
    assert_eq!(&buffer.data[19..22], &[201, 201, 202]);
}

#[test]
fn copy_leaves_the_source_alone() {
    let source = gray(4, 1, columns);
    let before = source.clone();
    let patch = pixelate_region_copy(&source, 1, 0, 2, 1, 2).unwrap();
    assert_eq!(source, before);
    assert_eq!(patch.width, 2);
    assert_eq!(patch.height, 1);
    assert_eq!(patch.stride, 8);
    assert_eq!(patch.data, vec![150; 8]);
}

#[test]
fn copy_has_the_requested_size_and_zero_outside() {
    let source = gray(2, 2, |_, _| 80);
    // The rectangle reaches one pixel beyond the image on every side.
    let patch = pixelate_region_copy(&source, -1, -1, 4, 4, 4).unwrap();
    assert_eq!((patch.width, patch.height, patch.stride), (4, 4, 16));
    // Four pixels of 80 among sixteen: 320 / 16.
    assert_eq!(patch.data, vec![20; 64]);
}

#[test]
fn copy_of_nothing_is_none() {
    let source = gray(2, 2, checker);
    assert!(pixelate_region_copy(&source, 0, 0, 0, 2, 2).is_none());
    assert!(pixelate_region_copy(&source, 0, 0, 2, 0, 2).is_none());
    assert!(pixelate_region_copy(&source, 0, 0, -2, 2, 2).is_none());
    assert!(pixelate_region_copy(&source, 0, 0, 1, 1, 2).is_some());
}

#[test]
fn crop_cuts_out_the_rectangle() {
    let source = gray(3, 3, ramp);
    let region = crop_surface(&source, 1, 1, 2, 2).unwrap();
    assert_eq!((region.width, region.height, region.stride), (2, 2, 8));
    assert_eq!(region.get(0, 0, 0), 41);
    assert_eq!(region.get(1, 0, 1), 51);
    assert_eq!(region.get(0, 1, 2), 71);
    assert_eq!(region.get(1, 1, 3), 81);
    assert_eq!(crop_for_monitor(&source, 1, 1, 2, 2), Some(region));
}

#[test]
fn crop_beyond_the_image_is_zero() {
    let source = gray(2, 1, |_, _| 9);
    let region = crop_surface(&source, 1, -1, 2, 2).unwrap();
    assert_eq!(region.data, vec![0, 0, 0, 0, 0, 0, 0, 0, 9, 9, 9, 9, 0, 0, 0, 0]);
    assert!(crop_surface(&source, 0, 0, -1, 1).is_none());
    let empty = crop_surface(&source, 0, 0, 0, 5).unwrap();
    assert_eq!((empty.width, empty.height, empty.data.len()), (0, 5, 0));
}

#[test]
fn buffers_are_checked_when_wrapped() {
    assert!(RasterBuffer::from_raw(2, 2, 8, vec![0; 16]).is_some());
    assert!(RasterBuffer::from_raw(2, 2, 9, vec![0; 18]).is_some());
    assert!(RasterBuffer::from_raw(2, 2, 7, vec![0; 14]).is_none());
    assert!(RasterBuffer::from_raw(2, 2, 8, vec![0; 15]).is_none());
    let fresh = RasterBuffer::new(3, 2).unwrap();
    assert_eq!((fresh.width, fresh.height, fresh.stride), (3, 2, 12));
    assert_eq!(fresh.data, vec![0; 24]);
    assert!(fresh.is_well_formed());
    assert!(RasterBuffer::new(0x8000_0000, 1).is_none());
    let broken = RasterBuffer { width: 2, height: 2, stride: 4, data: vec![0; 8] };
    assert!(!broken.is_well_formed());
}

#[test]
fn malformed_buffers_are_left_alone() {
    let mut broken = RasterBuffer { width: 2, height: 2, stride: 4, data: vec![7; 8] };
    let before = broken.clone();
    pixelate_region(&mut broken, 0, 0, 2, 2, 2);
    assert_eq!(broken, before);
    assert!(pixelate_region_copy(&broken, 0, 0, 1, 1, 2).is_none());
    assert!(crop_surface(&broken, 0, 0, 1, 1).is_none());
    assert!(crop_for_monitor(&broken, 0, 0, 1, 1).is_none());
    let mut short = RasterBuffer { width: 2, height: 2, stride: 8, data: vec![7; 15] };
    pixelate_region(&mut short, 0, 0, 2, 2, 2);
    assert_eq!(short.data, vec![7; 15]);
}
