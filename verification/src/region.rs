//! Cutting a rectangle out of a raster buffer.

use vstd::prelude::*;
use crate::raster::RasterBuffer;
use crate::raster::{lemma_offset_in_range, lemma_row_col, wide_product, zeroed};

verus! {

/// Byte `i` of the cut-out of `width` pixels per row whose top left pixel
/// is pixel `(x, y)` of `source`: the source's byte where the pixel lies
/// inside `source`, zero elsewhere.
pub open spec fn cropped_byte(source: RasterBuffer, x: int, y: int, width: int, i: int) -> u8 {
    let row = i / (4 * width);
    let col = i % (4 * width);
    let sx = x + col / 4;
    let sy = y + row;
    if 0 <= sx < source.width && 0 <= sy < source.height {
        source.channel(sx, sy, col % 4)
    } else {
        0
    }
}

/// The data of the cut-out of `width` by `height` pixels at `(x, y)`,
/// without padding.
pub open spec fn cropped(source: RasterBuffer, x: int, y: int, width: int, height: int) -> Seq<
    u8,
> {
    Seq::new((4 * width * height) as nat, |i: int| cropped_byte(source, x, y, width, i))
}

/// A new buffer of `width` by `height` pixels that holds the rectangle of
/// `source` at `(x, y)`; pixels that lie outside `source` are zero. `None`
/// when an extent is negative, the buffer would be too large, or `source`
/// is not well formed.
pub fn crop_surface(source: &RasterBuffer, x: i32, y: i32, width: i32, height: i32) -> (result:
    Option<RasterBuffer>)
    ensures
        result is Some <==> source.well_formed() && 0 <= width && 0 <= height && 4 * width
            <= usize::MAX && 4 * width * height <= usize::MAX,
        result matches Some(region) ==> {
            &&& region.well_formed()
            &&& region.width == width
            &&& region.height == height
            &&& region.stride == 4 * width
            &&& region.data@ == cropped(*source, x as int, y as int, width as int, height as int)
        },
{
    if !source.is_well_formed() || width < 0 || height < 0 || width as usize > usize::MAX / 4 {
        return None;
    }
    let w: usize = width as usize;
    let h: usize = height as usize;
    let total: u128 = wide_product(w, h);
    if total > (usize::MAX / 4) as u128 {
        assert(4 * width * height > usize::MAX) by (nonlinear_arith)
            requires
                total == width * height,
                total > usize::MAX / 4,
        ;
        return None;
    }
    assert(4 * width * height <= usize::MAX && 4 * width * height == 4 * w * h && 4 * w * h == (4
        * w) * h) by (nonlinear_arith)
        requires
            total == width * height,
            total <= usize::MAX / 4,
            w == width,
            h == height,
    ;
    if h == 0 || w == 0 {
        assert(4 * w * h == 0) by (nonlinear_arith)
            requires
                h == 0 || w == 0,
        ;
        assert(4 * w <= usize::MAX);
        let region = RasterBuffer { width: w, height: h, stride: 4 * w, data: Vec::new() };
        assert((4 * w) * h == 0) by (nonlinear_arith)
            requires
                h == 0 || w == 0,
        ;
        assert(region.data@ =~= cropped(
            *source,
            x as int,
            y as int,
            width as int,
            height as int,
        ));
        return Some(region);
    }
    assert(4 * w <= 4 * w * h) by (nonlinear_arith)
        requires
            0 < h,
            0 <= w,
    ;
    let stride: usize = 4 * w;
    let len: usize = (total as usize) * 4;
    assert(len == stride * h) by (nonlinear_arith)
        requires
            len == 4 * total,
            total == w * h,
            stride == 4 * w,
    ;
    let mut data = zeroed(len);
    let mut row: usize = 0;
    while row < h
        invariant
            source.well_formed(),
            row <= h,
            0 < w,
            w == width,
            h == height,
            stride == 4 * w,
            len == stride * h,
            data@.len() == len,
            forall|i: int|
                0 <= i < len ==> #[trigger] data@[i] == if i / (stride as int) < row {
                    cropped_byte(*source, x as int, y as int, width as int, i)
                } else {
                    0
                },
        decreases h - row,
    {
        proof {
            lemma_offset_in_range(stride as int, h as int, row as int, 0);
        }
        let row_start: usize = row * stride;
        let sy: i64 = y as i64 + row as i64;
        let mut col: usize = 0;
        while col < stride
            invariant
                source.well_formed(),
                row < h,
                0 < w,
                w == width,
                h == height,
                stride == 4 * w,
                col <= stride,
                row_start == row * stride,
                row_start + stride <= len,
                sy == y + row,
                data@.len() == len,
                forall|i: int|
                    0 <= i < len ==> #[trigger] data@[i] == if i / (stride as int) < row || (i / (
                    stride as int) == row && i % (stride as int) < col) {
                        cropped_byte(*source, x as int, y as int, width as int, i)
                    } else {
                        0
                    },
            decreases stride - col,
        {
            let sx: i64 = x as i64 + (col / 4) as i64;
            let value: u8 = if 0 <= sx && sx < source.width as i64 && 0 <= sy && sy
                < source.height as i64 {
                source.get(sx as usize, sy as usize, col % 4)
            } else {
                0
            };
            let offset: usize = row_start + col;
            let ghost prior = data@;
            data.set(offset, value);
            proof {
                lemma_row_col(stride as int, row as int, col as int);
                assert forall|i: int| 0 <= i < len implies #[trigger] data@[i] == if i / (
                stride as int) < row || (i / (stride as int) == row && i % (stride as int) < col
                    + 1) {
                    cropped_byte(*source, x as int, y as int, width as int, i)
                } else {
                    0
                } by {
                    vstd::arithmetic::div_mod::lemma_fundamental_div_mod(i, stride as int);
                    assert((stride as int) * (i / (stride as int)) == (i / (stride as int)) * (
                    stride as int)) by (nonlinear_arith);
                    if i != offset {
                        assert(data@[i] == prior[i]);
                    }
                }
            }
            col = col + 1;
        }
        row = row + 1;
    }
    proof {
        assert forall|i: int| 0 <= i < len implies #[trigger] data@[i] == cropped_byte(
            *source,
            x as int,
            y as int,
            width as int,
            i,
        ) by {
            crate::raster::lemma_split_offset(stride as int, h as int, i);
        }
        assert(data@ =~= cropped(*source, x as int, y as int, width as int, height as int));
    }
    Some(RasterBuffer { width: w, height: h, stride, data })
}

/// The part of `source` that a monitor at `(monitor_x, monitor_y)` of the
/// given size shows.
pub fn crop_for_monitor(
    source: &RasterBuffer,
    monitor_x: i32,
    monitor_y: i32,
    monitor_width: i32,
    monitor_height: i32,
) -> (result: Option<RasterBuffer>)
    ensures
        result is Some <==> source.well_formed() && 0 <= monitor_width && 0 <= monitor_height
            && 4 * monitor_width <= usize::MAX && 4 * monitor_width * monitor_height
            <= usize::MAX,
        result matches Some(region) ==> {
            &&& region.well_formed()
            &&& region.width == monitor_width
            &&& region.height == monitor_height
            &&& region.stride == 4 * monitor_width
            &&& region.data@ == cropped(
                *source,
                monitor_x as int,
                monitor_y as int,
                monitor_width as int,
                monitor_height as int,
            )
        },
{
    crop_surface(source, monitor_x, monitor_y, monitor_width, monitor_height)
}

} // verus!
