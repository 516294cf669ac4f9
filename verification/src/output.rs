//! Pixel data in the byte orders that clipboards and encoders take.
//!
//! A raster buffer stores a pixel as blue, green, red, alpha. The
//! functions here give the pixels row by row, without padding, as red,
//! green, blue, alpha or as red, green, blue.

use vstd::prelude::*;
use crate::raster::RasterBuffer;
use crate::raster::lemma_row_col;

verus! {

/// Byte `i` of the pixels of `buffer` as `channels` bytes per pixel in the
/// order red, green, blue and, with four channels, alpha.
pub open spec fn reordered_byte(buffer: RasterBuffer, channels: int, i: int) -> u8 {
    let pixel = i / channels;
    let c = i % channels;
    let source = if c == 3 {
        3
    } else {
        2 - c
    };
    buffer.channel(pixel % (buffer.width as int), pixel / (buffer.width as int), source)
}

/// The pixels of `buffer` as `channels` bytes per pixel.
pub open spec fn reordered(buffer: RasterBuffer, channels: int) -> Seq<u8> {
    Seq::new(
        (channels * (buffer.width * buffer.height)) as nat,
        |i: int| reordered_byte(buffer, channels, i),
    )
}

/// The pixels of `buffer`, with `channels` (3 or 4) bytes each.
fn reorder(buffer: &RasterBuffer, channels: usize) -> (bytes: Vec<u8>)
    requires
        buffer.well_formed(),
        channels == 3 || channels == 4,
    ensures
        bytes@ == reordered(*buffer, channels as int),
{
    let width: usize = buffer.width;
    let height: usize = buffer.height;
    let mut bytes: Vec<u8> = Vec::new();
    let mut y: usize = 0;
    while y < height
        invariant
            buffer.well_formed(),
            channels == 3 || channels == 4,
            width == buffer.width,
            height == buffer.height,
            y <= height,
            bytes@.len() == channels * (y * width),
            forall|i: int|
                0 <= i < bytes@.len() ==> #[trigger] bytes@[i] == reordered_byte(
                    *buffer,
                    channels as int,
                    i,
                ),
        decreases height - y,
    {
        let mut x: usize = 0;
        while x < width
            invariant
                buffer.well_formed(),
                channels == 3 || channels == 4,
                width == buffer.width,
                height == buffer.height,
                y < height,
                x <= width,
                bytes@.len() == channels * (y * width + x),
                forall|i: int|
                    0 <= i < bytes@.len() ==> #[trigger] bytes@[i] == reordered_byte(
                        *buffer,
                        channels as int,
                        i,
                    ),
            decreases width - x,
        {
            let ghost before = bytes@;
            let ghost pixel: int = y * width + x;
            proof {
                lemma_row_col(width as int, y as int, x as int);
            }
            bytes.push(buffer.get(x, y, 2));
            bytes.push(buffer.get(x, y, 1));
            bytes.push(buffer.get(x, y, 0));
            if channels == 4 {
                bytes.push(buffer.get(x, y, 3));
            }
            proof {
                assert(channels * (pixel + 1) == channels * pixel + channels)
                    by (nonlinear_arith);
                assert forall|i: int| 0 <= i < bytes@.len() implies #[trigger] bytes@[i]
                    == reordered_byte(*buffer, channels as int, i) by {
                    if i >= before.len() {
                        let c = i - channels * pixel;
                        assert(0 <= c < channels);
                        vstd::arithmetic::div_mod::lemma_fundamental_div_mod_converse(
                            i,
                            channels as int,
                            pixel,
                            c,
                        );
                        assert(pixel * channels == channels * pixel) by (nonlinear_arith);
                    } else {
                        assert(bytes@[i] == before[i]);
                    }
                }
            }
            x = x + 1;
        }
        proof {
            assert(y * width + width == (y + 1) * width) by (nonlinear_arith);
        }
        y = y + 1;
    }
    proof {
        assert(height * width == width * height) by (nonlinear_arith);
        assert(bytes@ =~= reordered(*buffer, channels as int));
    }
    bytes
}

/// The pixels of `buffer` as red, green, blue, alpha.
pub fn to_rgba(buffer: &RasterBuffer) -> (bytes: Vec<u8>)
    requires
        buffer.well_formed(),
    ensures
        bytes@ == reordered(*buffer, 4),
{
    reorder(buffer, 4)
}

/// The pixels of `buffer` as red, green, blue; the alpha is dropped.
pub fn to_rgb(buffer: &RasterBuffer) -> (bytes: Vec<u8>)
    requires
        buffer.well_formed(),
    ensures
        bytes@ == reordered(*buffer, 3),
{
    reorder(buffer, 3)
}

} // verus!
