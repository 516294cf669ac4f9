//! Block-average pixelation of a rectangle of a raster buffer.
//!
//! The rectangle is clamped to the buffer and cut into square blocks that
//! start at its clamped origin; blocks at the right and bottom edge may be
//! smaller. Within a block every pixel gets, channel by channel, the
//! truncated mean of the block.

use vstd::prelude::*;
use crate::raster::RasterBuffer;
use crate::raster::{lemma_row_col, wide_product};
use crate::region::{crop_surface, cropped};

verus! {

/// Smallest block edge; smaller requests are raised to it.
pub const MIN_BLOCK_SIZE: u32 = 2;

/// The block edge used for a requested `block_size`.
pub open spec fn effective_block(block_size: u32) -> int {
    if block_size < MIN_BLOCK_SIZE {
        MIN_BLOCK_SIZE as int
    } else {
        block_size as int
    }
}

/// Lower edge of a clamped span that was asked to start at `p`.
pub open spec fn clamp_low(p: int) -> int {
    if p < 0 {
        0
    } else {
        p
    }
}

/// Upper edge of a clamped span asked to start at `p` and run for `extent`,
/// in an image of `limit` pixels.
pub open spec fn clamp_high(p: int, extent: int, limit: int) -> int {
    if p + extent < limit {
        p + extent
    } else {
        limit
    }
}

/// Start of the block that holds position `p`, for blocks of edge `block`
/// laid out from `origin`.
pub open spec fn block_start(origin: int, block: int, p: int) -> int {
    origin + ((p - origin) / block) * block
}

/// Edge of the block that starts at `start`, cut off at `limit`.
pub open spec fn block_extent(start: int, limit: int, block: int) -> int {
    if block < limit - start {
        block
    } else {
        limit - start
    }
}

/// Sum of the `n` bytes `data[start]`, `data[start + 4]`, ...: one channel
/// of `n` neighbouring pixels of a row.
pub open spec fn channel_sum_row(data: Seq<u8>, start: int, n: int) -> int
    decreases n,
{
    if n <= 0 {
        0
    } else {
        channel_sum_row(data, start, n - 1) + data[start + 4 * (n - 1)]
    }
}

/// Sum of one channel over a block of `bw` by `bh` pixels whose first byte
/// of that channel is `data[start]`.
pub open spec fn channel_sum_block(data: Seq<u8>, stride: int, start: int, bw: int, bh: int) -> int
    decreases bh,
{
    if bh <= 0 {
        0
    } else {
        channel_sum_block(data, stride, start, bw, bh - 1) + channel_sum_row(
            data,
            start + (bh - 1) * stride,
            bw,
        )
    }
}

/// Truncated mean of channel `c` over the block of `bw` by `bh` pixels at
/// pixel `(bx, by)`: the sum is divided by `bw * bh`, the number of pixels
/// the block really has.
pub open spec fn block_average(
    data: Seq<u8>,
    stride: int,
    bx: int,
    by: int,
    bw: int,
    bh: int,
    c: int,
) -> u8 {
    (channel_sum_block(data, stride, by * stride + 4 * bx + c, bw, bh) / (bw * bh)) as u8
}

/// Whether byte `i` belongs to a pixel of the block of `bw` by `bh` pixels
/// at pixel `(bx, by)`.
pub open spec fn in_block(stride: int, bx: int, by: int, bw: int, bh: int, i: int) -> bool {
    &&& by <= i / stride < by + bh
    &&& 4 * bx <= i % stride < 4 * (bx + bw)
}

/// Byte `i` of the data after the rectangle from `(x0, y0)` up to, not
/// including, `(x1, y1)` was pixelated with blocks of edge `block`.
pub open spec fn blurred_byte(
    data: Seq<u8>,
    stride: int,
    x0: int,
    y0: int,
    x1: int,
    y1: int,
    block: int,
    i: int,
) -> u8 {
    let row = i / stride;
    let col = i % stride;
    let px = col / 4;
    if x0 <= px < x1 && y0 <= row < y1 {
        let bx = block_start(x0, block, px);
        let by = block_start(y0, block, row);
        block_average(
            data,
            stride,
            bx,
            by,
            block_extent(bx, x1, block),
            block_extent(by, y1, block),
            col % 4,
        )
    } else {
        data[i]
    }
}

/// The data of an image of `img_width` by `img_height` pixels after
/// pixelating the rectangle at `(x, y)` of `width` by `height` pixels with
/// the requested `block_size`.
pub open spec fn pixelated_data(
    data: Seq<u8>,
    stride: int,
    img_width: int,
    img_height: int,
    x: int,
    y: int,
    width: int,
    height: int,
    block_size: u32,
) -> Seq<u8> {
    Seq::new(
        data.len(),
        |i: int|
            blurred_byte(
                data,
                stride,
                clamp_low(x),
                clamp_low(y),
                clamp_high(x, width, img_width),
                clamp_high(y, height, img_height),
                effective_block(block_size),
                i,
            ),
    )
}

/// The data of `buffer` after pixelating the rectangle at `(x, y)` of
/// `width` by `height` pixels with the requested `block_size`.
pub open spec fn pixelated(
    buffer: RasterBuffer,
    x: int,
    y: int,
    width: int,
    height: int,
    block_size: u32,
) -> Seq<u8> {
    pixelated_data(
        buffer.data@,
        buffer.stride as int,
        buffer.width as int,
        buffer.height as int,
        x,
        y,
        width,
        height,
        block_size,
    )
}

/// A channel sum over `n` pixels is at most `255 * n`.
proof fn lemma_row_sum_bound(data: Seq<u8>, start: int, n: int)
    requires
        0 <= n,
    ensures
        0 <= channel_sum_row(data, start, n) <= 255 * n,
    decreases n,
{
    if n > 0 {
        lemma_row_sum_bound(data, start, n - 1);
    }
}

/// A channel sum over a block is at most `255` times its pixel count.
proof fn lemma_block_sum_bound(data: Seq<u8>, stride: int, start: int, bw: int, bh: int)
    requires
        0 <= bw,
        0 <= bh,
    ensures
        0 <= channel_sum_block(data, stride, start, bw, bh) <= 255 * (bw * bh),
    decreases bh,
{
    if bh > 0 {
        lemma_block_sum_bound(data, stride, start, bw, bh - 1);
        lemma_row_sum_bound(data, start + (bh - 1) * stride, bw);
        assert(bw * bh == bw * (bh - 1) + bw) by (nonlinear_arith);
    } else {
        assert(bw * bh == 0) by (nonlinear_arith)
            requires
                bh == 0,
        ;
    }
}

/// Two row sums agree when the bytes they read agree.
proof fn lemma_row_sum_agrees(d1: Seq<u8>, d2: Seq<u8>, start: int, n: int)
    requires
        0 <= n,
        forall|j: int|
            start <= j < start + 4 * n && (j - start) % 4 == 0 ==> #[trigger] d1[j] == d2[j],
    ensures
        channel_sum_row(d1, start, n) == channel_sum_row(d2, start, n),
    decreases n,
{
    if n > 0 {
        lemma_row_sum_agrees(d1, d2, start, n - 1);
        assert(d1[start + 4 * (n - 1)] == d2[start + 4 * (n - 1)]);
    }
}

/// Byte offsets of channel `c` of the pixels of a block lie in the block.
proof fn lemma_block_member(
    stride: int,
    bx: int,
    by: int,
    bw: int,
    bh: int,
    c: int,
    r: int,
    j: int,
)
    requires
        0 <= bx,
        0 <= c < 4,
        4 * (bx + bw) <= stride,
        0 <= r < bh,
        by * stride + 4 * bx + c + r * stride <= j < by * stride + 4 * bx + c + r * stride + 4
            * bw,
        (j - (by * stride + 4 * bx + c + r * stride)) % 4 == 0,
    ensures
        in_block(stride, bx, by, bw, bh, j),
        (j % stride) % 4 == c,
{
    let col = j - (by + r) * stride;
    assert((by + r) * stride == by * stride + r * stride) by (nonlinear_arith);
    assert(j == (by + r) * stride + col);
    lemma_row_col(stride, by + r, col);
}

/// Two block averages agree when the data agree on the block.
proof fn lemma_block_average_agrees(
    d1: Seq<u8>,
    d2: Seq<u8>,
    stride: int,
    bx: int,
    by: int,
    bw: int,
    bh: int,
    c: int,
)
    requires
        0 <= bx,
        0 <= bw,
        0 <= bh,
        0 <= c < 4,
        4 * (bx + bw) <= stride,
        forall|j: int| in_block(stride, bx, by, bw, bh, j) ==> #[trigger] d1[j] == d2[j],
    ensures
        channel_sum_block(d1, stride, by * stride + 4 * bx + c, bw, bh) == channel_sum_block(
            d2,
            stride,
            by * stride + 4 * bx + c,
            bw,
            bh,
        ),
        block_average(d1, stride, bx, by, bw, bh, c) == block_average(
            d2,
            stride,
            bx,
            by,
            bw,
            bh,
            c,
        ),
    decreases bh,
{
    if bh > 0 {
        assert forall|j: int| in_block(stride, bx, by, bw, bh - 1, j) implies #[trigger] d1[j]
            == d2[j] by {
            assert(in_block(stride, bx, by, bw, bh, j));
        }
        lemma_block_average_agrees(d1, d2, stride, bx, by, bw, bh - 1, c);
        let start = by * stride + 4 * bx + c;
        let row_start = start + (bh - 1) * stride;
        assert forall|j: int|
            row_start <= j < row_start + 4 * bw && (j - row_start) % 4 == 0 implies #[trigger] d1[j]
            == d2[j] by {
            lemma_block_member(stride, bx, by, bw, bh, c, bh - 1, j);
        }
        lemma_row_sum_agrees(d1, d2, row_start, bw);
    }
}

/// An offset is its row times the stride plus its column.
proof fn lemma_offset_identity(stride: int, i: int)
    requires
        0 < stride,
    ensures
        i == (i / stride) * stride + i % stride,
        0 <= i % stride < stride,
{
    vstd::arithmetic::div_mod::lemma_fundamental_div_mod(i, stride);
    assert(stride * (i / stride) == (i / stride) * stride) by (nonlinear_arith);
    assert(0 <= i % stride < stride) by (nonlinear_arith)
        requires
            0 < stride,
    ;
}

/// A block that lies within `len` bytes of rows has at most `len / 4`
/// pixels, and its rows start inside the data.
proof fn lemma_block_fits(stride: int, bx: int, by: int, bw: int, bh: int, len: int)
    requires
        0 <= bx,
        0 <= by,
        0 < bw,
        0 < bh,
        4 * (bx + bw) <= stride,
        (by + bh) * stride <= len,
    ensures
        4 * (bw * bh) <= len,
        0 < bw * bh,
        by + bh <= len,
        forall|r: int|
            0 <= r < bh ==> 0 <= #[trigger] ((by + r) * stride) && (by + r) * stride + stride
                <= len,
{
    assert(4 * (bw * bh) <= stride * bh && 0 < bw * bh) by (nonlinear_arith)
        requires
            0 < bw,
            0 < bh,
            4 * bw <= stride,
    ;
    assert(stride * bh <= (by + bh) * stride && by + bh <= (by + bh) * stride)
        by (nonlinear_arith)
        requires
            0 <= by,
            0 < bh,
            0 < stride,
    ;
    assert forall|r: int| 0 <= r < bh implies 0 <= #[trigger] ((by + r) * stride) && (by + r)
        * stride + stride <= len by {
        assert(0 <= (by + r) * stride && (by + r) * stride + stride <= (by + bh) * stride)
            by (nonlinear_arith)
            requires
                0 <= by,
                0 <= r < bh,
                0 < stride,
        ;
    }
}

/// Sums channel `c` over the block of `bw` by `bh` pixels at `(bx, by)`.
fn block_channel_sum(
    data: &Vec<u8>,
    stride: usize,
    bx: usize,
    by: usize,
    bw: usize,
    bh: usize,
    c: usize,
) -> (sum: u128)
    requires
        0 < bw,
        0 < bh,
        c < 4,
        4 * (bx + bw) <= stride,
        (by + bh) * stride <= data@.len(),
    ensures
        sum == channel_sum_block(
            data@,
            stride as int,
            by * stride + 4 * bx + c,
            bw as int,
            bh as int,
        ),
{
    let len = data.len();
    let ghost start: int = by * stride + 4 * bx + c;
    proof {
        lemma_block_fits(stride as int, bx as int, by as int, bw as int, bh as int, len as int);
    }
    let mut sum: u128 = 0;
    let mut r: usize = 0;
    while r < bh
        invariant
            r <= bh,
            0 < bw,
            c < 4,
            4 * (bx + bw) <= stride,
            (by + bh) * stride <= len,
            len == data@.len(),
            by + bh <= len,
            4 * (bw * bh) <= len,
            forall|q: int|
                0 <= q < bh ==> 0 <= #[trigger] ((by + q) * stride) && (by + q) * stride + stride
                    <= len,
            start == by * stride + 4 * bx + c,
            sum == channel_sum_block(data@, stride as int, start, bw as int, r as int),
        decreases bh - r,
    {
        assert(0 <= (by + r) * stride && (by + r) * stride + stride <= len);
        let row_start: usize = (by + r) * stride + 4 * bx + c;
        assert(row_start == start + r * stride) by (nonlinear_arith)
            requires
                row_start == (by + r) * stride + 4 * bx + c,
                start == by * stride + 4 * bx + c,
        ;
        let mut row_sum: u128 = 0;
        let mut k: usize = 0;
        while k < bw
            invariant
                k <= bw,
                row_start + 4 * bw <= len + 3,
                len == data@.len(),
                row_sum == channel_sum_row(data@, row_start as int, k as int),
                row_sum <= 255 * k,
            decreases bw - k,
        {
            proof {
                lemma_row_sum_bound(data@, row_start as int, k as int + 1);
            }
            row_sum = row_sum + data[row_start + 4 * k] as u128;
            k = k + 1;
        }
        proof {
            lemma_block_sum_bound(data@, stride as int, start, bw as int, r as int + 1);
            assert(bw * (r + 1) <= bw * bh) by (nonlinear_arith)
                requires
                    r < bh,
                    0 < bw,
            ;
        }
        sum = sum + row_sum;
        r = r + 1;
    }
    sum
}

/// The value for channel `c` among four.
pub open spec fn pick(a0: u8, a1: u8, a2: u8, a3: u8, c: int) -> u8 {
    if c == 0 {
        a0
    } else if c == 1 {
        a1
    } else if c == 2 {
        a2
    } else {
        a3
    }
}

/// Writes one value per channel to every pixel of the block of `bw` by `bh`
/// pixels at `(bx, by)`.
fn fill_block(
    data: &mut Vec<u8>,
    stride: usize,
    bx: usize,
    by: usize,
    bw: usize,
    bh: usize,
    a0: u8,
    a1: u8,
    a2: u8,
    a3: u8,
)
    requires
        0 < bw,
        0 < bh,
        4 * (bx + bw) <= stride,
        (by + bh) * stride <= old(data)@.len(),
    ensures
        final(data)@.len() == old(data)@.len(),
        forall|i: int|
            0 <= i < old(data)@.len() ==> #[trigger] final(data)@[i] == if in_block(
                stride as int,
                bx as int,
                by as int,
                bw as int,
                bh as int,
                i,
            ) {
                pick(a0, a1, a2, a3, (i % (stride as int)) % 4)
            } else {
                old(data)@[i]
            },
{
    let len = data.len();
    let ghost before = data@;
    proof {
        lemma_block_fits(stride as int, bx as int, by as int, bw as int, bh as int, len as int);
    }
    let first: usize = 4 * bx;
    let end: usize = 4 * (bx + bw);
    let mut r: usize = 0;
    while r < bh
        invariant
            r <= bh,
            0 < bw,
            first == 4 * bx,
            end == 4 * (bx + bw),
            end <= stride,
            len == before.len(),
            data@.len() == len,
            by + bh <= len,
            forall|q: int|
                0 <= q < bh ==> 0 <= #[trigger] ((by + q) * stride) && (by + q) * stride + stride
                    <= len,
            forall|i: int|
                0 <= i < len ==> #[trigger] data@[i] == if in_block(
                    stride as int,
                    bx as int,
                    by as int,
                    bw as int,
                    r as int,
                    i,
                ) {
                    pick(a0, a1, a2, a3, (i % (stride as int)) % 4)
                } else {
                    before[i]
                },
        decreases bh - r,
    {
        assert(0 <= (by + r) * stride && (by + r) * stride + stride <= len);
        let row: usize = by + r;
        let row_start: usize = row * stride;
        let mut col: usize = first;
        while col < end
            invariant
                first <= col <= end,
                first == 4 * bx,
                end == 4 * (bx + bw),
                end <= stride,
                r < bh,
                row == by + r,
                row_start == row * stride,
                row_start + stride <= len,
                data@.len() == len,
                len == before.len(),
                forall|i: int|
                    0 <= i < len ==> #[trigger] data@[i] == if in_block(
                        stride as int,
                        bx as int,
                        by as int,
                        bw as int,
                        r as int,
                        i,
                    ) || (i / (stride as int) == row && first <= i % (stride as int) < col) {
                        pick(a0, a1, a2, a3, (i % (stride as int)) % 4)
                    } else {
                        before[i]
                    },
            decreases end - col,
        {
            let c: usize = col % 4;
            let value: u8 = if c == 0 {
                a0
            } else if c == 1 {
                a1
            } else if c == 2 {
                a2
            } else {
                a3
            };
            let offset: usize = row_start + col;
            let ghost prior = data@;
            data.set(offset, value);
            proof {
                lemma_row_col(stride as int, row as int, col as int);
                assert forall|i: int| 0 <= i < len implies #[trigger] data@[i] == if in_block(
                    stride as int,
                    bx as int,
                    by as int,
                    bw as int,
                    r as int,
                    i,
                ) || (i / (stride as int) == row && first <= i % (stride as int) < col + 1) {
                    pick(a0, a1, a2, a3, (i % (stride as int)) % 4)
                } else {
                    before[i]
                } by {
                    lemma_offset_identity(stride as int, i);
                    if i != offset {
                        assert(data@[i] == prior[i]);
                    }
                }
            }
            col = col + 1;
        }
        r = r + 1;
    }
}

/// Replaces every pixel of the block of `bw` by `bh` pixels at `(bx, by)`
/// by the block's truncated mean, channel by channel.
fn average_block(data: &mut Vec<u8>, stride: usize, bx: usize, by: usize, bw: usize, bh: usize)
    requires
        0 < bw,
        0 < bh,
        4 * (bx + bw) <= stride,
        (by + bh) * stride <= old(data)@.len(),
    ensures
        final(data)@.len() == old(data)@.len(),
        forall|i: int|
            0 <= i < old(data)@.len() ==> #[trigger] final(data)@[i] == if in_block(
                stride as int,
                bx as int,
                by as int,
                bw as int,
                bh as int,
                i,
            ) {
                block_average(
                    old(data)@,
                    stride as int,
                    bx as int,
                    by as int,
                    bw as int,
                    bh as int,
                    (i % (stride as int)) % 4,
                )
            } else {
                old(data)@[i]
            },
{
    let len = data.len();
    proof {
        lemma_block_fits(stride as int, bx as int, by as int, bw as int, bh as int, len as int);
    }
    let count: u128 = wide_product(bw, bh);
    let a0 = channel_mean(block_channel_sum(data, stride, bx, by, bw, bh, 0), count, Ghost(data@), Ghost(stride as int), Ghost(by * stride + 4 * bx + 0), Ghost(bw as int), Ghost(bh as int));
    let a1 = channel_mean(block_channel_sum(data, stride, bx, by, bw, bh, 1), count, Ghost(data@), Ghost(stride as int), Ghost(by * stride + 4 * bx + 1), Ghost(bw as int), Ghost(bh as int));
    let a2 = channel_mean(block_channel_sum(data, stride, bx, by, bw, bh, 2), count, Ghost(data@), Ghost(stride as int), Ghost(by * stride + 4 * bx + 2), Ghost(bw as int), Ghost(bh as int));
    let a3 = channel_mean(block_channel_sum(data, stride, bx, by, bw, bh, 3), count, Ghost(data@), Ghost(stride as int), Ghost(by * stride + 4 * bx + 3), Ghost(bw as int), Ghost(bh as int));
    fill_block(data, stride, bx, by, bw, bh, a0, a1, a2, a3);
}

/// The truncated mean for a channel sum over `count` pixels.
fn channel_mean(
    sum: u128,
    count: u128,
    Ghost(data): Ghost<Seq<u8>>,
    Ghost(stride): Ghost<int>,
    Ghost(start): Ghost<int>,
    Ghost(bw): Ghost<int>,
    Ghost(bh): Ghost<int>,
) -> (mean: u8)
    requires
        0 < bw,
        0 < bh,
        count == bw * bh,
        sum == channel_sum_block(data, stride, start, bw, bh),
    ensures
        mean == (channel_sum_block(data, stride, start, bw, bh) / (bw * bh)) as u8,
{
    proof {
        lemma_block_sum_bound(data, stride, start, bw, bh);
        assert(0 < bw * bh) by (nonlinear_arith)
            requires
                0 < bw,
                0 < bh,
        ;
        assert(0 <= sum as int / count as int <= 255) by (nonlinear_arith)
            requires
                0 <= sum <= 255 * count,
                0 < count,
        ;
    }
    (sum / count) as u8
}

/// A position inside the `k`-th block lies in the block that starts at
/// `origin + k * block`.
proof fn lemma_block_of_position(origin: int, block: int, limit: int, k: int, p: int)
    requires
        0 < block,
        0 <= k,
        origin + k * block <= p < origin + k * block + block_extent(
            origin + k * block,
            limit,
            block,
        ),
    ensures
        block_start(origin, block, p) == origin + k * block,
{
    vstd::arithmetic::div_mod::lemma_fundamental_div_mod_converse(
        p - origin,
        block,
        k,
        p - origin - k * block,
    );
}

/// The block that holds a position of the clamped span starts at or
/// before it, ends after it, and is cut off where the span ends.
pub proof fn lemma_block_holds_position(origin: int, block: int, limit: int, p: int)
    requires
        0 < block,
        origin <= p < limit,
    ensures
        ({
            let start = block_start(origin, block, p);
            let extent = block_extent(start, limit, block);
            &&& origin <= start <= p < start + extent <= limit
            &&& 0 < extent <= block
            &&& extent == block || start + extent == limit
        }),
{
    let d = p - origin;
    vstd::arithmetic::div_mod::lemma_fundamental_div_mod(d, block);
    assert(0 <= d % block < block) by (nonlinear_arith)
        requires
            0 < block,
    ;
    assert(block * (d / block) == (d / block) * block) by (nonlinear_arith);
    assert(0 <= (d / block) * block) by (nonlinear_arith)
        requires
            0 <= d,
            0 < block,
            d == (d / block) * block + d % block,
            0 <= d % block < block,
    ;
}

/// A pixel inside the clamped rectangle gets the mean of its own block:
/// the channel sum over the block divided by the number of pixels the
/// block really has, which at the right and bottom edge is less than the
/// square of the block edge.
pub proof fn lemma_edge_block_divides_by_its_size(
    data: Seq<u8>,
    stride: int,
    x0: int,
    y0: int,
    x1: int,
    y1: int,
    block: int,
    i: int,
)
    requires
        0 < stride,
        0 < block,
        x0 <= (i % stride) / 4 < x1,
        y0 <= i / stride < y1,
    ensures
        ({
            let bx = block_start(x0, block, (i % stride) / 4);
            let by = block_start(y0, block, i / stride);
            let bw = if x1 - bx < block {
                x1 - bx
            } else {
                block
            };
            let bh = if y1 - by < block {
                y1 - by
            } else {
                block
            };
            &&& bx <= (i % stride) / 4 < bx + bw
            &&& by <= i / stride < by + bh
            &&& 0 < bw * bh <= block * block
            &&& blurred_byte(data, stride, x0, y0, x1, y1, block, i) == (channel_sum_block(
                data,
                stride,
                by * stride + 4 * bx + (i % stride) % 4,
                bw,
                bh,
            ) / (bw * bh)) as u8
        }),
{
    lemma_block_holds_position(x0, block, x1, (i % stride) / 4);
    lemma_block_holds_position(y0, block, y1, i / stride);
    let bx = block_start(x0, block, (i % stride) / 4);
    let by = block_start(y0, block, i / stride);
    let bw = block_extent(bx, x1, block);
    let bh = block_extent(by, y1, block);
    assert(0 < bw * bh <= block * block) by (nonlinear_arith)
        requires
            0 < bw <= block,
            0 < bh <= block,
    ;
}

/// A row whose bytes of one channel all are `v` sums to `v` times its
/// length.
proof fn lemma_uniform_row_sum(data: Seq<u8>, start: int, n: int, v: u8)
    requires
        0 <= n,
        forall|j: int|
            start <= j < start + 4 * n && (j - start) % 4 == 0 ==> #[trigger] data[j] == v,
    ensures
        channel_sum_row(data, start, n) == v * n,
    decreases n,
{
    if n > 0 {
        lemma_uniform_row_sum(data, start, n - 1, v);
        assert(data[start + 4 * (n - 1)] == v);
        assert(v * n == v * (n - 1) + v) by (nonlinear_arith);
    } else {
        assert(v * n == 0) by (nonlinear_arith)
            requires
                n == 0,
        ;
    }
}

/// A block whose bytes of channel `c` all are `v` sums, on that channel,
/// to `v` times its pixel count.
proof fn lemma_uniform_block_sum(
    data: Seq<u8>,
    stride: int,
    bx: int,
    by: int,
    bw: int,
    bh: int,
    c: int,
    v: u8,
)
    requires
        0 <= bx,
        0 <= bw,
        0 <= bh,
        0 <= c < 4,
        4 * (bx + bw) <= stride,
        forall|j: int|
            in_block(stride, bx, by, bw, bh, j) && (j % stride) % 4 == c ==> #[trigger] data[j]
                == v,
    ensures
        channel_sum_block(data, stride, by * stride + 4 * bx + c, bw, bh) == v * (bw * bh),
    decreases bh,
{
    if bh > 0 {
        assert forall|j: int|
            in_block(stride, bx, by, bw, bh - 1, j) && (j % stride) % 4 == c implies #[trigger] data[j]
            == v by {
            assert(in_block(stride, bx, by, bw, bh, j));
        }
        lemma_uniform_block_sum(data, stride, bx, by, bw, bh - 1, c, v);
        let start = by * stride + 4 * bx + c;
        let row_start = start + (bh - 1) * stride;
        assert forall|j: int|
            row_start <= j < row_start + 4 * bw && (j - row_start) % 4 == 0 implies #[trigger] data[j]
            == v by {
            lemma_block_member(stride, bx, by, bw, bh, c, bh - 1, j);
        }
        lemma_uniform_row_sum(data, row_start, bw, v);
        assert(v * (bw * bh) == v * (bw * (bh - 1)) + v * bw) by (nonlinear_arith);
    } else {
        assert(v * (bw * bh) == 0) by (nonlinear_arith)
            requires
                bh == 0,
        ;
    }
}

/// Pixelation leaves a uniform block as it is: where every pixel of a
/// block has the value `v` on channel `c`, the block's mean on that
/// channel is `v`, whatever the block's size.
pub proof fn lemma_uniform_block_unchanged(
    data: Seq<u8>,
    stride: int,
    bx: int,
    by: int,
    bw: int,
    bh: int,
    c: int,
    v: u8,
)
    requires
        0 <= bx,
        0 < bw,
        0 < bh,
        0 <= c < 4,
        4 * (bx + bw) <= stride,
        forall|j: int|
            in_block(stride, bx, by, bw, bh, j) && (j % stride) % 4 == c ==> #[trigger] data[j]
                == v,
    ensures
        block_average(data, stride, bx, by, bw, bh, c) == v,
{
    lemma_uniform_block_sum(data, stride, bx, by, bw, bh, c, v);
    let count = bw * bh;
    assert(0 < count && (v * count) / count == v) by (nonlinear_arith)
        requires
            count == bw * bh,
            0 < bw,
            0 < bh,
    ;
}

/// Pixelating a rectangle whose pixels all agree on channel `c` changes
/// no byte of that channel.
pub proof fn lemma_uniform_region_unchanged(
    data: Seq<u8>,
    stride: int,
    x0: int,
    y0: int,
    x1: int,
    y1: int,
    block: int,
    c: int,
    v: u8,
    i: int,
)
    requires
        0 < block,
        0 <= c < 4,
        0 <= x0,
        4 * x1 <= stride,
        (i % stride) % 4 == c,
        x0 <= (i % stride) / 4 < x1,
        y0 <= i / stride < y1,
        forall|j: int|
            x0 <= (j % stride) / 4 < x1 && y0 <= j / stride < y1 && (j % stride) % 4 == c
                ==> #[trigger] data[j] == v,
    ensures
        blurred_byte(data, stride, x0, y0, x1, y1, block, i) == v,
        blurred_byte(data, stride, x0, y0, x1, y1, block, i) == data[i],
{
    lemma_block_holds_position(x0, block, x1, (i % stride) / 4);
    lemma_block_holds_position(y0, block, y1, i / stride);
    let bx = block_start(x0, block, (i % stride) / 4);
    let by = block_start(y0, block, i / stride);
    let bw = block_extent(bx, x1, block);
    let bh = block_extent(by, y1, block);
    lemma_uniform_block_unchanged(data, stride, bx, by, bw, bh, c, v);
}

/// Pixelation changes nothing outside the requested rectangle: a byte of
/// a pixel that lies outside it, and every byte of padding, keeps its
/// value.
pub proof fn lemma_pixelation_stays_inside(
    buffer: RasterBuffer,
    x: int,
    y: int,
    width: int,
    height: int,
    block_size: u32,
    i: int,
)
    requires
        buffer.well_formed(),
        0 <= i < buffer.data@.len(),
        ({
            let px = (i % (buffer.stride as int)) / 4;
            let row = i / (buffer.stride as int);
            !(x <= px < x + width && y <= row < y + height) || px >= buffer.width
        }),
    ensures
        pixelated(buffer, x, y, width, height, block_size).len() == buffer.data@.len(),
        pixelated(buffer, x, y, width, height, block_size)[i] == buffer.data@[i],
{
}

/// A rectangle without pixels leaves every byte as it is.
pub proof fn lemma_empty_region_unchanged(
    buffer: RasterBuffer,
    x: int,
    y: int,
    width: int,
    height: int,
    block_size: u32,
)
    requires
        clamp_low(x) >= clamp_high(x, width, buffer.width as int) || clamp_low(y) >= clamp_high(
            y,
            height,
            buffer.height as int,
        ),
    ensures
        pixelated(buffer, x, y, width, height, block_size) =~= buffer.data@,
{
}

/// Pixelates, in place, the part of the rectangle at `(x, y)` of `width` by
/// `height` pixels that lies inside `surface`. Bytes outside that part,
/// padding included, keep their values. A buffer that is not well formed
/// is left as it is.
pub fn pixelate_region(
    surface: &mut RasterBuffer,
    x: i32,
    y: i32,
    width: i32,
    height: i32,
    block_size: u32,
)
    ensures
        final(surface).same_layout(old(surface)),
        final(surface).well_formed() == old(surface).well_formed(),
        final(surface).data@ == if old(surface).well_formed() {
            pixelated(*old(surface), x as int, y as int, width as int, height as int, block_size)
        } else {
            old(surface).data@
        },
{
    if !surface.is_well_formed() {
        return ;
    }
    let img_width = surface.width;
    let img_height = surface.height;
    let stride = surface.stride;
    let len = surface.data.len();
    let block: usize = if block_size < MIN_BLOCK_SIZE {
        MIN_BLOCK_SIZE as usize
    } else {
        block_size as usize
    };
    let ghost before = *surface;
    let ghost target = pixelated(
        before,
        x as int,
        y as int,
        width as int,
        height as int,
        block_size,
    );
    let x0: usize = if x < 0 {
        0
    } else {
        x as usize
    };
    let y0: usize = if y < 0 {
        0
    } else {
        y as usize
    };
    let x_end: i64 = x as i64 + width as i64;
    let y_end: i64 = y as i64 + height as i64;
    if x_end <= x0 as i64 || y_end <= y0 as i64 {
        proof {
            lemma_empty_region_unchanged(
                before,
                x as int,
                y as int,
                width as int,
                height as int,
                block_size,
            );
        }
        return ;
    }
    let x1: usize = if x_end < img_width as i64 {
        x_end as usize
    } else {
        img_width
    };
    let y1: usize = if y_end < img_height as i64 {
        y_end as usize
    } else {
        img_height
    };
    if x0 >= x1 || y0 >= y1 {
        proof {
            lemma_empty_region_unchanged(
                before,
                x as int,
                y as int,
                width as int,
                height as int,
                block_size,
            );
        }
        return ;
    }
    assert(x0 == clamp_low(x as int));
    assert(y0 == clamp_low(y as int));
    assert(x1 == clamp_high(x as int, width as int, img_width as int));
    assert(y1 == clamp_high(y as int, height as int, img_height as int));
    assert(block == effective_block(block_size));
    let mut by: usize = y0;
    let ghost mut ky: int = 0;
    while by < y1
        invariant
            before.well_formed(),
            surface.same_layout(&before),
            stride == before.stride,
            len == before.data@.len(),
            surface.data@.len() == len,
            x0 < x1 <= before.width,
            y0 <= by <= y1 <= before.height,
            2 <= block,
            0 <= ky,
            by < y1 ==> by == y0 + ky * block,
            forall|i: int|
                0 <= i < len ==> #[trigger] surface.data@[i] == if i / (stride as int) < by {
                    blurred_byte(
                        before.data@,
                        stride as int,
                        x0 as int,
                        y0 as int,
                        x1 as int,
                        y1 as int,
                        block as int,
                        i,
                    )
                } else {
                    before.data@[i]
                },
        decreases y1 - by,
    {
        let bh: usize = if block < y1 - by {
            block
        } else {
            y1 - by
        };
        let mut bx: usize = x0;
        let ghost mut kx: int = 0;
        proof {
            assert((by + bh) * stride <= stride * before.height) by (nonlinear_arith)
                requires
                    by + bh <= before.height,
                    0 <= stride,
            ;
        }
        while bx < x1
            invariant
                before.well_formed(),
                surface.same_layout(&before),
                stride == before.stride,
                len == before.data@.len(),
                surface.data@.len() == len,
                x0 <= bx <= x1 <= before.width,
                y0 <= by < y1 <= before.height,
                2 <= block,
                0 <= ky,
                0 <= kx,
                by == y0 + ky * block,
                bh == block_extent(by as int, y1 as int, block as int),
                (by + bh) * stride <= len,
                bx < x1 ==> bx == x0 + kx * block,
                forall|i: int|
                    0 <= i < len ==> #[trigger] surface.data@[i] == if i / (stride as int) < by || (
                    i / (stride as int) < by + bh && i % (stride as int) < 4 * bx) {
                        blurred_byte(
                            before.data@,
                            stride as int,
                            x0 as int,
                            y0 as int,
                            x1 as int,
                            y1 as int,
                            block as int,
                            i,
                        )
                    } else {
                        before.data@[i]
                    },
            decreases x1 - bx,
        {
            let bw: usize = if block < x1 - bx {
                block
            } else {
                x1 - bx
            };
            let ghost prior = surface.data@;
            average_block(&mut surface.data, stride, bx, by, bw, bh);
            proof {
                let s = stride as int;
                assert forall|j: int|
                    in_block(s, bx as int, by as int, bw as int, bh as int, j) implies #[trigger] prior[j]
                    == before.data@[j] by {
                    lemma_offset_identity(s, j);
                    assert(0 <= j < len) by (nonlinear_arith)
                        requires
                            j == (j / s) * s + j % s,
                            0 <= j % s < s,
                            0 <= by <= j / s < by + bh,
                            (by + bh) * s <= len,
                    ;
                }
                assert forall|i: int| 0 <= i < len implies #[trigger] surface.data@[i] == if i / s
                    < by || (i / s < by + bh && i % s < 4 * (bx + bw)) {
                    blurred_byte(
                        before.data@,
                        s,
                        x0 as int,
                        y0 as int,
                        x1 as int,
                        y1 as int,
                        block as int,
                        i,
                    )
                } else {
                    before.data@[i]
                } by {
                    if in_block(s, bx as int, by as int, bw as int, bh as int, i) {
                        let c = (i % s) % 4;
                        lemma_block_of_position(
                            x0 as int,
                            block as int,
                            x1 as int,
                            kx,
                            (i % s) / 4,
                        );
                        lemma_block_of_position(y0 as int, block as int, y1 as int, ky, i / s);
                        lemma_block_average_agrees(
                            prior,
                            before.data@,
                            s,
                            bx as int,
                            by as int,
                            bw as int,
                            bh as int,
                            c,
                        );
                    }
                }
                assert((kx + 1) * block == kx * block + block) by (nonlinear_arith);
                kx = kx + 1;
            }
            bx = bx + bw;
        }
        proof {
            assert((ky + 1) * block == ky * block + block) by (nonlinear_arith);
            ky = ky + 1;
        }
        by = by + bh;
    }
    assert(surface.data@ =~= target);
}

/// Whether a copy of `width` by `height` pixels can be made: it has pixels
/// and its bytes can be counted.
pub open spec fn copy_fits(width: int, height: int) -> bool {
    0 < width && 0 < height && 4 * width * height <= usize::MAX
}

/// The data of the pixelated copy of the rectangle at `(x, y)` of `width`
/// by `height` pixels of `source`: the rectangle is cut out first, then
/// pixelated as a whole.
pub open spec fn pixelated_copy(
    source: RasterBuffer,
    x: int,
    y: int,
    width: int,
    height: int,
    block_size: u32,
) -> Seq<u8> {
    pixelated_data(
        cropped(source, x, y, width, height),
        4 * width,
        width,
        height,
        0,
        0,
        width,
        height,
        block_size,
    )
}

/// A pixelated copy of the rectangle at `(x, y)` of `width` by `height`
/// pixels of `source`, which itself stays as it is. The copy has exactly
/// the requested size; where the rectangle reaches beyond `source` its
/// pixels start out as zero. `None` when the rectangle has no pixels or is
/// too large to hold, or when `source` is not well formed.
pub fn pixelate_region_copy(
    source: &RasterBuffer,
    x: i32,
    y: i32,
    width: i32,
    height: i32,
    block_size: u32,
) -> (copy: Option<RasterBuffer>)
    ensures
        copy is Some <==> source.well_formed() && copy_fits(width as int, height as int),
        copy matches Some(patch) ==> {
            &&& patch.well_formed()
            &&& patch.width == width
            &&& patch.height == height
            &&& patch.stride == 4 * width
            &&& patch.data@ == pixelated_copy(
                *source,
                x as int,
                y as int,
                width as int,
                height as int,
                block_size,
            )
        },
{
    if width <= 0 || height <= 0 {
        return None;
    }
    assert(4 * width <= 4 * width * height) by (nonlinear_arith)
        requires
            0 < width,
            0 < height,
    ;
    match crop_surface(source, x, y, width, height) {
        None => None,
        Some(region) => {
            let mut region = region;
            pixelate_region(&mut region, 0, 0, width, height, block_size);
            Some(region)
        },
    }
}

} // verus!
