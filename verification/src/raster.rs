//! A raster buffer: a rectangular grid of pixels, four bytes per pixel,
//! stored row by row with a fixed row stride.

use vstd::prelude::*;

verus! {

/// Largest width or height a buffer may have.
pub const MAX_EXTENT: usize = 0x7fff_ffff;

/// An image held in memory. Row `py` starts at byte `py * stride`; pixel
/// `px` of that row occupies the four bytes from `4 * px` on. Bytes of a
/// row beyond `4 * width` are padding.
#[derive(Debug, Clone, PartialEq, Eq)]
pub struct RasterBuffer {
    pub width: usize,
    pub height: usize,
    pub stride: usize,
    pub data: Vec<u8>,
}

impl RasterBuffer {
    /// The invariant of a usable buffer: the rows fit the stride and the
    /// data holds exactly `height` rows.
    pub open spec fn well_formed(&self) -> bool {
        &&& self.width <= MAX_EXTENT
        &&& self.height <= MAX_EXTENT
        &&& 4 * self.width <= self.stride
        &&& self.stride * self.height <= usize::MAX
        &&& self.data@.len() == self.stride * self.height
    }

    /// The byte of channel `c` of pixel `(px, py)`.
    pub open spec fn channel(&self, px: int, py: int, c: int) -> u8 {
        self.data@[py * self.stride + 4 * px + c]
    }

    /// Whether `self` and `other` have the same shape.
    pub open spec fn same_layout(&self, other: &RasterBuffer) -> bool {
        &&& self.width == other.width
        &&& self.height == other.height
        &&& self.stride == other.stride
    }

    /// A buffer of `width` by `height` pixels without padding, every byte
    /// zero. `None` when an extent is too large.
    pub fn new(width: usize, height: usize) -> (buffer: Option<Self>)
        ensures
            buffer is Some <==> width <= MAX_EXTENT && height <= MAX_EXTENT && 4 * width
                <= usize::MAX && 4 * width * height <= usize::MAX,
            buffer matches Some(b) ==> {
                &&& b.well_formed()
                &&& b.width == width
                &&& b.height == height
                &&& b.stride == 4 * width
                &&& forall|i: int| 0 <= i < b.data@.len() ==> b.data@[i] == 0
            },
    {
        if width > MAX_EXTENT || height > MAX_EXTENT || width > usize::MAX / 4 {
            return None;
        }
        let stride: usize = 4 * width;
        let total: u128 = wide_product(stride, height);
        assert(total == 4 * width * height) by (nonlinear_arith)
            requires
                total == stride * height,
                stride == 4 * width,
        ;
        if total > usize::MAX as u128 {
            return None;
        }
        let len: usize = total as usize;
        let data = zeroed(len);
        Some(RasterBuffer { width, height, stride, data })
    }

    /// Wraps existing pixel data. `None` unless the parts make a
    /// well-formed buffer.
    pub fn from_raw(width: usize, height: usize, stride: usize, data: Vec<u8>) -> (buffer: Option<
        Self,
    >)
        ensures
            buffer is Some <==> (RasterBuffer { width, height, stride, data }).well_formed(),
            buffer matches Some(b) ==> b == (RasterBuffer { width, height, stride, data }),
    {
        if width > MAX_EXTENT || height > MAX_EXTENT || stride / 4 < width {
            return None;
        }
        let total: u128 = wide_product(stride, height);
        if total != data.len() as u128 {
            return None;
        }
        Some(RasterBuffer { width, height, stride, data })
    }

    /// Whether the invariant holds, for callers that built the value by hand.
    pub fn is_well_formed(&self) -> (ok: bool)
        ensures
            ok == self.well_formed(),
    {
        if self.width > MAX_EXTENT || self.height > MAX_EXTENT || self.stride / 4 < self.width {
            return false;
        }
        let total: u128 = wide_product(self.stride, self.height);
        total == self.data.len() as u128
    }

    /// A copy with the same layout and the same bytes.
    pub fn duplicate(&self) -> (copy: Self)
        ensures
            copy.same_layout(self),
            copy.data@ == self.data@,
    {
        let mut data: Vec<u8> = Vec::new();
        let mut i: usize = 0;
        while i < self.data.len()
            invariant
                i <= self.data@.len(),
                data@ == self.data@.take(i as int),
            decreases self.data@.len() - i,
        {
            data.push(self.data[i]);
            assert(self.data@.take(i as int).push(self.data@[i as int]) =~= self.data@.take(
                i as int + 1,
            ));
            i = i + 1;
        }
        assert(self.data@.take(self.data@.len() as int) =~= self.data@);
        RasterBuffer { width: self.width, height: self.height, stride: self.stride, data }
    }

    /// Reads channel `c` of pixel `(px, py)`.
    pub fn get(&self, px: usize, py: usize, c: usize) -> (value: u8)
        requires
            self.well_formed(),
            px < self.width,
            py < self.height,
            c < 4,
        ensures
            value == self.channel(px as int, py as int, c as int),
    {
        proof {
            lemma_offset_in_range(
                self.stride as int,
                self.height as int,
                py as int,
                4 * px + c,
            );
        }
        self.data[py * self.stride + 4 * px + c]
    }
}

/// The product of two sizes, in a type wide enough to hold it.
pub fn wide_product(a: usize, b: usize) -> (product: u128)
    ensures
        product == a * b,
{
    assert(0 <= a * b <= 0xffff_ffff_ffff_ffff * 0xffff_ffff_ffff_ffff) by (nonlinear_arith)
        requires
            0 <= a <= 0xffff_ffff_ffff_ffff,
            0 <= b <= 0xffff_ffff_ffff_ffff,
    ;
    (a as u128) * (b as u128)
}

/// A vector of `len` zero bytes.
pub fn zeroed(len: usize) -> (data: Vec<u8>)
    ensures
        data@.len() == len,
        forall|i: int| 0 <= i < len ==> data@[i] == 0,
{
    let mut data: Vec<u8> = Vec::new();
    let mut n: usize = 0;
    while n < len
        invariant
            n <= len,
            data@.len() == n,
            forall|i: int| 0 <= i < n ==> data@[i] == 0,
        decreases len - n,
    {
        data.push(0);
        n = n + 1;
    }
    data
}

/// A byte at column `col` of row `row` lies inside the data.
pub proof fn lemma_offset_in_range(stride: int, height: int, row: int, col: int)
    requires
        0 <= row < height,
        0 <= col < stride,
    ensures
        0 <= row * stride + col < stride * height,
        0 <= row * stride,
        row * stride + stride <= stride * height,
{
    assert(0 <= row * stride && (row + 1) * stride <= stride * height) by (nonlinear_arith)
        requires
            0 <= row < height,
            0 < stride,
    ;
    assert((row + 1) * stride == row * stride + stride) by (nonlinear_arith);
}

/// Row and column of a byte offset are its quotient and remainder by the
/// stride.
pub proof fn lemma_row_col(stride: int, row: int, col: int)
    requires
        0 <= col < stride,
    ensures
        (row * stride + col) / stride == row,
        (row * stride + col) % stride == col,
{
    vstd::arithmetic::div_mod::lemma_fundamental_div_mod_converse(
        row * stride + col,
        stride,
        row,
        col,
    );
}

/// Every offset splits into a row and a column, and lies in a row of the
/// buffer.
pub proof fn lemma_split_offset(stride: int, height: int, i: int)
    requires
        0 < stride,
        0 <= i < stride * height,
    ensures
        i == (i / stride) * stride + i % stride,
        0 <= i % stride < stride,
        0 <= i / stride < height,
{
    vstd::arithmetic::div_mod::lemma_fundamental_div_mod(i, stride);
    assert(stride * (i / stride) == (i / stride) * stride) by (nonlinear_arith);
    assert(0 <= i % stride < stride) by (nonlinear_arith)
        requires
            0 < stride,
    ;
    let q = i / stride;
    assert(0 <= q < height) by (nonlinear_arith)
        requires
            0 < stride,
            0 <= i < stride * height,
            i == q * stride + i % stride,
            0 <= i % stride < stride,
    ;
}

} // verus!
