//! Conversion between a tensor and an interleaved RGB byte buffer.
//!
//! The buffer holds the pixels row by row, and of each pixel the three
//! channels in the order red, green, blue.

use crate::error::Error;
use crate::fixed::{floor_div, lemma_div_between, UNIT};
use crate::grid::{grid_dim, grid_get, shape_fits, Grid};
use crate::normalize::{renormalize, renormalized};
use crate::tensor::{Normal, Tensor, TensorView};
use vstd::prelude::*;

verus! {

/// The byte level of a sample of encoding `from`: the sample as a byte level,
/// rounded to the nearest whole level (a half rounds up) and held within 0
/// and 255.
pub open spec fn byte_of(v: int, from: Normal) -> int {
    let level = (2 * renormalized(v, from, Normal::U8) + UNIT) / (2 * UNIT);
    if level < 0 {
        0
    } else if level > 255 {
        255
    } else {
        level
    }
}

/// The sample, in the unit-interval encoding, of a byte level: the level over
/// 255.
pub open spec fn sample_of(b: int) -> int {
    b * 256
}

/// Where channel `c` of the pixel in row `y` and column `x` stands in the
/// buffer of an image that is `w` pixels wide.
pub open spec fn rgb_index(w: int, c: int, y: int, x: int) -> int {
    (y * w + x) * 3 + c
}

impl TensorView {
    /// The first image of the tensor as an RGB byte buffer.
    pub open spec fn rgb8(self) -> Seq<u8> {
        Seq::new(
            3 * self.dim.2 * self.dim.3,
            |i: int|
                byte_of(
                    self.at(0, i % 3, (i / 3) / (self.dim.3 as int), (i / 3) % (self.dim.3 as int)),
                    self.normal,
                ) as u8,
        )
    }

    /// The image of `height` rows and `width` columns that an RGB byte buffer
    /// holds, in the unit-interval encoding.
    pub open spec fn of_rgb8(bytes: Seq<u8>, width: nat, height: nat) -> TensorView {
        TensorView::tabulated(
            Normal::ZeroToP1,
            (1, 3, height, width),
            |n: int, c: int, y: int, x: int| sample_of(bytes[rgb_index(width as int, c, y, x)] as int),
        )
    }
}

/// The byte level of a sample.
pub fn to_byte(v: i32, from: Normal) -> (b: u8)
    ensures
        b == byte_of(v as int, from),
{
    let u = renormalize(v, from, Normal::U8) as i128;
    let level = floor_div(2 * u + UNIT as i128, 2 * (UNIT as i128));
    if level < 0 {
        0
    } else if level > 255 {
        255
    } else {
        level as u8
    }
}

/// The position of a channel of a pixel is within the buffer.
pub proof fn lemma_rgb_index(w: int, h: int, c: int, y: int, x: int)
    requires
        0 <= c < 3,
        0 <= y < h,
        0 <= x < w,
    ensures
        0 <= y * w <= y * w + x < h * w,
        0 <= rgb_index(w, c, y, x) < 3 * (h * w),
        rgb_index(w, c, y, x) % 3 == c,
        (rgb_index(w, c, y, x) / 3) / w == y,
        (rgb_index(w, c, y, x) / 3) % w == x,
{
    assert(0 <= y * w && y * w + w <= h * w) by (nonlinear_arith)
        requires
            0 <= y < h,
            0 < w,
    ;
    vstd::arithmetic::div_mod::lemma_fundamental_div_mod_converse(
        rgb_index(w, c, y, x),
        3,
        y * w + x,
        c,
    );
    vstd::arithmetic::div_mod::lemma_fundamental_div_mod_converse(y * w + x, w, y, x);
}

/// A position in the buffer is that of one channel of one pixel.
pub proof fn lemma_rgb_position(w: int, h: int, i: int)
    requires
        0 < w,
        0 <= i < 3 * (h * w),
    ensures
        0 <= i % 3 < 3,
        0 <= (i / 3) / w < h,
        0 <= (i / 3) % w < w,
        rgb_index(w, i % 3, (i / 3) / w, (i / 3) % w) == i,
{
    let p = i / 3;
    assert(i == 3 * p + i % 3 && 0 <= i % 3 < 3);
    assert(0 <= p < h * w);
    assert(p == (p / w) * w + p % w && 0 <= p % w < w) by (nonlinear_arith)
        requires
            w > 0,
    ;
    assert(0 * w <= p < (h - 1 + 1) * w) by (nonlinear_arith)
        requires
            0 <= p < h * w,
    ;
    lemma_div_between(p, w, 0, h - 1);
}

impl Tensor {
    /// The first image of the tensor as an RGB byte buffer, each sample made
    /// a byte level by [`byte_of`]. Fails with [`Error::ShapeMismatch`]
    /// exactly when the tensor has no batch entry or fewer than three
    /// channels.
    pub fn to_rgb8(&self) -> (r: Result<Vec<u8>, Error>)
        ensures
            r is Ok <==> self.dims().0 >= 1 && self.dims().1 >= 3,
            r matches Err(e) ==> e == Error::ShapeMismatch,
            r matches Ok(bytes) ==> bytes@ == self@.rgb8(),
    {
        let d = grid_dim(&self.data);
        if d.0 < 1 || d.1 < 3 {
            return Err(Error::ShapeMismatch);
        }
        let mut out: Vec<u8> = Vec::new();
        if d.2 == 0 || d.3 == 0 {
            assert(3 * self.dims().2 * self.dims().3 == 0) by (nonlinear_arith)
                requires
                    self.dims().2 == 0 || self.dims().3 == 0,
            ;
            assert(out@ =~= self@.rgb8());
            return Ok(out);
        }
        assert(3 * (d.2 * d.3) <= isize::MAX && 3 * d.2 * d.3 == 3 * (d.2 * d.3))
            by (nonlinear_arith)
            requires
                d.0 * d.1 * d.2 * d.3 <= isize::MAX,
                d.0 >= 1,
                d.1 >= 3,
                d.2 >= 1,
                d.3 >= 1,
        ;
        assert(d.2 * d.3 <= isize::MAX) by (nonlinear_arith)
            requires
                3 * (d.2 * d.3) <= isize::MAX,
                d.2 >= 1,
                d.3 >= 1,
        ;
        let total: usize = 3 * (d.2 * d.3);
        let mut i: usize = 0;
        while i < total
            invariant
                i <= total,
                total == 3 * (d.2 * d.3),
                d.3 > 0,
                self.dims() == (d.0 as nat, d.1 as nat, d.2 as nat, d.3 as nat),
                d.0 >= 1 && d.1 >= 3,
                out@.len() == i,
                self@.rgb8().len() == total,
                forall|j: int| 0 <= j < i ==> #[trigger] out@[j] == self@.rgb8()[j],
            decreases total - i,
        {
            proof {
                lemma_rgb_position(d.3 as int, d.2 as int, i as int);
            }
            let c = i % 3;
            let p = i / 3;
            let y = p / d.3;
            let x = p % d.3;
            let b = to_byte(grid_get(&self.data, 0, c, y, x), self.normal);
            out.push(b);
            i = i + 1;
        }
        assert(out@ =~= self@.rgb8());
        Ok(out)
    }

    /// The image of `height` rows and `width` columns held by an RGB byte
    /// buffer, in the unit-interval encoding. Fails with
    /// [`Error::ShapeMismatch`] exactly when the buffer is not three bytes per
    /// pixel long or the image cannot be allocated.
    pub fn from_rgb8(bytes: &[u8], width: usize, height: usize) -> (r: Result<Tensor, Error>)
        ensures
            r is Ok <==> bytes@.len() == 3 * (height * width) && Tensor::shape_fits(
                1,
                3,
                height as nat,
                width as nat,
            ),
            r matches Err(e) ==> e == Error::ShapeMismatch,
            r matches Ok(t) ==> t@ == TensorView::of_rgb8(bytes@, width as nat, height as nat),
    {
        if !shape_fits(1, 3, height, width) {
            return Err(Error::ShapeMismatch);
        }
        if height == 0 || width == 0 {
            assert(height * width == 0) by (nonlinear_arith)
                requires
                    height == 0 || width == 0,
            ;
            if bytes.len() != 0 {
                return Err(Error::ShapeMismatch);
            }
        } else {
            assert(3 * (height * width) <= isize::MAX && height * width <= isize::MAX)
                by (nonlinear_arith)
                requires
                    1 * 3 * height * width <= isize::MAX,
                    height >= 1,
                    width >= 1,
            ;
            if bytes.len() != 3 * (height * width) {
                return Err(Error::ShapeMismatch);
            }
        }
        let ghost goal = |n: int, c: int, y: int, x: int|
            sample_of(bytes@[rgb_index(width as int, c, y, x)] as int);
        let f = |n: usize, c: usize, y: usize, x: usize| -> (v: i32)
            requires
                n < 1 && c < 3 && y < height && x < width,
            ensures
                v == goal(n as int, c as int, y as int, x as int),
            {
                proof {
                    lemma_rgb_index(width as int, height as int, c as int, y as int, x as int);
                }
                (bytes[(y * width + x) * 3 + c] as i32) * 256
            };
        let data = Grid::tabulate(1, 3, height, width, f);
        let t = Tensor { normal: Normal::ZeroToP1, data };
        proof {
            assert forall|n: int, c: int, y: int, x: int| t.has(n, c, y, x) implies #[trigger] t.at(
                n,
                c,
                y,
                x,
            ) == goal(n, c, y, x) by {
                assert(call_ensures(
                    f,
                    (n as usize, c as usize, y as usize, x as usize),
                    t.data.at(
                        n as usize as int,
                        c as usize as int,
                        y as usize as int,
                        x as usize as int,
                    ),
                ));
            }
            t.lemma_tabulated(goal);
        }
        Ok(t)
    }
}

/// A byte level made a sample and then a byte level again is unchanged.
pub proof fn lemma_byte_round_trip(b: u8)
    ensures
        byte_of(sample_of(b as int), Normal::ZeroToP1) == b,
{
    let u = renormalized(sample_of(b as int), Normal::ZeroToP1, Normal::U8);
    assert(u == 65_280 * b);
    vstd::arithmetic::div_mod::lemma_fundamental_div_mod_converse(
        2 * u + UNIT,
        2 * UNIT,
        b as int,
        UNIT as int,
    );
}

/// An image read from a byte buffer and written to one again gives the same
/// bytes.
pub proof fn lemma_rgb8_round_trip(bytes: Seq<u8>, width: nat, height: nat)
    requires
        bytes.len() == 3 * (height * width),
    ensures
        TensorView::of_rgb8(bytes, width, height).rgb8() == bytes,
{
    let t = TensorView::of_rgb8(bytes, width, height);
    assert(3 * t.dim.2 * t.dim.3 == 3 * (height * width)) by (nonlinear_arith)
        requires
            t.dim.2 == height,
            t.dim.3 == width,
    ;
    assert forall|i: int| 0 <= i < bytes.len() implies #[trigger] t.rgb8()[i] == bytes[i] by {
        if width == 0 {
            assert(height * width == 0) by (nonlinear_arith)
                requires
                    width == 0,
            ;
        } else {
            lemma_rgb_position(width as int, height as int, i);
            lemma_byte_round_trip(bytes[i]);
        }
    }
    assert(t.rgb8() =~= bytes);
}

} // verus!
