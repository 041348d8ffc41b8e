use vstd::prelude::*;

verus! {

/// The size of an image in pixels.
#[derive(Clone, Copy, Debug, PartialEq, Eq, Structural)]
pub struct Image {
    pub width: i64,
    pub height: i64,
}

/// A pixel, by its column from the left and its row from the bottom: the
/// camera's vertical coordinate grows upward.
#[derive(Clone, Copy, Debug, PartialEq, Eq, Structural)]
pub struct Pixel {
    pub column: i64,
    pub row: i64,
}

impl Image {
    /// The pixel lies within the image.
    pub open spec fn holds(self, pixel: Pixel) -> bool {
        0 <= pixel.column < self.width && 0 <= pixel.row < self.height
    }

    /// The number of pixels.
    pub open spec fn count(self) -> int {
        if self.width > 0 && self.height > 0 {
            self.width * self.height
        } else {
            0
        }
    }

    /// The place of a pixel in the output: rows from the top scanline down,
    /// and within a row from left to right.
    pub open spec fn position(self, pixel: Pixel) -> int {
        (self.height - 1 - pixel.row) * self.width + pixel.column
    }

    /// The height that goes with `width` at the aspect ratio
    /// `numerator / denominator`, rounded down.
    pub open spec fn height_for(width: int, numerator: int, denominator: int) -> int {
        (width * denominator) / numerator
    }

    /// The image of the given width whose height is the width divided by
    /// the aspect ratio `numerator / denominator`, rounded down. `None`
    /// where the width or a part of the ratio is negative, the ratio is
    /// zero or infinite, or the height is too large for its type.
    pub fn with_aspect(width: i64, numerator: i64, denominator: i64) -> (r: Option<Image>)
        ensures
            r is Some <==> width >= 0 && numerator > 0 && denominator > 0 && Self::height_for(
                width as int,
                numerator as int,
                denominator as int,
            ) <= i64::MAX,
            r matches Some(image) ==> image.width == width && image.height == Self::height_for(
                width as int,
                numerator as int,
                denominator as int,
            ),
    {
        if width < 0 || numerator <= 0 || denominator <= 0 {
            return None;
        }
        assert(0 <= width * denominator <= i64::MAX * i64::MAX) by (nonlinear_arith)
            requires
                0 <= width <= i64::MAX,
                0 < denominator <= i64::MAX,
        ;
        let scaled: i128 = (width as i128) * (denominator as i128);
        let height: i128 = scaled / (numerator as i128);
        if height > i64::MAX as i128 {
            return None;
        }
        Some(Image { width, height: height as i64 })
    }

    /// The first pixel of the output, the left end of the top row, or
    /// `None` where the image has no pixel.
    pub fn first(&self) -> (r: Option<Pixel>)
        ensures
            match r {
                Some(pixel) => self.holds(pixel) && self.position(pixel) == 0,
                None => self.count() == 0,
            },
    {
        if self.width > 0 && self.height > 0 {
            Some(Pixel { column: 0, row: self.height - 1 })
        } else {
            None
        }
    }

    /// The pixel that follows `pixel` in the output, or `None` where
    /// `pixel` is the last one or lies outside the image.
    pub fn next(&self, pixel: Pixel) -> (r: Option<Pixel>)
        ensures
            match r {
                Some(after) => self.holds(pixel) && self.holds(after) && self.position(after)
                    == self.position(pixel) + 1,
                None => !self.holds(pixel) || self.position(pixel) == self.count() - 1,
            },
    {
        if pixel.column < 0 || pixel.column >= self.width || pixel.row < 0 || pixel.row
            >= self.height {
            return None;
        }
        if pixel.column + 1 < self.width {
            Some(Pixel { column: pixel.column + 1, row: pixel.row })
        } else if pixel.row > 0 {
            proof {
                lemma_row_step(self.width as int, (self.height - 1 - pixel.row) as int);
            }
            Some(Pixel { column: 0, row: pixel.row - 1 })
        } else {
            proof {
                lemma_row_step(self.width as int, (self.height - 1) as int);
            }
            None
        }
    }

    /// Every pixel of the image has a place among the `count()` places of
    /// the output.
    pub proof fn lemma_position_in_range(self, pixel: Pixel)
        requires
            self.holds(pixel),
        ensures
            0 <= self.position(pixel) < self.count(),
    {
        let above = (self.height - 1 - pixel.row) as int;
        let width = self.width as int;
        let height = self.height as int;
        assert(0 <= above * width && above * width + width <= height * width)
            by (nonlinear_arith)
            requires
                0 <= above < height,
                0 < width,
        ;
        assert(height * width == width * height) by (nonlinear_arith);
    }

    /// No two pixels of the image share a place in the output.
    pub proof fn lemma_position_injective(self, a: Pixel, b: Pixel)
        requires
            self.holds(a),
            self.holds(b),
            self.position(a) == self.position(b),
        ensures
            a == b,
    {
        let width = self.width as int;
        let above_a = (self.height - 1 - a.row) as int;
        let above_b = (self.height - 1 - b.row) as int;
        if above_a < above_b {
            assert(above_a * width + width <= above_b * width) by (nonlinear_arith)
                requires
                    above_a < above_b,
                    0 < width,
            ;
        } else if above_b < above_a {
            assert(above_b * width + width <= above_a * width) by (nonlinear_arith)
                requires
                    above_b < above_a,
                    0 < width,
            ;
        }
    }
}

/// Going one row down moves a place forward by one width.
proof fn lemma_row_step(width: int, above: int)
    ensures
        (above + 1) * width == above * width + width,
{
    assert((above + 1) * width == above * width + width) by (nonlinear_arith);
}

} // verus!
