use vstd::prelude::*;

verus! {

use crate::array2d::Array2D;
use crate::array2d::grid_dims;

/// One image plane: a padded pixel buffer and the meaningful crop size.
pub struct Plane {
    pixels: Array2D<u8>,
    crop_width: usize,
    crop_height: usize,
}

/// Every pixel outside the crop region equals its nearest in-crop neighbour.
pub open spec fn padding_filled(
    px: Seq<Seq<u8>>,
    rows: nat,
    cols: nat,
    crop_h: nat,
    crop_w: nat,
) -> bool {
    forall|r: int, c: int|
        0 <= r < rows && 0 <= c < cols ==> #[trigger] px[r][c] == px[if r < crop_h {
            r
        } else {
            crop_h - 1
        }][if c < crop_w {
            c
        } else {
            crop_w - 1
        }]
}

impl Plane {
    pub closed spec fn px(&self) -> Seq<Seq<u8>> {
        self.pixels@
    }

    pub closed spec fn spec_width(&self) -> nat {
        self.pixels.spec_cols()
    }

    pub closed spec fn spec_height(&self) -> nat {
        self.pixels.spec_rows()
    }

    pub closed spec fn spec_crop_width(&self) -> nat {
        self.crop_width as nat
    }

    pub closed spec fn spec_crop_height(&self) -> nat {
        self.crop_height as nat
    }

    pub closed spec fn wf(&self) -> bool {
        &&& self.pixels.wf()
        &&& 1 <= self.crop_width <= self.pixels.spec_cols()
        &&& 1 <= self.crop_height <= self.pixels.spec_rows()
        &&& grid_dims(self.pixels@, self.pixels.spec_rows(), self.pixels.spec_cols())
    }

    /// The pixel grid has exactly height rows of width entries.
    pub proof fn lemma_grid(&self)
        requires
            self.wf(),
        ensures
            grid_dims(self.px(), self.spec_height(), self.spec_width()),
    {
    }

    /// A plane of the given sizes with every pixel at the mid-grey default
    /// 128.
    pub fn new(crop_height: usize, crop_width: usize, height: usize, width: usize) -> (p: Plane)
        requires
            1 <= crop_width <= width,
            1 <= crop_height <= height,
            width * height <= usize::MAX,
            height * width <= usize::MAX,
        ensures
            p.wf(),
            p.spec_width() == width,
            p.spec_height() == height,
            p.spec_crop_width() == crop_width,
            p.spec_crop_height() == crop_height,
            forall|r: int, c: int|
                0 <= r < height && 0 <= c < width ==> #[trigger] p.px()[r][c] == 128,
    {
        let pixels = Array2D::<u8>::filled(height, width, 128);
        Plane { pixels, crop_width, crop_height }
    }

    /// The crop region sits inside the padded buffer.
    pub proof fn lemma_crop_bounds(&self)
        requires
            self.wf(),
        ensures
            1 <= self.spec_crop_width() <= self.spec_width(),
            1 <= self.spec_crop_height() <= self.spec_height(),
    {
    }

    pub fn width(&self) -> (r: usize)
        ensures
            r == self.spec_width(),
    {
        self.pixels.cols()
    }

    pub fn height(&self) -> (r: usize)
        ensures
            r == self.spec_height(),
    {
        self.pixels.rows()
    }

    pub fn crop_width(&self) -> (r: usize)
        ensures
            r == self.spec_crop_width(),
    {
        self.crop_width
    }

    pub fn crop_height(&self) -> (r: usize)
        ensures
            r == self.spec_crop_height(),
    {
        self.crop_height
    }

    pub fn get(&self, r: usize, c: usize) -> (v: u8)
        requires
            self.wf(),
            r < self.spec_height(),
            c < self.spec_width(),
        ensures
            v == self.px()[r as int][c as int],
    {
        self.pixels.get(r, c)
    }

    pub fn pixels(&self) -> (r: &Array2D<u8>)
        ensures
            r@ == self.px(),
            r.spec_rows() == self.spec_height(),
            r.spec_cols() == self.spec_width(),
            self.wf() ==> r.wf(),
            self.wf() ==> grid_dims(r@, self.spec_height(), self.spec_width()),
    {
        &self.pixels
    }

    pub fn pixels_mut(&mut self) -> (r: &mut Array2D<u8>)
        ensures
            (*r)@ == old(self).px(),
            (*r).spec_rows() == old(self).spec_height(),
            (*r).spec_cols() == old(self).spec_width(),
            old(self).wf() ==> (*r).wf(),
            old(self).wf() ==> grid_dims((*r)@, old(self).spec_height(), old(self).spec_width()),
            final(self).px() == (*final(r))@,
            final(self).spec_width() == (*final(r)).spec_cols(),
            final(self).spec_height() == (*final(r)).spec_rows(),
            final(self).spec_crop_width() == old(self).spec_crop_width(),
            final(self).spec_crop_height() == old(self).spec_crop_height(),
            (old(self).wf() && (*final(r)).wf() && (*final(r)).spec_rows() == old(self).spec_height()
                && (*final(r)).spec_cols() == old(self).spec_width()
                && crate::array2d::grid_dims(
                (*final(r))@,
                old(self).spec_height(),
                old(self).spec_width(),
            )) ==> final(self).wf(),
    {
        &mut self.pixels
    }

    /// Fill the pixels outside the crop region by replicating the rightmost
    /// in-crop column and the bottommost in-crop row.
    pub fn fill_padding(&mut self)
        requires
            old(self).wf(),
        ensures
            final(self).wf(),
            final(self).spec_width() == old(self).spec_width(),
            final(self).spec_height() == old(self).spec_height(),
            final(self).spec_crop_width() == old(self).spec_crop_width(),
            final(self).spec_crop_height() == old(self).spec_crop_height(),
            forall|r: int, c: int|
                0 <= r < old(self).spec_height() && 0 <= c < old(self).spec_width()
                    ==> #[trigger] final(self).px()[r][c] == old(self).px()[if r < old(self).spec_crop_height() {
                    r
                } else {
                    old(self).spec_crop_height() - 1
                }][if c < old(self).spec_crop_width() {
                    c
                } else {
                    old(self).spec_crop_width() - 1
                }],
            padding_filled(
                final(self).px(),
                final(self).spec_height(),
                final(self).spec_width(),
                final(self).spec_crop_height(),
                final(self).spec_crop_width(),
            ),
    {
        let width = self.pixels.cols();
        let height = self.pixels.rows();
        let crop_width = self.crop_width;
        let crop_height = self.crop_height;
        let ghost orig = self.pixels@;

        let mut row: usize = 0;
        while row < height
            invariant
                self.pixels.wf(),
                self.pixels.spec_rows() == height,
                self.pixels.spec_cols() == width,
                grid_dims(self.pixels@, height as nat, width as nat),
                self.spec_crop_width() == crop_width,
                self.spec_crop_height() == crop_height,
                1 <= crop_width <= width,
                1 <= crop_height <= height,
                row <= height,
                forall|r: int, c: int|
                    0 <= r < height && 0 <= c < width ==> #[trigger] self.pixels@[r][c] == (if r
                        < row && crop_width <= c {
                        orig[r][crop_width - 1]
                    } else {
                        orig[r][c]
                    }),
            decreases height - row,
        {
            let rightmost = self.pixels.get(row, crop_width - 1);
            let mut col: usize = crop_width;
            while col < width
                invariant
                    self.pixels.wf(),
                    self.pixels.spec_rows() == height,
                    self.pixels.spec_cols() == width,
                    grid_dims(self.pixels@, height as nat, width as nat),
                    self.spec_crop_width() == crop_width,
                    self.spec_crop_height() == crop_height,
                    1 <= crop_width <= width,
                    1 <= crop_height <= height,
                    row < height,
                    crop_width <= col <= width,
                    rightmost == orig[row as int][crop_width - 1],
                    forall|r: int, c: int|
                        0 <= r < height && 0 <= c < width ==> #[trigger] self.pixels@[r][c] == (
                        if (r < row && crop_width <= c) || (r == row && crop_width <= c < col) {
                            orig[r][crop_width - 1]
                        } else {
                            orig[r][c]
                        }),
                decreases width - col,
            {
                let ghost before = self.pixels@;
                self.pixels.set(row, col, rightmost);
                proof {
                    assert(self.pixels@ == before.update(
                        row as int,
                        before[row as int].update(col as int, rightmost),
                    ));
                    assert forall|r: int, c: int|
                        0 <= r < height && 0 <= c < width implies #[trigger] self.pixels@[r][c]
                        == (if (r < row && crop_width <= c) || (r == row && crop_width <= c < col
                        + 1) {
                        orig[r][crop_width - 1]
                    } else {
                        orig[r][c]
                    }) by {
                        if r == row && c == col {
                        } else {
                            assert(self.pixels@[r][c] == before[r][c]);
                            assert(before[r][c] == (if (r < row && crop_width <= c) || (r == row
                                && crop_width <= c < col) {
                                orig[r][crop_width - 1]
                            } else {
                                orig[r][c]
                            }));
                        }
                    }
                }
                col = col + 1;
            }
            row = row + 1;
        }

        let ghost mid = self.pixels@;
        let mut row: usize = crop_height;
        while row < height
            invariant
                self.pixels.wf(),
                self.pixels.spec_rows() == height,
                self.pixels.spec_cols() == width,
                grid_dims(self.pixels@, height as nat, width as nat),
                self.spec_crop_width() == crop_width,
                self.spec_crop_height() == crop_height,
                1 <= crop_width <= width,
                1 <= crop_height <= height,
                crop_height <= row <= height,
                forall|r: int, c: int|
                    0 <= r < height && 0 <= c < width ==> #[trigger] self.pixels@[r][c] == (if
                        crop_height <= r < row {
                        mid[crop_height - 1][c]
                    } else {
                        mid[r][c]
                    }),
            decreases height - row,
        {
            let mut col: usize = 0;
            while col < width
                invariant
                    self.pixels.wf(),
                    self.pixels.spec_rows() == height,
                    self.pixels.spec_cols() == width,
                    grid_dims(self.pixels@, height as nat, width as nat),
                    self.spec_crop_width() == crop_width,
                    self.spec_crop_height() == crop_height,
                    1 <= crop_width <= width,
                    1 <= crop_height <= height,
                    crop_height <= row < height,
                    col <= width,
                    forall|r: int, c: int|
                        0 <= r < height && 0 <= c < width ==> #[trigger] self.pixels@[r][c] == (
                        if (crop_height <= r < row) || (r == row && c < col) {
                            mid[crop_height - 1][c]
                        } else {
                            mid[r][c]
                        }),
                decreases width - col,
            {
                let v = self.pixels.get(crop_height - 1, col);
                let ghost before = self.pixels@;
                self.pixels.set(row, col, v);
                proof {
                    assert(v == mid[crop_height - 1][col as int]) by {
                        assert(before[crop_height - 1][col as int] == mid[crop_height - 1][col as int]);
                    }
                    assert forall|r: int, c: int|
                        0 <= r < height && 0 <= c < width implies #[trigger] self.pixels@[r][c]
                        == (if (crop_height <= r < row) || (r == row && c < col + 1) {
                        mid[crop_height - 1][c]
                    } else {
                        mid[r][c]
                    }) by {
                        if r == row && c == col {
                        } else {
                            assert(self.pixels@[r][c] == before[r][c]);
                            assert(before[r][c] == (if (crop_height <= r < row) || (r == row && c
                                < col) {
                                mid[crop_height - 1][c]
                            } else {
                                mid[r][c]
                            }));
                        }
                    }
                }
                col = col + 1;
            }
            row = row + 1;
        }
    }

    /// Copy the crop region row by row from `src` starting at `pos`, then
    /// refresh the padding.  Returns the position after the consumed bytes.
    pub fn read_from(&mut self, src: &[u8], pos: usize) -> (newpos: usize)
        requires
            old(self).wf(),
            pos + old(self).spec_crop_height() * old(self).spec_crop_width() <= src@.len(),
        ensures
            final(self).wf(),
            final(self).spec_width() == old(self).spec_width(),
            final(self).spec_height() == old(self).spec_height(),
            final(self).spec_crop_width() == old(self).spec_crop_width(),
            final(self).spec_crop_height() == old(self).spec_crop_height(),
            newpos == pos + old(self).spec_crop_height() * old(self).spec_crop_width(),
            forall|r: int, c: int|
                0 <= r < final(self).spec_height() && 0 <= c < final(self).spec_width()
                    ==> #[trigger] final(self).px()[r][c] == src@[pos + (if r < old(self).spec_crop_height() {
                    r
                } else {
                    old(self).spec_crop_height() - 1
                }) * old(self).spec_crop_width() + (if c < old(self).spec_crop_width() {
                    c
                } else {
                    old(self).spec_crop_width() - 1
                })],
    {
        let crop_width = self.crop_width;
        let crop_height = self.crop_height;
        let src_len = src.len();
        let mut p: usize = pos;
        let mut row: usize = 0;
        proof {
            vstd::arithmetic::mul::lemma_mul_is_commutative(
                crop_height as int,
                crop_width as int,
            );
        }
        while row < crop_height
            invariant
                self.pixels.wf(),
                self.pixels.spec_rows() == old(self).spec_height(),
                self.pixels.spec_cols() == old(self).spec_width(),
                self.crop_width == crop_width,
                self.crop_height == crop_height,
                grid_dims(self.pixels@, self.pixels.spec_rows(), self.pixels.spec_cols()),
                1 <= crop_width <= self.pixels.spec_cols(),
                1 <= crop_height <= self.pixels.spec_rows(),
                row <= crop_height,
                p == pos + row * crop_width,
                src@.len() == src_len,
                pos + crop_height * crop_width <= src@.len(),
                forall|r: int, c: int|
                    0 <= r < row && 0 <= c < crop_width ==> #[trigger] self.pixels@[r][c]
                        == src@[pos + r * crop_width + c],
            decreases crop_height - row,
        {
            proof {
                vstd::arithmetic::mul::lemma_mul_inequality(
                    row as int + 1,
                    crop_height as int,
                    crop_width as int,
                );
                assert((row + 1) * crop_width == row * crop_width + crop_width)
                    by (nonlinear_arith);
            }
            let mut col: usize = 0;
            while col < crop_width
                invariant
                    self.pixels.wf(),
                    self.pixels.spec_rows() == old(self).spec_height(),
                    self.pixels.spec_cols() == old(self).spec_width(),
                    self.crop_width == crop_width,
                    self.crop_height == crop_height,
                    grid_dims(self.pixels@, self.pixels.spec_rows(), self.pixels.spec_cols()),
                    1 <= crop_width <= self.pixels.spec_cols(),
                    1 <= crop_height <= self.pixels.spec_rows(),
                    row < crop_height,
                    col <= crop_width,
                    p == pos + row * crop_width,
                    src@.len() == src_len,
                    p + crop_width <= src@.len(),
                    pos + crop_height * crop_width <= src@.len(),
                    forall|r: int, c: int|
                        0 <= r < row && 0 <= c < crop_width ==> #[trigger] self.pixels@[r][c]
                            == src@[pos + r * crop_width + c],
                    forall|c: int|
                        0 <= c < col ==> #[trigger] self.pixels@[row as int][c] == src@[pos
                            + row as int * crop_width + c],
                decreases crop_width - col,
            {
                let v = src[p + col];
                self.pixels.set(row, col, v);
                col = col + 1;
            }
            p = p + crop_width;
            row = row + 1;
        }
        proof {
            assert(self.wf());
        }
        self.fill_padding();
        p
    }

    /// Append the crop region row by row to `out`.
    pub fn write_to(&self, out: &mut Vec<u8>)
        requires
            self.wf(),
        ensures
            final(out)@.len() == old(out)@.len() + self.spec_crop_height()
                * self.spec_crop_width(),
            forall|r: int, c: int|
                0 <= r < self.spec_crop_height() && 0 <= c < self.spec_crop_width()
                    ==> #[trigger] final(out)@[old(out)@.len() + r * self.spec_crop_width() + c]
                    == self.px()[r][c],
            forall|i: int| 0 <= i < old(out)@.len() ==> #[trigger] final(out)@[i] == old(out)@[i],
    {
        let crop_width = self.crop_width;
        let crop_height = self.crop_height;
        let ghost base = out@.len() as int;
        let mut row: usize = 0;
        while row < crop_height
            invariant
                self.wf(),
                self.crop_width == crop_width,
                self.crop_height == crop_height,
                row <= crop_height,
                out@.len() == base + row * crop_width,
                base == old(out)@.len(),
                forall|r: int, c: int|
                    0 <= r < row && 0 <= c < crop_width ==> #[trigger] out@[base + r * crop_width
                        + c] == self.px()[r][c],
                forall|i: int| 0 <= i < base ==> #[trigger] out@[i] == old(out)@[i],
            decreases crop_height - row,
        {
            proof {
                assert((row + 1) * crop_width == row * crop_width + crop_width)
                    by (nonlinear_arith);
                vstd::arithmetic::mul::lemma_mul_inequality(
                    row as int + 1,
                    crop_height as int,
                    crop_width as int,
                );
                vstd::arithmetic::mul::lemma_mul_nonnegative(row as int, crop_width as int);
            }
            let mut col: usize = 0;
            while col < crop_width
                invariant
                    self.wf(),
                    self.crop_width == crop_width,
                    self.crop_height == crop_height,
                    row < crop_height,
                    col <= crop_width,
                    out@.len() == base + row * crop_width + col,
                    base == old(out)@.len(),
                    base + row * crop_width + crop_width <= base + crop_height * crop_width,
                    0 <= row * crop_width,
                    forall|r: int, c: int|
                        0 <= r < row && 0 <= c < crop_width ==> #[trigger] out@[base + r
                            * crop_width + c] == self.px()[r][c],
                    forall|c: int|
                        0 <= c < col ==> #[trigger] out@[base + row as int * crop_width + c]
                            == self.px()[row as int][c],
                    forall|i: int| 0 <= i < base ==> #[trigger] out@[i] == old(out)@[i],
                decreases crop_width - col,
            {
                let v = self.pixels.get(row, col);
                let ghost before = out@;
                out.push(v);
                proof {
                    assert forall|r: int, c: int|
                        0 <= r < row && 0 <= c < crop_width implies #[trigger] out@[base + r
                        * crop_width + c] == self.px()[r][c] by {
                        vstd::arithmetic::mul::lemma_mul_inequality(
                            r + 1,
                            row as int,
                            crop_width as int,
                        );
                        assert((r + 1) * crop_width == r * crop_width + crop_width)
                            by (nonlinear_arith);
                        vstd::arithmetic::mul::lemma_mul_nonnegative(r, crop_width as int);
                        assert(base + r * crop_width + c < before.len());
                        assert(out@[base + r * crop_width + c] == before[base + r * crop_width
                            + c]);
                    }
                }
                col = col + 1;
            }
            row = row + 1;
        }
        proof {
            vstd::arithmetic::mul::lemma_mul_is_commutative(
                crop_height as int,
                crop_width as int,
            );
        }
    }
}

/// A three-plane YUV 4:2:0 frame.
pub struct Frame {
    y: Plane,
    u: Plane,
    v: Plane,
}

/// The padded luma width for a crop width: the next multiple of 8.
pub open spec fn padded8(w: nat) -> nat {
    ((w + 7) / 8) * 8
}

impl Frame {
    pub closed spec fn spec_plane(&self, i: int) -> Plane {
        if i == 0 {
            self.y
        } else if i == 1 {
            self.u
        } else {
            self.v
        }
    }

    pub open spec fn wf(&self) -> bool {
        &&& self.spec_plane(0).wf()
        &&& self.spec_plane(1).wf()
        &&& self.spec_plane(2).wf()
        &&& self.spec_plane(1).spec_width() == self.spec_plane(0).spec_width() / 2
        &&& self.spec_plane(1).spec_height() == self.spec_plane(0).spec_height() / 2
        &&& self.spec_plane(2).spec_width() == self.spec_plane(1).spec_width()
        &&& self.spec_plane(2).spec_height() == self.spec_plane(1).spec_height()
    }

    /// A frame for the given luma crop size with every pixel at the default
    /// 128; plane buffers are padded to the next multiple of 8 luma pixels,
    /// halved for chroma.
    pub fn new(y_crop_height: usize, y_crop_width: usize) -> (f: Frame)
        requires
            1 <= y_crop_width <= 65536,
            1 <= y_crop_height <= 65536,
            padded8(y_crop_width as nat) * padded8(y_crop_height as nat) <= usize::MAX,
        ensures
            f.wf(),
            f.spec_plane(0).spec_width() == padded8(y_crop_width as nat),
            f.spec_plane(0).spec_height() == padded8(y_crop_height as nat),
            f.spec_plane(0).spec_crop_width() == y_crop_width,
            f.spec_plane(0).spec_crop_height() == y_crop_height,
            f.spec_plane(1).spec_crop_width() == (y_crop_width + 1) / 2,
            f.spec_plane(1).spec_crop_height() == (y_crop_height + 1) / 2,
            f.spec_plane(2).spec_crop_width() == (y_crop_width + 1) / 2,
            f.spec_plane(2).spec_crop_height() == (y_crop_height + 1) / 2,
            forall|p: int, r: int, c: int|
                0 <= p < 3 && 0 <= r < f.spec_plane(p).spec_height() && 0 <= c < f.spec_plane(
                    p,
                ).spec_width() ==> #[trigger] f.spec_plane(p).px()[r][c] == 128,
    {
        let y_width = ((y_crop_width + 7) / 8) * 8;
        let y_height = ((y_crop_height + 7) / 8) * 8;
        let uv_crop_width = (y_crop_width + 1) / 2;
        let uv_crop_height = (y_crop_height + 1) / 2;
        let uv_width = y_width / 2;
        let uv_height = y_height / 2;
        proof {
            assert(y_width <= 65544 && y_height <= 65544 && y_width >= 8 && y_height >= 8
                && y_width % 8 == 0 && y_height % 8 == 0 && y_crop_width <= y_width
                && y_crop_height <= y_height) by (nonlinear_arith)
                requires
                    y_width == ((y_crop_width + 7) / 8) * 8,
                    y_height == ((y_crop_height + 7) / 8) * 8,
                    1 <= y_crop_width <= 65536,
                    1 <= y_crop_height <= 65536,
            ;
            assert(y_width == padded8(y_crop_width as nat) && y_height == padded8(
                y_crop_height as nat,
            ));
            vstd::arithmetic::mul::lemma_mul_is_commutative(y_width as int, y_height as int);
            assert(y_height * y_width <= usize::MAX);
            assert(uv_height * uv_width <= y_height * y_width && uv_width * uv_height <= y_width
                * y_height) by (nonlinear_arith)
                requires
                    uv_height == y_height / 2,
                    uv_width == y_width / 2,
                    y_height >= 0,
                    y_width >= 0,
            ;
            assert(uv_crop_width <= uv_width && uv_crop_height <= uv_height && 1 <= uv_crop_width
                && 1 <= uv_crop_height) by (nonlinear_arith)
                requires
                    uv_crop_width == (y_crop_width + 1) / 2,
                    uv_crop_height == (y_crop_height + 1) / 2,
                    uv_width == y_width / 2,
                    uv_height == y_height / 2,
                    1 <= y_crop_width <= y_width,
                    1 <= y_crop_height <= y_height,
                    y_width % 8 == 0,
                    y_height % 8 == 0,
            ;
        }
        let y = Plane::new(y_crop_height, y_crop_width, y_height, y_width);
        let u = Plane::new(uv_crop_height, uv_crop_width, uv_height, uv_width);
        let v = Plane::new(uv_crop_height, uv_crop_width, uv_height, uv_width);
        Frame { y, u, v }
    }

    pub fn plane(&self, idx: usize) -> (r: &Plane)
        requires
            idx < 3,
        ensures
            *r == self.spec_plane(idx as int),
    {
        if idx == 0 {
            &self.y
        } else if idx == 1 {
            &self.u
        } else {
            &self.v
        }
    }

    pub fn plane_mut(&mut self, idx: usize) -> (r: &mut Plane)
        requires
            idx < 3,
        ensures
            *r == old(self).spec_plane(idx as int),
            forall|p: int|
                0 <= p < 3 ==> final(self).spec_plane(p) == (if p == idx {
                    *final(r)
                } else {
                    old(self).spec_plane(p)
                }),
    {
        if idx == 0 {
            &mut self.y
        } else if idx == 1 {
            &mut self.u
        } else {
            &mut self.v
        }
    }

    pub fn y(&self) -> (r: &Plane)
        ensures
            *r == self.spec_plane(0),
    {
        &self.y
    }

    pub fn u(&self) -> (r: &Plane)
        ensures
            *r == self.spec_plane(1),
    {
        &self.u
    }

    pub fn v(&self) -> (r: &Plane)
        ensures
            *r == self.spec_plane(2),
    {
        &self.v
    }

    pub fn y_mut(&mut self) -> (r: &mut Plane)
        ensures
            *r == old(self).spec_plane(0),
            forall|p: int|
                0 <= p < 3 ==> final(self).spec_plane(p) == (if p == 0 {
                    *final(r)
                } else {
                    old(self).spec_plane(p)
                }),
    {
        &mut self.y
    }

    pub fn u_mut(&mut self) -> (r: &mut Plane)
        ensures
            *r == old(self).spec_plane(1),
            forall|p: int|
                0 <= p < 3 ==> final(self).spec_plane(p) == (if p == 1 {
                    *final(r)
                } else {
                    old(self).spec_plane(p)
                }),
    {
        &mut self.u
    }

    pub fn v_mut(&mut self) -> (r: &mut Plane)
        ensures
            *r == old(self).spec_plane(2),
            forall|p: int|
                0 <= p < 3 ==> final(self).spec_plane(p) == (if p == 2 {
                    *final(r)
                } else {
                    old(self).spec_plane(p)
                }),
    {
        &mut self.v
    }
}

} // verus!
