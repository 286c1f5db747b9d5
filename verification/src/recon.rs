use vstd::prelude::*;

verus! {

use crate::array2d::Array2D;
use crate::array2d::grid_dims;
use crate::consts::qindex_to_dc_q;
use crate::consts::qindex_to_ac_q;
use crate::txfm::spec_fwd_txfm2d;
use crate::txfm::spec_inv_txfm2d;
use crate::txfm::fwd_txfm2d;
use crate::txfm::inv_txfm2d;

// DC prediction, the residual transform, quantization and reconstruction.

pub proof fn lemma_q_bounds(i: int)
    requires
        0 <= i < 256,
    ensures
        4 <= qindex_to_dc_q[i] <= 1336,
        4 <= qindex_to_ac_q[i] <= 1828,
{
    reveal(crate::consts::qindex_to_dc_q);
    reveal(crate::consts::qindex_to_ac_q);
    assert(4 <= qindex_to_dc_q[i] <= 1336);
    assert(4 <= qindex_to_ac_q[i] <= 1828);
}

pub open spec fn sum_above(px: Seq<Seq<u8>>, y0: int, x0: int, k: int) -> int
    decreases k,
{
    if k <= 0 {
        0
    } else {
        sum_above(px, y0, x0, k - 1) + px[y0 - 1][x0 + k - 1]
    }
}

pub open spec fn sum_left(px: Seq<Seq<u8>>, y0: int, x0: int, k: int) -> int
    decreases k,
{
    if k <= 0 {
        0
    } else {
        sum_left(px, y0, x0, k - 1) + px[y0 + k - 1][x0 - 1]
    }
}

/// The DC prediction value: the rounded average of the available above-row
/// and left-column neighbours, or 128 when neither side exists.
pub open spec fn spec_dc_pred(px: Seq<Seq<u8>>, y0: int, x0: int, h: int, w: int) -> u8 {
    let have_above = y0 > 0;
    let have_left = x0 > 0;
    let sa = if have_above {
        sum_above(px, y0, x0, w)
    } else {
        0
    };
    let sl = if have_left {
        sum_left(px, y0, x0, h)
    } else {
        0
    };
    let avg = if have_above && have_left {
        (sa + sl + (w + h) / 2) / (w + h)
    } else if have_above {
        (sa + w / 2) / w
    } else if have_left {
        (sl + h / 2) / h
    } else {
        128
    };
    if avg > 255 {
        255u8
    } else {
        avg as u8
    }
}

proof fn lemma_sum_above_bound(px: Seq<Seq<u8>>, y0: int, x0: int, k: int)
    requires
        k >= 0,
    ensures
        0 <= sum_above(px, y0, x0, k) <= 255 * k,
    decreases k,
{
    if k > 0 {
        lemma_sum_above_bound(px, y0, x0, k - 1);
    }
}

proof fn lemma_sum_left_bound(px: Seq<Seq<u8>>, y0: int, x0: int, k: int)
    requires
        k >= 0,
    ensures
        0 <= sum_left(px, y0, x0, k) <= 255 * k,
    decreases k,
{
    if k > 0 {
        lemma_sum_left_bound(px, y0, x0, k - 1);
    }
}

/// Fill the h x w block at (y0, x0) with its DC prediction.
pub fn dc_predict(pixels: &mut Array2D<u8>, y0: usize, x0: usize, h: usize, w: usize)
    requires
        old(pixels).wf(),
        grid_dims(old(pixels)@, old(pixels).spec_rows(), old(pixels).spec_cols()),
        y0 + h <= old(pixels).spec_rows(),
        x0 + w <= old(pixels).spec_cols(),
        1 <= h <= 64,
        1 <= w <= 64,
    ensures
        final(pixels).wf(),
        final(pixels).spec_rows() == old(pixels).spec_rows(),
        final(pixels).spec_cols() == old(pixels).spec_cols(),
        grid_dims(final(pixels)@, old(pixels).spec_rows(), old(pixels).spec_cols()),
        forall|r: int, c: int|
            0 <= r < old(pixels).spec_rows() && 0 <= c < old(pixels).spec_cols()
                ==> #[trigger] final(pixels)@[r][c] == (if y0 <= r < y0 + h && x0 <= c < x0 + w {
                spec_dc_pred(old(pixels)@, y0 as int, x0 as int, h as int, w as int)
            } else {
                old(pixels)@[r][c]
            }),
{
    proof {
        pixels.lemma_dims();
    }
    let have_left = x0 > 0;
    let have_above = y0 > 0;

    let mut sum: usize = 0;
    if have_above {
        let mut j: usize = 0;
        while j < w
            invariant
                pixels.wf(),
                pixels == old(pixels),
                y0 + h <= pixels.spec_rows(),
                x0 + w <= pixels.spec_cols(),
                y0 + h <= usize::MAX,
                x0 + w <= usize::MAX,
                1 <= h <= 64,
                1 <= w <= 64,
                y0 > 0,
                j <= w,
                sum == sum_above(pixels@, y0 as int, x0 as int, j as int),
                sum <= 255 * j,
            decreases w - j,
        {
            let v = pixels.get(y0 - 1, x0 + j);
            sum = sum + v as usize;
            j = j + 1;
        }
    }
    if have_left {
        let ghost sa = sum as int;
        let mut i: usize = 0;
        while i < h
            invariant
                pixels.wf(),
                pixels == old(pixels),
                y0 + h <= pixels.spec_rows(),
                x0 + w <= pixels.spec_cols(),
                y0 + h <= usize::MAX,
                x0 + w <= usize::MAX,
                1 <= h <= 64,
                1 <= w <= 64,
                x0 > 0,
                i <= h,
                sa <= 255 * 64,
                sum == sa + sum_left(pixels@, y0 as int, x0 as int, i as int),
                sum <= sa + 255 * i,
            decreases h - i,
        {
            let v = pixels.get(y0 + i, x0 - 1);
            sum = sum + v as usize;
            i = i + 1;
        }
    }

    proof {
        lemma_sum_above_bound(pixels@, y0 as int, x0 as int, w as int);
        lemma_sum_left_bound(pixels@, y0 as int, x0 as int, h as int);
    }
    let avg: usize = if have_above && have_left {
        (sum + (w + h) / 2) / (w + h)
    } else if have_above {
        (sum + w / 2) / w
    } else if have_left {
        (sum + h / 2) / h
    } else {
        128
    };
    let pred: u8 = if avg > 255 {
        255
    } else {
        avg as u8
    };
    proof {
        assert(pred == spec_dc_pred(pixels@, y0 as int, x0 as int, h as int, w as int));
    }
    pixels.fill_region(y0, x0, h, w, pred);
}

/// The pointwise difference of the source block and its prediction.
pub open spec fn spec_diff(
    source: Seq<Seq<u8>>,
    pred: Seq<Seq<u8>>,
    y0: int,
    x0: int,
    h: nat,
    w: nat,
) -> Seq<Seq<i32>> {
    Seq::new(h, |i: int| Seq::new(w, |j: int| (source[y0 + i][x0 + j] - pred[y0 + i][x0 + j]) as i32))
}

/// The forward-transformed residual of a block.
pub fn compute_residual(
    source: &Array2D<u8>,
    pred: &Array2D<u8>,
    y0: usize,
    x0: usize,
    h: usize,
    w: usize,
) -> (r: Array2D<i32>)
    requires
        source.wf(),
        pred.wf(),
        grid_dims(source@, source.spec_rows(), source.spec_cols()),
        grid_dims(pred@, pred.spec_rows(), pred.spec_cols()),
        y0 + h <= source.spec_rows(),
        x0 + w <= source.spec_cols(),
        y0 + h <= pred.spec_rows(),
        x0 + w <= pred.spec_cols(),
        h == w,
        h == 4 || h == 8,
    ensures
        r.wf(),
        r.spec_rows() == h,
        r.spec_cols() == w,
        grid_dims(r@, h as nat, w as nat),
        r@ == spec_fwd_txfm2d(spec_diff(source@, pred@, y0 as int, x0 as int, h as nat, w as nat), h as nat),
{
    proof {
        source.lemma_dims();
    }
    let mut residual = Array2D::<i32>::zeroed(h, w);
    let mut i: usize = 0;
    while i < h
        invariant
            residual.wf(),
            residual.spec_rows() == h,
            residual.spec_cols() == w,
            grid_dims(residual@, h as nat, w as nat),
            source.wf(),
            pred.wf(),
            grid_dims(source@, source.spec_rows(), source.spec_cols()),
            grid_dims(pred@, pred.spec_rows(), pred.spec_cols()),
            y0 + h <= source.spec_rows(),
            x0 + w <= source.spec_cols(),
            y0 + h <= pred.spec_rows(),
            x0 + w <= pred.spec_cols(),
            y0 + h <= usize::MAX,
            x0 + w <= usize::MAX,
            i <= h,
            forall|r2: int, c2: int|
                0 <= r2 < i && 0 <= c2 < w ==> #[trigger] residual@[r2][c2] == (source@[y0 + r2][
                    x0 + c2] - pred@[y0 + r2][x0 + c2]) as i32,
        decreases h - i,
    {
        let mut j: usize = 0;
        while j < w
            invariant
                residual.wf(),
                residual.spec_rows() == h,
                residual.spec_cols() == w,
                grid_dims(residual@, h as nat, w as nat),
                source.wf(),
                pred.wf(),
                grid_dims(source@, source.spec_rows(), source.spec_cols()),
                grid_dims(pred@, pred.spec_rows(), pred.spec_cols()),
                y0 + h <= source.spec_rows(),
                x0 + w <= source.spec_cols(),
                y0 + h <= pred.spec_rows(),
                x0 + w <= pred.spec_cols(),
                y0 + h <= usize::MAX,
                x0 + w <= usize::MAX,
                i < h,
                j <= w,
                forall|r2: int, c2: int|
                    0 <= r2 < i && 0 <= c2 < w ==> #[trigger] residual@[r2][c2] == (source@[y0
                        + r2][x0 + c2] - pred@[y0 + r2][x0 + c2]) as i32,
                forall|c2: int|
                    0 <= c2 < j ==> #[trigger] residual@[i as int][c2] == (source@[y0 + i][x0 + c2]
                        - pred@[y0 + i][x0 + c2]) as i32,
            decreases w - j,
        {
            let s = source.get(y0 + i, x0 + j);
            let p = pred.get(y0 + i, x0 + j);
            let d: i32 = (s as i32) - (p as i32);
            residual.set(i, j, d);
            j = j + 1;
        }
        i = i + 1;
    }
    proof {
        assert(residual@ =~= spec_diff(source@, pred@, y0 as int, x0 as int, h as nat, w as nat))
            by {
            assert forall|r2: int| 0 <= r2 < h implies residual@[r2] =~= spec_diff(
                source@,
                pred@,
                y0 as int,
                x0 as int,
                h as nat,
                w as nat,
            )[r2] by {}
        }
    }
    fwd_txfm2d(&mut residual, h, w);
    residual
}

/// Division by q, rounding to nearest with halves toward zero.
pub open spec fn spec_quantize_coeff(c: int, q: int) -> int {
    if c < 0 {
        -((-c + (q - 1) / 2) / q)
    } else {
        (c + (q - 1) / 2) / q
    }
}

/// Multiplication by q, saturated to the i32 range.
pub open spec fn spec_dequantize_coeff(c: int, q: int) -> int {
    let t = c * q;
    if t < i32::MIN {
        i32::MIN as int
    } else if t > i32::MAX {
        i32::MAX as int
    } else {
        t
    }
}

/// Quantize-then-dequantize returns an already-quantized coefficient to
/// itself, up to the scaling by q: dividing the scaled value by q again,
/// with the same rounding, is the identity.
pub proof fn lemma_quantize_dequantize(x: int, q: int)
    requires
        q >= 1,
        i32::MIN <= x * q <= i32::MAX,
    ensures
        spec_quantize_coeff(spec_dequantize_coeff(x, q), q) == x,
{
    let h = (q - 1) / 2;
    assert(0 <= h < q) by {
        vstd::arithmetic::div_mod::lemma_div_nonincreasing(q - 1, 2);
        vstd::arithmetic::div_mod::lemma_div_pos_is_pos(q - 1, 2);
    }
    let t = x * q;
    assert(spec_dequantize_coeff(x, q) == t);
    if x >= 0 {
        assert(x * q >= 0) by (nonlinear_arith)
            requires
                x >= 0,
                q >= 1,
        ;
        assert((t + h) / q == x) by {
            vstd::arithmetic::div_mod::lemma_fundamental_div_mod_converse(t + h, q, x, h);
        }
    } else {
        assert(x * q <= -q) by (nonlinear_arith)
            requires
                x <= -1,
                q >= 1,
        ;
        assert(-(x * q) == (-x) * q) by (nonlinear_arith);
        assert(((-t) + h) / q == -x) by {
            vstd::arithmetic::div_mod::lemma_fundamental_div_mod_converse((-t) + h, q, -x, h);
        }
    }
}

fn quantize_coeff(c: i32, q: i32) -> (r: i32)
    requires
        4 <= q <= 0x10000,
    ensures
        r == spec_quantize_coeff(c as int, q as int),
        -0x40000000 <= r <= 0x40000000,
{
    let qi: i64 = q as i64;
    let half: i64 = (qi - 1) / 2;
    proof {
        vstd::arithmetic::div_mod::lemma_div_pos_is_pos(qi - 1, 2);
    }
    if c < 0 {
        let a: i64 = -(c as i64);
        let t: i64 = (a + half) / qi;
        proof {
            vstd::arithmetic::div_mod::lemma_div_is_ordered(
                (a + half) as int,
                0x80010000,
                qi as int,
            );
            vstd::arithmetic::div_mod::lemma_div_is_ordered_by_denominator(0x80010000, 4, qi as int);
            vstd::arithmetic::div_mod::lemma_div_pos_is_pos((a + half) as int, qi as int);
        }
        (-t) as i32
    } else {
        let a: i64 = c as i64;
        let t: i64 = (a + half) / qi;
        proof {
            vstd::arithmetic::div_mod::lemma_div_is_ordered(
                (a + half) as int,
                0x80010000,
                qi as int,
            );
            vstd::arithmetic::div_mod::lemma_div_is_ordered_by_denominator(0x80010000, 4, qi as int);
            vstd::arithmetic::div_mod::lemma_div_pos_is_pos((a + half) as int, qi as int);
        }
        t as i32
    }
}

fn dequantize_coeff(c: i32, q: i32) -> (r: i32)
    requires
        1 <= q <= 0x10000,
    ensures
        r == spec_dequantize_coeff(c as int, q as int),
{
    proof {
        assert(-0x8000000000000 <= (c as int) * (q as int) <= 0x8000000000000)
            by (nonlinear_arith)
            requires
                -0x80000000 <= c as int <= 0x7FFFFFFF,
                1 <= q as int <= 0x10000,
        ;
    }
    let t: i64 = (c as i64) * (q as i64);
    if t < i32::MIN as i64 {
        i32::MIN
    } else if t > i32::MAX as i64 {
        i32::MAX
    } else {
        t as i32
    }
}

/// The whole block quantized: the DC coefficient with dc_q, all others with
/// ac_q.
pub open spec fn spec_quantize(m: Seq<Seq<i32>>, qindex: int) -> Seq<Seq<i32>> {
    let dc_q = qindex_to_dc_q[qindex] as int;
    let ac_q = qindex_to_ac_q[qindex] as int;
    Seq::new(
        m.len(),
        |i: int|
            Seq::new(
                m[i].len(),
                |j: int|
                    spec_quantize_coeff(
                        m[i][j] as int,
                        if i == 0 && j == 0 {
                            dc_q
                        } else {
                            ac_q
                        },
                    ) as i32,
            ),
    )
}

pub open spec fn spec_dequantize(m: Seq<Seq<i32>>, qindex: int) -> Seq<Seq<i32>> {
    let dc_q = qindex_to_dc_q[qindex] as int;
    let ac_q = qindex_to_ac_q[qindex] as int;
    Seq::new(
        m.len(),
        |i: int|
            Seq::new(
                m[i].len(),
                |j: int|
                    spec_dequantize_coeff(
                        m[i][j] as int,
                        if i == 0 && j == 0 {
                            dc_q
                        } else {
                            ac_q
                        },
                    ) as i32,
            ),
    )
}

/// Quantize every coefficient of the block in place.
#[verifier::rlimit(100)]
pub fn quantize(residual: &mut Array2D<i32>, qindex: u8)
    requires
        old(residual).wf(),
        grid_dims(old(residual)@, old(residual).spec_rows(), old(residual).spec_cols()),
    ensures
        final(residual).wf(),
        final(residual).spec_rows() == old(residual).spec_rows(),
        final(residual).spec_cols() == old(residual).spec_cols(),
        grid_dims(final(residual)@, old(residual).spec_rows(), old(residual).spec_cols()),
        final(residual)@ == spec_quantize(old(residual)@, qindex as int),
{
    proof {
        lemma_q_bounds(qindex as int);
    }
    let dc_q = qindex_to_dc_q[qindex as usize];
    let ac_q = qindex_to_ac_q[qindex as usize];
    let rows = residual.rows();
    let cols = residual.cols();
    let mut i: usize = 0;
    while i < rows
        invariant
            residual.wf(),
            residual.spec_rows() == rows,
            residual.spec_cols() == cols,
            grid_dims(residual@, rows as nat, cols as nat),
            grid_dims(old(residual)@, rows as nat, cols as nat),
            i <= rows,
            dc_q == qindex_to_dc_q[qindex as int],
            ac_q == qindex_to_ac_q[qindex as int],
            4 <= dc_q <= 0x10000,
            4 <= ac_q <= 0x10000,
            forall|r2: int, c2: int|
                0 <= r2 < rows && 0 <= c2 < cols ==> #[trigger] residual@[r2][c2] == (if r2 < i {
                    spec_quantize(old(residual)@, qindex as int)[r2][c2]
                } else {
                    old(residual)@[r2][c2]
                }),
        decreases rows - i,
    {
        let mut j: usize = 0;
        while j < cols
            invariant
                residual.wf(),
                residual.spec_rows() == rows,
                residual.spec_cols() == cols,
                grid_dims(residual@, rows as nat, cols as nat),
                grid_dims(old(residual)@, rows as nat, cols as nat),
                i < rows,
                j <= cols,
                dc_q == qindex_to_dc_q[qindex as int],
                ac_q == qindex_to_ac_q[qindex as int],
                4 <= dc_q <= 0x10000,
                4 <= ac_q <= 0x10000,
                forall|r2: int, c2: int|
                    0 <= r2 < rows && 0 <= c2 < cols ==> #[trigger] residual@[r2][c2] == (if r2 < i
                        || (r2 == i && c2 < j) {
                        spec_quantize(old(residual)@, qindex as int)[r2][c2]
                    } else {
                        old(residual)@[r2][c2]
                    }),
            decreases cols - j,
        {
            let q = if i == 0 && j == 0 {
                dc_q
            } else {
                ac_q
            };
            let c = residual.get(i, j);
            let v = quantize_coeff(c, q);
            let ghost before = residual@;
            residual.set(i, j, v);
            proof {
                assert forall|r2: int, c2: int|
                    0 <= r2 < rows && 0 <= c2 < cols implies #[trigger] residual@[r2][c2] == (
                if r2 < i || (r2 == i && c2 < j + 1) {
                    spec_quantize(old(residual)@, qindex as int)[r2][c2]
                } else {
                    old(residual)@[r2][c2]
                }) by {
                    if r2 == i && c2 == j {
                    } else {
                        assert(residual@[r2][c2] == before[r2][c2]);
                    }
                }
            }
            j = j + 1;
        }
        i = i + 1;
    }
    proof {
        assert(residual@ =~= spec_quantize(old(residual)@, qindex as int)) by {
            assert forall|r2: int| 0 <= r2 < rows implies residual@[r2] =~= spec_quantize(
                old(residual)@,
                qindex as int,
            )[r2] by {}
        }
    }
}

/// Dequantize every coefficient of the block in place.
#[verifier::rlimit(100)]
pub fn dequantize(residual: &mut Array2D<i32>, qindex: u8)
    requires
        old(residual).wf(),
        grid_dims(old(residual)@, old(residual).spec_rows(), old(residual).spec_cols()),
    ensures
        final(residual).wf(),
        final(residual).spec_rows() == old(residual).spec_rows(),
        final(residual).spec_cols() == old(residual).spec_cols(),
        grid_dims(final(residual)@, old(residual).spec_rows(), old(residual).spec_cols()),
        final(residual)@ == spec_dequantize(old(residual)@, qindex as int),
{
    proof {
        lemma_q_bounds(qindex as int);
    }
    let dc_q = qindex_to_dc_q[qindex as usize];
    let ac_q = qindex_to_ac_q[qindex as usize];
    let rows = residual.rows();
    let cols = residual.cols();
    let mut i: usize = 0;
    while i < rows
        invariant
            residual.wf(),
            residual.spec_rows() == rows,
            residual.spec_cols() == cols,
            grid_dims(residual@, rows as nat, cols as nat),
            grid_dims(old(residual)@, rows as nat, cols as nat),
            i <= rows,
            dc_q == qindex_to_dc_q[qindex as int],
            ac_q == qindex_to_ac_q[qindex as int],
            4 <= dc_q <= 0x10000,
            4 <= ac_q <= 0x10000,
            forall|r2: int, c2: int|
                0 <= r2 < rows && 0 <= c2 < cols ==> #[trigger] residual@[r2][c2] == (if r2 < i {
                    spec_dequantize(old(residual)@, qindex as int)[r2][c2]
                } else {
                    old(residual)@[r2][c2]
                }),
        decreases rows - i,
    {
        let mut j: usize = 0;
        while j < cols
            invariant
                residual.wf(),
                residual.spec_rows() == rows,
                residual.spec_cols() == cols,
                grid_dims(residual@, rows as nat, cols as nat),
                grid_dims(old(residual)@, rows as nat, cols as nat),
                i < rows,
                j <= cols,
                dc_q == qindex_to_dc_q[qindex as int],
                ac_q == qindex_to_ac_q[qindex as int],
                4 <= dc_q <= 0x10000,
                4 <= ac_q <= 0x10000,
                forall|r2: int, c2: int|
                    0 <= r2 < rows && 0 <= c2 < cols ==> #[trigger] residual@[r2][c2] == (if r2 < i
                        || (r2 == i && c2 < j) {
                        spec_dequantize(old(residual)@, qindex as int)[r2][c2]
                    } else {
                        old(residual)@[r2][c2]
                    }),
            decreases cols - j,
        {
            let q = if i == 0 && j == 0 {
                dc_q
            } else {
                ac_q
            };
            let c = residual.get(i, j);
            let v = dequantize_coeff(c, q);
            let ghost before = residual@;
            residual.set(i, j, v);
            proof {
                assert forall|r2: int, c2: int|
                    0 <= r2 < rows && 0 <= c2 < cols implies #[trigger] residual@[r2][c2] == (
                if r2 < i || (r2 == i && c2 < j + 1) {
                    spec_dequantize(old(residual)@, qindex as int)[r2][c2]
                } else {
                    old(residual)@[r2][c2]
                }) by {
                    if r2 == i && c2 == j {
                    } else {
                        assert(residual@[r2][c2] == before[r2][c2]);
                    }
                }
            }
            j = j + 1;
        }
        i = i + 1;
    }
    proof {
        assert(residual@ =~= spec_dequantize(old(residual)@, qindex as int)) by {
            assert forall|r2: int| 0 <= r2 < rows implies residual@[r2] =~= spec_dequantize(
                old(residual)@,
                qindex as int,
            )[r2] by {}
        }
    }
}

pub open spec fn spec_clamp_pixel(v: int) -> u8 {
    if v < 0 {
        0u8
    } else if v > 255 {
        255u8
    } else {
        v as u8
    }
}

/// Inverse-transform the residual and add it to the prediction in `recon`,
/// clamping to the pixel range.
#[verifier::rlimit(100)]
pub fn apply_residual(
    recon: &mut Array2D<u8>,
    residual: Array2D<i32>,
    y0: usize,
    x0: usize,
    h: usize,
    w: usize,
)
    requires
        old(recon).wf(),
        grid_dims(old(recon)@, old(recon).spec_rows(), old(recon).spec_cols()),
        residual.wf(),
        grid_dims(residual@, h as nat, w as nat),
        residual.spec_rows() == h,
        residual.spec_cols() == w,
        y0 + h <= old(recon).spec_rows(),
        x0 + w <= old(recon).spec_cols(),
        h == w,
        h == 4 || h == 8,
    ensures
        final(recon).wf(),
        final(recon).spec_rows() == old(recon).spec_rows(),
        final(recon).spec_cols() == old(recon).spec_cols(),
        grid_dims(final(recon)@, old(recon).spec_rows(), old(recon).spec_cols()),
        forall|r: int, c: int|
            0 <= r < old(recon).spec_rows() && 0 <= c < old(recon).spec_cols()
                ==> #[trigger] final(recon)@[r][c] == (if y0 <= r < y0 + h && x0 <= c < x0 + w {
                spec_clamp_pixel(
                    old(recon)@[r][c] + spec_inv_txfm2d(residual@, h as nat)[r - y0][c - x0],
                )
            } else {
                old(recon)@[r][c]
            }),
{
    proof {
        old(recon).lemma_dims();
    }
    let mut res = residual;
    inv_txfm2d(&mut res, h, w);
    let mut i: usize = 0;
    while i < h
        invariant
            recon.wf(),
            recon.spec_rows() == old(recon).spec_rows(),
            recon.spec_cols() == old(recon).spec_cols(),
            grid_dims(recon@, old(recon).spec_rows(), old(recon).spec_cols()),
            res.wf(),
            res.spec_rows() == h,
            res.spec_cols() == w,
            grid_dims(res@, h as nat, w as nat),
            res@ == spec_inv_txfm2d(residual@, h as nat),
            y0 + h <= old(recon).spec_rows(),
            x0 + w <= old(recon).spec_cols(),
            y0 + h <= usize::MAX,
            x0 + w <= usize::MAX,
            i <= h,
            forall|r: int, c: int|
                0 <= r < old(recon).spec_rows() && 0 <= c < old(recon).spec_cols()
                    ==> #[trigger] recon@[r][c] == (if y0 <= r < y0 + i && x0 <= c < x0 + w {
                    spec_clamp_pixel(old(recon)@[r][c] + res@[r - y0][c - x0])
                } else {
                    old(recon)@[r][c]
                }),
        decreases h - i,
    {
        let mut j: usize = 0;
        while j < w
            invariant
                recon.wf(),
                recon.spec_rows() == old(recon).spec_rows(),
                recon.spec_cols() == old(recon).spec_cols(),
                grid_dims(recon@, old(recon).spec_rows(), old(recon).spec_cols()),
                res.wf(),
                res.spec_rows() == h,
                res.spec_cols() == w,
                grid_dims(res@, h as nat, w as nat),
                res@ == spec_inv_txfm2d(residual@, h as nat),
                y0 + h <= old(recon).spec_rows(),
                x0 + w <= old(recon).spec_cols(),
                y0 + h <= usize::MAX,
                x0 + w <= usize::MAX,
                i < h,
                j <= w,
                forall|r: int, c: int|
                    0 <= r < old(recon).spec_rows() && 0 <= c < old(recon).spec_cols()
                        ==> #[trigger] recon@[r][c] == (if (y0 <= r < y0 + i && x0 <= c < x0 + w)
                        || (r == y0 + i && x0 <= c < x0 + j) {
                        spec_clamp_pixel(old(recon)@[r][c] + res@[r - y0][c - x0])
                    } else {
                        old(recon)@[r][c]
                    }),
            decreases w - j,
        {
            let base = recon.get(y0 + i, x0 + j);
            let d = res.get(i, j);
            let t: i64 = (base as i64) + (d as i64);
            let v: u8 = if t < 0 {
                0
            } else if t > 255 {
                255
            } else {
                t as u8
            };
            let ghost before = recon@;
            recon.set(y0 + i, x0 + j, v);
            proof {
                assert forall|r: int, c: int|
                    0 <= r < old(recon).spec_rows() && 0 <= c < old(recon).spec_cols()
                        implies #[trigger] recon@[r][c] == (if (y0 <= r < y0 + i && x0 <= c < x0
                        + w) || (r == y0 + i && x0 <= c < x0 + j + 1) {
                    spec_clamp_pixel(old(recon)@[r][c] + res@[r - y0][c - x0])
                } else {
                    old(recon)@[r][c]
                }) by {
                    if r == y0 + i && c == x0 + j {
                    } else {
                        assert(recon@[r][c] == before[r][c]);
                    }
                }
            }
            j = j + 1;
        }
        i = i + 1;
    }
}

} // verus!
