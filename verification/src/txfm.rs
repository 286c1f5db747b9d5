use vstd::prelude::*;

verus! {

use vstd::arithmetic::power2::pow2;
use crate::array2d::Array2D;
use crate::array2d::grid_dims;
use crate::consts::av1_cospi_arr_data;
use crate::consts::av1_txfm_fwd_shift;
use crate::consts::av1_txfm_inv_shift;
use crate::consts::av1_txfm_inv_start_range;

// Forward and inverse DCT of lengths 4 and 8, as staged butterflies over
// wrapping 32-bit arithmetic, and the 2D wrappers with their shift and
// clamp schedule.

pub open spec fn wadd(a: i32, b: i32) -> i32 {
    vstd::wrapping::i32_specs::wrapping_add(a, b)
}

pub open spec fn wsub(a: i32, b: i32) -> i32 {
    vstd::wrapping::i32_specs::wrapping_sub(a, b)
}

pub open spec fn wmul(a: i32, b: i32) -> i32 {
    vstd::wrapping::i32_specs::wrapping_mul(a, b)
}

/// round2(w0*in0 + w1*in1, cos_bit) over wrapping 32-bit arithmetic,
/// including the rounding offset.
pub open spec fn spec_half_btf(w0: i32, in0: i32, w1: i32, in1: i32, cos_bit: u32) -> i32 {
    wadd(wadd(wmul(w0, in0), wmul(w1, in1)), (1i32 << (((cos_bit - 1) as i32)))) >> (
    cos_bit as i32)
}

/// Clamp to the signed range of `range_bits` bits.
pub open spec fn spec_clamp_value(value: i32, range_bits: u32) -> i32 {
    let lo = -(pow2((range_bits - 1) as nat) as int);
    let hi = pow2((range_bits - 1) as nat) - 1;
    if value < lo {
        lo as i32
    } else if value > hi {
        hi as i32
    } else {
        value
    }
}

/// Divide by 2^bits with rounding (bits > 0), scale up with saturation
/// (bits < 0), over wrapping addition for the rounding offset.
pub open spec fn spec_round_shift(x: i32, bits: i32) -> i32 {
    if bits == 0 {
        x
    } else if bits < 0 {
        let t = x * pow2((-bits) as nat);
        if t < i32::MIN {
            i32::MIN
        } else if t > i32::MAX {
            i32::MAX
        } else {
            t as i32
        }
    } else {
        wadd(x, (1i32 << (((bits - 1) as i32)))) >> bits
    }
}

pub open spec fn spec_cospi(cos_bit: u32, i: int) -> i32 {
    av1_cospi_arr_data[cos_bit - 10][i]
}

pub open spec fn spec_fwd_dct4(a: Seq<i32>, cb: u32) -> Seq<i32> {
    let s10 = wadd(a[0], a[3]);
    let s11 = wadd(a[1], a[2]);
    let s12 = wsub(a[1], a[2]);
    let s13 = wsub(a[0], a[3]);
    let s20 = spec_half_btf(spec_cospi(cb, 32), s10, spec_cospi(cb, 32), s11, cb);
    let s21 = spec_half_btf(((-spec_cospi(cb, 32)) as i32), s11, spec_cospi(cb, 32), s10, cb);
    let s22 = spec_half_btf(spec_cospi(cb, 48), s12, spec_cospi(cb, 16), s13, cb);
    let s23 = spec_half_btf(spec_cospi(cb, 48), s13, ((-spec_cospi(cb, 16)) as i32), s12, cb);
    seq![s20, s22, s21, s23]
}

pub open spec fn spec_inv_dct4(a: Seq<i32>, cb: u32, range_bits: u32) -> Seq<i32> {
    let s10 = a[0];
    let s11 = a[2];
    let s12 = a[1];
    let s13 = a[3];
    let s20 = spec_half_btf(spec_cospi(cb, 32), s10, spec_cospi(cb, 32), s11, cb);
    let s21 = spec_half_btf(spec_cospi(cb, 32), s10, ((-spec_cospi(cb, 32)) as i32), s11, cb);
    let s22 = spec_half_btf(spec_cospi(cb, 48), s12, ((-spec_cospi(cb, 16)) as i32), s13, cb);
    let s23 = spec_half_btf(spec_cospi(cb, 16), s12, spec_cospi(cb, 48), s13, cb);
    seq![
        spec_clamp_value(wadd(s20, s23), range_bits),
        spec_clamp_value(wadd(s21, s22), range_bits),
        spec_clamp_value(wsub(s21, s22), range_bits),
        spec_clamp_value(wsub(s20, s23), range_bits),
    ]
}

pub open spec fn spec_fwd_dct8(a: Seq<i32>, cb: u32) -> Seq<i32> {
    let s10 = wadd(a[0], a[7]);
    let s11 = wadd(a[1], a[6]);
    let s12 = wadd(a[2], a[5]);
    let s13 = wadd(a[3], a[4]);
    let s14 = wsub(a[3], a[4]);
    let s15 = wsub(a[2], a[5]);
    let s16 = wsub(a[1], a[6]);
    let s17 = wsub(a[0], a[7]);
    let s20 = wadd(s10, s13);
    let s21 = wadd(s11, s12);
    let s22 = wsub(s11, s12);
    let s23 = wsub(s10, s13);
    let s24 = s14;
    let s25 = spec_half_btf(((-spec_cospi(cb, 32)) as i32), s15, spec_cospi(cb, 32), s16, cb);
    let s26 = spec_half_btf(spec_cospi(cb, 32), s16, spec_cospi(cb, 32), s15, cb);
    let s27 = s17;
    let s30 = spec_half_btf(spec_cospi(cb, 32), s20, spec_cospi(cb, 32), s21, cb);
    let s31 = spec_half_btf(((-spec_cospi(cb, 32)) as i32), s21, spec_cospi(cb, 32), s20, cb);
    let s32 = spec_half_btf(spec_cospi(cb, 48), s22, spec_cospi(cb, 16), s23, cb);
    let s33 = spec_half_btf(spec_cospi(cb, 48), s23, ((-spec_cospi(cb, 16)) as i32), s22, cb);
    let s34 = wadd(s24, s25);
    let s35 = wsub(s24, s25);
    let s36 = wsub(s27, s26);
    let s37 = wadd(s27, s26);
    let s44 = spec_half_btf(spec_cospi(cb, 56), s34, spec_cospi(cb, 8), s37, cb);
    let s45 = spec_half_btf(spec_cospi(cb, 24), s35, spec_cospi(cb, 40), s36, cb);
    let s46 = spec_half_btf(spec_cospi(cb, 24), s36, ((-spec_cospi(cb, 40)) as i32), s35, cb);
    let s47 = spec_half_btf(spec_cospi(cb, 56), s37, ((-spec_cospi(cb, 8)) as i32), s34, cb);
    seq![s30, s44, s32, s46, s31, s45, s33, s47]
}

pub open spec fn spec_inv_dct8(a: Seq<i32>, cb: u32, range_bits: u32) -> Seq<i32> {
    let s10 = a[0];
    let s11 = a[4];
    let s12 = a[2];
    let s13 = a[6];
    let s14 = a[1];
    let s15 = a[5];
    let s16 = a[3];
    let s17 = a[7];
    let s24 = spec_half_btf(spec_cospi(cb, 56), s14, ((-spec_cospi(cb, 8)) as i32), s17, cb);
    let s25 = spec_half_btf(spec_cospi(cb, 24), s15, ((-spec_cospi(cb, 40)) as i32), s16, cb);
    let s26 = spec_half_btf(spec_cospi(cb, 40), s15, spec_cospi(cb, 24), s16, cb);
    let s27 = spec_half_btf(spec_cospi(cb, 8), s14, spec_cospi(cb, 56), s17, cb);
    let s30 = spec_half_btf(spec_cospi(cb, 32), s10, spec_cospi(cb, 32), s11, cb);
    let s31 = spec_half_btf(spec_cospi(cb, 32), s10, ((-spec_cospi(cb, 32)) as i32), s11, cb);
    let s32 = spec_half_btf(spec_cospi(cb, 48), s12, ((-spec_cospi(cb, 16)) as i32), s13, cb);
    let s33 = spec_half_btf(spec_cospi(cb, 16), s12, spec_cospi(cb, 48), s13, cb);
    let s34 = spec_clamp_value(wadd(s24, s25), range_bits);
    let s35 = spec_clamp_value(wsub(s24, s25), range_bits);
    let s36 = spec_clamp_value(wsub(s27, s26), range_bits);
    let s37 = spec_clamp_value(wadd(s27, s26), range_bits);
    let s40 = spec_clamp_value(wadd(s30, s33), range_bits);
    let s41 = spec_clamp_value(wadd(s31, s32), range_bits);
    let s42 = spec_clamp_value(wsub(s31, s32), range_bits);
    let s43 = spec_clamp_value(wsub(s30, s33), range_bits);
    let s44 = s34;
    let s45 = spec_half_btf(((-spec_cospi(cb, 32)) as i32), s35, spec_cospi(cb, 32), s36, cb);
    let s46 = spec_half_btf(spec_cospi(cb, 32), s35, spec_cospi(cb, 32), s36, cb);
    let s47 = s37;
    seq![
        spec_clamp_value(wadd(s40, s47), range_bits),
        spec_clamp_value(wadd(s41, s46), range_bits),
        spec_clamp_value(wadd(s42, s45), range_bits),
        spec_clamp_value(wadd(s43, s44), range_bits),
        spec_clamp_value(wsub(s43, s44), range_bits),
        spec_clamp_value(wsub(s42, s45), range_bits),
        spec_clamp_value(wsub(s41, s46), range_bits),
        spec_clamp_value(wsub(s40, s47), range_bits),
    ]
}

proof fn lemma_cospi_bounds(j: int, i: int)
    requires
        0 <= j < 4,
        0 <= i < 64,
    ensures
        0 <= av1_cospi_arr_data[j][i] <= 8192,
{
    reveal(av1_cospi_arr_data);
    assert(0 <= av1_cospi_arr_data[j][i] <= 8192);
}

fn cospi_at(cos_bit: u32, i: usize) -> (r: i32)
    requires
        10 <= cos_bit <= 13,
        i < 64,
    ensures
        r == spec_cospi(cos_bit, i as int),
        0 <= r <= 8192,
{
    proof {
        lemma_cospi_bounds((cos_bit - 10) as int, i as int);
    }
    av1_cospi_arr_data[(cos_bit - 10) as usize][i]
}

/// round2(w0*in0 + w1*in1, cos_bit) with two's-complement wrapping 32-bit
/// multiplies and adds, the rounding offset included, as AV1 specifies.
pub fn half_btf(w0: i32, in0: i32, w1: i32, in1: i32, cos_bit: u32) -> (r: i32)
    requires
        1 <= cos_bit < 32,
    ensures
        r == spec_half_btf(w0, in0, w1, in1, cos_bit),
{
    let tmp = (w0.wrapping_mul(in0)).wrapping_add(w1.wrapping_mul(in1));
    let offset: i32 = 1i32 << (cos_bit - 1) as i32;
    (tmp.wrapping_add(offset)) >> cos_bit as i32
}

fn clamp_value(value: i32, range_bits: u32) -> (r: i32)
    requires
        1 <= range_bits <= 32,
    ensures
        r == spec_clamp_value(value, range_bits),
{
    proof {
        vstd::arithmetic::power2::lemma2_to64();
        vstd::arithmetic::power2::lemma2_to64_rest();
        if (range_bits - 1) < 31 {
            vstd::arithmetic::power2::lemma_pow2_strictly_increases(
                (range_bits - 1) as nat,
                31,
            );
        }
    }
    let pu: u64 = crate::util::pow2_u64((range_bits - 1) as u64);
    let min_: i64 = -(pu as i64);
    let max_: i64 = (pu as i64) - 1;
    let v = value as i64;
    if v < min_ {
        min_ as i32
    } else if v > max_ {
        max_ as i32
    } else {
        value
    }
}

fn round_shift(x: i32, bits: i32) -> (r: i32)
    requires
        -31 <= bits <= 31,
    ensures
        r == spec_round_shift(x, bits),
{
    if bits == 0 {
        x
    } else if bits < 0 {
        let sh: u32 = (-bits) as u32;
        proof {
            vstd::arithmetic::power2::lemma2_to64();
            vstd::arithmetic::power2::lemma2_to64_rest();
            if (sh as nat) < 31 {
                vstd::arithmetic::power2::lemma_pow2_strictly_increases(sh as nat, 31);
            }
        }
        let p: i64 = crate::util::pow2_u64(sh as u64) as i64;
        proof {
            assert(p <= 0x80000000i64);
            assert(-0x4000000000000000 <= (x as int) * p <= 0x4000000000000000)
                by (nonlinear_arith)
                requires
                    -0x80000000 <= x as int <= 0x7FFFFFFF,
                    1 <= p <= 0x80000000,
            ;
        }
        let t: i64 = (x as i64) * p;
        if t < (i32::MIN as i64) {
            i32::MIN
        } else if t > (i32::MAX as i64) {
            i32::MAX
        } else {
            t as i32
        }
    } else {
        let offset: i32 = 1i32 << (bits - 1) as i32;
        (x.wrapping_add(offset)) >> bits as i32
    }
}

/// Apply `spec_round_shift` to each element.
pub open spec fn spec_round_shift_row(a: Seq<i32>, bits: i32) -> Seq<i32> {
    Seq::new(a.len(), |i: int| spec_round_shift(a[i], bits))
}

fn round_shift_array(arr: &mut Vec<i32>, bits: i32)
    requires
        -31 <= bits <= 31,
    ensures
        final(arr)@ == spec_round_shift_row(old(arr)@, bits),
{
    let n = arr.len();
    let mut i: usize = 0;
    while i < n
        invariant
            arr@.len() == n,
            i <= n,
            forall|k: int| 0 <= k < i ==> #[trigger] arr@[k] == spec_round_shift(old(arr)@[k], bits),
            forall|k: int| i <= k < n ==> #[trigger] arr@[k] == old(arr)@[k],
            -31 <= bits <= 31,
        decreases n - i,
    {
        let v = round_shift(arr[i], bits);
        arr.set(i, v);
        i = i + 1;
    }
    proof {
        assert(arr@ =~= spec_round_shift_row(old(arr)@, bits));
    }
}

fn fwd_dct4(a: &Vec<i32>, cb: u32) -> (r: Vec<i32>)
    requires
        a@.len() == 4,
        10 <= cb <= 13,
    ensures
        r@ == spec_fwd_dct4(a@, cb),
{
    let c32 = cospi_at(cb, 32);
    let c48 = cospi_at(cb, 48);
    let c16 = cospi_at(cb, 16);
    let s10 = a[0].wrapping_add(a[3]);
    let s11 = a[1].wrapping_add(a[2]);
    let s12 = a[1].wrapping_sub(a[2]);
    let s13 = a[0].wrapping_sub(a[3]);
    let s20 = half_btf(c32, s10, c32, s11, cb);
    let s21 = half_btf(-c32, s11, c32, s10, cb);
    let s22 = half_btf(c48, s12, c16, s13, cb);
    let s23 = half_btf(c48, s13, -c16, s12, cb);
    let r = vec![s20, s22, s21, s23];
    proof {
        assert(r@ =~= spec_fwd_dct4(a@, cb));
    }
    r
}

fn inv_dct4(a: &Vec<i32>, cb: u32, range_bits: u32) -> (r: Vec<i32>)
    requires
        a@.len() == 4,
        10 <= cb <= 13,
        1 <= range_bits <= 32,
    ensures
        r@ == spec_inv_dct4(a@, cb, range_bits),
{
    let c32 = cospi_at(cb, 32);
    let c48 = cospi_at(cb, 48);
    let c16 = cospi_at(cb, 16);
    let s10 = a[0];
    let s11 = a[2];
    let s12 = a[1];
    let s13 = a[3];
    let s20 = half_btf(c32, s10, c32, s11, cb);
    let s21 = half_btf(c32, s10, -c32, s11, cb);
    let s22 = half_btf(c48, s12, -c16, s13, cb);
    let s23 = half_btf(c16, s12, c48, s13, cb);
    let r = vec![
        clamp_value(s20.wrapping_add(s23), range_bits),
        clamp_value(s21.wrapping_add(s22), range_bits),
        clamp_value(s21.wrapping_sub(s22), range_bits),
        clamp_value(s20.wrapping_sub(s23), range_bits),
    ];
    proof {
        assert(r@ =~= spec_inv_dct4(a@, cb, range_bits));
    }
    r
}

fn fwd_dct8(a: &Vec<i32>, cb: u32) -> (r: Vec<i32>)
    requires
        a@.len() == 8,
        10 <= cb <= 13,
    ensures
        r@ == spec_fwd_dct8(a@, cb),
{
    let c32 = cospi_at(cb, 32);
    let c48 = cospi_at(cb, 48);
    let c16 = cospi_at(cb, 16);
    let c56 = cospi_at(cb, 56);
    let c8 = cospi_at(cb, 8);
    let c24 = cospi_at(cb, 24);
    let c40 = cospi_at(cb, 40);
    let s10 = a[0].wrapping_add(a[7]);
    let s11 = a[1].wrapping_add(a[6]);
    let s12 = a[2].wrapping_add(a[5]);
    let s13 = a[3].wrapping_add(a[4]);
    let s14 = a[3].wrapping_sub(a[4]);
    let s15 = a[2].wrapping_sub(a[5]);
    let s16 = a[1].wrapping_sub(a[6]);
    let s17 = a[0].wrapping_sub(a[7]);
    let s20 = s10.wrapping_add(s13);
    let s21 = s11.wrapping_add(s12);
    let s22 = s11.wrapping_sub(s12);
    let s23 = s10.wrapping_sub(s13);
    let s24 = s14;
    let s25 = half_btf(-c32, s15, c32, s16, cb);
    let s26 = half_btf(c32, s16, c32, s15, cb);
    let s27 = s17;
    let s30 = half_btf(c32, s20, c32, s21, cb);
    let s31 = half_btf(-c32, s21, c32, s20, cb);
    let s32 = half_btf(c48, s22, c16, s23, cb);
    let s33 = half_btf(c48, s23, -c16, s22, cb);
    let s34 = s24.wrapping_add(s25);
    let s35 = s24.wrapping_sub(s25);
    let s36 = s27.wrapping_sub(s26);
    let s37 = s27.wrapping_add(s26);
    let s44 = half_btf(c56, s34, c8, s37, cb);
    let s45 = half_btf(c24, s35, c40, s36, cb);
    let s46 = half_btf(c24, s36, -c40, s35, cb);
    let s47 = half_btf(c56, s37, -c8, s34, cb);
    let r = vec![s30, s44, s32, s46, s31, s45, s33, s47];
    proof {
        assert(r@ =~= spec_fwd_dct8(a@, cb));
    }
    r
}

fn inv_dct8(a: &Vec<i32>, cb: u32, range_bits: u32) -> (r: Vec<i32>)
    requires
        a@.len() == 8,
        10 <= cb <= 13,
        1 <= range_bits <= 32,
    ensures
        r@ == spec_inv_dct8(a@, cb, range_bits),
{
    let c32 = cospi_at(cb, 32);
    let c48 = cospi_at(cb, 48);
    let c16 = cospi_at(cb, 16);
    let c56 = cospi_at(cb, 56);
    let c8 = cospi_at(cb, 8);
    let c24 = cospi_at(cb, 24);
    let c40 = cospi_at(cb, 40);
    let s10 = a[0];
    let s11 = a[4];
    let s12 = a[2];
    let s13 = a[6];
    let s14 = a[1];
    let s15 = a[5];
    let s16 = a[3];
    let s17 = a[7];
    let s24 = half_btf(c56, s14, -c8, s17, cb);
    let s25 = half_btf(c24, s15, -c40, s16, cb);
    let s26 = half_btf(c40, s15, c24, s16, cb);
    let s27 = half_btf(c8, s14, c56, s17, cb);
    let s30 = half_btf(c32, s10, c32, s11, cb);
    let s31 = half_btf(c32, s10, -c32, s11, cb);
    let s32 = half_btf(c48, s12, -c16, s13, cb);
    let s33 = half_btf(c16, s12, c48, s13, cb);
    let s34 = clamp_value(s24.wrapping_add(s25), range_bits);
    let s35 = clamp_value(s24.wrapping_sub(s25), range_bits);
    let s36 = clamp_value(s27.wrapping_sub(s26), range_bits);
    let s37 = clamp_value(s27.wrapping_add(s26), range_bits);
    let s40 = clamp_value(s30.wrapping_add(s33), range_bits);
    let s41 = clamp_value(s31.wrapping_add(s32), range_bits);
    let s42 = clamp_value(s31.wrapping_sub(s32), range_bits);
    let s43 = clamp_value(s30.wrapping_sub(s33), range_bits);
    let s44 = s34;
    let s45 = half_btf(-c32, s35, c32, s36, cb);
    let s46 = half_btf(c32, s35, c32, s36, cb);
    let s47 = s37;
    let r = vec![
        clamp_value(s40.wrapping_add(s47), range_bits),
        clamp_value(s41.wrapping_add(s46), range_bits),
        clamp_value(s42.wrapping_add(s45), range_bits),
        clamp_value(s43.wrapping_add(s44), range_bits),
        clamp_value(s43.wrapping_sub(s44), range_bits),
        clamp_value(s42.wrapping_sub(s45), range_bits),
        clamp_value(s41.wrapping_sub(s46), range_bits),
        clamp_value(s40.wrapping_sub(s47), range_bits),
    ];
    proof {
        assert(r@ =~= spec_inv_dct8(a@, cb, range_bits));
    }
    r
}

pub open spec fn spec_transpose(m: Seq<Seq<i32>>, rows: nat, cols: nat) -> Seq<Seq<i32>> {
    Seq::new(cols, |i: int| Seq::new(rows, |j: int| m[j][i]))
}

/// One forward column/row pass: scale by -shift0, transform, round by
/// shift1.
pub open spec fn spec_fwd_pass(row: Seq<i32>, n: nat, shift0: i32, shift1: i32, cb: u32) -> Seq<
    i32,
> {
    let scaled = spec_round_shift_row(row, shift0);
    let t = if n == 4 {
        spec_fwd_dct4(scaled, cb)
    } else {
        spec_fwd_dct8(scaled, cb)
    };
    spec_round_shift_row(t, shift1)
}

pub open spec fn spec_fwd_txfm2d(m: Seq<Seq<i32>>, n: nat) -> Seq<Seq<i32>> {
    let shift = av1_txfm_fwd_shift[if n == 4 {
        0int
    } else {
        1int
    }];
    let cb: u32 = 13;
    let cols_done = Seq::new(
        n,
        |j: int| spec_fwd_pass(spec_transpose(m, n, n)[j], n, ((-shift[0]) as i32), ((-shift[1]) as i32), cb),
    );
    let back = spec_transpose(cols_done, n, n);
    Seq::new(
        n,
        |i: int|
            spec_round_shift_row(
                if n == 4 {
                    spec_fwd_dct4(back[i], cb)
                } else {
                    spec_fwd_dct8(back[i], cb)
                },
                ((-shift[2]) as i32),
            ),
    )
}

/// One inverse row/column pass: clamp, transform, round.
pub open spec fn spec_inv_pass(
    row: Seq<i32>,
    n: nat,
    clamp_bits: u32,
    range_bits: u32,
    sh: i32,
    cb: u32,
) -> Seq<i32> {
    let clamped = Seq::new(row.len(), |i: int| spec_clamp_value(row[i], clamp_bits));
    let t = if n == 4 {
        spec_inv_dct4(clamped, cb, range_bits)
    } else {
        spec_inv_dct8(clamped, cb, range_bits)
    };
    spec_round_shift_row(t, sh)
}

pub open spec fn spec_inv_txfm2d(m: Seq<Seq<i32>>, n: nat) -> Seq<Seq<i32>> {
    let idx: int = if n == 4 {
        0
    } else {
        1
    };
    let shift = av1_txfm_inv_shift[idx];
    let cb: u32 = 12;
    let row_range: u32 = (av1_txfm_inv_start_range[idx] + 8 + 1) as u32;
    let col_range: u32 = (av1_txfm_inv_start_range[idx] + shift[0] + 8 + 1) as u32;
    let rows_done = Seq::new(n, |i: int| spec_inv_pass(m[i], n, 16, col_range, ((-shift[0]) as i32), cb));
    let t = spec_transpose(rows_done, n, n);
    let cols_done = Seq::new(n, |j: int| spec_inv_pass(t[j], n, 16, row_range, ((-shift[1]) as i32), cb));
    spec_transpose(cols_done, n, n)
}

fn clamp_row(arr: &Vec<i32>, bits: u32) -> (r: Vec<i32>)
    requires
        1 <= bits <= 32,
    ensures
        r@ == Seq::new(arr@.len(), |i: int| spec_clamp_value(arr@[i], bits)),
{
    let n = arr.len();
    let mut r: Vec<i32> = Vec::new();
    let mut i: usize = 0;
    while i < n
        invariant
            r@.len() == i,
            i <= n,
            n == arr@.len(),
            1 <= bits <= 32,
            forall|k: int| 0 <= k < i ==> #[trigger] r@[k] == spec_clamp_value(arr@[k], bits),
        decreases n - i,
    {
        let v = clamp_value(arr[i], bits);
        r.push(v);
        i = i + 1;
    }
    proof {
        assert(r@ =~= Seq::new(arr@.len(), |i: int| spec_clamp_value(arr@[i], bits)));
    }
    r
}


fn fwd_pass(row: &Vec<i32>, n: usize, sh0: i32, sh1: i32, cb: u32) -> (r: Vec<i32>)
    requires
        row@.len() == n,
        n == 4 || n == 8,
        10 <= cb <= 13,
        -31 <= sh0 <= 31,
        -31 <= sh1 <= 31,
    ensures
        r@ == spec_fwd_pass(row@, n as nat, sh0, sh1, cb),
        r@.len() == n,
{
    let mut col = row.clone();
    round_shift_array(&mut col, sh0);
    let t = if n == 4 {
        fwd_dct4(&col, cb)
    } else {
        fwd_dct8(&col, cb)
    };
    let mut t2 = t;
    round_shift_array(&mut t2, sh1);
    t2
}

fn inv_pass(row: &Vec<i32>, n: usize, range_bits: u32, sh: i32, cb: u32) -> (r: Vec<i32>)
    requires
        row@.len() == n,
        n == 4 || n == 8,
        10 <= cb <= 13,
        1 <= range_bits <= 32,
        -31 <= sh <= 31,
    ensures
        r@ == spec_inv_pass(row@, n as nat, 16, range_bits, sh, cb),
        r@.len() == n,
{
    let clamped = clamp_row(row, 16);
    let t = if n == 4 {
        inv_dct4(&clamped, cb, range_bits)
    } else {
        inv_dct8(&clamped, cb, range_bits)
    };
    let mut t2 = t;
    round_shift_array(&mut t2, sh);
    t2
}

/// 2D forward transform: transpose, column passes, transpose back, row
/// passes, as the AV1 forward DCT pipeline orders them.
#[verifier::rlimit(100)]
pub fn fwd_txfm2d(residual: &mut Array2D<i32>, txh: usize, txw: usize)
    requires
        old(residual).wf(),
        grid_dims(old(residual)@, txh as nat, txw as nat),
        old(residual).spec_rows() == txh,
        old(residual).spec_cols() == txw,
        txh == txw,
        txh == 4 || txh == 8,
    ensures
        final(residual).wf(),
        final(residual).spec_rows() == txh,
        final(residual).spec_cols() == txw,
        grid_dims(final(residual)@, txh as nat, txw as nat),
        final(residual)@ == spec_fwd_txfm2d(old(residual)@, txh as nat),
{
    let n = txh;
    proof {
        reveal(av1_txfm_fwd_shift);
    }
    let idx: usize = if n == 4 {
        0
    } else {
        1
    };
    let sh0: i32 = -av1_txfm_fwd_shift[idx][0];
    let sh1: i32 = -av1_txfm_fwd_shift[idx][1];
    let sh2: i32 = -av1_txfm_fwd_shift[idx][2];
    let cb: u32 = 13;

    let ghost m0 = residual@;
    let mut transposed = residual.transpose();
    proof {
        assert(transposed@ =~= spec_transpose(m0, n as nat, n as nat)) by {
            assert forall|i: int| 0 <= i < n implies transposed@[i] =~= spec_transpose(
                m0,
                n as nat,
                n as nat,
            )[i] by {}
        }
    }
    let ghost tr = transposed@;
    let mut j: usize = 0;
    while j < n
        invariant
            transposed.wf(),
            transposed.spec_rows() == n,
            transposed.spec_cols() == n,
            grid_dims(transposed@, n as nat, n as nat),
            j <= n,
            n == 4 || n == 8,
            10 <= cb <= 13,
            -31 <= sh0 <= 31,
            -31 <= sh1 <= 31,
            forall|k: int|
                0 <= k < j ==> #[trigger] transposed@[k] == spec_fwd_pass(
                    tr[k],
                    n as nat,
                    sh0,
                    sh1,
                    cb,
                ),
            forall|k: int| j <= k < n ==> #[trigger] transposed@[k] == tr[k],
        decreases n - j,
    {
        let col = transposed.get_row(j);
        let t2 = fwd_pass(&col, n, sh0, sh1, cb);
        transposed.set_row(j, &t2);
        j = j + 1;
    }
    let ghost cols_done = transposed@;
    proof {
        assert(cols_done =~= Seq::new(
            n as nat,
            |j: int| spec_fwd_pass(spec_transpose(m0, n as nat, n as nat)[j], n as nat, sh0, sh1, cb),
        ));
    }
    transposed.transpose_into(residual);
    proof {
        assert(residual@ =~= spec_transpose(cols_done, n as nat, n as nat)) by {
            assert forall|i: int| 0 <= i < n implies residual@[i] =~= spec_transpose(
                cols_done,
                n as nat,
                n as nat,
            )[i] by {}
        }
    }
    let ghost back = residual@;
    let mut i: usize = 0;
    while i < n
        invariant
            residual.wf(),
            residual.spec_rows() == n,
            residual.spec_cols() == n,
            grid_dims(residual@, n as nat, n as nat),
            i <= n,
            n == 4 || n == 8,
            10 <= cb <= 13,
            -31 <= sh2 <= 31,
            forall|k: int|
                0 <= k < i ==> #[trigger] residual@[k] == spec_round_shift_row(
                    if n == 4 {
                        spec_fwd_dct4(back[k], cb)
                    } else {
                        spec_fwd_dct8(back[k], cb)
                    },
                    sh2,
                ),
            forall|k: int| i <= k < n ==> #[trigger] residual@[k] == back[k],
        decreases n - i,
    {
        let row = residual.get_row(i);
        let t = if n == 4 {
            fwd_dct4(&row, cb)
        } else {
            fwd_dct8(&row, cb)
        };
        let mut t2 = t;
        round_shift_array(&mut t2, sh2);
        proof {
            assert(t2@ == spec_round_shift_row(
                if n == 4 {
                    spec_fwd_dct4(row@, cb)
                } else {
                    spec_fwd_dct8(row@, cb)
                },
                sh2,
            ));
        }
        residual.set_row(i, &t2);
        i = i + 1;
    }
    proof {
        assert(residual@ =~= spec_fwd_txfm2d(m0, n as nat));
    }
}

/// 2D inverse transform: row passes with clamping, transpose, column
/// passes, transpose back.
#[verifier::rlimit(100)]
pub fn inv_txfm2d(residual: &mut Array2D<i32>, txh: usize, txw: usize)
    requires
        old(residual).wf(),
        grid_dims(old(residual)@, txh as nat, txw as nat),
        old(residual).spec_rows() == txh,
        old(residual).spec_cols() == txw,
        txh == txw,
        txh == 4 || txh == 8,
    ensures
        final(residual).wf(),
        final(residual).spec_rows() == txh,
        final(residual).spec_cols() == txw,
        grid_dims(final(residual)@, txh as nat, txw as nat),
        final(residual)@ == spec_inv_txfm2d(old(residual)@, txh as nat),
{
    let n = txh;
    proof {
        reveal(av1_txfm_inv_shift);
        reveal(av1_txfm_inv_start_range);
    }
    let idx: usize = if n == 4 {
        0
    } else {
        1
    };
    let sh0: i32 = -av1_txfm_inv_shift[idx][0];
    let sh1: i32 = -av1_txfm_inv_shift[idx][1];
    let cb: u32 = 12;
    let row_range: u32 = av1_txfm_inv_start_range[idx] + 8 + 1;
    let col_range: u32 = ((av1_txfm_inv_start_range[idx] as i32) + av1_txfm_inv_shift[idx][0] + 8
        + 1) as u32;

    let ghost m0 = residual@;
    let mut i: usize = 0;
    while i < n
        invariant
            residual.wf(),
            residual.spec_rows() == n,
            residual.spec_cols() == n,
            grid_dims(residual@, n as nat, n as nat),
            i <= n,
            n == 4 || n == 8,
            10 <= cb <= 13,
            -31 <= sh0 <= 31,
            1 <= col_range <= 32,
            forall|k: int|
                0 <= k < i ==> #[trigger] residual@[k] == spec_inv_pass(
                    m0[k],
                    n as nat,
                    16,
                    col_range,
                    sh0,
                    cb,
                ),
            forall|k: int| i <= k < n ==> #[trigger] residual@[k] == m0[k],
        decreases n - i,
    {
        let row = residual.get_row(i);
        let t2 = inv_pass(&row, n, col_range, sh0, cb);
        residual.set_row(i, &t2);
        i = i + 1;
    }
    let ghost rows_done = residual@;
    let mut transposed = residual.transpose();
    proof {
        assert(transposed@ =~= spec_transpose(rows_done, n as nat, n as nat)) by {
            assert forall|i: int| 0 <= i < n implies transposed@[i] =~= spec_transpose(
                rows_done,
                n as nat,
                n as nat,
            )[i] by {}
        }
    }
    let ghost tsp = transposed@;
    let mut j: usize = 0;
    while j < n
        invariant
            transposed.wf(),
            transposed.spec_rows() == n,
            transposed.spec_cols() == n,
            grid_dims(transposed@, n as nat, n as nat),
            j <= n,
            n == 4 || n == 8,
            10 <= cb <= 13,
            -31 <= sh1 <= 31,
            1 <= row_range <= 32,
            forall|k: int|
                0 <= k < j ==> #[trigger] transposed@[k] == spec_inv_pass(
                    tsp[k],
                    n as nat,
                    16,
                    row_range,
                    sh1,
                    cb,
                ),
            forall|k: int| j <= k < n ==> #[trigger] transposed@[k] == tsp[k],
        decreases n - j,
    {
        let col = transposed.get_row(j);
        let t2 = inv_pass(&col, n, row_range, sh1, cb);
        transposed.set_row(j, &t2);
        j = j + 1;
    }
    let ghost cols_done = transposed@;
    transposed.transpose_into(residual);
    proof {
        assert(residual@ =~= spec_transpose(cols_done, n as nat, n as nat)) by {
            assert forall|i: int| 0 <= i < n implies residual@[i] =~= spec_transpose(
                cols_done,
                n as nat,
                n as nat,
            )[i] by {}
        }
        assert(cols_done =~= Seq::new(
            n as nat,
            |j: int|
                spec_inv_pass(
                    spec_transpose(rows_done, n as nat, n as nat)[j],
                    n as nat,
                    16,
                    row_range,
                    sh1,
                    cb,
                ),
        ));
        assert(rows_done =~= Seq::new(
            n as nat,
            |i: int| spec_inv_pass(m0[i], n as nat, 16, col_range, sh0, cb),
        ));
        assert(residual@ =~= spec_inv_txfm2d(m0, n as nat));
    }
}

} // verus!
