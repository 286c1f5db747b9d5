use vstd::prelude::*;

verus! {

use vstd::arithmetic::power2::pow2;

/// Divide by 2^n, rounding to nearest with halves toward positive infinity.
pub open spec fn spec_round2(v: int, n: nat) -> int {
    if n == 0 {
        v
    } else {
        (v + pow2((n - 1) as nat) as int) / pow2(n) as int
    }
}

/// Round toward nearest with halves away from zero.
pub open spec fn spec_round2_signed(v: int, n: nat) -> int {
    if v < 0 {
        -spec_round2(-v, n)
    } else {
        spec_round2(v, n)
    }
}

/// Clamp v into [lo, hi].
pub open spec fn spec_clamp(v: int, lo: int, hi: int) -> int {
    if v < lo {
        lo
    } else if v > hi {
        hi
    } else {
        v
    }
}

/// Wrapper trait over the machine integers: a mathematical value, bounds,
/// comparison, and division by a power of two with round-to-nearest.
pub trait Int: Sized + Copy {
    spec fn as_int(self) -> int;

    spec fn min_val() -> int;

    spec fn max_val() -> int;

    /// Width of the type in bits.
    spec fn bits() -> nat;

    fn lt(self, other: Self) -> (r: bool)
        ensures
            r == (self.as_int() < other.as_int()),
    ;

    /// Divide by 2^n with rounding to nearest, halves toward +infinity.
    fn round2(self, n: u32) -> (r: Self)
        requires
            n as nat + 2 <= Self::bits(),
            self.as_int() + pow2(n as nat) <= Self::max_val() + 1,
        ensures
            r.as_int() == spec_round2(self.as_int(), n as nat),
    ;
}

pub trait SignedInt: Int {
    type Unsigned: Int;

    fn abs_(self) -> (r: Self)
        requires
            self.as_int() > Self::min_val(),
        ensures
            r.as_int() == if self.as_int() < 0 {
                -self.as_int()
            } else {
                self.as_int()
            },
    ;

    fn unsigned_abs_(self) -> (r: Self::Unsigned)
        ensures
            r.as_int() == if self.as_int() < 0 {
                -self.as_int()
            } else {
                self.as_int()
            },
    ;

    fn signum_(self) -> (r: Self)
        ensures
            r.as_int() == if self.as_int() < 0 {
                -1int
            } else if self.as_int() == 0 {
                0int
            } else {
                1int
            },
    ;

    /// Divide by 2^n with rounding to nearest, halves away from zero.
    fn round2_signed(self, n: u32) -> (r: Self)
        requires
            n as nat + 2 <= Self::bits(),
            self.as_int() + pow2(n as nat) <= Self::max_val() + 1,
            Self::min_val() + pow2(n as nat) <= self.as_int() || self.as_int() >= 0,
        ensures
            r.as_int() == spec_round2_signed(self.as_int(), n as nat),
    ;
}

pub trait UnsignedInt: Int {
    /// Floor of log2(self); requires self > 0.
    fn floor_log2(self) -> (r: u32)
        requires
            self.as_int() >= 1,
        ensures
            pow2(r as nat) <= self.as_int() < pow2(r as nat + 1),
            r < Self::bits(),
    ;

    /// Ceiling of log2(self); requires self > 0.
    fn ceil_log2(self) -> (r: u32)
        requires
            self.as_int() >= 1,
        ensures
            self.as_int() == 1 ==> r == 0,
            self.as_int() > 1 ==> pow2((r - 1) as nat) < self.as_int() <= pow2(r as nat),
            r <= Self::bits(),
    ;
}

pub fn round2<T: Int>(value: T, n: u32) -> (r: T)
    requires
        n as nat + 2 <= T::bits(),
        value.as_int() + pow2(n as nat) <= T::max_val() + 1,
    ensures
        r.as_int() == spec_round2(value.as_int(), n as nat),
{
    value.round2(n)
}

pub fn abs<T: SignedInt>(value: T) -> (r: T)
    requires
        value.as_int() > T::min_val(),
    ensures
        r.as_int() == if value.as_int() < 0 {
            -value.as_int()
        } else {
            value.as_int()
        },
{
    value.abs_()
}

pub fn unsigned_abs<T: SignedInt>(value: T) -> (r: T::Unsigned)
    ensures
        r.as_int() == if value.as_int() < 0 {
            -value.as_int()
        } else {
            value.as_int()
        },
{
    value.unsigned_abs_()
}

pub fn signum<T: SignedInt>(value: T) -> (r: T)
    ensures
        r.as_int() == if value.as_int() < 0 {
            -1int
        } else if value.as_int() == 0 {
            0int
        } else {
            1int
        },
{
    value.signum_()
}

pub fn round2_signed<T: SignedInt>(value: T, n: u32) -> (r: T)
    requires
        n as nat + 2 <= T::bits(),
        value.as_int() + pow2(n as nat) <= T::max_val() + 1,
        T::min_val() + pow2(n as nat) <= value.as_int() || value.as_int() >= 0,
    ensures
        r.as_int() == spec_round2_signed(value.as_int(), n as nat),
{
    value.round2_signed(n)
}

pub fn floor_log2<T: UnsignedInt>(value: T) -> (r: u32)
    requires
        value.as_int() >= 1,
    ensures
        pow2(r as nat) <= value.as_int() < pow2(r as nat + 1),
        r < T::bits(),
{
    value.floor_log2()
}

pub fn ceil_log2<T: UnsignedInt>(value: T) -> (r: u32)
    requires
        value.as_int() >= 1,
    ensures
        value.as_int() == 1 ==> r == 0,
        value.as_int() > 1 ==> pow2((r - 1) as nat) < value.as_int() <= pow2(r as nat),
        r <= T::bits(),
{
    value.ceil_log2()
}

pub fn min<T: Int>(a: T, b: T) -> (r: T)
    ensures
        r.as_int() == if a.as_int() <= b.as_int() {
            a.as_int()
        } else {
            b.as_int()
        },
{
    if b.lt(a) {
        b
    } else {
        a
    }
}

pub fn max<T: Int>(a: T, b: T) -> (r: T)
    ensures
        r.as_int() == if a.as_int() >= b.as_int() {
            a.as_int()
        } else {
            b.as_int()
        },
{
    if a.lt(b) {
        b
    } else {
        a
    }
}

pub fn clamp<T: Int>(value: T, lo: T, hi: T) -> (r: T)
    requires
        lo.as_int() <= hi.as_int(),
    ensures
        r.as_int() == spec_clamp(value.as_int(), lo.as_int(), hi.as_int()),
{
    if value.lt(lo) {
        lo
    } else if hi.lt(value) {
        hi
    } else {
        value
    }
}


// Powers of two as machine values, tied to `pow2`.
pub fn pow2_u32(n: u32) -> (r: u32)
    requires
        n < 32,
    ensures
        r == pow2(n as nat),
        r >= 1,
{
    proof {
        vstd::bits::lemma_u32_pow2_no_overflow(n as nat);
        vstd::bits::lemma_u32_shl_is_mul(1u32, n);
    }
    1u32 << n
}

pub fn pow2_u64(n: u64) -> (r: u64)
    requires
        n < 64,
    ensures
        r == pow2(n as nat),
        r >= 1,
{
    proof {
        vstd::bits::lemma_u64_pow2_no_overflow(n as nat);
        vstd::bits::lemma_u64_shl_is_mul(1u64, n);
    }
    1u64 << n
}

/// Floor division of a negative dividend by a positive divisor, written
/// with nonnegative operands.
proof fn lemma_neg_floor_div(a: int, d: int)
    requires
        a > 0,
        d > 0,
    ensures
        (-a) / d == if a % d == 0 {
            -(a / d)
        } else {
            -(a / d) - 1
        },
{
    let q = a / d;
    let r = a % d;
    vstd::arithmetic::div_mod::lemma_fundamental_div_mod(a, d);
    if r == 0 {
        assert(-a == (-q) * d + 0) by (nonlinear_arith)
            requires
                a == q * d + r,
                r == 0,
        ;
        vstd::arithmetic::div_mod::lemma_fundamental_div_mod_converse(-a, d, -q, 0);
    } else {
        assert(-a == (-q - 1) * d + (d - r)) by (nonlinear_arith)
            requires
                a == q * d + r,
        ;
        vstd::arithmetic::div_mod::lemma_fundamental_div_mod_converse(-a, d, -q - 1, d - r);
    }
}

fn floor_log2_u64(x: u64) -> (r: u32)
    requires
        x >= 1,
    ensures
        pow2(r as nat) <= x < pow2(r as nat + 1),
        r < 64,
{
    let mut v: u64 = x;
    let mut r: u32 = 0;
    proof {
        vstd::arithmetic::power2::lemma2_to64();
    }
    while v > 1
        invariant
            r < 64,
            v >= 1,
            v == x as nat / pow2(r as nat),
        decreases v,
    {
        proof {
            vstd::arithmetic::power2::lemma_pow2_pos(r as nat);
            vstd::arithmetic::power2::lemma_pow2_adds(r as nat, 1);
            vstd::arithmetic::power2::lemma2_to64();
            vstd::arithmetic::div_mod::lemma_div_denominator(x as int, pow2(r as nat) as int, 2);
            assert(x as nat / pow2(r as nat) / 2 == x as nat / pow2(r as nat + 1));
            if r + 1 >= 64 {
                vstd::arithmetic::power2::lemma2_to64_rest();
                vstd::arithmetic::div_mod::lemma_fundamental_div_mod(x as int, pow2(r as nat) as int);
                vstd::arithmetic::mul::lemma_mul_inequality(2, v as int, pow2(r as nat) as int);
                vstd::arithmetic::power2::lemma_pow2_adds(r as nat, 1);
                assert(false);
            }
        }
        v = v / 2;
        r = r + 1;
    }
    proof {
        vstd::arithmetic::power2::lemma_pow2_pos(r as nat);
        vstd::arithmetic::div_mod::lemma_fundamental_div_mod(x as int, pow2(r as nat) as int);
        vstd::arithmetic::power2::lemma_pow2_adds(r as nat, 1);
        vstd::arithmetic::power2::lemma2_to64();
    }
    r
}

impl Int for u8 {
    open spec fn as_int(self) -> int {
        self as int
    }

    open spec fn min_val() -> int {
        u8::MIN as int
    }

    open spec fn max_val() -> int {
        u8::MAX as int
    }

    open spec fn bits() -> nat {
        8
    }

    fn lt(self, other: Self) -> (r: bool) {
        self < other
    }

    fn round2(self, n: u32) -> (r: Self) {
        if n == 0 {
            self
        } else {
            let offset: u8 = pow2_u64((n - 1) as u64) as u8;
            let divisor: u8 = pow2_u64(n as u64) as u8;
            proof {
                vstd::arithmetic::power2::lemma_pow2_strictly_increases((n - 1) as nat, n as nat);
                vstd::arithmetic::power2::lemma_pow2_strictly_increases(n as nat, 8);
                vstd::arithmetic::power2::lemma2_to64();
                vstd::arithmetic::power2::lemma2_to64_rest();
            }
            (self + offset) / divisor
        }
    }
}


impl UnsignedInt for u8 {
    fn floor_log2(self) -> (r: u32) {
        let r = floor_log2_u64(self as u64);
        proof {
            if r >= 8 {
                if r > 8 {
                    vstd::arithmetic::power2::lemma_pow2_strictly_increases(8, r as nat);
                }
                vstd::arithmetic::power2::lemma2_to64();
                vstd::arithmetic::power2::lemma2_to64_rest();
                assert(false);
            }
        }
        r
    }

    fn ceil_log2(self) -> (r: u32) {
        if self == 1 {
            0
        } else {
            let f = floor_log2_u64((self - 1) as u64);
            proof {
                if f + 1 > 8 {
                    if f > 8 {
                        vstd::arithmetic::power2::lemma_pow2_strictly_increases(8, f as nat);
                    }
                    vstd::arithmetic::power2::lemma2_to64();
                    vstd::arithmetic::power2::lemma2_to64_rest();
                    assert(false);
                }
            }
            f + 1
        }
    }
}


impl Int for u16 {
    open spec fn as_int(self) -> int {
        self as int
    }

    open spec fn min_val() -> int {
        u16::MIN as int
    }

    open spec fn max_val() -> int {
        u16::MAX as int
    }

    open spec fn bits() -> nat {
        16
    }

    fn lt(self, other: Self) -> (r: bool) {
        self < other
    }

    fn round2(self, n: u32) -> (r: Self) {
        if n == 0 {
            self
        } else {
            let offset: u16 = pow2_u64((n - 1) as u64) as u16;
            let divisor: u16 = pow2_u64(n as u64) as u16;
            proof {
                vstd::arithmetic::power2::lemma_pow2_strictly_increases((n - 1) as nat, n as nat);
                vstd::arithmetic::power2::lemma_pow2_strictly_increases(n as nat, 16);
                vstd::arithmetic::power2::lemma2_to64();
                vstd::arithmetic::power2::lemma2_to64_rest();
            }
            (self + offset) / divisor
        }
    }
}


impl UnsignedInt for u16 {
    fn floor_log2(self) -> (r: u32) {
        let r = floor_log2_u64(self as u64);
        proof {
            if r >= 16 {
                if r > 16 {
                    vstd::arithmetic::power2::lemma_pow2_strictly_increases(16, r as nat);
                }
                vstd::arithmetic::power2::lemma2_to64();
                vstd::arithmetic::power2::lemma2_to64_rest();
                assert(false);
            }
        }
        r
    }

    fn ceil_log2(self) -> (r: u32) {
        if self == 1 {
            0
        } else {
            let f = floor_log2_u64((self - 1) as u64);
            proof {
                if f + 1 > 16 {
                    if f > 16 {
                        vstd::arithmetic::power2::lemma_pow2_strictly_increases(16, f as nat);
                    }
                    vstd::arithmetic::power2::lemma2_to64();
                    vstd::arithmetic::power2::lemma2_to64_rest();
                    assert(false);
                }
            }
            f + 1
        }
    }
}


impl Int for u32 {
    open spec fn as_int(self) -> int {
        self as int
    }

    open spec fn min_val() -> int {
        u32::MIN as int
    }

    open spec fn max_val() -> int {
        u32::MAX as int
    }

    open spec fn bits() -> nat {
        32
    }

    fn lt(self, other: Self) -> (r: bool) {
        self < other
    }

    fn round2(self, n: u32) -> (r: Self) {
        if n == 0 {
            self
        } else {
            let offset: u32 = pow2_u64((n - 1) as u64) as u32;
            let divisor: u32 = pow2_u64(n as u64) as u32;
            proof {
                vstd::arithmetic::power2::lemma_pow2_strictly_increases((n - 1) as nat, n as nat);
                vstd::arithmetic::power2::lemma_pow2_strictly_increases(n as nat, 32);
                vstd::arithmetic::power2::lemma2_to64();
                vstd::arithmetic::power2::lemma2_to64_rest();
            }
            (self + offset) / divisor
        }
    }
}


impl UnsignedInt for u32 {
    fn floor_log2(self) -> (r: u32) {
        let r = floor_log2_u64(self as u64);
        proof {
            if r >= 32 {
                if r > 32 {
                    vstd::arithmetic::power2::lemma_pow2_strictly_increases(32, r as nat);
                }
                vstd::arithmetic::power2::lemma2_to64();
                vstd::arithmetic::power2::lemma2_to64_rest();
                assert(false);
            }
        }
        r
    }

    fn ceil_log2(self) -> (r: u32) {
        if self == 1 {
            0
        } else {
            let f = floor_log2_u64((self - 1) as u64);
            proof {
                if f + 1 > 32 {
                    if f > 32 {
                        vstd::arithmetic::power2::lemma_pow2_strictly_increases(32, f as nat);
                    }
                    vstd::arithmetic::power2::lemma2_to64();
                    vstd::arithmetic::power2::lemma2_to64_rest();
                    assert(false);
                }
            }
            f + 1
        }
    }
}


impl Int for u64 {
    open spec fn as_int(self) -> int {
        self as int
    }

    open spec fn min_val() -> int {
        u64::MIN as int
    }

    open spec fn max_val() -> int {
        u64::MAX as int
    }

    open spec fn bits() -> nat {
        64
    }

    fn lt(self, other: Self) -> (r: bool) {
        self < other
    }

    fn round2(self, n: u32) -> (r: Self) {
        if n == 0 {
            self
        } else {
            let offset: u64 = pow2_u64((n - 1) as u64) as u64;
            let divisor: u64 = pow2_u64(n as u64) as u64;
            proof {
                vstd::arithmetic::power2::lemma_pow2_strictly_increases((n - 1) as nat, n as nat);
                vstd::arithmetic::power2::lemma_pow2_strictly_increases(n as nat, 64);
                vstd::arithmetic::power2::lemma2_to64();
                vstd::arithmetic::power2::lemma2_to64_rest();
            }
            (self + offset) / divisor
        }
    }
}


impl UnsignedInt for u64 {
    fn floor_log2(self) -> (r: u32) {
        let r = floor_log2_u64(self as u64);
        proof {
            if r >= 64 {
                if r > 64 {
                    vstd::arithmetic::power2::lemma_pow2_strictly_increases(64, r as nat);
                }
                vstd::arithmetic::power2::lemma2_to64();
                vstd::arithmetic::power2::lemma2_to64_rest();
                assert(false);
            }
        }
        r
    }

    fn ceil_log2(self) -> (r: u32) {
        if self == 1 {
            0
        } else {
            let f = floor_log2_u64((self - 1) as u64);
            proof {
                if f + 1 > 64 {
                    if f > 64 {
                        vstd::arithmetic::power2::lemma_pow2_strictly_increases(64, f as nat);
                    }
                    vstd::arithmetic::power2::lemma2_to64();
                    vstd::arithmetic::power2::lemma2_to64_rest();
                    assert(false);
                }
            }
            f + 1
        }
    }
}


impl Int for usize {
    open spec fn as_int(self) -> int {
        self as int
    }

    open spec fn min_val() -> int {
        usize::MIN as int
    }

    open spec fn max_val() -> int {
        usize::MAX as int
    }

    open spec fn bits() -> nat {
        64
    }

    fn lt(self, other: Self) -> (r: bool) {
        self < other
    }

    fn round2(self, n: u32) -> (r: Self) {
        if n == 0 {
            self
        } else {
            let offset: u64 = pow2_u64((n - 1) as u64);
            let divisor: u64 = pow2_u64(n as u64);
            proof {
                vstd::arithmetic::power2::lemma_pow2_strictly_increases((n - 1) as nat, n as nat);
            }
            let s: u64 = (self as u64) + offset;
            let q: u64 = s / divisor;
            proof {
                vstd::arithmetic::div_mod::lemma_div_is_ordered_by_denominator(s as int, 1, divisor as int);
            }
            q as usize
        }
    }
}

impl UnsignedInt for usize {
    fn floor_log2(self) -> (r: u32) {
        let r = floor_log2_u64(self as u64);
        proof {
            if r >= 64 {
                if r > 64 {
                    vstd::arithmetic::power2::lemma_pow2_strictly_increases(64, r as nat);
                }
                vstd::arithmetic::power2::lemma2_to64();
                vstd::arithmetic::power2::lemma2_to64_rest();
                assert(false);
            }
        }
        r
    }

    fn ceil_log2(self) -> (r: u32) {
        if self == 1 {
            0
        } else {
            let f = floor_log2_u64((self - 1) as u64);
            proof {
                if f + 1 > 64 {
                    if f > 64 {
                        vstd::arithmetic::power2::lemma_pow2_strictly_increases(64, f as nat);
                    }
                    vstd::arithmetic::power2::lemma2_to64();
                    vstd::arithmetic::power2::lemma2_to64_rest();
                    assert(false);
                }
            }
            f + 1
        }
    }
}


impl Int for i8 {
    open spec fn as_int(self) -> int {
        self as int
    }

    open spec fn min_val() -> int {
        i8::MIN as int
    }

    open spec fn max_val() -> int {
        i8::MAX as int
    }

    open spec fn bits() -> nat {
        8
    }

    fn lt(self, other: Self) -> (r: bool) {
        self < other
    }

    fn round2(self, n: u32) -> (r: Self) {
        if n == 0 {
            self
        } else {
            proof {
                vstd::arithmetic::power2::lemma_pow2_strictly_increases((n - 1) as nat, n as nat);
                vstd::arithmetic::power2::lemma_pow2_strictly_increases(n as nat, (8 - 1) as nat);
                vstd::arithmetic::power2::lemma2_to64();
                vstd::arithmetic::power2::lemma2_to64_rest();
            }
            let offset: i8 = pow2_u64((n - 1) as u64) as i8;
            let divisor: i8 = pow2_u64(n as u64) as i8;
            let s: i8 = self + offset;
            if s >= 0 {
                s / divisor
            } else {
                let q: i8 = (-s) / divisor;
                let rem: i8 = (-s) % divisor;
                proof {
                    lemma_neg_floor_div(-s as int, divisor as int);
                }
                if rem == 0 {
                    -q
                } else {
                    -q - 1
                }
            }
        }
    }
}

impl SignedInt for i8 {
    type Unsigned = u8;

    fn abs_(self) -> (r: Self) {
        if self < 0 {
            -self
        } else {
            self
        }
    }

    fn unsigned_abs_(self) -> (r: u8) {
        if self >= 0 {
            self as u8
        } else {
            let w: i128 = -(self as i128);
            w as u8
        }
    }

    fn signum_(self) -> (r: Self) {
        if self < 0 {
            -1
        } else if self == 0 {
            0
        } else {
            1
        }
    }

    fn round2_signed(self, n: u32) -> (r: Self) {
        if self < 0 {
            proof {
                vstd::arithmetic::power2::lemma_pow2_pos(n as nat);
            }
            let m: i8 = -self;
            let t: i8 = m.round2(n);
            proof {
                vstd::arithmetic::power2::lemma_pow2_pos(n as nat);
                if n >= 1 {
                    vstd::arithmetic::div_mod::lemma_div_pos_is_pos(
                        m as int + pow2((n - 1) as nat) as int,
                        pow2(n as nat) as int,
                    );
                }
            }
            -t
        } else {
            self.round2(n)
        }
    }
}


impl Int for i16 {
    open spec fn as_int(self) -> int {
        self as int
    }

    open spec fn min_val() -> int {
        i16::MIN as int
    }

    open spec fn max_val() -> int {
        i16::MAX as int
    }

    open spec fn bits() -> nat {
        16
    }

    fn lt(self, other: Self) -> (r: bool) {
        self < other
    }

    fn round2(self, n: u32) -> (r: Self) {
        if n == 0 {
            self
        } else {
            proof {
                vstd::arithmetic::power2::lemma_pow2_strictly_increases((n - 1) as nat, n as nat);
                vstd::arithmetic::power2::lemma_pow2_strictly_increases(n as nat, (16 - 1) as nat);
                vstd::arithmetic::power2::lemma2_to64();
                vstd::arithmetic::power2::lemma2_to64_rest();
            }
            let offset: i16 = pow2_u64((n - 1) as u64) as i16;
            let divisor: i16 = pow2_u64(n as u64) as i16;
            let s: i16 = self + offset;
            if s >= 0 {
                s / divisor
            } else {
                let q: i16 = (-s) / divisor;
                let rem: i16 = (-s) % divisor;
                proof {
                    lemma_neg_floor_div(-s as int, divisor as int);
                }
                if rem == 0 {
                    -q
                } else {
                    -q - 1
                }
            }
        }
    }
}

impl SignedInt for i16 {
    type Unsigned = u16;

    fn abs_(self) -> (r: Self) {
        if self < 0 {
            -self
        } else {
            self
        }
    }

    fn unsigned_abs_(self) -> (r: u16) {
        if self >= 0 {
            self as u16
        } else {
            let w: i128 = -(self as i128);
            w as u16
        }
    }

    fn signum_(self) -> (r: Self) {
        if self < 0 {
            -1
        } else if self == 0 {
            0
        } else {
            1
        }
    }

    fn round2_signed(self, n: u32) -> (r: Self) {
        if self < 0 {
            proof {
                vstd::arithmetic::power2::lemma_pow2_pos(n as nat);
            }
            let m: i16 = -self;
            let t: i16 = m.round2(n);
            proof {
                vstd::arithmetic::power2::lemma_pow2_pos(n as nat);
                if n >= 1 {
                    vstd::arithmetic::div_mod::lemma_div_pos_is_pos(
                        m as int + pow2((n - 1) as nat) as int,
                        pow2(n as nat) as int,
                    );
                }
            }
            -t
        } else {
            self.round2(n)
        }
    }
}


impl Int for i32 {
    open spec fn as_int(self) -> int {
        self as int
    }

    open spec fn min_val() -> int {
        i32::MIN as int
    }

    open spec fn max_val() -> int {
        i32::MAX as int
    }

    open spec fn bits() -> nat {
        32
    }

    fn lt(self, other: Self) -> (r: bool) {
        self < other
    }

    fn round2(self, n: u32) -> (r: Self) {
        if n == 0 {
            self
        } else {
            proof {
                vstd::arithmetic::power2::lemma_pow2_strictly_increases((n - 1) as nat, n as nat);
                vstd::arithmetic::power2::lemma_pow2_strictly_increases(n as nat, (32 - 1) as nat);
                vstd::arithmetic::power2::lemma2_to64();
                vstd::arithmetic::power2::lemma2_to64_rest();
            }
            let offset: i32 = pow2_u64((n - 1) as u64) as i32;
            let divisor: i32 = pow2_u64(n as u64) as i32;
            let s: i32 = self + offset;
            if s >= 0 {
                s / divisor
            } else {
                let q: i32 = (-s) / divisor;
                let rem: i32 = (-s) % divisor;
                proof {
                    lemma_neg_floor_div(-s as int, divisor as int);
                }
                if rem == 0 {
                    -q
                } else {
                    -q - 1
                }
            }
        }
    }
}

impl SignedInt for i32 {
    type Unsigned = u32;

    fn abs_(self) -> (r: Self) {
        if self < 0 {
            -self
        } else {
            self
        }
    }

    fn unsigned_abs_(self) -> (r: u32) {
        if self >= 0 {
            self as u32
        } else {
            let w: i128 = -(self as i128);
            w as u32
        }
    }

    fn signum_(self) -> (r: Self) {
        if self < 0 {
            -1
        } else if self == 0 {
            0
        } else {
            1
        }
    }

    fn round2_signed(self, n: u32) -> (r: Self) {
        if self < 0 {
            proof {
                vstd::arithmetic::power2::lemma_pow2_pos(n as nat);
            }
            let m: i32 = -self;
            let t: i32 = m.round2(n);
            proof {
                vstd::arithmetic::power2::lemma_pow2_pos(n as nat);
                if n >= 1 {
                    vstd::arithmetic::div_mod::lemma_div_pos_is_pos(
                        m as int + pow2((n - 1) as nat) as int,
                        pow2(n as nat) as int,
                    );
                }
            }
            -t
        } else {
            self.round2(n)
        }
    }
}


impl Int for i64 {
    open spec fn as_int(self) -> int {
        self as int
    }

    open spec fn min_val() -> int {
        i64::MIN as int
    }

    open spec fn max_val() -> int {
        i64::MAX as int
    }

    open spec fn bits() -> nat {
        64
    }

    fn lt(self, other: Self) -> (r: bool) {
        self < other
    }

    fn round2(self, n: u32) -> (r: Self) {
        if n == 0 {
            self
        } else {
            proof {
                vstd::arithmetic::power2::lemma_pow2_strictly_increases((n - 1) as nat, n as nat);
                vstd::arithmetic::power2::lemma_pow2_strictly_increases(n as nat, (64 - 1) as nat);
                vstd::arithmetic::power2::lemma2_to64();
                vstd::arithmetic::power2::lemma2_to64_rest();
            }
            let offset: i64 = pow2_u64((n - 1) as u64) as i64;
            let divisor: i64 = pow2_u64(n as u64) as i64;
            let s: i64 = self + offset;
            if s >= 0 {
                s / divisor
            } else {
                let q: i64 = (-s) / divisor;
                let rem: i64 = (-s) % divisor;
                proof {
                    lemma_neg_floor_div(-s as int, divisor as int);
                }
                if rem == 0 {
                    -q
                } else {
                    -q - 1
                }
            }
        }
    }
}

impl SignedInt for i64 {
    type Unsigned = u64;

    fn abs_(self) -> (r: Self) {
        if self < 0 {
            -self
        } else {
            self
        }
    }

    fn unsigned_abs_(self) -> (r: u64) {
        if self >= 0 {
            self as u64
        } else {
            let w: i128 = -(self as i128);
            w as u64
        }
    }

    fn signum_(self) -> (r: Self) {
        if self < 0 {
            -1
        } else if self == 0 {
            0
        } else {
            1
        }
    }

    fn round2_signed(self, n: u32) -> (r: Self) {
        if self < 0 {
            proof {
                vstd::arithmetic::power2::lemma_pow2_pos(n as nat);
            }
            let m: i64 = -self;
            let t: i64 = m.round2(n);
            proof {
                vstd::arithmetic::power2::lemma_pow2_pos(n as nat);
                if n >= 1 {
                    vstd::arithmetic::div_mod::lemma_div_pos_is_pos(
                        m as int + pow2((n - 1) as nat) as int,
                        pow2(n as nat) as int,
                    );
                }
            }
            -t
        } else {
            self.round2(n)
        }
    }
}



// ---- LEB128 ----

/// The AV1 LEB128 encoding of v: little-endian base-128 groups, the high bit
/// set on every byte but the last.
pub open spec fn leb_bytes(v: nat) -> Seq<u8>
    decreases v,
{
    if v < 128 {
        seq![v as u8]
    } else {
        seq![(128 + v % 128) as u8] + leb_bytes(v / 128)
    }
}

/// Value of a LEB128 byte string (the inverse of `leb_bytes`).
pub open spec fn leb_decode(s: Seq<u8>) -> nat
    decreases s.len(),
{
    if s.len() == 0 {
        0
    } else if s[0] < 128 {
        s[0] as nat
    } else {
        (s[0] - 128) as nat + 128 * leb_decode(s.skip(1))
    }
}

/// A well-formed (minimal) LEB128 byte string.
pub open spec fn leb_wf(s: Seq<u8>) -> bool {
    &&& s.len() >= 1
    &&& s.last() < 128
    &&& (forall|i: int| 0 <= i < s.len() - 1 ==> #[trigger] s[i] >= 128)
    &&& (s.len() > 1 ==> s.last() != 0)
}

/// Decoding inverts encoding: one half of the LEB128 bijection.
pub proof fn lemma_leb_round_trip(v: nat)
    ensures
        leb_decode(leb_bytes(v)) == v,
        leb_wf(leb_bytes(v)),
        v < pow2(56) ==> leb_bytes(v).len() <= 8,
    decreases v,
{
    vstd::arithmetic::power2::lemma2_to64();
    if v < 128 {
        assert(leb_bytes(v) =~= seq![v as u8]);
    } else {
        lemma_leb_round_trip(v / 128);
        let s = leb_bytes(v);
        assert(s.skip(1) =~= leb_bytes(v / 128));
        vstd::arithmetic::div_mod::lemma_fundamental_div_mod(v as int, 128);
        assert(s.last() == leb_bytes(v / 128).last());
        assert(forall|i: int| 1 <= i < s.len() - 1 ==> s[i] == #[trigger] leb_bytes(v / 128)[i - 1]);
        if v < pow2(56) {
            assert(v / 128 < pow2(49)) by {
                vstd::arithmetic::power2::lemma_pow2_adds(49, 7);
                vstd::arithmetic::div_mod::lemma_div_by_multiple_is_strongly_ordered(
                    v as int, pow2(56) as int, pow2(49) as int, 128);
                vstd::arithmetic::power2::lemma2_to64_rest();
            }
            assert(pow2(49) < pow2(56)) by {
                vstd::arithmetic::power2::lemma_pow2_strictly_increases(49, 56);
            }
            lemma_leb_len_step(v / 128, 49);
        }
    }
}

/// Bound on the encoded length: v < 2^(7k) gives at most k bytes.
proof fn lemma_leb_len_step(v: nat, e: nat)
    requires
        v < pow2(e),
        e >= 7,
    ensures
        leb_bytes(v).len() <= (e + 6) / 7,
    decreases v,
{
    vstd::arithmetic::power2::lemma2_to64();
    if v < 128 {
    } else {
        assert(v / 128 < pow2((e - 7) as nat)) by {
            vstd::arithmetic::power2::lemma_pow2_adds((e - 7) as nat, 7);
            vstd::arithmetic::div_mod::lemma_div_by_multiple_is_strongly_ordered(
                v as int, pow2(e) as int, pow2((e - 7) as nat) as int, 128);
        }
        assert((e + 6) / 7 == (e - 1) / 7 + 1) by {
            vstd::arithmetic::div_mod::lemma_div_plus_one((e - 1) as int, 7);
        }
        if e == 7 {
            assert(false);
        } else if e - 7 >= 7 {
            lemma_leb_len_step(v / 128, (e - 7) as nat);
        } else {
            assert(pow2((e - 7) as nat) <= pow2(7)) by {
                if e - 7 < 7 {
                    vstd::arithmetic::power2::lemma_pow2_strictly_increases((e - 7) as nat, 7);
                }
            }
            assert(leb_bytes(v / 128).len() == 1);
            assert((e + 6) / 7 >= 2) by {
                vstd::arithmetic::div_mod::lemma_div_is_ordered(14, (e + 6) as int, 7);
            }
        }
    }
}

/// Encoding inverts decoding on well-formed strings: the other half of the
/// LEB128 bijection.
pub proof fn lemma_leb_round_trip_bytes(s: Seq<u8>)
    requires
        leb_wf(s),
    ensures
        leb_bytes(leb_decode(s)) == s,
    decreases s.len(),
{
    if s.len() == 1 {
        assert(leb_bytes(leb_decode(s)) =~= s);
    } else if s[0] < 128 {
        assert(false);
    } else {
        let tail = s.skip(1);
        assert(leb_wf(tail)) by {
            assert(forall|i: int| 0 <= i < tail.len() - 1 ==> #[trigger] tail[i] == s[i + 1]);
        }
        lemma_leb_round_trip_bytes(tail);
        let v = leb_decode(s);
        assert(leb_decode(tail) >= 1) by {
            if leb_decode(tail) == 0 {
                lemma_leb_round_trip_bytes(tail);
            }
        }
        assert(v == (s[0] - 128) + 128 * leb_decode(tail));
        assert(v % 128 == (s[0] - 128) as nat && v / 128 == leb_decode(tail)) by {
            vstd::arithmetic::div_mod::lemma_fundamental_div_mod_converse(
                v as int, 128, leb_decode(tail) as int, (s[0] - 128) as int);
        }
        assert(v >= 128) by {
            assert(128 * leb_decode(tail) >= 128 * 1) by (nonlinear_arith)
                requires
                    leb_decode(tail) >= 1,
            ;
        }
        assert(leb_bytes(v) =~= s);
    }
}

/// Append the LEB128 encoding of value.
pub fn write_leb128(w: &mut Vec<u8>, value: usize)
    ensures
        final(w)@ == old(w)@ + leb_bytes(value as nat),
{
    if value == 0 {
        w.push(0);
        proof {
            assert(w@ =~= old(w)@ + leb_bytes(0));
        }
        return ;
    }
    let mut v: usize = value;
    let ghost mut taken: Seq<u8> = Seq::empty();
    proof {
        assert(taken + leb_bytes(value as nat) =~= leb_bytes(value as nat));
    }
    while v >= 128
        invariant
            v >= 1,
            w@ == old(w)@ + taken,
            taken + leb_bytes(v as nat) == leb_bytes(value as nat),
        decreases v,
    {
        let b: u8 = (128 + (v % 128)) as u8;
        w.push(b);
        proof {
            assert(leb_bytes(v as nat) == seq![b] + leb_bytes((v / 128) as nat));
            taken = taken.push(b);
            assert(taken + leb_bytes((v / 128) as nat) =~= taken.drop_last() + leb_bytes(v as nat));
            assert(w@ =~= old(w)@ + taken);
        }
        v = v / 128;
    }
    w.push(v as u8);
    proof {
        assert(leb_bytes(v as nat) =~= seq![v as u8]);
        assert(w@ =~= old(w)@ + leb_bytes(value as nat));
    }
}

// ---- big-endian byte output ----

/// The low n bytes of v, most significant first.
pub open spec fn be_bytes(v: nat, n: nat) -> Seq<u8>
    decreases n,
{
    if n == 0 {
        Seq::empty()
    } else {
        be_bytes(v / 256, (n - 1) as nat).push((v % 256) as u8)
    }
}


pub proof fn lemma_be_bytes_len(v: nat, n: nat)
    ensures
        be_bytes(v, n).len() == n,
    decreases n,
{
    if n > 0 {
        lemma_be_bytes_len(v / 256, (n - 1) as nat);
    }
}

/// Append nbytes bytes of value in big-endian order.
pub fn write_be_bytes(w: &mut Vec<u8>, value: u64, nbytes: usize)
    requires
        nbytes <= 8,
        nbytes == 8 || (value as nat) < pow2(8 * nbytes as nat),
    ensures
        final(w)@ == old(w)@ + be_bytes(value as nat, nbytes as nat),
{
    let mut i: usize = nbytes;
    proof {
        if nbytes == 8 {
            vstd::arithmetic::power2::lemma2_to64_rest();
        }
        assert((value as nat) < pow2(8 * nbytes as nat));
        lemma_div_pow2_zero(value as nat, 8 * nbytes as nat);
        assert(be_bytes((value as nat) / pow2((8 * i) as nat), (nbytes - i) as nat) =~= Seq::<u8>::empty());
        assert(w@ =~= old(w)@ + Seq::<u8>::empty());
    }
    while i > 0
        invariant
            i <= nbytes,
            nbytes <= 8,
            w@ == old(w)@ + be_bytes((value as nat) / pow2((8 * i) as nat), (nbytes - i) as nat),
        decreases i,
    {
        let p: u64 = pow2_u64(8 * (i as u64 - 1));
        let b: u8 = ((value / p) % 256) as u8;
        proof {
            vstd::arithmetic::power2::lemma_pow2_adds((8 * (i - 1)) as nat, 8);
            vstd::arithmetic::power2::lemma_pow2_pos((8 * (i - 1)) as nat);
            vstd::arithmetic::power2::lemma2_to64();
            vstd::arithmetic::div_mod::lemma_div_denominator(
                value as int,
                pow2((8 * (i - 1)) as nat) as int,
                256,
            );
            let x = (value as nat) / pow2((8 * (i - 1)) as nat);
            assert(be_bytes(x, (nbytes - i + 1) as nat) == be_bytes(x / 256, (nbytes - i) as nat).push((x % 256) as u8));
            assert(w@.push(b) =~= old(w)@ + be_bytes(x, (nbytes - i + 1) as nat));
        }
        w.push(b);
        i = i - 1;
    }
    proof {
        assert(pow2(0) == 1) by {
            vstd::arithmetic::power2::lemma2_to64();
        }
        assert((value as nat) / 1 == value as nat);
    }
}

proof fn lemma_div_pow2_zero(v: nat, e: nat)
    requires
        v < pow2(e),
    ensures
        v / pow2(e) == 0,
{
    vstd::arithmetic::power2::lemma_pow2_pos(e);
    vstd::arithmetic::div_mod::lemma_basic_div(v as int, pow2(e) as int);
}

// ---- CDFs ----

/// Entries are strictly increasing.
pub open spec fn cdf_increasing(cdf: Seq<u16>) -> bool
    decreases cdf.len(),
{
    if cdf.len() <= 1 {
        true
    } else {
        cdf[0] < cdf[1] && cdf_increasing(cdf.skip(1))
    }
}

/// A valid CDF in the 15-bit space: nonempty, at most 15 entries (a 16-ary
/// alphabet), strictly increasing, first entry positive, last below 32768.
pub open spec fn cdf_valid(cdf: Seq<u16>) -> bool {
    &&& 1 <= cdf.len() <= 15
    &&& cdf[0] >= 1
    &&& cdf[cdf.len() - 1] <= 32767
    &&& cdf_increasing(cdf)
}

pub proof fn lemma_cdf_step(cdf: Seq<u16>, i: int)
    requires
        cdf_increasing(cdf),
        0 <= i < cdf.len() - 1,
    ensures
        cdf[i] < cdf[i + 1],
    decreases i,
{
    if i > 0 {
        lemma_cdf_step(cdf.skip(1), i - 1);
    }
}

pub proof fn lemma_cdf_mono(cdf: Seq<u16>, i: int, j: int)
    requires
        cdf_increasing(cdf),
        0 <= i <= j < cdf.len(),
    ensures
        cdf[i] <= cdf[j],
    decreases j - i,
{
    if i < j {
        lemma_cdf_step(cdf, i);
        lemma_cdf_mono(cdf, i + 1, j);
    }
}

/// The probability mass of one symbol under a CDF with the implicit
/// terminal 32768.
pub open spec fn spec_get_prob(symbol: int, cdf: Seq<u16>) -> int {
    if symbol == 0 {
        cdf[0] as int
    } else if symbol == cdf.len() {
        32768 - cdf[cdf.len() - 1]
    } else {
        cdf[symbol] - cdf[symbol - 1]
    }
}

/// Extract the probability of a single symbol from a CDF.
pub fn get_prob(symbol: usize, cdf: &[u16]) -> (r: u16)
    requires
        cdf_valid(cdf@),
        symbol <= cdf@.len(),
    ensures
        r == spec_get_prob(symbol as int, cdf@),
        1 <= r <= 32767,
{
    proof {
        lemma_cdf_mono(cdf@, 0, cdf@.len() - 1);
    }
    let n = cdf.len();
    if symbol == 0 {
        cdf[0]
    } else if symbol == n {
        proof {
            lemma_cdf_mono(cdf@, 0, cdf@.len() - 1);
        }
        32768 - cdf[n - 1]
    } else {
        proof {
            lemma_cdf_step(cdf@, symbol - 1);
            lemma_cdf_mono(cdf@, 0, symbol - 1);
            lemma_cdf_mono(cdf@, symbol as int, cdf@.len() - 1);
        }
        cdf[symbol] - cdf[symbol - 1]
    }
}

/// Sum of `spec_get_prob` over the symbols below k.
pub open spec fn prob_sum(cdf: Seq<u16>, k: int) -> int
    decreases k,
{
    if k <= 0 {
        0
    } else {
        prob_sum(cdf, k - 1) + spec_get_prob(k - 1, cdf)
    }
}

proof fn lemma_prob_sum_partial(cdf: Seq<u16>, k: int)
    requires
        cdf.len() >= 1,
        1 <= k <= cdf.len(),
    ensures
        prob_sum(cdf, k) == cdf[k - 1],
    decreases k,
{
    assert(prob_sum(cdf, 0) == 0);
    if k > 1 {
        lemma_prob_sum_partial(cdf, k - 1);
    }
}

/// The probabilities of all symbols of a valid CDF sum to exactly 32768.
pub proof fn lemma_get_prob_sums_to_one(cdf: Seq<u16>)
    requires
        cdf_valid(cdf),
    ensures
        prob_sum(cdf, cdf.len() as int + 1) == 32768,
{
    lemma_prob_sum_partial(cdf, cdf.len() as int);
}

} // verus!
