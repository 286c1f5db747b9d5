use vstd::prelude::*;

verus! {

use vstd::arithmetic::power2::pow2;

// MSB-first packed-bit writer.
//
// The view of a writer is the sequence of bits written so far.  `finalize`
// packs that sequence into bytes, optionally appending a single 1 bit first,
// then zero bits up to a byte boundary.

/// The value of a bit string read as a big-endian number.
pub open spec fn bits_val(s: Seq<bool>) -> nat
    decreases s.len(),
{
    if s.len() == 0 {
        0
    } else {
        2 * bits_val(s.drop_last()) + (if s.last() {
            1nat
        } else {
            0nat
        })
    }
}

/// The n-bit big-endian bit string of v (most significant bit first).
/// Meaningful when v < 2^n.
pub open spec fn bits_of(v: nat, n: nat) -> Seq<bool>
    decreases n,
{
    if n == 0 {
        Seq::empty()
    } else {
        bits_of(v / 2, (n - 1) as nat).push(v % 2 == 1)
    }
}

/// Pack a bit string whose length is a multiple of 8 into bytes, MSB first.
pub open spec fn pack_bytes(s: Seq<bool>) -> Seq<u8>
    decreases s.len(),
{
    if s.len() < 8 {
        Seq::empty()
    } else {
        pack_bytes(s.take(s.len() - 8)).push(bits_val(s.skip(s.len() - 8)) as u8)
    }
}

/// Zero bits appended to reach a byte boundary.
pub open spec fn pad_to_byte(s: Seq<bool>) -> Seq<bool> {
    s + Seq::new(((8 - s.len() % 8) % 8) as nat, |i: int| false)
}

/// The bytes that `finalize` returns for the bits written.
pub open spec fn spec_finalize(s: Seq<bool>, add_trailing_one: bool) -> Seq<u8> {
    if add_trailing_one {
        pack_bytes(pad_to_byte(s.push(true)))
    } else {
        pack_bytes(pad_to_byte(s))
    }
}

pub struct BitWriter {
    bytes: Vec<u8>,
    // Value of the pending bit group, not yet flushed into `bytes`.
    bit_buffer: u8,
    // Number of pending bits, always < 8.
    bit_count: u8,
    // All bits written so far.
    bits: Ghost<Seq<bool>>,
}

impl BitWriter {
    pub closed spec fn view(self) -> Seq<bool> {
        self.bits@
    }

    pub closed spec fn wf(self) -> bool {
        &&& self.bit_count < 8
        &&& self.bits@.len() == self.bytes@.len() * 8 + self.bit_count as nat
        &&& self.bytes@ == pack_bytes(self.bits@.take((self.bytes@.len() * 8) as int))
        &&& self.bit_buffer as nat == bits_val(self.bits@.skip((self.bytes@.len() * 8) as int))
    }

    pub fn new() -> (r: Self)
        ensures
            r.wf(),
            r@ == Seq::<bool>::empty(),
    {
        let r = BitWriter {
            bytes: Vec::new(),
            bit_buffer: 0,
            bit_count: 0,
            bits: Ghost(Seq::empty()),
        };
        proof {
            assert(r.bits@.take(0) =~= Seq::<bool>::empty());
            assert(r.bits@.skip(0) =~= Seq::<bool>::empty());
        }
        r
    }

    /// Append one bit.
    pub fn write_bit(&mut self, v: u8)
        requires
            old(self).wf(),
            v <= 1,
        ensures
            final(self).wf(),
            final(self)@ == old(self)@.push(v == 1),
    {
        proof {
            lemma_bits_val_bound(self.bits@.skip((self.bytes@.len() * 8) as int));
            vstd::arithmetic::power2::lemma2_to64();
            if (self.bit_count as nat) < 7 {
                vstd::arithmetic::power2::lemma_pow2_strictly_increases(
                    self.bit_count as nat,
                    7,
                );
            }
        }
        self.bit_buffer = 2 * self.bit_buffer + v;
        self.bit_count = self.bit_count + 1;
        proof {
            self.bits@ = self.bits@.push(v == 1);
            let n = (self.bytes@.len() * 8) as int;
            assert(self.bits@.skip(n).drop_last() =~= old(self).bits@.skip(n));
            assert(self.bits@.skip(n).last() == (v == 1));
            assert(self.bits@.take(n) =~= old(self).bits@.take(n));
        }
        if self.bit_count == 8 {
            let b = self.bit_buffer;
            self.bytes.push(b);
            self.bit_buffer = 0;
            self.bit_count = 0;
            proof {
                let n = (self.bytes@.len() * 8) as int;
                assert(self.bits@.len() == n);
                assert(self.bits@.take(n as int) =~= self.bits@);
                assert(self.bits@.take(n - 8) =~= old(self).bits@.take(
                    (old(self).bytes@.len() * 8) as int,
                ));
                assert(pack_bytes(self.bits@) == pack_bytes(self.bits@.take(n - 8)).push(
                    bits_val(self.bits@.skip(n - 8)) as u8,
                ));
                assert(self.bits@.skip(n as int) =~= Seq::<bool>::empty());
            }
        }
    }

    /// Append the low n bits of value, most significant of the group first.
    pub fn write_bits(&mut self, value: u64, n: u32)
        requires
            old(self).wf(),
            n <= 64,
            (value as nat) < pow2(n as nat),
        ensures
            final(self).wf(),
            final(self)@ == old(self)@ + bits_of(value as nat, n as nat),
    {
        let mut i: u32 = n;
        proof {
            lemma_div_pow2_high(value as nat, n as nat);
            assert(old(self)@ + bits_of((value as nat) / pow2(n as nat), 0) =~= old(self)@);
        }
        while i > 0
            invariant
                self.wf(),
                i <= n,
                n <= 64,
                (value as nat) < pow2(n as nat),
                self@ == old(self)@ + bits_of((value as nat) / pow2(i as nat), (n - i) as nat),
            decreases i,
        {
            let p: u64 = crate::util::pow2_u64((i - 1) as u64);
            let bit: u8 = ((value / p) % 2) as u8;
            proof {
                lemma_write_bits_step(value as nat, i as nat, n as nat);
                assert((old(self)@ + bits_of((value as nat) / pow2(i as nat), (n - i) as nat)).push(
                    ((value as nat) / pow2((i - 1) as nat)) % 2 == 1,
                ) =~= old(self)@ + bits_of((value as nat) / pow2((i - 1) as nat), (n - i + 1) as nat));
            }
            self.write_bit(bit);
            i = i - 1;
        }
        proof {
            vstd::arithmetic::power2::lemma2_to64();
            assert((value as nat) / pow2(0) == value as nat);
            assert(self@ =~= old(self)@ + bits_of(value as nat, n as nat));
        }
    }

    /// Pack the written bits into bytes, optionally appending a single 1 bit
    /// first, then zero padding to a byte boundary.
    pub fn finalize(self, add_trailing_one: bool) -> (r: Vec<u8>)
        requires
            self.wf(),
        ensures
            r@ == spec_finalize(self@, add_trailing_one),
    {
        let mut w = self;
        if add_trailing_one {
            w.write_bit(1);
        }
        let ghost l0 = w@;
        proof {
            lemma_mod_of_packed(w.bytes@.len() as int, w.bit_count as int);
        }
        let pad: u8 = if w.bit_count == 0 {
            0
        } else {
            8 - w.bit_count
        };
        let mut j: u8 = 0;
        proof {
            assert(l0 + Seq::new(0, |i: int| false) =~= l0);
        }
        while j < pad
            invariant
                w.wf(),
                j <= pad,
                pad < 8,
                l0.len() % 8 == (if pad == 0 {
                    0int
                } else {
                    8 - pad
                }),
                w@ == l0 + Seq::new(j as nat, |i: int| false),
            decreases pad - j,
        {
            proof {
                assert(w@.len() == l0.len() + j);
                vstd::arithmetic::div_mod::lemma_add_mod_noop(l0.len() as int, j as int, 8);
                vstd::arithmetic::div_mod::lemma_mod_self_0(8);
                vstd::arithmetic::div_mod::lemma_small_mod((8 - pad + j) as nat, 8);
                vstd::arithmetic::div_mod::lemma_small_mod(j as nat, 8);
                assert(w@.len() % 8 != 0);
                lemma_pad_push_false(w@);
                assert(pad_to_byte(w@) == pad_to_byte(l0 + Seq::new(j as nat, |i: int| false)));
                assert((l0 + Seq::new(j as nat, |i: int| false)).push(false) =~= l0 + Seq::new(
                    (j + 1) as nat,
                    |i: int| false,
                ));
            }
            w.write_bit(0);
            j = j + 1;
        }
        proof {
            if pad > 0 {
                vstd::arithmetic::div_mod::lemma_small_mod((8 - pad) as nat, 8);
            }
            assert(w@ =~= pad_to_byte(l0));
            lemma_mod_of_packed(w.bytes@.len() as int, w.bit_count as int);
            vstd::arithmetic::div_mod::lemma_add_mod_noop(l0.len() as int, pad as int, 8);
            vstd::arithmetic::div_mod::lemma_mod_self_0(8);
            assert(w@.len() % 8 == 0);
            assert(w.bit_count == 0);
            assert(w@.take((w.bytes@.len() * 8) as int) =~= w@);
        }
        w.bytes
    }
}

proof fn lemma_mod_of_packed(k: int, c: int)
    requires
        k >= 0,
        0 <= c < 8,
    ensures
        (k * 8 + c) % 8 == c,
{
    assert((k * 8 + c) % 8 == c) by (nonlinear_arith)
        requires
            k >= 0,
            0 <= c < 8,
    ;
}

proof fn lemma_bits_val_bound(s: Seq<bool>)
    ensures
        bits_val(s) < pow2(s.len()),
    decreases s.len(),
{
    vstd::arithmetic::power2::lemma2_to64();
    if s.len() == 0 {
    } else {
        lemma_bits_val_bound(s.drop_last());
        vstd::arithmetic::power2::lemma_pow2_adds((s.len() - 1) as nat, 1);
    }
}

proof fn lemma_div_pow2_high(v: nat, n: nat)
    requires
        v < pow2(n),
    ensures
        v / pow2(n) == 0,
{
    vstd::arithmetic::power2::lemma_pow2_pos(n);
    vstd::arithmetic::div_mod::lemma_basic_div(v as int, pow2(n) as int);
}

proof fn lemma_write_bits_step(v: nat, i: nat, n: nat)
    requires
        1 <= i <= n,
    ensures
        bits_of(v / pow2(i), (n - i) as nat).push((v / pow2((i - 1) as nat)) % 2 == 1) == bits_of(
            v / pow2((i - 1) as nat),
            (n - i + 1) as nat,
        ),
{
    vstd::arithmetic::power2::lemma_pow2_adds((i - 1) as nat, 1);
    vstd::arithmetic::power2::lemma_pow2_pos((i - 1) as nat);
    vstd::arithmetic::power2::lemma2_to64();
    vstd::arithmetic::div_mod::lemma_div_denominator(v as int, pow2((i - 1) as nat) as int, 2);
    assert(v / pow2((i - 1) as nat) / 2 == v / pow2(i));
}

proof fn lemma_pad_push_false(s: Seq<bool>)
    requires
        s.len() % 8 != 0,
    ensures
        pad_to_byte(s.push(false)) == pad_to_byte(s),
{
    assert(pad_to_byte(s.push(false)) =~= pad_to_byte(s));
}

} // verus!
