use vstd::prelude::*;

verus! {

use vstd::arithmetic::power2::pow2;
use vstd::arithmetic::power2::lemma_pow2_adds;
use vstd::arithmetic::power2::lemma_pow2_pos;
use vstd::arithmetic::power2::lemma_pow2_strictly_increases;
use vstd::arithmetic::power2::lemma2_to64;
use vstd::arithmetic::div_mod::lemma_fundamental_div_mod;
use vstd::arithmetic::div_mod::lemma_fundamental_div_mod_converse;
use vstd::arithmetic::mul::lemma_mul_inequality;
use crate::util::cdf_valid;
use crate::util::pow2_u32;

// The AV1 non-adaptive arithmetic coder.
//
// A writer records, besides its concrete state, the ghost sequence of
// (symbol, CDF) pairs it has encoded.  The concrete state is always exactly
// the replay of that sequence from the initial state, so the contracts of
// the syntax layer can speak purely in terms of the recorded symbols.
// CDFs are in the increasing cumulative convention with an implicit final
// 32768; probabilities use the 15-bit space, EC_PROB_SHIFT = 6 and
// EC_MIN_PROB = 4.

/// One encoded symbol: symbol index and the CDF it was coded under.
/// A boolean with probability p of zero is a symbol under the CDF [p].
pub struct EcEvent {
    pub sym: nat,
    pub cdf: Seq<u16>,
}

/// The coder state: emitted pre-carry words, the interval base and size,
/// and the carry counter.
pub struct EcState {
    pub precarry: Seq<u16>,
    pub low: nat,
    pub rng: nat,
    pub cnt: int,
}

pub open spec fn ec_init() -> EcState {
    EcState { precarry: Seq::empty(), low: 0, rng: 0x8000, cnt: -9 }
}

/// Number of doublings that bring r into [0x8000, 0x10000).
pub open spec fn ec_d(r: nat) -> nat
    decreases (if r < 0x8000 {
        (0x8000 - r) as nat
    } else {
        0nat
    }),
{
    if r == 0 {
        0
    } else if r >= 0x8000 {
        0
    } else {
        1 + ec_d(2 * r)
    }
}

/// Renormalize: shift the interval up by ec_d(r), moving finished words of
/// `l` out into the pre-carry buffer.
pub open spec fn ec_norm(st: EcState, l: nat, r: nat) -> EcState {
    let d = ec_d(r);
    let s = st.cnt + d;
    if s >= 0 {
        let c = st.cnt + 16;
        if s >= 8 {
            let m1 = pow2(c as nat);
            let m2 = pow2((c - 8) as nat);
            EcState {
                precarry: st.precarry.push((l / m1) as u16).push(((l % m1) / m2) as u16),
                low: (l % m2) * pow2(d),
                rng: r * pow2(d),
                cnt: s - 16,
            }
        } else {
            let m1 = pow2(c as nat);
            EcState {
                precarry: st.precarry.push((l / m1) as u16),
                low: (l % m1) * pow2(d),
                rng: r * pow2(d),
                cnt: s - 8,
            }
        }
    } else {
        EcState { precarry: st.precarry, low: l * pow2(d), rng: r * pow2(d), cnt: s }
    }
}

/// The scaled interval size for an inverse frequency f and min-prob count k.
pub open spec fn ec_u(rng: nat, f: nat, k: nat) -> nat {
    ((rng / 256) * (f / 64)) / 2 + 4 * k
}

/// Encode one symbol: split the interval at the symbol's CDF bounds, take
/// the sub-interval, renormalize.
pub open spec fn ec_symbol(st: EcState, s: nat, cdf: Seq<u16>) -> EcState {
    let n = cdf.len();
    let fh: nat = if s == n {
        0
    } else {
        (32768 - cdf[s as int]) as nat
    };
    if s > 0 {
        let fl: nat = (32768 - cdf[s - 1]) as nat;
        let u = ec_u(st.rng, fl, (n - s + 1) as nat);
        let v = ec_u(st.rng, fh, (n - s) as nat);
        ec_norm(st, (st.low + (st.rng - u)) as nat, (u - v) as nat)
    } else {
        let v = ec_u(st.rng, fh, n);
        ec_norm(st, st.low, (st.rng - v) as nat)
    }
}

/// The coder state after encoding a sequence of symbols from the start.
pub open spec fn ec_replay(events: Seq<EcEvent>) -> EcState
    decreases events.len(),
{
    if events.len() == 0 {
        ec_init()
    } else {
        ec_symbol(ec_replay(events.drop_last()), events.last().sym, events.last().cdf)
    }
}

/// Structural bounds maintained by every operation.
pub open spec fn ec_state_wf(st: EcState) -> bool {
    &&& 0x8000 <= st.rng < 0x10000
    &&& -9 <= st.cnt <= -1
    &&& st.low + st.rng <= pow2((st.cnt + 25) as nat)
}

/// A wellformed event: a valid CDF and a symbol in its alphabet.
pub open spec fn ec_event_wf(ev: EcEvent) -> bool {
    &&& cdf_valid(ev.cdf)
    &&& ev.sym <= ev.cdf.len()
}

/// The flush of the final bits of `low` at the end of the stream.
pub open spec fn ec_done_push(e: nat, c: int, s: int) -> Seq<u16>
    decreases (if s > 0 {
        s
    } else {
        0
    }),
{
    if s <= 0 {
        Seq::empty()
    } else {
        seq![(e / pow2((c + 16) as nat)) as u16] + ec_done_push(e % pow2((c + 16) as nat), c - 8, s - 8)
    }
}

/// Resolve carries right to left: the bytes, and the carry out of the front.
pub open spec fn ec_carry(buf: Seq<u16>) -> (Seq<u8>, nat)
    decreases buf.len(),
{
    if buf.len() == 0 {
        (Seq::empty(), 0nat)
    } else {
        let (rest, carry) = ec_carry(buf.skip(1));
        let v = buf[0] + carry;
        (seq![(v % 256) as u8] + rest, (v / 256) as nat)
    }
}

/// The finished byte stream for a coder state: round `low` up to the next
/// multiple of 2^14, set the bit above, flush, and propagate carries.
pub open spec fn ec_done(st: EcState) -> Seq<u8> {
    let t = ((st.low + 0x3FFF) / 0x4000) * 0x4000;
    let e = if (t / 0x4000) % 2 == 1 {
        t
    } else {
        t + 0x4000
    };
    ec_carry(st.precarry + ec_done_push(e, st.cnt, st.cnt + 10)).0
}

pub struct EntropyWriter {
    precarry: Vec<u16>,
    low: u32,
    rng: u32,
    cnt: i32,
    events: Ghost<Seq<EcEvent>>,
}

proof fn lemma_ec_d_char(r: nat)
    requires
        1 <= r < 0x10000,
    ensures
        0x8000 <= r * pow2(ec_d(r)) < 0x10000,
        ec_d(r) <= 15,
    decreases (if r < 0x8000 {
        (0x8000 - r) as nat
    } else {
        0nat
    }),
{
    lemma2_to64();
    if r >= 0x8000 {
        assert(r * pow2(0) == r);
    } else {
        lemma_ec_d_char(2 * r);
        let d2 = ec_d(2 * r);
        assert((2 * r) * pow2(d2) == r * (2 * pow2(d2))) by (nonlinear_arith);
        lemma_pow2_adds(1, d2);
        assert(pow2((1 + d2) as nat) == 2 * pow2(d2));
        assert(r * pow2(ec_d(r)) == (2 * r) * pow2(d2)) by (nonlinear_arith)
            requires
                pow2(ec_d(r)) == 2 * pow2(d2),
        ;
        if ec_d(r) > 15 {
            assert(1 * pow2(16) <= r * pow2(ec_d(r))) by {
                lemma_pow2_pos(ec_d(r));
                if ec_d(r) > 16 {
                    lemma_pow2_strictly_increases(16, ec_d(r));
                }
                lemma_mul_inequality(1, r as int, pow2(ec_d(r)) as int);
                assert(pow2(16) <= pow2(ec_d(r)));
                assert(1 * pow2(ec_d(r)) <= r * pow2(ec_d(r))) by (nonlinear_arith)
                    requires
                        1 <= r,
                        pow2(ec_d(r)) >= 0,
                ;
            }
            vstd::arithmetic::power2::lemma2_to64_rest();
            assert(false);
        }
    }
}

proof fn lemma_ec_d_unique(r: nat, d: nat)
    requires
        1 <= r,
        0x8000 <= r * pow2(d) < 0x10000,
    ensures
        d == ec_d(r),
{
    lemma2_to64();
    assert(r < 0x10000) by {
        lemma_pow2_pos(d);
        assert(r * 1 <= r * pow2(d)) by (nonlinear_arith)
            requires
                pow2(d) >= 1,
                r >= 0,
        ;
    }
    lemma_ec_d_char(r);
    let d0 = ec_d(r);
    if d < d0 {
        lemma_pow2_strictly_increases(d, d0);
        assert(pow2(d0) >= 2 * pow2(d)) by {
            lemma_pow2_adds(d, (d0 - d) as nat);
            lemma_pow2_pos((d0 - d) as nat);
            if d0 - d >= 1 {
                lemma_pow2_strictly_increases(0, (d0 - d) as nat);
                assert(pow2((d0 - d) as nat) >= 2);
                assert(pow2(d0) == pow2(d) * pow2((d0 - d) as nat));
                assert(pow2(d) * pow2((d0 - d) as nat) >= pow2(d) * 2) by (nonlinear_arith)
                    requires
                        pow2((d0 - d) as nat) >= 2,
                        pow2(d) >= 0,
                ;
            }
        }
        assert(r * pow2(d0) >= r * (2 * pow2(d))) by (nonlinear_arith)
            requires
                pow2(d0) >= 2 * pow2(d),
                r >= 0,
        ;
        assert(r * (2 * pow2(d)) == 2 * (r * pow2(d))) by (nonlinear_arith);
        assert(false);
    } else if d > d0 {
        assert(pow2(d) >= 2 * pow2(d0)) by {
            lemma_pow2_adds(d0, (d - d0) as nat);
            lemma_pow2_pos((d - d0) as nat);
            if d - d0 >= 1 {
                lemma_pow2_strictly_increases(0, (d - d0) as nat);
                assert(pow2((d - d0) as nat) >= 2);
                assert(pow2(d) == pow2(d0) * pow2((d - d0) as nat));
                assert(pow2(d0) * pow2((d - d0) as nat) >= pow2(d0) * 2) by (nonlinear_arith)
                    requires
                        pow2((d - d0) as nat) >= 2,
                        pow2(d0) >= 0,
                ;
            }
        }
        assert(r * pow2(d) >= r * (2 * pow2(d0))) by (nonlinear_arith)
            requires
                pow2(d) >= 2 * pow2(d0),
                r >= 0,
        ;
        assert(r * (2 * pow2(d0)) == 2 * (r * pow2(d0))) by (nonlinear_arith);
        assert(false);
    }
}

/// Division by 2 splits an even multiple plus remainder.
proof fn lemma_halve_sum(a: int, b: int)
    requires
        a >= 0,
        b >= 0,
    ensures
        (2 * a + b) / 2 == a + b / 2,
{
    lemma_fundamental_div_mod(b, 2);
    lemma_fundamental_div_mod_converse(2 * a + b, 2, a + b / 2, b % 2);
}

proof fn lemma_ec_u_le(rng: nat, f: nat, k: nat)
    requires
        0x8000 <= rng < 0x10000,
        f <= 32767,
        k <= 15,
    ensures
        ec_u(rng, f, k) + 4 <= rng,
{
    let x = rng / 256;
    assert(128 <= x < 256) by {
        lemma_fundamental_div_mod(rng as int, 256);
    }
    let g = f / 64;
    assert(g <= 511) by {
        lemma_fundamental_div_mod(f as int, 64);
    }
    assert(x * g <= x * 511) by (nonlinear_arith)
        requires
            g <= 511,
            x >= 0,
    ;
    assert((x * 511) as int == 2 * (255 * x) + x) by (nonlinear_arith);
    lemma_halve_sum(255 * (x as int), x as int);
    assert((x * 511) / 2 == 255 * x + x / 2);
    assert((x * g) / 2 <= (x * 511) / 2) by {
        vstd::arithmetic::div_mod::lemma_div_is_ordered((x * g) as int, (x * 511) as int, 2);
    }
    assert(ec_u(rng, f, k) <= 255 * x + x / 2 + 60);
    assert(rng >= 256 * x) by {
        lemma_fundamental_div_mod(rng as int, 256);
    }
    assert(256 * x == 255 * x + x) by (nonlinear_arith);
    assert(x >= x / 2 + 64) by {
        lemma_fundamental_div_mod(x as int, 2);
    }
}

proof fn lemma_ec_u_gap(rng: nat, fl: nat, fh: nat, k: nat)
    requires
        fh <= fl,
    ensures
        ec_u(rng, fh, k) + 4 <= ec_u(rng, fl, k + 1),
{
    let x = rng / 256;
    assert(fh / 64 <= fl / 64) by {
        vstd::arithmetic::div_mod::lemma_div_is_ordered(fh as int, fl as int, 64);
    }
    assert(x * (fh / 64) <= x * (fl / 64)) by (nonlinear_arith)
        requires
            fh / 64 <= fl / 64,
            x >= 0,
    ;
    assert((x * (fh / 64)) / 2 <= (x * (fl / 64)) / 2) by {
        vstd::arithmetic::div_mod::lemma_div_is_ordered(
            (x * (fh / 64)) as int,
            (x * (fl / 64)) as int,
            2,
        );
    }
}

/// Replaying one more event applies `ec_symbol` once.
pub proof fn lemma_replay_push(events: Seq<EcEvent>, ev: EcEvent)
    ensures
        ec_replay(events.push(ev)) == ec_symbol(ec_replay(events), ev.sym, ev.cdf),
{
    assert(events.push(ev).drop_last() =~= events);
    assert(events.push(ev).last() == ev);
}

impl EntropyWriter {
    pub closed spec fn view(&self) -> EcState {
        EcState {
            precarry: self.precarry@,
            low: self.low as nat,
            rng: self.rng as nat,
            cnt: self.cnt as int,
        }
    }

    pub closed spec fn trace(&self) -> Seq<EcEvent> {
        self.events@
    }

    pub open spec fn wf(&self) -> bool {
        &&& ec_state_wf(self@)
        &&& self@ == ec_replay(self.trace())
    }

    pub fn new() -> (r: Self)
        ensures
            r.wf(),
            r.trace() == Seq::<EcEvent>::empty(),
    {
        let r = EntropyWriter {
            precarry: Vec::new(),
            low: 0,
            rng: 0x8000,
            cnt: -9,
            events: Ghost(Seq::empty()),
        };
        proof {
            lemma2_to64();
            assert(r@ == ec_init());
        }
        r
    }

    /// Renormalize the interval [l, l + r) and store it.
    fn norm(&mut self, l: u32, r: u32)
        requires
            -9 <= old(self)@.cnt <= -1,
            1 <= r < 0x10000,
            l + r <= pow2((old(self)@.cnt + 25) as nat),
        ensures
            final(self)@ == ec_norm(old(self)@, l as nat, r as nat),
            ec_state_wf(final(self)@),
            final(self).trace() == old(self).trace(),
    {
        let f: u32 = crate::util::floor_log2(r);
        proof {
            lemma2_to64();
            if f >= 16 {
                if f > 16 {
                    lemma_pow2_strictly_increases(16, f as nat);
                }
                assert(false);
            }
            lemma_pow2_adds(f as nat, (15 - f) as nat);
            assert(pow2(f as nat) * pow2((15 - f) as nat) == pow2(15));
            assert(r * pow2((15 - f) as nat) >= pow2(f as nat) * pow2((15 - f) as nat))
                by (nonlinear_arith)
                requires
                    r >= pow2(f as nat),
                    pow2((15 - f) as nat) >= 0,
            ;
            lemma_pow2_adds((f + 1) as nat, (15 - f) as nat);
            assert(r * pow2((15 - f) as nat) < pow2((f + 1) as nat) * pow2((15 - f) as nat))
                by (nonlinear_arith)
                requires
                    r < pow2((f + 1) as nat),
                    pow2((15 - f) as nat) >= 1,
            ;
            lemma_ec_d_unique(r as nat, (15 - f) as nat);
        }
        let d: u32 = 15 - f;
        let ghost cnt0 = self.cnt as int;
        let pd: u32 = pow2_u32(d);
        proof {
            assert(r * pd < 0x10000);
            lemma_pow2_pos((cnt0 + 25) as nat);
        }
        let s: i32 = self.cnt + d as i32;
        if s >= 0 {
            let c: i32 = self.cnt + 16;
            proof {
                assert(7 <= c <= 15);
                assert(cnt0 + d >= 8 ==> c - 8 >= 0 && cnt0 >= -7);
                lemma_pow2_adds((cnt0 + 16) as nat, 9);
                assert(l < pow2((cnt0 + 25) as nat));
                vstd::arithmetic::div_mod::lemma_div_by_multiple_is_strongly_ordered(
                    l as int,
                    pow2((cnt0 + 25) as nat) as int,
                    pow2(9) as nat as int,
                    pow2((cnt0 + 16) as nat) as int,
                );
            }
            let m1: u32 = pow2_u32(c as u32);
            proof {
                lemma_pow2_pos(c as nat);
                vstd::arithmetic::div_mod::lemma_div_is_ordered(
                    l as int,
                    (pow2((cnt0 + 25) as nat) - 1) as int,
                    m1 as int,
                );
                assert(l / m1 < pow2(9)) by {
                    lemma_fundamental_div_mod(l as int, m1 as int);
                    assert(l < pow2(9) * pow2((cnt0 + 16) as nat)) by {
                        lemma_pow2_adds(9, (cnt0 + 16) as nat);
                    }
                    assert((l as nat) / (m1 as nat) < pow2(9)) by (nonlinear_arith)
                        requires
                            l < pow2(9) * (m1 as nat),
                            m1 as nat == pow2((cnt0 + 16) as nat),
                            m1 >= 1,
                            l >= 0,
                    ;
                }
            }
            let b1: u16 = (l / m1) as u16;
            let l1: u32 = l % m1;
            if s >= 8 {
                proof {
                    assert(c - 8 >= 1);
                }
                let m2: u32 = pow2_u32((c - 8) as u32);
                proof {
                    lemma_pow2_pos((c - 8) as nat);
                    assert(l1 < m1);
                    assert(m1 == pow2(8) * m2) by {
                        lemma_pow2_adds(8, (c - 8) as nat);
                    }
                    assert((l1 as nat) / (m2 as nat) < pow2(8)) by (nonlinear_arith)
                        requires
                            (l1 as nat) < pow2(8) * (m2 as nat),
                            m2 >= 1,
                            l1 >= 0,
                    ;
                }
                let b2: u16 = (l1 / m2) as u16;
                let l2: u32 = l1 % m2;
                self.precarry.push(b1);
                self.precarry.push(b2);
                proof {
                    assert(l2 < m2);
                    assert(l2 * pd < m2 * pd) by (nonlinear_arith)
                        requires
                            l2 < m2,
                            pd >= 1,
                    ;
                    assert(m2 as nat * pd as nat == pow2((c - 8 + d) as nat)) by {
                        lemma_pow2_adds((c - 8) as nat, d as nat);
                    }
                    assert(c - 8 + d == s + 8);
                    assert(s <= 15);
                    if s + 8 < 24 {
                        lemma_pow2_strictly_increases((s + 8) as nat, 24);
                    }
                    vstd::arithmetic::power2::lemma2_to64_rest();
                    // wf of the result
                    assert(pow2((s - 16 + 25) as nat) == pow2((s + 8) as nat) * 2) by {
                        lemma_pow2_adds((s + 8) as nat, 1);
                    }
                    assert(pow2(16) <= pow2((s + 8) as nat)) by {
                        if s > 8 {
                            lemma_pow2_strictly_increases(16, (s + 8) as nat);
                        }
                    }
                    vstd::arithmetic::div_mod::lemma_mod_twice(l1 as int, m2 as int);
                }
                self.low = l2 * pd;
                self.rng = r * pd;
                self.cnt = s - 16;
                proof {
                    assert((l as nat) % (m1 as nat) % (m2 as nat) == (l as nat) % (m2 as nat))
                        by {
                        vstd::arithmetic::div_mod::lemma_mod_mod(
                            l as int,
                            m2 as int,
                            pow2(8) as int,
                        );
                        lemma_pow2_adds(8, (c - 8) as nat);
                        assert(m1 as int == m2 as int * pow2(8));
                        assert(m2 as int * pow2(8) == pow2(8) as int * m2) by (nonlinear_arith);
                    }
                    assert(final(self)@ == ec_norm(old(self)@, l as nat, r as nat));
                    assert(ec_state_wf(final(self)@));
                }
            } else {
                self.precarry.push(b1);
                proof {
                    assert(l1 < m1);
                    assert(l1 * pd < m1 * pd) by (nonlinear_arith)
                        requires
                            l1 < m1,
                            pd >= 1,
                    ;
                    assert(m1 as nat * pd as nat == pow2((c + d) as nat)) by {
                        lemma_pow2_adds(c as nat, d as nat);
                    }
                    assert(c + d == s + 16);
                    assert(s <= 7);
                    if s + 16 < 24 {
                        lemma_pow2_strictly_increases((s + 16) as nat, 24);
                    }
                    vstd::arithmetic::power2::lemma2_to64_rest();
                    assert(pow2((s - 8 + 25) as nat) == pow2((s + 16) as nat) * 2) by {
                        lemma_pow2_adds((s + 16) as nat, 1);
                    }
                    assert(pow2(16) <= pow2((s + 16) as nat)) by {
                        if s > 0 {
                            lemma_pow2_strictly_increases(16, (s + 16) as nat);
                        }
                    }
                }
                self.low = l1 * pd;
                self.rng = r * pd;
                self.cnt = s - 8;
                proof {
                    assert(final(self)@ == ec_norm(old(self)@, l as nat, r as nat));
                    assert(ec_state_wf(final(self)@));
                }
            }
        } else {
            proof {
                assert((l + r) * pd <= pow2((cnt0 + 25) as nat) * pd) by (nonlinear_arith)
                    requires
                        l + r <= pow2((cnt0 + 25) as nat),
                        pd >= 0,
                ;
                assert(pow2((cnt0 + 25) as nat) as int * pd == pow2((cnt0 + 25 + d) as nat))
                    by {
                    lemma_pow2_adds((cnt0 + 25) as nat, d as nat);
                }
                assert(cnt0 + d + 25 <= 24 + 25);
                assert(cnt0 + 25 + d <= 24);
                if cnt0 + 25 + d < 24 {
                    lemma_pow2_strictly_increases((cnt0 + 25 + d) as nat, 24);
                }
                vstd::arithmetic::power2::lemma2_to64_rest();
                assert((l + r) * pd == l * pd + r * pd) by (nonlinear_arith);
            }
            self.low = l * pd;
            self.rng = r * pd;
            self.cnt = s;
            proof {
                assert(final(self)@ == ec_norm(old(self)@, l as nat, r as nat));
                assert(ec_state_wf(final(self)@));
            }
        }
    }

    /// Encode `symbol` under `cdf`.
    pub fn write_symbol(&mut self, symbol: usize, cdf: &[u16])
        requires
            old(self).wf(),
            cdf_valid(cdf@),
            symbol <= cdf@.len(),
        ensures
            final(self).wf(),
            final(self).trace() == old(self).trace().push(
                EcEvent { sym: symbol as nat, cdf: cdf@ },
            ),
    {
        let n: usize = cdf.len();
        let rng: u32 = self.rng;
        proof {
            assert(0x8000 <= rng < 0x10000);
            assert(1 <= n <= 15);
            crate::util::lemma_cdf_mono(cdf@, 0, cdf@.len() - 1);
            if symbol >= 1 {
                crate::util::lemma_cdf_mono(cdf@, 0, symbol - 1);
                crate::util::lemma_cdf_mono(cdf@, symbol - 1, cdf@.len() - 1);
            }
            if symbol < n {
                crate::util::lemma_cdf_mono(cdf@, 0, symbol as int);
                crate::util::lemma_cdf_mono(cdf@, symbol as int, cdf@.len() - 1);
            }
            if 1 <= symbol && symbol < n {
                crate::util::lemma_cdf_step(cdf@, symbol - 1);
            }
        }
        if symbol > 0 {
            let fl: u32 = 32768 - cdf[symbol - 1] as u32;
            let fh: u32 = if symbol == n {
                0
            } else {
                32768 - cdf[symbol] as u32
            };
            proof {
                assert(rng / 256 < 256 && fl / 64 < 512 && fh / 64 < 512) by (nonlinear_arith)
                    requires
                        rng < 0x10000,
                        fl <= 32767,
                        fh <= 32767,
                ;
                assert((rng / 256) * (fl / 64) < 256 * 512 && (rng / 256) * (fh / 64) < 256
                    * 512) by (nonlinear_arith)
                    requires
                        rng / 256 < 256,
                        fl / 64 < 512,
                        fh / 64 < 512,
                ;
            }
            let u: u32 = ((rng / 256) * (fl / 64)) / 2 + 4 * ((n - symbol + 1) as u32);
            let v: u32 = ((rng / 256) * (fh / 64)) / 2 + 4 * ((n - symbol) as u32);
            proof {
                lemma_ec_u_le(rng as nat, fl as nat, (n - symbol + 1) as nat);
                lemma_ec_u_gap(rng as nat, fl as nat, fh as nat, (n - symbol) as nat);
                assert(u == ec_u(rng as nat, fl as nat, (n - symbol + 1) as nat));
                assert(v == ec_u(rng as nat, fh as nat, (n - symbol) as nat));
                lemma_pow2_pos((self.cnt + 25) as nat);
                if self.cnt + 25 < 24 {
                    lemma_pow2_strictly_increases((self.cnt + 25) as nat, 24);
                }
                vstd::arithmetic::power2::lemma2_to64_rest();
                lemma2_to64();
                assert(self.low + rng <= pow2(24));
            }
            let l: u32 = self.low + (rng - u);
            self.norm(l, u - v);
        } else {
            let fh: u32 = 32768 - cdf[0] as u32;
            proof {
                assert(rng / 256 < 256 && fh / 64 < 512) by (nonlinear_arith)
                    requires
                        rng < 0x10000,
                        fh <= 32767,
                ;
                assert((rng / 256) * (fh / 64) < 256 * 512) by (nonlinear_arith)
                    requires
                        rng / 256 < 256,
                        fh / 64 < 512,
                ;
            }
            let v: u32 = ((rng / 256) * (fh / 64)) / 2 + 4 * (n as u32);
            proof {
                lemma_ec_u_le(rng as nat, fh as nat, n as nat);
                assert(v == ec_u(rng as nat, fh as nat, n as nat));
            }
            self.norm(self.low, rng - v);
        }
        proof {
            let ev = EcEvent { sym: symbol as nat, cdf: cdf@ };
            self.events@ = self.events@.push(ev);
            lemma_replay_push(old(self).trace(), ev);
            assert(self@ == ec_symbol(ec_replay(old(self).trace()), symbol as nat, cdf@));
        }
    }
}


/// The events of an n-bit literal, most significant bit first, each bit a
/// uniform boolean (probability 16384 of zero).
pub open spec fn literal_events(v: nat, n: nat) -> Seq<EcEvent>
    decreases n,
{
    if n == 0 {
        Seq::empty()
    } else {
        literal_events(v / 2, (n - 1) as nat).push(
            EcEvent { sym: v % 2, cdf: seq![16384u16] },
        )
    }
}

/// Floor of the base-2 logarithm.
pub open spec fn spec_floor_log2(x: nat) -> nat
    decreases x,
{
    if x < 2 {
        0
    } else {
        1 + spec_floor_log2(x / 2)
    }
}

pub proof fn lemma_spec_floor_log2(x: nat)
    requires
        x >= 1,
    ensures
        pow2(spec_floor_log2(x)) <= x < pow2(spec_floor_log2(x) + 1),
    decreases x,
{
    lemma2_to64();
    if x < 2 {
    } else {
        lemma_spec_floor_log2(x / 2);
        let f = spec_floor_log2(x / 2);
        lemma_fundamental_div_mod(x as int, 2);
        lemma_pow2_adds(f, 1);
        lemma_pow2_adds((f + 1) as nat, 1);
    }
}

pub proof fn lemma_spec_floor_log2_unique(x: nat, f: nat)
    requires
        x >= 1,
        pow2(f) <= x < pow2(f + 1),
    ensures
        f == spec_floor_log2(x),
{
    lemma_spec_floor_log2(x);
    let f0 = spec_floor_log2(x);
    if f < f0 {
        lemma_pow2_strictly_increases((f + 1) as nat, (f0 + 1) as nat);
        if f + 1 < f0 {
            lemma_pow2_strictly_increases((f + 1) as nat, f0);
        }
        assert(false);
    } else if f > f0 {
        if f0 + 1 < f {
            lemma_pow2_strictly_increases((f0 + 1) as nat, f);
        }
        assert(false);
    }
}

/// The events of the AV1 Exp-Golomb code of v: length-1 zero bits, then the
/// binary of v + 1 in `length` bits, where length = floor(log2(v+1)) + 1.
pub open spec fn golomb_events(v: nat) -> Seq<EcEvent> {
    let len = spec_floor_log2(v + 1) + 1;
    literal_events(0, (len - 1) as nat) + literal_events(v + 1, len)
}

impl EntropyWriter {
    /// Encode one boolean symbol; p is the probability of 0 in the 15-bit
    /// space.
    pub fn write_bit(&mut self, bit: u8, p: u16)
        requires
            old(self).wf(),
            bit <= 1,
            1 <= p <= 32767,
        ensures
            final(self).wf(),
            final(self).trace() == old(self).trace().push(
                EcEvent { sym: bit as nat, cdf: seq![p] },
            ),
    {
        let c: [u16; 1] = [p];
        proof {
            assert(c@ =~= seq![p]);
            assert(cdf_valid(c@));
        }
        self.write_symbol(bit as usize, vstd::array::array_as_slice(&c));
    }

    pub fn write_bool(&mut self, bool_val: bool, p: u16)
        requires
            old(self).wf(),
            1 <= p <= 32767,
        ensures
            final(self).wf(),
            final(self).trace() == old(self).trace().push(
                EcEvent {
                    sym: if bool_val {
                        1nat
                    } else {
                        0nat
                    },
                    cdf: seq![p],
                },
            ),
    {
        if bool_val {
            self.write_bit(1, p);
        } else {
            self.write_bit(0, p);
        }
    }

    /// Encode the low n bits of v, most significant first, as uniform
    /// booleans.
    pub fn write_literal(&mut self, v: u32, n: u32)
        requires
            old(self).wf(),
            n <= 32,
            (v as nat) < pow2(n as nat),
        ensures
            final(self).wf(),
            final(self).trace() == old(self).trace() + literal_events(v as nat, n as nat),
    {
        let mut i: u32 = n;
        proof {
            lemma_pow2_pos(n as nat);
            vstd::arithmetic::div_mod::lemma_basic_div(v as int, pow2(n as nat) as int);
            assert(old(self).trace() + literal_events((v as nat) / pow2(n as nat), 0)
                =~= old(self).trace());
        }
        while i > 0
            invariant
                self.wf(),
                i <= n,
                n <= 32,
                (v as nat) < pow2(n as nat),
                self.trace() == old(self).trace() + literal_events(
                    (v as nat) / pow2(i as nat),
                    (n - i) as nat,
                ),
            decreases i,
        {
            let p: u32 = pow2_u32(i - 1);
            let bit: u8 = ((v / p) % 2) as u8;
            proof {
                lemma_pow2_adds((i - 1) as nat, 1);
                lemma_pow2_pos((i - 1) as nat);
                lemma2_to64();
                vstd::arithmetic::div_mod::lemma_div_denominator(
                    v as int,
                    pow2((i - 1) as nat) as int,
                    2,
                );
                assert((v as nat) / pow2((i - 1) as nat) / 2 == (v as nat) / pow2(i as nat));
                assert((old(self).trace() + literal_events(
                    (v as nat) / pow2(i as nat),
                    (n - i) as nat,
                )).push(
                    EcEvent { sym: ((v as nat) / pow2((i - 1) as nat)) % 2, cdf: seq![16384u16] },
                ) =~= old(self).trace() + literal_events(
                    (v as nat) / pow2((i - 1) as nat),
                    (n - i + 1) as nat,
                ));
            }
            self.write_bit(bit, 16384);
            i = i - 1;
        }
        proof {
            lemma2_to64();
            assert((v as nat) / pow2(0) == v as nat);
        }
    }

    /// Encode v with the AV1 Exp-Golomb code, as uniform booleans.
    pub fn write_golomb(&mut self, v: u32)
        requires
            old(self).wf(),
            v < 0xFFFFFFFF,
        ensures
            final(self).wf(),
            final(self).trace() == old(self).trace() + golomb_events(v as nat),
    {
        let x: u32 = v + 1;
        let f: u32 = crate::util::floor_log2(x);
        proof {
            lemma_spec_floor_log2_unique(x as nat, f as nat);
            lemma_pow2_pos(f as nat);
        }
        let length: u32 = f + 1;
        let mut i: u32 = 0;
        proof {
            assert(old(self).trace() + literal_events(0, 0) =~= old(self).trace());
        }
        while i < length - 1
            invariant
                self.wf(),
                i <= length - 1,
                length == f + 1,
                f < 32,
                self.trace() == old(self).trace() + literal_events(0, i as nat),
            decreases length - 1 - i,
        {
            proof {
                lemma_pow2_pos(i as nat);
                assert((0 as nat) / 2 == 0);
                assert((old(self).trace() + literal_events(0, i as nat)).push(
                    EcEvent { sym: 0, cdf: seq![16384u16] },
                ) =~= old(self).trace() + literal_events(0, (i + 1) as nat));
            }
            self.write_bit(0, 16384);
            i = i + 1;
        }
        proof {
            lemma2_to64();
        }
        self.write_literal(x, length);
        proof {
            assert(self.trace() =~= old(self).trace() + golomb_events(v as nat));
        }
    }

    /// Flush the remaining bits of `low` and resolve the carries, producing
    /// the finished byte stream.
    pub fn finalize(self) -> (r: Vec<u8>)
        requires
            self.wf(),
        ensures
            r@ == ec_done(ec_replay(self.trace())),
    {
        let ghost st0 = self@;
        let mut buf = self.precarry;
        let l: u32 = self.low;
        let c0: i32 = self.cnt;
        proof {
            lemma2_to64();
            vstd::arithmetic::power2::lemma2_to64_rest();
            if c0 + 25 < 24 {
                lemma_pow2_strictly_increases((c0 + 25) as nat, 24);
            }
            assert(l < pow2(24));
        }
        let t: u32 = ((l + 0x3FFF) / 0x4000) * 0x4000;
        let e0: u32 = if (t / 0x4000) % 2 == 1 {
            t
        } else {
            t + 0x4000
        };
        proof {
            assert(t <= l + 0x3FFF) by {
                lemma_fundamental_div_mod((l + 0x3FFF) as int, 0x4000);
            }
            assert(st0.rng >= 0x8000);
            assert(l + 0x8000 <= pow2((c0 + 25) as nat));
            assert(e0 < pow2((c0 + 25) as nat) + pow2(14));
            assert(pow2(14) <= pow2((c0 + 24) as nat)) by {
                if 14 < c0 + 24 {
                    lemma_pow2_strictly_increases(14, (c0 + 24) as nat);
                }
            }
            assert(pow2((c0 + 25) as nat) + pow2((c0 + 24) as nat) < pow2((c0 + 26) as nat))
                by {
                lemma_pow2_adds((c0 + 24) as nat, 1);
                lemma_pow2_adds((c0 + 24) as nat, 2);
            }
            assert(e0 < pow2((c0 + 26) as nat));
        }
        let ghost e0n = e0 as nat;
        let ghost s0 = c0 as int + 10;
        let mut e: u32 = e0;
        let mut s: i32 = c0 + 10;
        let mut cc: i32 = c0;
        let ghost base = buf@;
        proof {
            assert(base + ec_done_push(e0n, c0 as int, s0) =~= base + ec_done_push(
                e0n,
                c0 as int,
                s0,
            ));
        }
        while s > 0
            invariant
                -17 <= cc <= 15,
                s <= cc + 10,
                (e as nat) < pow2((cc + 26) as nat),
                base + ec_done_push(e0n, c0 as int, s0) == buf@ + ec_done_push(
                    e as nat,
                    cc as int,
                    s as int,
                ),
            decreases (if s > 0 {
                s
            } else {
                0
            }),
        {
            let p: u32 = pow2_u32((cc + 16) as u32);
            proof {
                lemma_pow2_pos((cc + 16) as nat);
                assert(pow2((cc + 26) as nat) == pow2((cc + 16) as nat) * pow2(10)) by {
                    lemma_pow2_adds((cc + 16) as nat, 10);
                }
                assert((e as nat) / (p as nat) < pow2(10)) by (nonlinear_arith)
                    requires
                        (e as nat) < pow2((cc + 16) as nat) * pow2(10),
                        p as nat == pow2((cc + 16) as nat),
                        p >= 1,
                ;
                lemma2_to64();
            }
            let b: u16 = (e / p) as u16;
            buf.push(b);
            proof {
                assert(ec_done_push(e as nat, cc as int, s as int) == seq![b] + ec_done_push(
                    (e as nat) % pow2((cc + 16) as nat),
                    cc as int - 8,
                    s as int - 8,
                ));
                assert(buf@ + ec_done_push(
                    (e as nat) % pow2((cc + 16) as nat),
                    cc as int - 8,
                    s as int - 8,
                ) =~= buf@.drop_last() + ec_done_push(e as nat, cc as int, s as int));
                lemma_fundamental_div_mod(e as int, p as int);
                assert((e as nat) % (p as nat) < p as nat);
                assert(pow2((cc - 8 + 26) as nat) >= p as nat) by {
                    lemma_pow2_adds((cc + 16) as nat, 2);
                }
            }
            e = e % p;
            s = s - 8;
            cc = cc - 8;
        }
        // Carry propagation, right to left.
        let m: usize = buf.len();
        let mut out: Vec<u8> = Vec::new();
        let mut k: usize = 0;
        while k < m
            invariant
                out@.len() == k,
                k <= m,
            decreases m - k,
        {
            out.push(0);
            k = k + 1;
        }
        let mut carry: u32 = 0;
        let mut i: usize = m;
        proof {
            assert(buf@.skip(m as int) =~= Seq::<u16>::empty());
            assert(out@.skip(m as int) =~= Seq::<u8>::empty());
        }
        while i > 0
            invariant
                i <= m,
                m == buf@.len(),
                out@.len() == m,
                carry < 0x10000,
                ec_carry(buf@.skip(i as int)) == (out@.skip(i as int), carry as nat),
            decreases i,
        {
            let v: u32 = buf[i - 1] as u32 + carry;
            let ghost prev_out = out@;
            out.set(i - 1, (v % 256) as u8);
            proof {
                assert(buf@.skip(i - 1).skip(1) =~= buf@.skip(i as int));
                assert(buf@.skip(i - 1)[0] == buf@[i - 1]);
                assert(out@.skip(i as int) =~= prev_out.skip(i as int));
                assert(out@.skip(i - 1) =~= seq![(v % 256) as u8] + out@.skip(i as int));
                assert(ec_carry(buf@.skip(i - 1)) == (out@.skip(i - 1), (v as nat) / 256));
                assert(v / 256 < 0x10000);
            }
            carry = v / 256;
            i = i - 1;
        }
        proof {
            assert(buf@.skip(0) =~= buf@);
            assert(out@.skip(0) =~= out@);
            assert(buf@ =~= base + ec_done_push(e0n, c0 as int, s0));
            assert(out@ == ec_carry(st0.precarry + ec_done_push(e0n, st0.cnt, st0.cnt + 10)).0);
            assert(out@ == ec_done(st0));
        }
        out
    }
}

} // verus!
