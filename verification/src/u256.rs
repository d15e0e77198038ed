//! An unsigned 256-bit integer built from four 64-bit limbs.
//!
//! All interest, exchange-rate and risk formulas of the engine run at a
//! fixed-point scale of `10^18` or `10^27`, so their intermediate products
//! exceed 128 bits. This module provides the 256-bit unsigned arithmetic
//! they need: checked addition, subtraction and multiplication, and floor
//! division with remainder. Every operation's result is pinned to the
//! mathematical value of its operands.

use vstd::arithmetic::div_mod::{
    lemma_div_by_self, lemma_div_is_ordered, lemma_fundamental_div_mod,
    lemma_fundamental_div_mod_converse, lemma_mod_bound,
};
use vstd::arithmetic::mul::{
    lemma_mul_inequality, lemma_mul_inequality_converse, lemma_mul_strict_inequality_converse,
    lemma_mul_upper_bound,
};
use vstd::arithmetic::power2::{
    lemma2_to64, lemma2_to64_rest, lemma_pow2_adds, lemma_pow2_pos, lemma_pow2_unfold, pow2,
};
use vstd::prelude::*;

verus! {

/// `2^64` as a mathematical integer.
pub open spec fn p64() -> int {
    0x10000000000000000int
}

/// `2^128` as a mathematical integer.
pub open spec fn p128() -> int {
    0x100000000000000000000000000000000int
}

/// `2^192` as a mathematical integer.
pub open spec fn p192() -> int {
    0x1000000000000000000000000000000000000000000000000int
}

/// `2^256` as a mathematical integer: one more than the largest value a
/// `U256` can hold.
pub open spec fn p256() -> int {
    0x10000000000000000000000000000000000000000000000000000000000000000int
}

/// `2^320` as a mathematical integer.
pub open spec fn p320() -> int {
    0x100000000000000000000000000000000000000000000000000000000000000000000000000000000int
}

/// `2^384` as a mathematical integer.
pub open spec fn p384() -> int {
    0x1000000000000000000000000000000000000000000000000000000000000000000000000000000000000000000000000int
}

/// `2^448` as a mathematical integer.
pub open spec fn p448() -> int {
    0x10000000000000000000000000000000000000000000000000000000000000000000000000000000000000000000000000000000000000000int
}

/// `2^512` as a mathematical integer.
pub open spec fn p512() -> int {
    0x100000000000000000000000000000000000000000000000000000000000000000000000000000000000000000000000000000000000000000000000000000int
}

/// `2^255` as a mathematical integer.
pub open spec fn p255() -> int {
    0x8000000000000000000000000000000000000000000000000000000000000000int
}

/// The product of two 64-bit values fits in 128 bits.
proof fn lemma_mul_u64_fits(x: u64, y: u64)
    by (nonlinear_arith)
    ensures
        0 <= (x as int) * (y as int) <= 0xfffffffffffffffe0000000000000001int,
{
}

/// The powers of two that the division loop walks through, as values.
proof fn lemma_pow2_values()
    ensures
        pow2(0) == 1,
        pow2(1) == 2,
        pow2(63) == 0x8000000000000000,
        pow2(64) == 0x10000000000000000,
        pow2(128) as int == p128(),
        pow2(192) as int == p192(),
        pow2(255) as int == p255(),
        pow2(256) as int == p256(),
{
    lemma2_to64();
    lemma2_to64_rest();
    lemma_pow2_adds(64, 64);
    lemma_pow2_adds(128, 64);
    lemma_pow2_adds(192, 63);
    lemma_pow2_adds(192, 64);
}

/// One ghost step of the restoring division: the carry `c` that falls
/// out of doubling the aligned rest `xs = y * w` is the top bit of the
/// unconsumed value `y`, and peeling it moves one bit from `y` into the
/// consumed value `n`.
proof fn lemma_div_step(a: int, m2: int, w: int, n: int, y: int, c: int, xs: int)
    requires
        m2 >= 1,
        w >= 1,
        m2 * w == p255(),
        0 <= y < 2 * m2,
        a == n * (2 * m2) + y,
        0 <= c <= 1,
        0 <= xs < p256(),
        xs + p256() * c == 2 * (y * w),
    ensures
        c == y / m2,
        0 <= y - c * m2 < m2,
        xs == (y - c * m2) * (2 * w),
        a == (2 * n + c) * m2 + (y - c * m2),
{
    if c == 0 {
        assert(2 * (y * w) < p256());
        assert(y * w < m2 * w);
        lemma_mul_strict_inequality_converse(y, m2, w);
        lemma_fundamental_div_mod_converse(y, m2, 0, y);
    } else {
        assert(2 * (y * w) >= p256());
        assert(y * w >= m2 * w);
        lemma_mul_inequality_converse(m2, y, w);
        lemma_div_is_ordered(m2, y, m2);
        lemma_div_by_self(m2);
        lemma_div_is_ordered(y, 2 * m2 - 1, m2);
        lemma_fundamental_div_mod_converse(2 * m2 - 1, m2, 1, m2 - 1);
        assert(c == y / m2);
    }
    lemma_fundamental_div_mod(y, m2);
    lemma_mod_bound(y, m2);
    assert(y - c * m2 == y % m2) by (nonlinear_arith)
        requires
            c == y / m2,
            y == m2 * (y / m2) + y % m2,
    ;
    assert(xs == (y - c * m2) * (2 * w)) by (nonlinear_arith)
        requires
            xs == 2 * (y * w) - c * p256(),
            p256() == 2 * (m2 * w),
    ;
    assert(a == (2 * n + c) * m2 + (y - c * m2)) by (nonlinear_arith)
        requires
            a == n * (2 * m2) + y,
    ;
}

/// The quotient and remainder update of one division step keeps the
/// invariant `n == q * d + r`.
proof fn lemma_div_step_qr(
    n: int,
    d: int,
    q: int,
    r: int,
    b: int,
    n2: int,
    q2: int,
    r2: int,
    qb: int,
)
    requires
        d > 0,
        n == q * d + r,
        0 <= r < d,
        0 <= b <= 1,
        n2 == 2 * n + b,
        q2 == 2 * q + qb,
        r2 == 2 * r + b - qb * d,
        0 <= r2 < d,
        0 <= q2,
    ensures
        n2 == q2 * d + r2,
        q2 <= n2,
{
    assert(n2 == q2 * d + r2) by (nonlinear_arith)
        requires
            n == q * d + r,
            n2 == 2 * n + b,
            q2 == 2 * q + qb,
            r2 == 2 * r + b - qb * d,
    ;
    lemma_mul_inequality(1, d, q2);
    assert(q2 <= n2);
}

/// An unsigned 256-bit integer: four 64-bit limbs, least significant first.
#[derive(Clone, Copy, PartialEq, Eq, Structural, Debug)]
pub struct U256 {
    pub w0: u64,
    pub w1: u64,
    pub w2: u64,
    pub w3: u64,
}

impl View for U256 {
    type V = int;

    open spec fn view(&self) -> int {
        self.w0 + p64() * self.w1 + p128() * self.w2 + p192() * self.w3
    }
}

/// The value of a `U256` lies below `2^256`.
pub broadcast proof fn lemma_u256_bounds(v: U256)
    ensures
        0 <= #[trigger] v@ < p256(),
{
}

impl U256 {
    /// The zero value.
    pub fn zero() -> (r: U256)
        ensures
            r@ == 0,
    {
        U256 { w0: 0, w1: 0, w2: 0, w3: 0 }
    }

    /// The value one.
    pub fn one() -> (r: U256)
        ensures
            r@ == 1,
    {
        U256 { w0: 1, w1: 0, w2: 0, w3: 0 }
    }

    /// The largest representable value, `2^256 - 1`.
    pub fn max_value() -> (r: U256)
        ensures
            r@ == p256() - 1,
    {
        U256 {
            w0: 0xffffffffffffffff,
            w1: 0xffffffffffffffff,
            w2: 0xffffffffffffffff,
            w3: 0xffffffffffffffff,
        }
    }

    /// Embeds a `u128`.
    pub fn from_u128(v: u128) -> (r: U256)
        ensures
            r@ == v,
    {
        proof {
            lemma_fundamental_div_mod(v as int, p64());
        }
        U256 {
            w0: (v % 0x10000000000000000) as u64,
            w1: (v / 0x10000000000000000) as u64,
            w2: 0,
            w3: 0,
        }
    }

    /// Embeds a `u64`.
    pub fn from_u64(v: u64) -> (r: U256)
        ensures
            r@ == v,
    {
        U256 { w0: v, w1: 0, w2: 0, w3: 0 }
    }

    /// The value as a `u128`, or `None` when it does not fit.
    pub fn to_u128(&self) -> (r: Option<u128>)
        ensures
            r is Some <==> self@ < p128(),
            r is Some ==> r->Some_0 == self@,
    {
        if self.w2 == 0 && self.w3 == 0 {
            Some(self.w0 as u128 + (self.w1 as u128) * 0x10000000000000000)
        } else {
            None
        }
    }

    /// Whether the value is zero.
    pub fn is_zero(&self) -> (r: bool)
        ensures
            r == (self@ == 0),
    {
        self.w0 == 0 && self.w1 == 0 && self.w2 == 0 && self.w3 == 0
    }

    /// Strict order on values.
    pub fn lt(&self, other: &U256) -> (r: bool)
        ensures
            r == (self@ < other@),
    {
        if self.w3 != other.w3 {
            self.w3 < other.w3
        } else if self.w2 != other.w2 {
            self.w2 < other.w2
        } else if self.w1 != other.w1 {
            self.w1 < other.w1
        } else {
            self.w0 < other.w0
        }
    }

    /// Non-strict order on values.
    pub fn le(&self, other: &U256) -> (r: bool)
        ensures
            r == (self@ <= other@),
    {
        !other.lt(self)
    }

    /// Strict order, reversed.
    pub fn gt(&self, other: &U256) -> (r: bool)
        ensures
            r == (self@ > other@),
    {
        other.lt(self)
    }

    /// Non-strict order, reversed.
    pub fn ge(&self, other: &U256) -> (r: bool)
        ensures
            r == (self@ >= other@),
    {
        !self.lt(other)
    }

    /// Checked addition: `None` exactly when the sum needs 257 bits.
    pub fn checked_add(&self, other: &U256) -> (r: Option<U256>)
        ensures
            r is Some <==> self@ + other@ < p256(),
            r is Some ==> r->Some_0@ == self@ + other@,
    {
        let s0: u128 = self.w0 as u128 + other.w0 as u128;
        let r0: u64 = (s0 % 0x10000000000000000) as u64;
        let c0: u64 = (s0 / 0x10000000000000000) as u64;
        let s1: u128 = self.w1 as u128 + other.w1 as u128 + c0 as u128;
        let r1: u64 = (s1 % 0x10000000000000000) as u64;
        let c1: u64 = (s1 / 0x10000000000000000) as u64;
        let s2: u128 = self.w2 as u128 + other.w2 as u128 + c1 as u128;
        let r2: u64 = (s2 % 0x10000000000000000) as u64;
        let c2: u64 = (s2 / 0x10000000000000000) as u64;
        let s3: u128 = self.w3 as u128 + other.w3 as u128 + c2 as u128;
        let r3: u64 = (s3 % 0x10000000000000000) as u64;
        let c3: u64 = (s3 / 0x10000000000000000) as u64;
        let out = U256 { w0: r0, w1: r1, w2: r2, w3: r3 };
        proof {
            assert(out@ + p256() * c3 == self@ + other@);
        }
        if c3 == 0 {
            Some(out)
        } else {
            None
        }
    }

    /// Multiplies by a single limb; the product has five limbs: the four
    /// of the returned `U256` and a carry limb above them.
    fn mul_limb(&self, b: u64) -> (r: (U256, u64))
        ensures
            r.0@ + p256() * r.1 == self@ * b,
    {
        let bb: u128 = b as u128;
        proof {
            lemma_mul_u64_fits(self.w0, b);
            lemma_mul_u64_fits(self.w1, b);
            lemma_mul_u64_fits(self.w2, b);
            lemma_mul_u64_fits(self.w3, b);
        }
        let q0: u128 = self.w0 as u128 * bb;
        let r0: u64 = (q0 % 0x10000000000000000) as u64;
        let c0: u64 = (q0 / 0x10000000000000000) as u64;
        let q1: u128 = self.w1 as u128 * bb + c0 as u128;
        let r1: u64 = (q1 % 0x10000000000000000) as u64;
        let c1: u64 = (q1 / 0x10000000000000000) as u64;
        let q2: u128 = self.w2 as u128 * bb + c1 as u128;
        let r2: u64 = (q2 % 0x10000000000000000) as u64;
        let c2: u64 = (q2 / 0x10000000000000000) as u64;
        let q3: u128 = self.w3 as u128 * bb + c2 as u128;
        let r3: u64 = (q3 % 0x10000000000000000) as u64;
        let c3: u64 = (q3 / 0x10000000000000000) as u64;
        let out = U256 { w0: r0, w1: r1, w2: r2, w3: r3 };
        proof {
            let av = self@;
            assert(av * b == self.w0 * b + p64() * (self.w1 * b) + p128() * (self.w2 * b) + p192()
                * (self.w3 * b)) by (nonlinear_arith)
                requires
                    av == self.w0 + p64() * self.w1 + p128() * self.w2 + p192() * self.w3,
            ;
            assert(out@ + p256() * c3 == av * b);
        }
        (out, c3)
    }

    /// Checked multiplication: `None` exactly when the product needs more
    /// than 256 bits.
    #[verifier::spinoff_prover]
    #[verifier::rlimit(100)]
    pub fn checked_mul(&self, other: &U256) -> (r: Option<U256>)
        ensures
            r is Some <==> self@ * other@ < p256(),
            r is Some ==> r->Some_0@ == self@ * other@,
    {
        let (m0, k0) = self.mul_limb(other.w0);
        let (m1, k1) = self.mul_limb(other.w1);
        let (m2, k2) = self.mul_limb(other.w2);
        let (m3, k3) = self.mul_limb(other.w3);
        let t0: u64 = m0.w0;
        let s1: u128 = m0.w1 as u128 + m1.w0 as u128;
        let t1: u64 = (s1 % 0x10000000000000000) as u64;
        let c1: u64 = (s1 / 0x10000000000000000) as u64;
        let s2: u128 = m0.w2 as u128 + m1.w1 as u128 + m2.w0 as u128 + c1 as u128;
        let t2: u64 = (s2 % 0x10000000000000000) as u64;
        let c2: u64 = (s2 / 0x10000000000000000) as u64;
        let s3: u128 = m0.w3 as u128 + m1.w2 as u128 + m2.w1 as u128 + m3.w0 as u128 + c2 as u128;
        let t3: u64 = (s3 % 0x10000000000000000) as u64;
        let c3: u64 = (s3 / 0x10000000000000000) as u64;
        let s4: u128 = k0 as u128 + m1.w3 as u128 + m2.w2 as u128 + m3.w1 as u128 + c3 as u128;
        let t4: u64 = (s4 % 0x10000000000000000) as u64;
        let c4: u64 = (s4 / 0x10000000000000000) as u64;
        let s5: u128 = k1 as u128 + m2.w3 as u128 + m3.w2 as u128 + c4 as u128;
        let t5: u64 = (s5 % 0x10000000000000000) as u64;
        let c5: u64 = (s5 / 0x10000000000000000) as u64;
        let s6: u128 = k2 as u128 + m3.w3 as u128 + c5 as u128;
        let t6: u64 = (s6 % 0x10000000000000000) as u64;
        let c6: u64 = (s6 / 0x10000000000000000) as u64;
        let s7: u128 = k3 as u128 + c6 as u128;
        proof {
            let av = self@;
            let bv = other@;
            assert(av * bv == av * other.w0 + p64() * (av * other.w1) + p128() * (av * other.w2)
                + p192() * (av * other.w3)) by (nonlinear_arith)
                requires
                    bv == other.w0 + p64() * other.w1 + p128() * other.w2 + p192() * other.w3,
            ;
            // The four rows, summed column by column before any carry moves.
            assert(av * bv == m0@ + p256() * k0 + p64() * (m1@ + p256() * k1) + p128() * (m2@
                + p256() * k2) + p192() * (m3@ + p256() * k3));
            assert(av * bv == t0 + p64() * s1 + p128() * (m0.w2 + m1.w1 + m2.w0) + p192() * (m0.w3
                + m1.w2 + m2.w1 + m3.w0) + p256() * (k0 + m1.w3 + m2.w2 + m3.w1) + p320() * (k1
                + m2.w3 + m3.w2) + p384() * (k2 + m3.w3) + p448() * k3);
            // Push each carry into the next column.
            assert(av * bv == t0 + p64() * t1 + p128() * s2 + p192() * (m0.w3 + m1.w2 + m2.w1
                + m3.w0) + p256() * (k0 + m1.w3 + m2.w2 + m3.w1) + p320() * (k1 + m2.w3 + m3.w2)
                + p384() * (k2 + m3.w3) + p448() * k3);
            assert(av * bv == t0 + p64() * t1 + p128() * t2 + p192() * s3 + p256() * (k0 + m1.w3
                + m2.w2 + m3.w1) + p320() * (k1 + m2.w3 + m3.w2) + p384() * (k2 + m3.w3) + p448()
                * k3);
            assert(av * bv == t0 + p64() * t1 + p128() * t2 + p192() * t3 + p256() * s4 + p320()
                * (k1 + m2.w3 + m3.w2) + p384() * (k2 + m3.w3) + p448() * k3);
            assert(av * bv == t0 + p64() * t1 + p128() * t2 + p192() * t3 + p256() * t4 + p320()
                * s5 + p384() * (k2 + m3.w3) + p448() * k3);
            assert(av * bv == t0 + p64() * t1 + p128() * t2 + p192() * t3 + p256() * t4 + p320()
                * t5 + p384() * s6 + p448() * k3);
            assert(av * bv == t0 + p64() * t1 + p128() * t2 + p192() * t3 + p256() * t4 + p320()
                * t5 + p384() * t6 + p448() * s7);
            lemma_u256_bounds(*self);
            lemma_u256_bounds(*other);
            lemma_mul_upper_bound(av, p256() - 1, bv, p256() - 1);
            assert(s7 < 0x10000000000000000);
        }
        let t7: u64 = (s7 % 0x10000000000000000) as u64;
        let low = U256 { w0: t0, w1: t1, w2: t2, w3: t3 };
        if t4 == 0 && t5 == 0 && t6 == 0 && t7 == 0 {
            Some(low)
        } else {
            None
        }
    }

    /// Shifts left by one bit, taking `bit` in at the bottom; the dropped
    /// top bit comes back as the second component.
    fn shl1_carry(&self, bit: u64) -> (r: (U256, u64))
        requires
            bit <= 1,
        ensures
            r.0@ + p256() * r.1 == 2 * self@ + bit,
            r.1 <= 1,
    {
        let s0: u128 = self.w0 as u128 * 2 + bit as u128;
        let r0: u64 = (s0 % 0x10000000000000000) as u64;
        let c0: u64 = (s0 / 0x10000000000000000) as u64;
        let s1: u128 = self.w1 as u128 * 2 + c0 as u128;
        let r1: u64 = (s1 % 0x10000000000000000) as u64;
        let c1: u64 = (s1 / 0x10000000000000000) as u64;
        let s2: u128 = self.w2 as u128 * 2 + c1 as u128;
        let r2: u64 = (s2 % 0x10000000000000000) as u64;
        let c2: u64 = (s2 / 0x10000000000000000) as u64;
        let s3: u128 = self.w3 as u128 * 2 + c2 as u128;
        let r3: u64 = (s3 % 0x10000000000000000) as u64;
        let c3: u64 = (s3 / 0x10000000000000000) as u64;
        (U256 { w0: r0, w1: r1, w2: r2, w3: r3 }, c3)
    }

    /// Wrapping subtraction modulo `2^256`.
    fn sub_wrapping(&self, other: &U256) -> (r: U256)
        ensures
            self@ >= other@ ==> r@ == self@ - other@,
            self@ < other@ ==> r@ == self@ - other@ + p256(),
    {
        let t0: u128 = 0x10000000000000000 + self.w0 as u128 - other.w0 as u128;
        let r0: u64 = (t0 % 0x10000000000000000) as u64;
        let b0: u64 = 1 - (t0 / 0x10000000000000000) as u64;
        let t1: u128 = 0x10000000000000000 + self.w1 as u128 - other.w1 as u128 - b0 as u128;
        let r1: u64 = (t1 % 0x10000000000000000) as u64;
        let b1: u64 = 1 - (t1 / 0x10000000000000000) as u64;
        let t2: u128 = 0x10000000000000000 + self.w2 as u128 - other.w2 as u128 - b1 as u128;
        let r2: u64 = (t2 % 0x10000000000000000) as u64;
        let b2: u64 = 1 - (t2 / 0x10000000000000000) as u64;
        let t3: u128 = 0x10000000000000000 + self.w3 as u128 - other.w3 as u128 - b2 as u128;
        let r3: u64 = (t3 % 0x10000000000000000) as u64;
        let b3: u64 = 1 - (t3 / 0x10000000000000000) as u64;
        let out = U256 { w0: r0, w1: r1, w2: r2, w3: r3 };
        proof {
            assert(out@ == self@ - other@ + p256() * b3);
        }
        out
    }

    /// Floor division with remainder: binary restoring long division over
    /// the 256 bits of the dividend.
    #[verifier::spinoff_prover]
    #[verifier::rlimit(100)]
    pub fn div_rem(&self, d: &U256) -> (r: (U256, U256))
        requires
            d@ > 0,
        ensures
            r.0@ == self@ / d@,
            r.1@ == self@ % d@,
    {
        let mut q = U256::zero();
        let mut rem = U256::zero();
        let mut x = *self;
        let mut i: usize = 0;
        let ghost mut n: int = 0;
        let ghost mut y: int = self@;
        proof {
            lemma_pow2_values();
        }
        while i < 256
            invariant
                i <= 256,
                d@ > 0,
                x@ == y * pow2(i as nat),
                0 <= y < pow2((256 - i) as nat),
                self@ == n * pow2((256 - i) as nat) + y,
                n == q@ * d@ + rem@,
                0 <= rem@ < d@,
                0 <= n,
                q@ <= n,
            decreases 256 - i,
        {
            let ghost m: int = pow2((256 - i) as nat) as int;
            let ghost w: int = pow2(i as nat) as int;
            let ghost m2: int = pow2((255 - i) as nat) as int;
            let ghost w2: int = pow2((i + 1) as nat) as int;
            proof {
                lemma_pow2_values();
                lemma_pow2_pos(i as nat);
                lemma_pow2_pos((255 - i) as nat);
                lemma_pow2_unfold((256 - i) as nat);
                lemma_pow2_adds(i as nat, 1);
                lemma_pow2_adds((255 - i) as nat, i as nat);
                assert(m == 2 * m2);
                assert(w2 == 2 * w);
                assert(m2 * w == p255());
            }
            let (x_shifted, cout) = x.shl1_carry(0);
            proof {
                lemma_u256_bounds(x_shifted);
                lemma_div_step(self@, m2, w, n, y, cout as int, x_shifted@);
            }
            let ghost y2: int = y - cout * m2;
            let ghost n2: int = 2 * n + cout;
            let (r2x, rc) = rem.shl1_carry(cout);
            let take: bool = if rc == 1 {
                true
            } else {
                r2x.ge(d)
            };
            let qbit: u64 = if take {
                1
            } else {
                0
            };
            let rem_new = if take {
                r2x.sub_wrapping(d)
            } else {
                r2x
            };
            proof {
                // The shifted remainder is 2*rem + cout, which is below 2*d.
                assert(r2x@ + p256() * rc == 2 * rem@ + cout);
                assert(2 * rem@ + cout < 2 * d@);
                if take {
                    assert(rem_new@ == 2 * rem@ + cout - d@);
                } else {
                    assert(rem_new@ == 2 * rem@ + cout);
                    assert(rem_new@ < d@);
                }
                assert(0 <= rem_new@ < d@);
                // The accumulated quotient stays below 2^255.
                lemma_mul_inequality(2, m, n);
                assert(2 * q@ + qbit < p256());
            }
            let (q_new, qc) = q.shl1_carry(qbit);
            proof {
                assert(qc == 0);
                assert(q_new@ == 2 * q@ + qbit);
                lemma_div_step_qr(
                    n,
                    d@,
                    q@,
                    rem@,
                    cout as int,
                    n2,
                    q_new@,
                    rem_new@,
                    qbit as int,
                );
            }
            q = q_new;
            rem = rem_new;
            x = x_shifted;
            i = i + 1;
            proof {
                n = n2;
                y = y2;
            }
        }
        proof {
            lemma_pow2_values();
            assert(i == 256);
            assert(pow2((256 - i) as nat) == 1);
            assert(y == 0);
            assert(self@ == n * 1 + y);
            lemma_fundamental_div_mod_converse(self@, d@, q@, rem@);
        }
        (q, rem)
    }

    /// Checked subtraction: `None` exactly when `other` exceeds `self`.
    pub fn checked_sub(&self, other: &U256) -> (r: Option<U256>)
        ensures
            r is Some <==> self@ >= other@,
            r is Some ==> r->Some_0@ == self@ - other@,
    {
        let t0: u128 = 0x10000000000000000 + self.w0 as u128 - other.w0 as u128;
        let r0: u64 = (t0 % 0x10000000000000000) as u64;
        let b0: u64 = 1 - (t0 / 0x10000000000000000) as u64;
        let t1: u128 = 0x10000000000000000 + self.w1 as u128 - other.w1 as u128 - b0 as u128;
        let r1: u64 = (t1 % 0x10000000000000000) as u64;
        let b1: u64 = 1 - (t1 / 0x10000000000000000) as u64;
        let t2: u128 = 0x10000000000000000 + self.w2 as u128 - other.w2 as u128 - b1 as u128;
        let r2: u64 = (t2 % 0x10000000000000000) as u64;
        let b2: u64 = 1 - (t2 / 0x10000000000000000) as u64;
        let t3: u128 = 0x10000000000000000 + self.w3 as u128 - other.w3 as u128 - b2 as u128;
        let r3: u64 = (t3 % 0x10000000000000000) as u64;
        let b3: u64 = 1 - (t3 / 0x10000000000000000) as u64;
        let out = U256 { w0: r0, w1: r1, w2: r2, w3: r3 };
        proof {
            assert(out@ == self@ - other@ + p256() * b3);
        }
        if b3 == 0 {
            Some(out)
        } else {
            None
        }
    }
}

} // verus!
