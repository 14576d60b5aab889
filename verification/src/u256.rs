//! Unsigned 256-bit integers for oracle prices.
//!
//! A value is held as four 64-bit words, least significant first. Every
//! operation is proved exact against the integer it stands for; an operation
//! whose exact result does not fit in 256 bits is left out by `requires`.

use vstd::prelude::*;

use vstd::arithmetic::div_mod::lemma_fundamental_div_mod_converse;

verus! {

/// 2^64, the base of one word.
pub open spec fn word_base() -> nat {
    0x1_0000_0000_0000_0000
}

/// 2^128.
pub open spec fn limit_u128() -> nat {
    0x1_0000_0000_0000_0000_0000_0000_0000_0000nat
}

/// 2^256, one more than the largest value a `U256` holds.
pub open spec fn limit_u256() -> nat {
    0x1_0000_0000_0000_0000_0000_0000_0000_0000_0000_0000_0000_0000_0000_0000_0000_0000nat
}

/// 10 raised to `n`.
pub open spec fn pow10(n: nat) -> nat
    decreases n,
{
    if n == 0 {
        1
    } else {
        10 * pow10((n - 1) as nat)
    }
}

pub struct U256 {
    w0: u64,
    w1: u64,
    w2: u64,
    w3: u64,
}

impl View for U256 {
    type V = nat;

    closed spec fn view(&self) -> nat {
        (self.w0 + self.w1 * word_base() + self.w2 * word_base() * word_base() + self.w3
            * word_base() * word_base() * word_base()) as nat
    }
}

proof fn lemma_words_value(w0: u64, w1: u64, w2: u64, w3: u64)
    ensures
        0 <= w0 + w1 * word_base() + w2 * word_base() * word_base() + w3 * word_base()
            * word_base() * word_base() < limit_u256(),
{
    assert(0 <= w0 + w1 * word_base() + w2 * word_base() * word_base() + w3 * word_base()
        * word_base() * word_base() < limit_u256()) by (nonlinear_arith)
        requires
            w0 < word_base(),
            w1 < word_base(),
            w2 < word_base(),
            w3 < word_base(),
    ;
}

/// Splits a 128-bit number into its low and high words.
proof fn lemma_split_u128(t: u128)
    ensures
        t == (t as u64) as int + ((t >> 64u128) as u64) as int * word_base(),
{
    assert(t == (t & 0xffff_ffff_ffff_ffffu128) + (t >> 64u128) * 0x1_0000_0000_0000_0000u128)
        by (bit_vector);
    assert((t as u64) as u128 == t & 0xffff_ffff_ffff_ffffu128) by (bit_vector);
    assert(((t >> 64u128) as u64) as u128 == t >> 64u128) by (bit_vector);
    assert((t >> 64u128) <= 0xffff_ffff_ffff_ffffu128) by (bit_vector);
}

/// Multiplies one word by a factor and adds a carry: the result fits in 128 bits.
fn mul_word(w: u64, k: u64, carry: u64) -> (r: (u64, u64))
    ensures
        r.0 + r.1 * word_base() == w * k + carry,
{
    proof {
        assert(w * k + carry < limit_u128()) by (nonlinear_arith)
            requires
                w < word_base(),
                k < word_base(),
                carry < word_base(),
        ;
    }
    let t: u128 = (w as u128) * (k as u128) + (carry as u128);
    proof {
        lemma_split_u128(t);
    }
    (t as u64, (t >> 64u128) as u64)
}

/// Divides the two-word number `rem * 2^64 + w` by `d`, where `rem < d`.
fn div_word(rem: u64, w: u64, d: u64) -> (r: (u64, u64))
    requires
        0 < d,
        rem < d,
    ensures
        rem * word_base() + w == r.0 * d + r.1,
        r.1 < d,
{
    proof {
        assert(rem * word_base() + w < limit_u128()) by (nonlinear_arith)
            requires
                rem < word_base(),
                w < word_base(),
        ;
    }
    let cur: u128 = (rem as u128) * 0x1_0000_0000_0000_0000u128 + (w as u128);
    let q: u128 = cur / (d as u128);
    let m: u128 = cur % (d as u128);
    proof {
        assert(cur == q * d + m && m < d) by (nonlinear_arith)
            requires
                d > 0,
                q == cur / (d as u128),
                m == cur % (d as u128),
        ;
        assert(q < word_base()) by (nonlinear_arith)
            requires
                cur == q * d + m,
                0 <= m,
                cur < d * word_base(),
                d > 0,
        {
            if q >= word_base() {
                assert(q * d >= word_base() * d);
            }
        }
    }
    (q as u64, m as u64)
}

impl U256 {
    /// The words of the value, most significant first.
    pub closed spec fn spec_words(&self) -> (u64, u64, u64, u64) {
        (self.w3, self.w2, self.w1, self.w0)
    }

    pub proof fn lemma_bounded(&self)
        ensures
            self@ < limit_u256(),
    {
        lemma_words_value(self.w0, self.w1, self.w2, self.w3);
    }

    /// Builds a value from its four words, most significant first.
    pub fn from_words(hi_hi: u64, hi_lo: u64, lo_hi: u64, lo_lo: u64) -> (r: U256)
        ensures
            r@ == lo_lo + lo_hi * word_base() + hi_lo * word_base() * word_base() + hi_hi
                * word_base() * word_base() * word_base(),
            r.spec_words() == (hi_hi, hi_lo, lo_hi, lo_lo),
    {
        proof {
            lemma_words_value(lo_lo, lo_hi, hi_lo, hi_hi);
        }
        U256 { w0: lo_lo, w1: lo_hi, w2: hi_lo, w3: hi_hi }
    }

    /// The four words of the value, most significant first.
    pub fn words(&self) -> (r: (u64, u64, u64, u64))
        ensures
            r == self.spec_words(),
    {
        (self.w3, self.w2, self.w1, self.w0)
    }

    pub fn from_u32(x: u32) -> (r: U256)
        ensures
            r@ == x,
    {
        U256 { w0: x as u64, w1: 0, w2: 0, w3: 0 }
    }

    pub fn from_u128(x: u128) -> (r: U256)
        ensures
            r@ == x,
    {
        proof {
            lemma_split_u128(x);
        }
        U256 { w0: x as u64, w1: (x >> 64u128) as u64, w2: 0, w3: 0 }
    }

    /// The value as a `u128`, where it fits in one.
    pub fn to_u128(&self) -> (r: Option<u128>)
        ensures
            r == (if self@ < limit_u128() {
                Some(self@ as u128)
            } else {
                None::<u128>
            }),
    {
        proof {
            lemma_words_value(self.w0, self.w1, self.w2, self.w3);
            assert(self.w0 + self.w1 * word_base() < limit_u128()) by (nonlinear_arith)
                requires
                    self.w0 < word_base(),
                    self.w1 < word_base(),
            ;
            if self.w2 != 0 || self.w3 != 0 {
                assert(self@ >= limit_u128()) by (nonlinear_arith)
                    requires
                        self@ == self.w0 + self.w1 * word_base() + self.w2 * word_base()
                            * word_base() + self.w3 * word_base() * word_base() * word_base(),
                        self.w2 != 0 || self.w3 != 0,
                        0 <= self.w0,
                        0 <= self.w1,
                        0 <= self.w2,
                        0 <= self.w3,
                ;
            }
        }
        if self.w2 == 0 && self.w3 == 0 {
            Some((self.w0 as u128) + (self.w1 as u128) * 0x1_0000_0000_0000_0000u128)
        } else {
            None
        }
    }

    /// Exact sum; the sum must fit in 256 bits.
    pub fn add(&self, other: &U256) -> (r: U256)
        requires
            self@ + other@ < limit_u256(),
        ensures
            r@ == self@ + other@,
    {
        let (s0, c0) = mul_word(self.w0, 1, other.w0);
        let (t1, d1) = mul_word(self.w1, 1, other.w1);
        let (s1, e1) = mul_word(t1, 1, c0);
        let c1 = d1 + e1;
        proof {
            assert(c1 <= 1);
        }
        let (t2, d2) = mul_word(self.w2, 1, other.w2);
        let (s2, e2) = mul_word(t2, 1, c1);
        let c2 = d2 + e2;
        let (t3, d3) = mul_word(self.w3, 1, other.w3);
        let (s3, e3) = mul_word(t3, 1, c2);
        let ghost c3: int = d3 + e3;
        let r = U256 { w0: s0, w1: s1, w2: s2, w3: s3 };
        proof {
            let b = word_base();
            assert(r@ + c3 * b * b * b * b == self@ + other@) by (nonlinear_arith)
                requires
                    b == word_base(),
                    r@ == s0 + s1 * b + s2 * b * b + s3 * b * b * b,
                    self@ == self.w0 + self.w1 * b + self.w2 * b * b + self.w3 * b * b * b,
                    other@ == other.w0 + other.w1 * b + other.w2 * b * b + other.w3 * b * b * b,
                    s0 + c0 * b == self.w0 + other.w0,
                    t1 + d1 * b == self.w1 + other.w1,
                    s1 + e1 * b == t1 + c0,
                    c1 == d1 + e1,
                    t2 + d2 * b == self.w2 + other.w2,
                    s2 + e2 * b == t2 + c1,
                    c2 == d2 + e2,
                    t3 + d3 * b == self.w3 + other.w3,
                    s3 + e3 * b == t3 + c2,
                    c3 == d3 + e3,
            ;
            if c3 > 0 {
                assert(c3 * word_base() * word_base() * word_base() * word_base() >= limit_u256())
                    by (nonlinear_arith)
                    requires
                        c3 >= 1,
                ;
            }
        }
        r
    }

    /// Exact product with a machine word; the product must fit in 256 bits.
    pub fn mul_u64(&self, k: u64) -> (r: U256)
        requires
            self@ * k < limit_u256(),
        ensures
            r@ == self@ * k,
    {
        let (r0, c0) = mul_word(self.w0, k, 0);
        let (r1, c1) = mul_word(self.w1, k, c0);
        let (r2, c2) = mul_word(self.w2, k, c1);
        let (r3, c3) = mul_word(self.w3, k, c2);
        let r = U256 { w0: r0, w1: r1, w2: r2, w3: r3 };
        proof {
            let b = word_base();
            assert(r@ + c3 * b * b * b * b == self@ * k) by (nonlinear_arith)
                requires
                    b == word_base(),
                    r@ == r0 + r1 * b + r2 * b * b + r3 * b * b * b,
                    self@ == self.w0 + self.w1 * b + self.w2 * b * b + self.w3 * b * b * b,
                    r0 + c0 * b == self.w0 * k,
                    r1 + c1 * b == self.w1 * k + c0,
                    r2 + c2 * b == self.w2 * k + c1,
                    r3 + c3 * b == self.w3 * k + c2,
            ;
            if c3 > 0 {
                assert(c3 * word_base() * word_base() * word_base() * word_base() >= limit_u256())
                    by (nonlinear_arith)
                    requires
                        c3 >= 1,
                ;
            }
        }
        r
    }

    /// Exact product with a 128-bit number; the product must fit in 256 bits.
    pub fn mul_u128(&self, k: u128) -> (r: U256)
        requires
            self@ * k < limit_u256(),
        ensures
            r@ == self@ * k,
    {
        let lo: u64 = k as u64;
        let hi: u64 = (k >> 64u128) as u64;
        proof {
            lemma_split_u128(k);
            assert(self@ * lo <= self@ * k) by (nonlinear_arith)
                requires
                    lo <= k,
            ;
            assert(self@ * hi * word_base() <= self@ * k) by (nonlinear_arith)
                requires
                    k == lo + hi * word_base(),
                    0 <= lo,
            ;
            assert(self@ * hi <= self@ * hi * word_base()) by (nonlinear_arith);
        }
        let a = self.mul_u64(lo);
        let b = self.mul_u64(hi);
        proof {
            assert(b@ * word_base() < limit_u256());
        }
        let b_shift = b.shift_word();
        proof {
            assert(a@ + b_shift@ == self@ * k) by (nonlinear_arith)
                requires
                    a@ == self@ * lo,
                    b_shift@ == self@ * hi * word_base(),
                    k == lo + hi * word_base(),
            ;
        }
        a.add(&b_shift)
    }

    /// Multiplies by 2^64; the result must fit in 256 bits.
    fn shift_word(&self) -> (r: U256)
        requires
            self@ * word_base() < limit_u256(),
        ensures
            r@ == self@ * word_base(),
    {
        proof {
            if self.w3 != 0 {
                assert(self@ * word_base() >= limit_u256()) by (nonlinear_arith)
                    requires
                        self@ == self.w0 + self.w1 * word_base() + self.w2 * word_base()
                            * word_base() + self.w3 * word_base() * word_base() * word_base(),
                        self.w3 >= 1,
                        0 <= self.w0,
                        0 <= self.w1,
                        0 <= self.w2,
                ;
            }
        }
        let r = U256 { w0: 0, w1: self.w0, w2: self.w1, w3: self.w2 };
        proof {
            let b = word_base();
            assert(r@ == self@ * b) by (nonlinear_arith)
                requires
                    b == word_base(),
                    self.w3 == 0,
                    r@ == 0 + self.w0 * b + self.w1 * b * b + self.w2 * b * b * b,
                    self@ == self.w0 + self.w1 * b + self.w2 * b * b + self.w3 * b * b * b,
            ;
        }
        r
    }

    /// Floor division by a nonzero machine word.
    pub fn div_u64(&self, d: u64) -> (r: U256)
        requires
            d > 0,
        ensures
            r@ == self@ / (d as nat),
    {
        let (q3, m3) = div_word(0, self.w3, d);
        let (q2, m2) = div_word(m3, self.w2, d);
        let (q1, m1) = div_word(m2, self.w1, d);
        let (q0, m0) = div_word(m1, self.w0, d);
        let r = U256 { w0: q0, w1: q1, w2: q2, w3: q3 };
        proof {
            let b = word_base();
            assert(self@ == r@ * d + m0) by (nonlinear_arith)
                requires
                    b == word_base(),
                    r@ == q0 + q1 * b + q2 * b * b + q3 * b * b * b,
                    self@ == self.w0 + self.w1 * b + self.w2 * b * b + self.w3 * b * b * b,
                    0 * b + self.w3 == q3 * d + m3,
                    m3 * b + self.w2 == q2 * d + m2,
                    m2 * b + self.w1 == q1 * d + m1,
                    m1 * b + self.w0 == q0 * d + m0,
            ;
            lemma_fundamental_div_mod_converse(self@ as int, d as int, r@ as int, m0 as int);
        }
        r
    }

    /// Whether two values are equal.
    pub fn equals(&self, other: &U256) -> (r: bool)
        ensures
            r == (self@ == other@),
    {
        proof {
            self.lemma_unique(other);
        }
        self.w0 == other.w0 && self.w1 == other.w1 && self.w2 == other.w2 && self.w3 == other.w3
    }

    proof fn lemma_unique(&self, other: &U256)
        ensures
            self@ == other@ <==> self.spec_words() == other.spec_words(),
    {
        if self@ == other@ {
            lemma_words_unique(
                self.w0,
                self.w1,
                self.w2,
                self.w3,
                other.w0,
                other.w1,
                other.w2,
                other.w3,
            );
        }
    }
}

proof fn lemma_words_unique(a0: u64, a1: u64, a2: u64, a3: u64, b0: u64, b1: u64, b2: u64, b3: u64)
    requires
        a0 + a1 * word_base() + a2 * word_base() * word_base() + a3 * word_base() * word_base()
            * word_base() == b0 + b1 * word_base() + b2 * word_base() * word_base() + b3
            * word_base() * word_base() * word_base(),
    ensures
        a0 == b0 && a1 == b1 && a2 == b2 && a3 == b3,
{
    let b = word_base() as int;
    let x: int = a1 + a2 * b + a3 * b * b;
    let y: int = b1 + b2 * b + b3 * b * b;
    assert(a0 + x * b == b0 + y * b) by (nonlinear_arith)
        requires
            b == word_base(),
            x == a1 + a2 * b + a3 * b * b,
            y == b1 + b2 * b + b3 * b * b,
            a0 + a1 * b + a2 * b * b + a3 * b * b * b == b0 + b1 * b + b2 * b * b + b3 * b * b * b,
    ;
    lemma_fundamental_div_mod_converse(a0 + x * b, b, x, a0 as int);
    lemma_fundamental_div_mod_converse(b0 + y * b, b, y, b0 as int);
    let x2: int = a2 + a3 * b;
    let y2: int = b2 + b3 * b;
    assert(x == a1 + x2 * b && y == b1 + y2 * b) by (nonlinear_arith)
        requires
            x == a1 + a2 * b + a3 * b * b,
            y == b1 + b2 * b + b3 * b * b,
            x2 == a2 + a3 * b,
            y2 == b2 + b3 * b,
    ;
    lemma_fundamental_div_mod_converse(x, b, x2, a1 as int);
    lemma_fundamental_div_mod_converse(y, b, y2, b1 as int);
    lemma_fundamental_div_mod_converse(x2, b, a3 as int, a2 as int);
    lemma_fundamental_div_mod_converse(y2, b, b3 as int, b2 as int);
}

pub proof fn lemma_pow10_monotone(a: nat, b: nat)
    requires
        a <= b,
    ensures
        1 <= pow10(a) <= pow10(b),
    decreases b,
{
    if b > a {
        lemma_pow10_monotone(a, (b - 1) as nat);
    } else if a > 0 {
        lemma_pow10_monotone((a - 1) as nat, (a - 1) as nat);
    }
}

/// 10 raised to `n`, for the exponents whose power fits in a `u32`.
pub fn pow10_u32(n: u32) -> (r: u32)
    requires
        n <= 9,
    ensures
        r == pow10(n as nat),
{
    let mut r: u32 = 1;
    let mut i: u32 = 0;
    while i < n
        invariant
            i <= n <= 9,
            r == pow10(i as nat),
        decreases n - i,
    {
        assert(r <= 100_000_000) by {
            lemma_pow10_monotone(i as nat, 8);
            reveal_with_fuel(pow10, 9);
        }
        r = r * 10;
        i = i + 1;
    }
    r
}

} // verus!
