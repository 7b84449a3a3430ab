//! Unsigned 256-bit integers, as far as the handlers compute with them.

use vstd::arithmetic::div_mod::lemma_fundamental_div_mod_converse;
use vstd::arithmetic::power2::{
    lemma2_to64, lemma2_to64_rest, lemma_pow2_adds, lemma_pow2_pos, lemma_pow2_strictly_increases, lemma_pow2_unfold,
    pow2,
};
use vstd::prelude::*;

verus! {

/// Two to the power 128: the weight of the high half of a `U256`.
pub open spec fn half() -> nat {
    0x1_0000_0000_0000_0000_0000_0000_0000_0000nat
}

/// Two to the power 256: one more than the largest `U256`.
pub open spec fn modulus() -> nat {
    0x1_0000_0000_0000_0000_0000_0000_0000_0000_0000_0000_0000_0000_0000_0000_0000_0000nat
}

/// The number that a byte string stands for, its first byte being the most
/// significant one.
pub open spec fn be_value(bytes: Seq<u8>) -> nat
    decreases bytes.len(),
{
    if bytes.len() == 0 {
        0
    } else {
        be_value(bytes.drop_last()) * 256 + bytes.last() as nat
    }
}

/// An unsigned 256-bit integer, held as two 128-bit halves.
#[derive(Clone, Copy, Debug, PartialEq, Eq, Structural)]
pub struct U256 {
    /// The upper 128 bits.
    pub hi: u128,
    /// The lower 128 bits.
    pub lo: u128,
}

impl View for U256 {
    type V = nat;

    open spec fn view(&self) -> nat {
        self.hi as nat * half() + self.lo as nat
    }
}

impl U256 {
    /// The number zero.
    pub fn zero() -> (r: U256)
        ensures
            r@ == 0,
    {
        U256 { hi: 0, lo: 0 }
    }

    /// The largest number, two to the power 256 less one.
    pub fn max_value() -> (r: U256)
        ensures
            r@ == modulus() - 1,
    {
        U256 { hi: u128::MAX, lo: u128::MAX }
    }

    /// The number `n`.
    pub fn from_u64(n: u64) -> (r: U256)
        ensures
            r@ == n,
    {
        U256 { hi: 0, lo: n as u128 }
    }

    /// The number `n`.
    pub fn from_usize(n: usize) -> (r: U256)
        ensures
            r@ == n,
    {
        U256 { hi: 0, lo: n as u128 }
    }

    /// Whether the number is zero.
    pub fn is_zero(&self) -> (r: bool)
        ensures
            r == (self@ == 0),
    {
        self.hi == 0 && self.lo == 0
    }

    /// Whether `self` is less than `other`.
    pub fn lt(&self, other: &U256) -> (r: bool)
        ensures
            r == (self@ < other@),
    {
        self.hi < other.hi || (self.hi == other.hi && self.lo < other.lo)
    }

    /// Whether `self` is at most `other`.
    pub fn le(&self, other: &U256) -> (r: bool)
        ensures
            r == (self@ <= other@),
    {
        self.hi < other.hi || (self.hi == other.hi && self.lo <= other.lo)
    }

    /// The sum, reduced modulo two to the power 256, and whether it was
    /// reduced.
    pub fn overflowing_add(self, other: U256) -> (r: (U256, bool))
        ensures
            r.1 == (self@ + other@ >= modulus()),
            r.0@ == if r.1 {
                self@ + other@ - modulus()
            } else {
                (self@ + other@) as int
            },
    {
        let (lo, carry) = add_halves(self.lo, other.lo, false);
        let (hi, overflow) = add_halves(self.hi, other.hi, carry);
        (U256 { hi, lo }, overflow)
    }

    /// The sum, where it fits 256 bits.
    pub fn checked_add(self, other: U256) -> (r: Option<U256>)
        ensures
            match r {
                Some(sum) => sum@ == self@ + other@,
                None => self@ + other@ >= modulus(),
            },
    {
        let (sum, overflow) = self.overflowing_add(other);
        if overflow {
            None
        } else {
            Some(sum)
        }
    }

    /// The difference, increased by two to the power 256 where `other` is the
    /// larger one.
    pub fn wrapping_sub(self, other: U256) -> (r: U256)
        ensures
            r@ == if self@ >= other@ {
                self@ - other@
            } else {
                self@ + modulus() - other@
            },
    {
        let (lo, borrow) = sub_halves(self.lo, other.lo, false);
        let (hi, _) = sub_halves(self.hi, other.hi, borrow);
        U256 { hi, lo }
    }
}

/// Two to the power 128 and two to the power 256, as powers.
proof fn lemma_powers()
    ensures
        pow2(128) == half(),
        pow2(256) == modulus(),
{
    lemma2_to64();
    lemma_pow2_adds(64, 64);
    lemma_pow2_adds(128, 128);
    assert(0x1_0000_0000_0000_0000nat * 0x1_0000_0000_0000_0000nat == half()) by (nonlinear_arith);
    assert(half() * half() == modulus()) by (nonlinear_arith);
}

/// One step of the long division moves the next bit of the dividend into
/// the part that is divided.
proof fn lemma_shift_in(a: int, p: int, high: int, low: int, top: int, low2: int)
    requires
        a * p == high * modulus() + low,
        2 * low == top * modulus() + low2,
    ensures
        a * (2 * p) == (2 * high + top) * modulus() + low2,
{
    let m = modulus() as int;
    assert(a * (2 * p) == 2 * (a * p)) by (nonlinear_arith);
    assert((2 * high + top) * m == 2 * (high * m) + top * m) by (nonlinear_arith);
}

/// The part of the dividend that is divided so far is below the weight of
/// the next bit.
proof fn lemma_high_bound(a: int, p: int, high: int, low: int)
    requires
        a * p == high * modulus() + low,
        0 <= a < modulus(),
        0 <= low,
        0 < p,
    ensures
        high < p,
{
    let m = modulus() as int;
    if high >= p {
        assert(high * m >= p * m) by (nonlinear_arith)
            requires
                high >= p,
                m > 0,
        ;
        assert(a * p < m * p) by (nonlinear_arith)
            requires
                a < m,
                p > 0,
        ;
        assert(p * m == m * p) by (nonlinear_arith);
    }
}

/// Once every bit is moved, the part that is divided is the dividend.
proof fn lemma_all_shifted(a: int, high: int, low: int)
    requires
        a * modulus() == high * modulus() + low,
        0 <= low < modulus(),
    ensures
        high == a,
{
    let m = modulus() as int;
    assert((a - high) * m == low) by (nonlinear_arith)
        requires
            a * m == high * m + low,
    ;
    if a > high {
        assert((a - high) * m >= m) by (nonlinear_arith)
            requires
                a - high >= 1,
                m > 0,
        ;
    }
    if a < high {
        assert((a - high) * m < 0) by (nonlinear_arith)
            requires
                a - high <= -1,
                m > 0,
        ;
    }
}

/// Quotient and remainder after one more bit.
proof fn lemma_quotient_step(q: int, d: int, r: int, top: int, bit: int)
    requires
        0 <= q,
        1 <= d,
        0 <= r,
    ensures
        (2 * q + bit) * d + (2 * r + top - bit * d) == 2 * (q * d + r) + top,
        q <= q * d,
{
    assert((2 * q + bit) * d == 2 * (q * d) + bit * d) by (nonlinear_arith);
    assert(q <= q * d) by (nonlinear_arith)
        requires
            0 <= q,
            1 <= d,
    ;
}

impl U256 {
    /// The number one.
    pub fn one() -> (r: U256)
        ensures
            r@ == 1,
    {
        U256 { hi: 0, lo: 1 }
    }

    /// Quotient and remainder of the division by `divisor`.
    pub fn div_rem(self, divisor: U256) -> (r: (U256, U256))
        requires
            divisor@ > 0,
        ensures
            r.0@ == self@ / divisor@,
            r.1@ == self@ % divisor@,
    {
        let mut quotient = U256::zero();
        let mut remainder = U256::zero();
        let mut low = self;
        let mut k: u32 = 0;
        let ghost mut weight: int = 1;
        let ghost mut high: int = 0;
        proof {
            lemma2_to64();
            lemma_powers();
        }
        while k < 256
            invariant
                0 <= k <= 256,
                divisor@ > 0,
                weight == pow2(k as nat),
                self@ * weight == high * modulus() + low@,
                high == quotient@ * divisor@ + remainder@,
                remainder@ < divisor@,
                0 <= high,
                pow2(256) == modulus(),
            decreases 256 - k,
        {
            proof {
                lemma_pow2_pos(k as nat);
                lemma_pow2_unfold((k + 1) as nat);
                lemma_pow2_adds((k + 1) as nat, (255 - k) as nat);
                lemma_pow2_pos((255 - k) as nat);
                assert(2 * weight <= modulus()) by (nonlinear_arith)
                    requires
                        2 * weight * pow2((255 - k) as nat) == modulus(),
                        pow2((255 - k) as nat) >= 1,
                        weight >= 0,
                ;
                lemma_high_bound(self@ as int, weight, high, low@ as int);
                lemma_quotient_step(quotient@ as int, divisor@ as int, remainder@ as int, 0, 0);
            }
            let (low2, top) = low.overflowing_add(low);
            let (doubled, over) = remainder.overflowing_add(remainder);
            let shifted = if top {
                U256 { hi: doubled.hi, lo: doubled.lo + 1 }
            } else {
                doubled
            };
            let fits = over || divisor.le(&shifted);
            let rest = if fits {
                shifted.wrapping_sub(divisor)
            } else {
                shifted
            };
            let (twice, _) = quotient.overflowing_add(quotient);
            let next = if fits {
                U256 { hi: twice.hi, lo: twice.lo + 1 }
            } else {
                twice
            };
            proof {
                let t: int = if top { 1 } else { 0 };
                let b: int = if fits { 1 } else { 0 };
                lemma_shift_in(self@ as int, weight, high, low@ as int, t, low2@ as int);
                lemma_quotient_step(quotient@ as int, divisor@ as int, remainder@ as int, t, b);
                assert(b * divisor@ == if fits { divisor@ as int } else { 0 }) by (nonlinear_arith)
                    requires
                        b == if fits { 1int } else { 0int },
                ;
                weight = 2 * weight;
                high = 2 * high + t;
            }
            quotient = next;
            remainder = rest;
            low = low2;
            k = k + 1;
        }
        proof {
            lemma_all_shifted(self@ as int, high, low@ as int);
            lemma_fundamental_div_mod_converse(
                self@ as int,
                divisor@ as int,
                quotient@ as int,
                remainder@ as int,
            );
        }
        (quotient, remainder)
    }
}

/// Two to the power 120, and its products with 256 and with two to the
/// power 128.
proof fn lemma_byte_shift()
    ensures
        pow2(8) == 256,
        pow2(120) == 0x100_0000_0000_0000_0000_0000_0000_0000,
        pow2(120) * 256 == half(),
        pow2(248) == pow2(120) * half(),
{
    lemma2_to64();
    lemma2_to64_rest();
    lemma_powers();
    lemma_pow2_adds(64, 56);
    lemma_pow2_adds(120, 8);
    lemma_pow2_adds(120, 128);
    assert(0x1_0000_0000_0000_0000nat * 0x100_0000_0000_0000nat == 0x100_0000_0000_0000_0000_0000_0000_0000nat)
        by (nonlinear_arith);
    assert(0x100_0000_0000_0000_0000_0000_0000_0000nat * 256 == half()) by (nonlinear_arith);
}

/// A byte string of `n` bytes stands for a number below two to the power
/// `8 * n`.
pub proof fn lemma_be_value_bound(bytes: Seq<u8>)
    ensures
        be_value(bytes) < pow2(8 * bytes.len()),
    decreases bytes.len(),
{
    lemma2_to64();
    if bytes.len() > 0 {
        let init = bytes.drop_last();
        lemma_be_value_bound(init);
        lemma_pow2_adds(8 * init.len(), 8);
        assert(be_value(init) * 256 + 255 < pow2(8 * init.len()) * 256) by (nonlinear_arith)
            requires
                be_value(init) < pow2(8 * init.len()),
        ;
    }
}

/// The number that a byte string stands for after one byte was put before
/// it.
pub proof fn lemma_be_value_prepend(byte: u8, bytes: Seq<u8>)
    ensures
        be_value(seq![byte] + bytes) == byte as nat * pow2(8 * bytes.len()) + be_value(bytes),
    decreases bytes.len(),
{
    lemma2_to64();
    let all = seq![byte] + bytes;
    assert(all.len() == bytes.len() + 1);
    if bytes.len() == 0 {
        assert(all.drop_last() =~= Seq::<u8>::empty());
        assert(be_value(all.drop_last()) == 0);
        assert(all.last() == byte);
        assert(be_value(all) == byte as nat);
        assert(byte as nat * pow2(0) == byte as nat) by (nonlinear_arith)
            requires
                pow2(0) == 1,
        ;
    } else {
        let init = bytes.drop_last();
        let weight = pow2(8 * init.len());
        assert(all.drop_last() =~= seq![byte] + init);
        assert(all.last() == bytes.last());
        lemma_be_value_prepend(byte, init);
        lemma_pow2_adds(8 * init.len(), 8);
        assert(8 * init.len() + 8 == 8 * bytes.len());
        assert(pow2(8 * bytes.len()) == weight * 256);
        assert(be_value(all) == (byte as nat * weight + be_value(init)) * 256 + bytes.last() as nat);
        assert((byte as nat * weight + be_value(init)) * 256 == byte as nat * (weight * 256) + be_value(init)
            * 256) by (nonlinear_arith);
    }
}

impl U256 {
    /// The number that a byte string of at most 32 bytes stands for, its
    /// first byte being the most significant one. A longer string stands for
    /// nothing.
    pub fn from_be_bytes(bytes: &[u8]) -> (r: Option<U256>)
        ensures
            match r {
                Some(number) => bytes@.len() <= 32 && number@ == be_value(bytes@),
                None => bytes@.len() > 32,
            },
    {
        if bytes.len() > 32 {
            return None;
        }
        let mut hi: u128 = 0;
        let mut lo: u128 = 0;
        let mut i: usize = 0;
        proof {
            lemma_byte_shift();
            assert(bytes@.take(0) =~= Seq::<u8>::empty());
        }
        while i < bytes.len()
            invariant
                0 <= i <= bytes@.len() <= 32,
                hi as nat * half() + lo as nat == be_value(bytes@.take(i as int)),
                pow2(120) == 0x100_0000_0000_0000_0000_0000_0000_0000,
                pow2(120) * 256 == half(),
                pow2(248) == pow2(120) * half(),
            decreases bytes@.len() - i,
        {
            proof {
                let prefix = bytes@.take(i as int);
                lemma_be_value_bound(prefix);
                if i < 31 {
                    lemma_pow2_strictly_increases(8 * i as nat, 248);
                }
                assert(hi < pow2(120)) by (nonlinear_arith)
                    requires
                        hi as nat * half() + (lo as nat) < pow2(120) * half(),
                        half() > 0,
                ;
                assert(bytes@.take(i + 1).drop_last() =~= prefix);
                assert(bytes@.take(i + 1).last() == bytes@[i as int]);
            }
            let carry: u128 = lo / 0x100_0000_0000_0000_0000_0000_0000_0000;
            let rest: u128 = lo % 0x100_0000_0000_0000_0000_0000_0000_0000;
            let ghost before = hi as nat * half() + lo as nat;
            assert(lo == carry * 0x100_0000_0000_0000_0000_0000_0000_0000 + rest);
            let high: u128 = hi * 256 + carry;
            let low: u128 = rest * 256 + bytes[i] as u128;
            assert(high as nat * half() + low as nat == before * 256 + bytes@[i as int] as nat) by {
                let c = 0x100_0000_0000_0000_0000_0000_0000_0000nat;
                let b = bytes@[i as int] as nat;
                assert(half() == c * 256);
                assert(high == hi * 256 + carry);
                assert(low == rest * 256 + b);
                assert((hi * 256 + carry) * (c * 256) + rest * 256 + b == (hi * (c * 256) + (carry * c + rest))
                    * 256 + b) by (nonlinear_arith);
            }
            hi = high;
            lo = low;
            i = i + 1;
        }
        assert(bytes@.take(i as int) =~= bytes@);
        Some(U256 { hi, lo })
    }

    /// The 32 bytes that stand for the number, the most significant byte
    /// first.
    pub fn to_be_bytes(self) -> (bytes: [u8; 32])
        ensures
            be_value(bytes@) == self@,
    {
        let mut bytes = [0u8; 32];
        let mut hi: u128 = self.hi;
        let mut lo: u128 = self.lo;
        let mut i: usize = 0;
        proof {
            lemma_byte_shift();
            lemma_powers();
            lemma2_to64();
            assert(bytes@.skip(32) =~= Seq::<u8>::empty());
            assert(self@ * pow2(0) == self@) by (nonlinear_arith)
                requires
                    pow2(0) == 1,
            ;
        }
        while i < 32
            invariant
                0 <= i <= 32,
                self@ == (hi as nat * half() + lo as nat) * pow2(8 * i as nat) + be_value(bytes@.skip(32 - i)),
                pow2(120) == 0x100_0000_0000_0000_0000_0000_0000_0000,
                pow2(120) * 256 == half(),
                pow2(256) == modulus(),
            decreases 32 - i,
        {
            let byte: u8 = (lo % 256) as u8;
            let low: u128 = hi % 256;
            let ghost rest = hi as nat * half() + lo as nat;
            let ghost tail = bytes@.skip(32 - i);
            let high: u128 = hi / 256;
            let shifted: u128 = lo / 256;
            assert(hi == high * 256 + low);
            assert(lo == shifted * 256 + byte);
            hi = high;
            lo = shifted + low * 0x100_0000_0000_0000_0000_0000_0000_0000;
            bytes[31 - i] = byte;
            proof {
                let next = hi as nat * half() + lo as nat;
                assert(rest == next * 256 + byte) by {
                    let c = 0x100_0000_0000_0000_0000_0000_0000_0000nat;
                    assert(half() == c * 256);
                    assert(lo == shifted + low * c);
                    assert((high * 256 + low) * (c * 256) + (shifted * 256 + byte) == (high * (c * 256) + (
                    shifted + low * c)) * 256 + byte) by (nonlinear_arith);
                }
                assert(bytes@.skip(31 - i) =~= seq![byte] + tail);
                lemma_be_value_prepend(byte, tail);
                lemma_pow2_adds(8 * i as nat, 8);
                let weight = pow2(8 * i as nat);
                lemma2_to64();
                assert(tail.len() == i);
                assert(8 * i as nat + 8 == 8 * (i + 1) as nat);
                assert(pow2(8 * (i + 1) as nat) == weight * 256);
                assert(rest * weight == next * (weight * 256) + byte as nat * weight) by (nonlinear_arith)
                    requires
                        rest == next * 256 + byte,
                ;
                assert(self@ == next * pow2(8 * (i + 1) as nat) + be_value(bytes@.skip(31 - i)));
            }
            i = i + 1;
        }
        proof {
            lemma_pow2_pos(256);
            let rest = hi as nat * half() + lo as nat;
            assert(rest == 0) by (nonlinear_arith)
                requires
                    self@ == rest * modulus() + be_value(bytes@.skip(0)),
                    self@ < modulus(),
            ;
            assert(bytes@.skip(0) =~= bytes@);
        }
        bytes
    }
}

/// Adds two halves and a carry; returns the low 128 bits and the carry out.
fn add_halves(a: u128, b: u128, carry: bool) -> (r: (u128, bool))
    ensures
        a + b + (if carry { 1nat } else { 0nat }) == r.0 + (if r.1 { half() } else { 0nat }),
{
    let c: u128 = if carry { 1 } else { 0 };
    if a <= u128::MAX - b {
        let s: u128 = a + b;
        if s <= u128::MAX - c {
            (s + c, false)
        } else {
            (0, true)
        }
    } else {
        let s: u128 = a - (u128::MAX - b) - 1;
        (s + c, true)
    }
}

/// Subtracts a half and a borrow from a half; returns the low 128 bits and
/// the borrow out.
fn sub_halves(a: u128, b: u128, borrow: bool) -> (r: (u128, bool))
    ensures
        a + (if r.1 { half() } else { 0nat }) == r.0 + b + (if borrow { 1nat } else { 0nat }),
{
    let c: u128 = if borrow { 1 } else { 0 };
    if a >= b {
        let d: u128 = a - b;
        if d >= c {
            (d - c, false)
        } else {
            (u128::MAX, true)
        }
    } else {
        let d: u128 = u128::MAX - (b - a) + 1;
        (d - c, true)
    }
}

} // verus!
