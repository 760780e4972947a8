//! Arithmetic of binary64 numbers: each result is the number nearest to the
//! exact one.

use vstd::prelude::*;
use vstd::arithmetic::power2::{lemma2_to64, lemma2_to64_rest, lemma_pow2_adds, lemma_pow2_pos};
use vstd::arithmetic::power2::{lemma_pow2_strictly_increases, lemma_pow2_unfold, pow2};

use crate::figures::{bit_length, lemma_bit_length, lemma_nearest_bounds, lemma_nearest_zero};
use crate::figures::{nearest, power_of_two, round, HIGH, LOW};
use crate::quantity::{HUNDRED, Quantity, ZERO};

verus! {

/// The pattern of infinity.
pub const INFINITE: u64 = 0x7ff0_0000_0000_0000;

/// A pattern that is not a number.
pub const NOT_A_NUMBER: u64 = 0x7ff8_0000_0000_0000;

/// The power of two that the last binary place of a number near `n` times two
/// to the power `e` stands for.
pub open spec fn last_place(n: nat, e: int) -> int {
    if bit_length(n) + e - 53 > -1074 {
        bit_length(n) + e - 53
    } else {
        -1074
    }
}

/// The pattern, without a sign, of the number nearest to `n` times two to the
/// power `e`.
pub open spec fn nearest_pattern(n: nat, e: int) -> nat {
    let k = last_place(n, e);
    let m = if k <= e {
        n * pow2((e - k) as nat)
    } else {
        nearest(n, pow2((k - e) as nat))
    };
    let all = ((k + 1074) * LOW + m) as nat;
    if n == 0 {
        0
    } else if all >= INFINITE {
        INFINITE as nat
    } else {
        all
    }
}

/// A number from its sign and its pattern without the sign.
pub open spec fn signed_pattern(negative: bool, pattern: nat) -> Quantity {
    if negative {
        Quantity { bits: (pattern + 0x8000_0000_0000_0000) as u64 }
    } else {
        Quantity { bits: pattern as u64 }
    }
}

impl Quantity {
    pub open spec fn negative(self) -> bool {
        self.bits >= 0x8000_0000_0000_0000
    }

    /// The power of two that the last place of a finite number stands for.
    pub open spec fn place_exponent(self) -> int {
        if self.exponent() == 0 {
            -1074
        } else {
            self.exponent() - 1075
        }
    }

    /// A finite number in units of the smallest one.
    pub open spec fn units(self) -> int {
        let size = self.significand() * pow2((self.place_exponent() + 1074) as nat);
        if self.negative() {
            -size
        } else {
            size as int
        }
    }

    /// The sum as binary64 numbers add.
    #[verifier::opaque]
    pub open spec fn sum(self, other: Quantity) -> Quantity {
        if self.nan() || other.nan() {
            Quantity { bits: NOT_A_NUMBER }
        } else if !self.finite() {
            if !other.finite() && self.negative() != other.negative() {
                Quantity { bits: NOT_A_NUMBER }
            } else {
                self
            }
        } else if !other.finite() {
            other
        } else {
            let exact = self.units() + other.units();
            if exact == 0 {
                signed_pattern(self.negative() && other.negative(), 0)
            } else if exact < 0 {
                signed_pattern(true, nearest_pattern((-exact) as nat, -1074))
            } else {
                signed_pattern(false, nearest_pattern(exact as nat, -1074))
            }
        }
    }
}

proof fn lemma_bit_length_is(value: nat, b: nat)
    requires
        b > 0,
        pow2((b - 1) as nat) <= value < pow2(b),
    ensures
        bit_length(value) == b,
{
    lemma_pow2_pos((b - 1) as nat);
    lemma_bit_length(value);
    let n = bit_length(value);
    if n < b {
        if n < b - 1 {
            lemma_pow2_strictly_increases(n, (b - 1) as nat);
        }
    }
    if n > b {
        if b < n - 1 {
            lemma_pow2_strictly_increases(b, (n - 1) as nat);
        }
    }
}

proof fn lemma_bit_length_doubled(value: nat, t: nat)
    requires
        value > 0,
    ensures
        bit_length(value * pow2(t)) == bit_length(value) + t,
        value * pow2(t) > 0,
{
    lemma_bit_length(value);
    lemma_pow2_pos(t);
    let b = bit_length(value);
    lemma_pow2_adds((b - 1) as nat, t);
    lemma_pow2_adds(b, t);
    let low = pow2((b - 1) as nat);
    let high = pow2(b);
    let p = pow2(t);
    assert(low * p <= value * p && value * p < high * p && value * p > 0) by (nonlinear_arith)
        requires
            low <= value,
            value < high,
            p > 0,
            value > 0,
    ;
    lemma_bit_length_is(value * p, (b + t) as nat);
}

proof fn lemma_nearest_scaled(num: nat, den: nat, c: nat)
    requires
        den > 0,
        c > 0,
    ensures
        nearest(num * c, den * c) == nearest(num, den),
{
    let q = num / den;
    let r = num % den;
    assert(num == q * den + r && 0 <= r < den) by (nonlinear_arith)
        requires
            den > 0,
            q == num / den,
            r == num % den,
    ;
    assert(num * c == q * (den * c) + r * c && 0 <= r * c && r * c < den * c && den * c > 0)
        by (nonlinear_arith)
        requires
            num == q * den + r,
            0 <= r,
            r < den,
            c > 0,
            den > 0,
    ;
    vstd::arithmetic::div_mod::lemma_fundamental_div_mod_converse(
        (num * c) as int,
        (den * c) as int,
        q as int,
        (r * c) as int,
    );
    assert(2 * (r * c) > den * c <==> 2 * r > den) by (nonlinear_arith)
        requires
            c > 0,
    ;
    assert(2 * (r * c) == den * c <==> 2 * r == den) by (nonlinear_arith)
        requires
            c > 0,
    ;
}

proof fn lemma_nearest_whole(value: nat, den: nat)
    requires
        den > 0,
    ensures
        nearest(value * den, den) == value,
{
    assert((value * den) / den == value && (value * den) % den == 0) by (nonlinear_arith)
        requires
            den > 0,
    ;
}

/// A number of larger units is the same number.
proof fn lemma_pattern_scaled(n: nat, t: nat, e: int)
    requires
        n > 0,
        e - t == -1074,
    ensures
        nearest_pattern(n * pow2(t), -1074) == nearest_pattern(n, e),
{
    lemma_bit_length_doubled(n, t);
    lemma_pow2_pos(t);
    let k = last_place(n, e);
    assert(last_place(n * pow2(t), -1074) == k);
    if k == -1074 {
        lemma2_to64();
        assert((n * pow2(t)) * 1 == n * pow2(t));
    } else if k <= e {
        let d = pow2((k + 1074) as nat);
        let rest = pow2((e - k) as nat);
        lemma_pow2_adds((e - k) as nat, (k + 1074) as nat);
        lemma_pow2_pos((k + 1074) as nat);
        assert(n * (rest * d) == (n * rest) * d) by (nonlinear_arith);
        lemma_nearest_whole(n * rest, d);
    } else {
        let d = pow2((k - e) as nat);
        lemma_pow2_adds((k - e) as nat, t);
        lemma_pow2_pos((k - e) as nat);
        lemma_nearest_scaled(n, d, pow2(t));
    }
}

fn count_wide_bits(value: u128) -> (out: u32)
    requires
        value < 0x4000_0000_0000_0000_0000_0000_0000_0000,
    ensures
        out == bit_length(value as nat),
        out <= 126,
{
    let mut rest: u128 = value;
    let mut out: u32 = 0;
    proof {
        if value > 0 {
            lemma_bit_length(value as nat);
            lemma2_to64_rest();
            lemma_pow2_adds(63, 63);
            if bit_length(value as nat) > 126 {
                if bit_length(value as nat) > 127 {
                    lemma_pow2_strictly_increases(126, (bit_length(value as nat) - 1) as nat);
                }
            }
        }
        assert(bit_length(value as nat) <= 126);
    }
    while rest > 0
        invariant
            out + bit_length(rest as nat) == bit_length(value as nat),
            bit_length(value as nat) <= 126,
        decreases rest,
    {
        rest = rest / 2;
        out = out + 1;
    }
    out
}

fn pattern(n: u128, e: i32) -> (out: u64)
    requires
        n < 0x4000_0000_0000_0000_0000_0000_0000_0000,
        -5000 <= e <= 5000,
    ensures
        out == nearest_pattern(n as nat, e as int),
        out <= INFINITE,
{
    if n == 0 {
        return 0;
    }
    let bits: u32 = count_wide_bits(n);
    proof {
        lemma_bit_length(n as nat);
        lemma2_to64();
        lemma2_to64_rest();
    }
    let k: i32 = if bits as i32 + e - 53 > -1074 {
        bits as i32 + e - 53
    } else {
        -1074
    };
    let m: u128;
    if k <= e {
        let shift: u128 = power_of_two((e - k) as u32);
        proof {
            let s = pow2((e - k) as nat);
            let b = bits as nat;
            lemma_pow2_adds((b - 1) as nat, (e - k) as nat);
            lemma_pow2_adds(b, (e - k) as nat);
            let low = pow2((b - 1) as nat);
            let high = pow2(b);
            assert(low * s <= n * s && n * s < high * s) by (nonlinear_arith)
                requires
                    low <= n,
                    n < high,
                    s > 0,
            ;
            if b + e - k < 53 {
                lemma_pow2_strictly_increases((b + e - k) as nat, 53);
            }
            if k > -1074 {
                assert(b - 1 + e - k == 52);
            }
        }
        m = n * shift;
    } else {
        let places: u32 = (k - e) as u32;
        if places > 126 {
            proof {
                if places > 127 {
                    lemma_pow2_strictly_increases(127, places as nat);
                }
                lemma_pow2_adds(63, 63);
                lemma_pow2_unfold(127);
                lemma_nearest_zero(n as nat, pow2(places as nat));
                assert(k == -1074) by {
                    if k > -1074 {
                        assert(places == bits - 53);
                    }
                }
            }
            m = 0;
        } else {
            let den: u128 = power_of_two(places);
            m = round(n, den);
            proof {
                let b = bits as nat;
                let d = pow2(places as nat);
                lemma_pow2_adds(places as nat, 53);
                assert(HIGH * d == d * HIGH) by (nonlinear_arith);
                if b < places + 53 {
                    lemma_pow2_strictly_increases(b, (places + 53) as nat);
                }
                if k > -1074 {
                    lemma_pow2_adds(places as nat, 52);
                    assert(LOW * d == d * LOW) by (nonlinear_arith);
                    assert(b == places + 53);
                    lemma_nearest_bounds(n as nat, d, LOW as nat, HIGH as nat);
                } else {
                    assert(0 * d == 0) by (nonlinear_arith);
                    lemma_nearest_bounds(n as nat, d, 0, HIGH as nat);
                }
            }
        }
    }
    assert(m <= HIGH);
    assert(k > -1074 ==> m >= LOW);
    if k > 971 {
        return INFINITE;
    }
    let all: u64 = (k + 1074) as u64 * LOW + m as u64;
    if all >= INFINITE {
        INFINITE
    } else {
        all
    }
}

proof fn lemma_units(q: Quantity)
    requires
        q.finite(),
    ensures
        0 <= q.exponent() <= 2046,
        q.significand() < HIGH,
        q.exponent() > 0 ==> q.significand() >= LOW,
        q.exponent() > 0 ==> q.magnitude() == (q.place_exponent() + 1074) * LOW + q.significand(),
        q.exponent() == 0 ==> q.magnitude() == q.significand(),
{
}

/// The significand of a finite number and what its last place stands for.
fn split_number(q: Quantity) -> (out: (u64, i32))
    requires
        q.finite(),
    ensures
        out.0 == q.significand(),
        out.1 == q.place_exponent(),
        out.0 < HIGH,
        -1074 <= out.1 <= 971,
{
    let magnitude: u64 = if q.bits >= 0x8000_0000_0000_0000 {
        q.bits - 0x8000_0000_0000_0000
    } else {
        q.bits
    };
    let exponent: u64 = magnitude / LOW;
    let fraction: u64 = magnitude % LOW;
    if exponent == 0 {
        (fraction, -1074)
    } else {
        (fraction + LOW, exponent as i32 - 1075)
    }
}

/// A number absorbs another one that is far below its last place.
proof fn lemma_absorbs(s: nat, t: nat, delta: int)
    requires
        LOW <= s < HIGH,
        t > 64,
        -pow2((t - 12) as nat) < delta < pow2((t - 12) as nat),
    ensures
        s * pow2(t) + delta > 0,
        nearest_pattern((s * pow2(t) + delta) as nat, -1074) == if t * LOW + s >= INFINITE {
            INFINITE as int
        } else {
            t * LOW + s
        },
{
    let u = pow2(t);
    let small = pow2((t - 12) as nat);
    let n = (s * u + delta) as nat;
    lemma2_to64();
    lemma2_to64_rest();
    lemma_pow2_pos(t);
    lemma_pow2_adds((t - 12) as nat, 12);
    lemma_pow2_adds(52, t);
    lemma_pow2_adds(53, t);
    assert(u == small * 4096) by (nonlinear_arith)
        requires
            u == small * 4096,
    ;
    assert(LOW * u <= s * u && s * u + u <= HIGH * u) by (nonlinear_arith)
        requires
            LOW <= s,
            s + 1 <= HIGH,
            u > 0,
    ;
    if delta >= 0 || s > LOW {
        if delta < 0 {
            assert(LOW * u + u <= s * u) by (nonlinear_arith)
                requires
                    LOW + 1 <= s,
                    u > 0,
            ;
        }
        lemma_bit_length_is(n, (53 + t) as nat);
        assert(last_place(n, -1074) == t - 1074);
        if delta >= 0 {
            vstd::arithmetic::div_mod::lemma_fundamental_div_mod_converse(
                n as int,
                u as int,
                s as int,
                delta,
            );
        } else {
            assert(n == (s - 1) * u + (u + delta)) by (nonlinear_arith)
                requires
                    n == s * u + delta,
            ;
            vstd::arithmetic::div_mod::lemma_fundamental_div_mod_converse(
                n as int,
                u as int,
                s - 1,
                u + delta,
            );
        }
        assert(nearest(n, u) == s);
    } else {
        let h = pow2((t - 1) as nat);
        lemma_pow2_unfold(t);
        lemma_pow2_adds(52, (t - 1) as nat);
        assert(s * u == HIGH * h) by (nonlinear_arith)
            requires
                s == LOW,
                u == 2 * h,
                HIGH == 2 * LOW,
        ;
        assert(n == (HIGH - 1) * h + (h + delta)) by (nonlinear_arith)
            requires
                n == s * u + delta,
                s * u == HIGH * h,
        ;
        assert(LOW * h <= n) by (nonlinear_arith)
            requires
                n == (HIGH - 1) * h + (h + delta),
                h + delta >= 0,
                h > 0,
                HIGH - 1 >= LOW,
        ;
        lemma_bit_length_is(n, (52 + t) as nat);
        assert(last_place(n, -1074) == t - 1075);
        vstd::arithmetic::div_mod::lemma_fundamental_div_mod_converse(
            n as int,
            h as int,
            HIGH - 1,
            h + delta,
        );
        assert(nearest(n, h) == HIGH);
        assert((t - 1) * LOW + HIGH == t * LOW + s) by (nonlinear_arith)
            requires
                HIGH == 2 * LOW,
                s == LOW,
        ;
    }
}

/// The sum of two finite numbers, of which the first one's last place stands
/// for at least as much.
fn sum_of_finite(a: Quantity, b: Quantity) -> (out: Quantity)
    requires
        a.finite(),
        b.finite(),
        a.place_exponent() >= b.place_exponent(),
    ensures
        out == a.sum(b),
{
    proof {
        reveal(Quantity::sum);
    }
    let (sa, xa) = split_number(a);
    let (sb, xb) = split_number(b);
    let na = a.bits >= 0x8000_0000_0000_0000;
    let nb = b.bits >= 0x8000_0000_0000_0000;
    let d: u32 = (xa - xb) as u32;
    let ghost ta = (xa + 1074) as nat;
    let ghost tb = (xb + 1074) as nat;
    proof {
        lemma_units(a);
        lemma_units(b);
        lemma2_to64();
        lemma2_to64_rest();
        lemma_pow2_pos(ta);
        lemma_pow2_pos(tb);
    }
    if d > 64 {
        proof {
            let delta = if na == nb {
                sb * pow2(tb)
            } else {
                -(sb * pow2(tb))
            };
            lemma_pow2_adds(53, tb);
            let p = pow2(tb);
            assert(0 <= sb * p && sb * p < HIGH * p) by (nonlinear_arith)
                requires
                    0 <= sb,
                    sb < HIGH,
                    p > 0,
            ;
            if tb + 53 < ta - 12 {
                lemma_pow2_strictly_increases((tb + 53) as nat, (ta - 12) as nat);
            }
            lemma_absorbs(sa as nat, ta, delta);
            assert(a.magnitude() == ta * LOW + sa);
        }
        return a;
    }
    let shift: u128 = power_of_two(d);
    proof {
        if d < 64 {
            lemma_pow2_strictly_increases(d as nat, 64);
        }
        assert(sa * shift <= HIGH * 0x1_0000_0000_0000_0000) by (nonlinear_arith)
            requires
                sa < HIGH,
                shift <= 0x1_0000_0000_0000_0000,
        ;
    }
    let wide: u128 = sa as u128 * shift;
    let other: u128 = sb as u128;
    proof {
        lemma_pow2_adds(d as nat, tb);
        let p = pow2(tb);
        let q = pow2(d as nat);
        assert(sa * pow2(ta) == wide * p) by (nonlinear_arith)
            requires
                pow2(ta) == q * p,
                wide == sa * q,
        ;
        assert((wide + other) * p == wide * p + other * p) by (nonlinear_arith);
        assert((wide - other) * p == wide * p - other * p) by (nonlinear_arith);
        assert((other - wide) * p == other * p - wide * p) by (nonlinear_arith);
    }
    let (n, negative): (u128, bool) = if na == nb {
        (wide + other, na)
    } else if wide >= other {
        (wide - other, na)
    } else {
        (other - wide, nb)
    };
    if n == 0 {
        proof {
            assert(0 * pow2(tb) == 0) by (nonlinear_arith);
            assert(a.units() + b.units() == 0);
        }
        return if na && nb {
            Quantity { bits: 0x8000_0000_0000_0000 }
        } else {
            Quantity { bits: 0 }
        };
    }
    proof {
        lemma_pattern_scaled(n as nat, tb, xb as int);
        assert(n * pow2(tb) > 0) by (nonlinear_arith)
            requires
                n > 0,
                pow2(tb) > 0,
        ;
    }
    let size: u64 = pattern(n, xb);
    if negative {
        Quantity { bits: size + 0x8000_0000_0000_0000 }
    } else {
        Quantity { bits: size }
    }
}

impl Quantity {
    pub fn plus(self, other: Quantity) -> (out: Quantity)
        ensures
            out == self.sum(other),
    {
        proof {
            reveal(Quantity::sum);
        }
        if self.is_nan() || other.is_nan() {
            return Quantity { bits: NOT_A_NUMBER };
        }
        let negative = self.bits >= 0x8000_0000_0000_0000;
        let other_negative = other.bits >= 0x8000_0000_0000_0000;
        if !self.is_finite() {
            if !other.is_finite() && negative != other_negative {
                return Quantity { bits: NOT_A_NUMBER };
            }
            return self;
        }
        if !other.is_finite() {
            return other;
        }
        let (_, x) = split_number(self);
        let (_, y) = split_number(other);
        if x >= y {
            sum_of_finite(self, other)
        } else {
            sum_of_finite(other, self)
        }
    }

    /// The product as binary64 numbers multiply.
    #[verifier::opaque]
    pub open spec fn product(self, other: Quantity) -> Quantity {
        let negative = self.negative() != other.negative();
        if self.nan() || other.nan() {
            Quantity { bits: NOT_A_NUMBER }
        } else if !self.finite() || !other.finite() {
            if self.magnitude() == 0 || other.magnitude() == 0 {
                Quantity { bits: NOT_A_NUMBER }
            } else {
                signed_pattern(negative, INFINITE as nat)
            }
        } else {
            signed_pattern(
                negative,
                nearest_pattern(
                    self.significand() * other.significand(),
                    self.place_exponent() + other.place_exponent(),
                ),
            )
        }
    }

    pub fn times(self, other: Quantity) -> (out: Quantity)
        ensures
            out == self.product(other),
    {
        proof {
            reveal(Quantity::product);
        }
        if self.is_nan() || other.is_nan() {
            return Quantity { bits: NOT_A_NUMBER };
        }
        let negative = (self.bits >= 0x8000_0000_0000_0000) != (other.bits
            >= 0x8000_0000_0000_0000);
        if !self.is_finite() || !other.is_finite() {
            if self.place() == 0 || other.place() == 0 {
                return Quantity { bits: NOT_A_NUMBER };
            }
            return if negative {
                Quantity { bits: 0xfff0_0000_0000_0000 }
            } else {
                Quantity { bits: INFINITE }
            };
        }
        let (s, x) = split_number(self);
        let (t, y) = split_number(other);
        assert(s * t <= HIGH * HIGH) by (nonlinear_arith)
            requires
                s < HIGH,
                t < HIGH,
        ;
        let size: u64 = pattern(s as u128 * t as u128, x + y);
        if negative {
            Quantity { bits: size + 0x8000_0000_0000_0000 }
        } else {
            Quantity { bits: size }
        }
    }

    /// The number nearest to a whole number.
    pub open spec fn of_count(count: int) -> Quantity {
        if count < 0 {
            signed_pattern(true, nearest_pattern((-count) as nat, 0))
        } else {
            signed_pattern(false, nearest_pattern(count as nat, 0))
        }
    }

    pub fn from_count(count: i64) -> (out: Quantity)
        ensures
            out == Quantity::of_count(count as int),
    {
        if count < 0 {
            let size: u64 = pattern((-(count as i128)) as u128, 0);
            Quantity { bits: size + 0x8000_0000_0000_0000 }
        } else {
            let size: u64 = pattern(count as u128, 0);
            Quantity { bits: size }
        }
    }
}

/// The order of two numbers does not matter to their sum.
pub proof fn law_sum_is_commutative(a: Quantity, b: Quantity)
    requires
        !(a.nan() || b.nan()),
    ensures
        a.sum(b) == b.sum(a),
{
    reveal(Quantity::sum);
}

/// Adding zero to a positive number changes nothing.
pub proof fn law_zero_adds_nothing(a: Quantity)
    requires
        a.finite(),
        !a.negative(),
    ensures
        a.sum(Quantity { bits: 0 }) == a,
{
    reveal(Quantity::sum);
    let zero = Quantity { bits: 0 };
    lemma_units(a);
    lemma2_to64();
    let s = a.significand();
    let t = (a.place_exponent() + 1074) as nat;
    assert(zero.units() == 0) by (nonlinear_arith)
        requires
            zero.units() == 0 * pow2((zero.place_exponent() + 1074) as nat),
    ;
    if s > 0 {
        lemma_pow2_pos(t);
        assert(s * pow2(t) > 0) by (nonlinear_arith)
            requires
                s > 0,
                pow2(t) > 0,
        ;
        lemma_pattern_scaled(s, t, a.place_exponent());
        lemma_bit_length(s);
        lemma2_to64_rest();
        if a.exponent() > 0 {
            lemma_bit_length_is(s, 53);
            assert(s * 1 == s);
        } else {
            if bit_length(s) > 53 {
                lemma_pow2_strictly_increases(52, (bit_length(s) - 1) as nat);
            }
            assert(s * 1 == s);
        }
    } else {
        assert(0 * pow2(t) == 0) by (nonlinear_arith);
    }
}

/// The binary length of a fraction: the least `b` for which it lies below two
/// to the power `b`. It is found from 64 binary places.
pub open spec fn ratio_length(num: nat, den: nat) -> int {
    bit_length((num * 0x1_0000_0000_0000_0000) / den) - 64
}

/// The power of two that the last binary place of a number near `num / den`
/// times two to the power `e` stands for.
pub open spec fn ratio_place(num: nat, den: nat, e: int) -> int {
    if ratio_length(num, den) + e - 53 > -1074 {
        ratio_length(num, den) + e - 53
    } else {
        -1074
    }
}

/// The pattern, without a sign, of the number nearest to `num / den` times two
/// to the power `e`.
pub open spec fn ratio_pattern(num: nat, den: nat, e: int) -> nat {
    let k = ratio_place(num, den, e);
    let m = if k <= e {
        nearest(num * pow2((e - k) as nat), den)
    } else {
        nearest(num, den * pow2((k - e) as nat))
    };
    let all = ((k + 1074) * LOW + m) as nat;
    if num == 0 {
        0
    } else if all >= INFINITE {
        INFINITE as nat
    } else {
        all
    }
}

/// A fraction of significands lies between the powers of two that its length
/// tells.
proof fn lemma_ratio_length(num: nat, den: nat)
    requires
        0 < num < HIGH,
        0 < den < HIGH,
    ensures
        -53 <= ratio_length(num, den) <= 53,
        num * 0x1_0000_0000_0000_0000 < pow2((ratio_length(num, den) + 64) as nat) * den,
        pow2((ratio_length(num, den) + 63) as nat) * den <= num * 0x1_0000_0000_0000_0000,
{
    let wide = num * 0x1_0000_0000_0000_0000;
    let q = wide / den;
    let r = wide % den;
    assert(wide == q * den + r && 0 <= r < den) by (nonlinear_arith)
        requires
            den > 0,
            q == wide / den,
            r == wide % den,
    ;
    lemma2_to64();
    lemma2_to64_rest();
    assert(q >= 0x800) by (nonlinear_arith)
        requires
            wide == q * den + r,
            r < den,
            wide >= 0x1_0000_0000_0000_0000,
            den <= 0x20_0000_0000_0000,
    ;
    assert(q <= wide) by (nonlinear_arith)
        requires
            wide == q * den + r,
            den >= 1,
            r >= 0,
            q >= 0,
    ;
    lemma_bit_length(q);
    let b = bit_length(q);
    if b < 11 {
        lemma_pow2_strictly_increases(b, 11);
    }
    lemma_pow2_adds(53, 64);
    if b > 117 {
        if b > 118 {
            lemma_pow2_strictly_increases(117, (b - 1) as nat);
        }
    }
    let low = pow2((b - 1) as nat);
    let high = pow2(b);
    assert(low * den <= q * den && q * den + den <= high * den) by (nonlinear_arith)
        requires
            low <= q,
            q + 1 <= high,
            den > 0,
    ;
}

/// Scaled to 53 places, a fraction has a significand.
proof fn lemma_ratio_scaled(num: nat, den: nat, places: nat)
    requires
        0 < num < HIGH,
        0 < den < HIGH,
        places == 53 - ratio_length(num, den),
    ensures
        LOW * den <= num * pow2(places),
        num * pow2(places) < HIGH * den,
{
    lemma_ratio_length(num, den);
    lemma2_to64();
    lemma2_to64_rest();
    let b = ratio_length(num, den);
    let w = pow2(64);
    if places >= 64 {
        let extra = (places - 64) as nat;
        lemma_pow2_adds(64, extra);
        lemma_pow2_adds((b + 64) as nat, extra);
        lemma_pow2_adds((b + 63) as nat, extra);
        lemma_pow2_pos(extra);
        let x = pow2(extra);
        let high = pow2((b + 64) as nat);
        let low = pow2((b + 63) as nat);
        assert(low * x == LOW);
        assert(high * x == HIGH);
        assert((low * den) * x <= (num * w) * x && (num * w) * x < (high * den) * x)
            by (nonlinear_arith)
            requires
                low * den <= num * w,
                num * w < high * den,
                x > 0,
        ;
        assert((num * w) * x == num * (w * x) && (low * den) * x == (low * x) * den && (high * den)
            * x == (high * x) * den) by (nonlinear_arith);
    } else {
        let rest = (64 - places) as nat;
        lemma_pow2_adds(places, rest);
        lemma_pow2_adds(53, rest);
        lemma_pow2_adds(52, rest);
        lemma_pow2_pos(rest);
        let x = pow2(rest);
        let p = pow2(places);
        assert(pow2((b + 64) as nat) == HIGH * x);
        assert(pow2((b + 63) as nat) == LOW * x);
        assert(LOW * den <= num * p && num * p < HIGH * den) by (nonlinear_arith)
            requires
                (LOW * x) * den <= num * (p * x),
                num * (p * x) < (HIGH * x) * den,
                x > 0,
        ;
    }
}

fn ratio(num: u64, den: u64, e: i32) -> (out: u64)
    requires
        num < HIGH,
        0 < den < HIGH,
        -5000 <= e <= 5000,
    ensures
        out == ratio_pattern(num as nat, den as nat, e as int),
        out <= INFINITE,
{
    if num == 0 {
        return 0;
    }
    proof {
        lemma_ratio_length(num as nat, den as nat);
        lemma2_to64();
        lemma2_to64_rest();
    }
    let quotient: u128 = (num as u128 * 0x1_0000_0000_0000_0000) / den as u128;
    proof {
        assert(quotient <= num * 0x1_0000_0000_0000_0000) by (nonlinear_arith)
            requires
                quotient == (num * 0x1_0000_0000_0000_0000) / (den as int),
                den >= 1,
                num >= 0,
        ;
    }
    let b: i32 = count_wide_bits(quotient) as i32 - 64;
    let k: i32 = if b + e - 53 > -1074 {
        b + e - 53
    } else {
        -1074
    };
    let m: u128;
    if k <= e {
        let places: u32 = (e - k) as u32;
        let ghost most = (53 - b) as nat;
        proof {
            lemma_ratio_scaled(num as nat, den as nat, most);
            if places < most {
                lemma_pow2_strictly_increases(places as nat, most);
            }
            let p = pow2(places as nat);
            let q = pow2(most);
            assert(num * p <= num * q) by (nonlinear_arith)
                requires
                    p <= q,
                    num >= 0,
            ;
            assert(HIGH * den <= HIGH * HIGH) by (nonlinear_arith)
                requires
                    den < HIGH,
            ;
        }
        m = round(num as u128 * power_of_two(places), den as u128);
        proof {
            let scaled = (num * pow2(places as nat)) as nat;
            assert(0 * den == 0) by (nonlinear_arith);
            assert(scaled >= 0) by (nonlinear_arith)
                requires
                    scaled == num * pow2(places as nat),
                    num >= 0,
            ;
            if k > -1074 {
                lemma_nearest_bounds(scaled, den as nat, LOW as nat, HIGH as nat);
            } else {
                lemma_nearest_bounds(scaled, den as nat, 0, HIGH as nat);
            }
        }
    } else {
        let places: u32 = (k - e) as u32;
        proof {
            assert(k == -1074);
            lemma_pow2_pos(places as nat);
        }
        if places > 60 {
            proof {
                let p = pow2(places as nat);
                if places > 61 {
                    lemma_pow2_strictly_increases(61, places as nat);
                }
                lemma_pow2_adds(53, 8);
                assert(2 * num < den * p) by (nonlinear_arith)
                    requires
                        num < HIGH,
                        den >= 1,
                        p >= HIGH * 0x100,
                ;
                lemma_nearest_zero(num as nat, (den * p) as nat);
            }
            m = 0;
        } else {
            let shift: u128 = power_of_two(places);
            proof {
                if places < 60 {
                    lemma_pow2_strictly_increases(places as nat, 60);
                }
                assert(0 < den * shift <= HIGH * 0x1000_0000_0000_0000) by (nonlinear_arith)
                    requires
                        0 < den < HIGH,
                        0 < shift <= 0x1000_0000_0000_0000,
                ;
            }
            m = round(num as u128, den as u128 * shift);
            proof {
                let d = (den * shift) as nat;
                assert(0 * d == 0 && num <= HIGH * d) by (nonlinear_arith)
                    requires
                        num < HIGH,
                        d >= 1,
                ;
                lemma_nearest_bounds(num as nat, d, 0, HIGH as nat);
            }
        }
    }
    assert(m <= HIGH);
    assert(k > -1074 ==> m >= LOW);
    if k > 971 {
        return INFINITE;
    }
    let all: u64 = (k + 1074) as u64 * LOW + m as u64;
    if all >= INFINITE {
        INFINITE
    } else {
        all
    }
}

impl Quantity {
    /// The number with the other sign.
    pub open spec fn negated(self) -> Quantity {
        signed_pattern(!self.negative(), self.magnitude() as nat)
    }

    pub fn negate(self) -> (out: Quantity)
        ensures
            out == self.negated(),
    {
        if self.bits >= 0x8000_0000_0000_0000 {
            Quantity { bits: self.bits - 0x8000_0000_0000_0000 }
        } else {
            Quantity { bits: self.bits + 0x8000_0000_0000_0000 }
        }
    }

    /// The difference as binary64 numbers subtract.
    pub open spec fn difference(self, other: Quantity) -> Quantity {
        self.sum(other.negated())
    }

    pub fn minus(self, other: Quantity) -> (out: Quantity)
        ensures
            out == self.difference(other),
    {
        self.plus(other.negate())
    }

    /// The quotient as binary64 numbers divide.
    #[verifier::opaque]
    pub open spec fn quotient(self, other: Quantity) -> Quantity {
        let negative = self.negative() != other.negative();
        if self.nan() || other.nan() {
            Quantity { bits: NOT_A_NUMBER }
        } else if !self.finite() {
            if !other.finite() {
                Quantity { bits: NOT_A_NUMBER }
            } else {
                signed_pattern(negative, INFINITE as nat)
            }
        } else if !other.finite() {
            signed_pattern(negative, 0)
        } else if other.magnitude() == 0 {
            if self.magnitude() == 0 {
                Quantity { bits: NOT_A_NUMBER }
            } else {
                signed_pattern(negative, INFINITE as nat)
            }
        } else {
            signed_pattern(
                negative,
                ratio_pattern(
                    self.significand(),
                    other.significand(),
                    self.place_exponent() - other.place_exponent(),
                ),
            )
        }
    }

    pub fn over(self, other: Quantity) -> (out: Quantity)
        ensures
            out == self.quotient(other),
    {
        proof {
            reveal(Quantity::quotient);
        }
        if self.is_nan() || other.is_nan() {
            return Quantity { bits: NOT_A_NUMBER };
        }
        let negative = (self.bits >= 0x8000_0000_0000_0000) != (other.bits
            >= 0x8000_0000_0000_0000);
        let size: u64 = if !self.is_finite() {
            if !other.is_finite() {
                return Quantity { bits: NOT_A_NUMBER };
            }
            INFINITE
        } else if !other.is_finite() {
            0
        } else if other.place() == 0 {
            if self.place() == 0 {
                return Quantity { bits: NOT_A_NUMBER };
            }
            INFINITE
        } else {
            let (s, x) = split_number(self);
            let (t, y) = split_number(other);
            proof {
                lemma_units(other);
            }
            ratio(s, t, x - y)
        };
        if negative {
            Quantity { bits: size + 0x8000_0000_0000_0000 }
        } else {
            Quantity { bits: size }
        }
    }

    /// The larger of two quantities; the other one where one is not a number.
    pub open spec fn larger(self, other: Quantity) -> Quantity {
        if other.nan() || other.at_most(self) {
            self
        } else {
            other
        }
    }

    pub fn max(self, other: Quantity) -> (most: Quantity)
        ensures
            most == self.larger(other),
    {
        if other.is_nan() || other.is_at_most(self) {
            self
        } else {
            other
        }
    }

    /// The quantity, held between zero and one hundred.
    pub open spec fn as_percentage(self) -> Quantity {
        if self.below(Quantity { bits: ZERO }) {
            Quantity { bits: ZERO }
        } else if (Quantity { bits: HUNDRED }).below(self) {
            Quantity { bits: HUNDRED }
        } else {
            self
        }
    }

    pub fn percentage(self) -> (out: Quantity)
        ensures
            out == self.as_percentage(),
    {
        if self.is_below(Quantity { bits: ZERO }) {
            Quantity { bits: ZERO }
        } else if (Quantity { bits: HUNDRED }).is_below(self) {
            Quantity { bits: HUNDRED }
        } else {
            self
        }
    }

    /// The number that a binary32 pattern stands for.
    pub open spec fn of_single(bits: u32) -> Quantity {
        let negative = bits >= 0x8000_0000;
        let magnitude = if negative {
            bits - 0x8000_0000
        } else {
            bits as int
        };
        let exponent = magnitude / 0x80_0000;
        let fraction = (magnitude % 0x80_0000) as nat;
        if magnitude > 0x7f80_0000 {
            Quantity { bits: NOT_A_NUMBER }
        } else if magnitude == 0x7f80_0000 {
            signed_pattern(negative, INFINITE as nat)
        } else if exponent == 0 {
            signed_pattern(negative, nearest_pattern(fraction, -149))
        } else {
            signed_pattern(negative, nearest_pattern(fraction + 0x80_0000, exponent - 150))
        }
    }

    pub fn from_single(bits: u32) -> (out: Quantity)
        ensures
            out == Quantity::of_single(bits),
    {
        let negative = bits >= 0x8000_0000;
        let magnitude: u32 = if negative {
            bits - 0x8000_0000
        } else {
            bits
        };
        let exponent: u32 = magnitude / 0x80_0000;
        let fraction: u32 = magnitude % 0x80_0000;
        if magnitude > 0x7f80_0000 {
            return Quantity { bits: NOT_A_NUMBER };
        }
        let size: u64 = if magnitude == 0x7f80_0000 {
            INFINITE
        } else if exponent == 0 {
            pattern(fraction as u128, -149)
        } else {
            pattern(fraction as u128 + 0x80_0000, exponent as i32 - 150)
        };
        if negative {
            Quantity { bits: size + 0x8000_0000_0000_0000 }
        } else {
            Quantity { bits: size }
        }
    }
}

/// A percentage is no number, or lies between zero and one hundred.
pub proof fn law_percentages_are_bounded(value: Quantity)
    ensures
        value.as_percentage().nan() || ((Quantity { bits: ZERO }).at_most(value.as_percentage())
            && value.as_percentage().at_most(Quantity { bits: HUNDRED })),
{
}

/// Taking a finite number from itself leaves nothing.
pub proof fn law_nothing_is_left_of_the_whole(value: Quantity)
    requires
        value.finite(),
    ensures
        value.difference(value) == (Quantity { bits: ZERO }),
{
    reveal(Quantity::sum);
    let other = value.negated();
    assert(other.magnitude() == value.magnitude());
    assert(other.units() == -value.units());
}

/// The amounts, summed from zero in their order.
pub open spec fn amount_total(amounts: Seq<Quantity>) -> Quantity
    decreases amounts.len(),
{
    if amounts.len() == 0 {
        Quantity { bits: 0 }
    } else {
        amount_total(amounts.drop_last()).sum(amounts.last())
    }
}

/// The amounts above zero, summed from zero in their order.
pub open spec fn positive_total(amounts: Seq<Quantity>) -> Quantity
    decreases amounts.len(),
{
    if amounts.len() == 0 {
        Quantity { bits: 0 }
    } else if !amounts.last().nan() && amounts.last().rank() > 0 {
        positive_total(amounts.drop_last()).sum(amounts.last())
    } else {
        positive_total(amounts.drop_last())
    }
}

/// A number between zero and one hundred is its own percentage; one above is one
/// hundred, and one below is zero.
pub proof fn law_percentage_keeps_what_lies_between(value: Quantity)
    requires
        !value.nan(),
    ensures
        0 <= value.rank() <= 0x4059_0000_0000_0000 ==> value.as_percentage() == value,
        value.rank() > 0x4059_0000_0000_0000 ==> value.as_percentage().bits
            == 0x4059_0000_0000_0000,
        value.rank() < 0 ==> value.as_percentage().bits == 0,
{
}

/// The larger of two numbers is one of them and no less than either.
pub proof fn law_larger_is_one_of_both(a: Quantity, b: Quantity)
    requires
        !a.nan(),
        !b.nan(),
    ensures
        a.larger(b) == a || a.larger(b) == b,
        a.rank() <= a.larger(b).rank(),
        b.rank() <= a.larger(b).rank(),
        a.smaller(b) == a || a.smaller(b) == b,
        a.smaller(b).rank() <= a.rank(),
        a.smaller(b).rank() <= b.rank(),
{
}

/// To turn the sign of a number puts it as far on the other side of zero, and to
/// turn it twice changes nothing; to take a number away is to add it with its
/// sign turned.
pub proof fn law_signs_turn_about_zero(value: Quantity, other: Quantity)
    requires
        !value.nan(),
        !other.nan(),
    ensures
        value.negated().rank() == -value.rank(),
        value.negated().negated() == value,
        value.negated().finite() == value.finite(),
        value.difference(other) == other.negated().sum(value),
{
    law_sum_is_commutative(value, other.negated());
}

} // verus!
