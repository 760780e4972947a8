//! Numbers with 53 binary digits, and numbers as texts.

use vstd::prelude::*;
use vstd::arithmetic::power2::{lemma2_to64, lemma2_to64_rest, lemma_pow2_adds, lemma_pow2_pos};
use vstd::arithmetic::power2::{lemma_pow2_strictly_increases, lemma_pow2_unfold, pow2};

use crate::quantity::Quantity;
use crate::text::{decimal, decimal_text, digit};

verus! {

/// The integer nearest to a fraction; of two equally near ones the even one.
pub open spec fn nearest(num: nat, den: nat) -> nat {
    let whole = num / den;
    let rest = num % den;
    if 2 * rest > den || (2 * rest == den && whole % 2 == 1) {
        whole + 1
    } else {
        whole
    }
}

pub(crate) fn round(num: u128, den: u128) -> (out: u128)
    requires
        0 < den < 0x8000_0000_0000_0000_0000_0000_0000_0000,
        num < 0xffff_ffff_ffff_ffff_ffff_ffff_ffff_ffff,
    ensures
        out == nearest(num as nat, den as nat),
{
    let whole: u128 = num / den;
    let rest: u128 = num % den;
    proof {
        assert(whole <= num) by (nonlinear_arith)
            requires
                den > 0,
                whole == num / den,
        ;
    }
    if 2 * rest > den || (2 * rest == den && whole % 2 == 1) {
        whole + 1
    } else {
        whole
    }
}

pub(crate) fn power_of_two(n: u32) -> (out: u128)
    requires
        n <= 126,
    ensures
        out == pow2(n as nat),
        0 < out < 0x8000_0000_0000_0000_0000_0000_0000_0000,
{
    let mut out: u128 = 1;
    let mut i: u32 = 0;
    proof {
        lemma2_to64();
        lemma2_to64_rest();
        lemma_pow2_adds(63, 63);
    }
    while i < n
        invariant
            i <= n <= 126,
            out == pow2(i as nat),
            pow2(126) == 0x4000_0000_0000_0000_0000_0000_0000_0000,
        decreases n - i,
    {
        proof {
            lemma_pow2_unfold((i + 1) as nat);
            if i < 125 {
                lemma_pow2_strictly_increases(i as nat, 125);
            }
            lemma_pow2_unfold(126);
        }
        out = out * 2;
        i = i + 1;
    }
    proof {
        lemma_pow2_pos(n as nat);
        if n < 126 {
            lemma_pow2_strictly_increases(n as nat, 126);
        }
    }
    out
}

/// How many binary digits a number takes.
pub open spec fn bit_length(value: nat) -> nat
    decreases value,
{
    if value == 0 {
        0
    } else {
        1 + bit_length(value / 2)
    }
}

pub proof fn lemma_bit_length(value: nat)
    requires
        value > 0,
    ensures
        bit_length(value) > 0,
        pow2((bit_length(value) - 1) as nat) <= value < pow2(bit_length(value)),
    decreases value,
{
    let n = bit_length(value);
    if value == 1 {
        assert(bit_length(0) == 0);
        lemma2_to64();
    } else {
        lemma_bit_length(value / 2);
        lemma_pow2_unfold(n);
        lemma_pow2_unfold((n - 1) as nat);
    }
}

fn count_bits(value: u64) -> (out: u32)
    ensures
        out == bit_length(value as nat),
        out <= 64,
{
    let mut rest: u64 = value;
    let mut out: u32 = 0;
    proof {
        if value > 0 {
            lemma_bit_length(value as nat);
            lemma2_to64();
            lemma2_to64_rest();
            if bit_length(value as nat) > 64 {
                lemma_pow2_strictly_increases(63, (bit_length(value as nat) - 1) as nat);
                if bit_length(value as nat) > 65 {
                    lemma_pow2_strictly_increases(64, (bit_length(value as nat) - 1) as nat);
                }
            }
        }
        assert(bit_length(value as nat) <= 64);
    }
    while rest > 0
        invariant
            out + bit_length(rest as nat) == bit_length(value as nat),
            bit_length(value as nat) <= 64,
        decreases rest,
    {
        rest = rest / 2;
        out = out + 1;
    }
    out
}

/// A number `m` times two to the power `e`. It is zero, or `m` has exactly 53
/// binary digits.
#[derive(Clone, Copy, Debug, PartialEq, Eq, Structural)]
pub struct Dyadic {
    pub m: u64,
    pub e: i32,
}

/// Two to the power of 52 and of 53.
pub const LOW: u64 = 0x10_0000_0000_0000;

pub const HIGH: u64 = 0x20_0000_0000_0000;

impl Dyadic {
    pub open spec fn zero() -> Dyadic {
        Dyadic { m: 0, e: 0 }
    }

    pub open spec fn well_formed(self) -> bool {
        self == Dyadic::zero() || LOW <= self.m < HIGH
    }

    /// Within a range that no computation here leaves.
    pub open spec fn moderate(self) -> bool {
        self.well_formed() && -4000 <= self.e <= 4000
    }

    /// The number with these digits, where rounding may have made one more.
    pub open spec fn carried(m: nat, e: int) -> Dyadic {
        if m == HIGH {
            Dyadic { m: LOW, e: (e + 1) as i32 }
        } else {
            Dyadic { m: m as u64, e: e as i32 }
        }
    }

    /// A whole number, rounded to 53 binary digits.
    pub open spec fn whole(value: nat) -> Dyadic {
        let n = bit_length(value);
        if value == 0 {
            Dyadic::zero()
        } else if n <= 53 {
            Dyadic { m: (value * pow2((53 - n) as nat)) as u64, e: (n - 53) as i32 }
        } else {
            Dyadic::carried(nearest(value, pow2((n - 53) as nat)), n - 53)
        }
    }

    /// The size of a finite quantity, without its sign.
    pub open spec fn size_of(quantity: Quantity) -> Dyadic {
        let s = quantity.significand();
        if s == 0 {
            Dyadic::zero()
        } else if quantity.exponent() == 0 {
            Dyadic {
                m: (s * pow2((53 - bit_length(s)) as nat)) as u64,
                e: (bit_length(s) - 53 - 1074) as i32,
            }
        } else {
            Dyadic { m: s as u64, e: (quantity.exponent() - 1075) as i32 }
        }
    }

    /// The product, rounded to 53 binary digits.
    pub open spec fn times(self, other: Dyadic) -> Dyadic {
        let p = (self.m as nat) * (other.m as nat);
        let s: nat = if p < 0x200_0000_0000_0000_0000_0000_0000 {
            52
        } else {
            53
        };
        if p == 0 {
            Dyadic::zero()
        } else {
            Dyadic::carried(nearest(p, pow2(s)), self.e + other.e + s)
        }
    }

    /// The quotient, rounded to 53 binary digits.
    pub open spec fn over(self, other: Dyadic) -> Dyadic {
        let s: nat = if self.m >= other.m {
            52
        } else {
            53
        };
        if self.m == 0 {
            Dyadic::zero()
        } else {
            Dyadic::carried(
                nearest((self.m as nat) * pow2(s), other.m as nat),
                self.e - other.e - s,
            )
        }
    }

    /// This number is larger.
    pub open spec fn exceeds(self, other: Dyadic) -> bool {
        if self.m == 0 {
            false
        } else if other.m == 0 {
            true
        } else {
            self.e > other.e || (self.e == other.e && self.m > other.m)
        }
    }
}

fn carry(m: u128, e: i32) -> (out: Dyadic)
    requires
        LOW <= m <= HIGH,
        -20000 <= e <= 20000,
    ensures
        out == Dyadic::carried(m as nat, e as int),
        out.well_formed(),
{
    if m == HIGH as u128 {
        Dyadic { m: LOW, e: e + 1 }
    } else {
        Dyadic { m: m as u64, e }
    }
}

pub proof fn lemma_nearest_bounds(num: nat, den: nat, low: nat, high: nat)
    requires
        den > 0,
        low * den <= num <= high * den,
    ensures
        low <= nearest(num, den) <= high,
{
    let q = num / den;
    let r = num % den;
    assert(num == q * den + r && 0 <= r < den) by (nonlinear_arith)
        requires
            den > 0,
            q == num / den,
            r == num % den,
    ;
    assert(low <= q) by (nonlinear_arith)
        requires
            low * den <= num,
            num == q * den + r,
            r < den,
    ;
    assert(q <= high) by (nonlinear_arith)
        requires
            num <= high * den,
            num == q * den + r,
            r >= 0,
            den > 0,
    ;
    if q == high {
        assert(r == 0) by (nonlinear_arith)
            requires
                num <= high * den,
                num == q * den + r,
                q == high,
                r >= 0,
        ;
    }
}

pub(crate) fn whole_number(value: u64) -> (out: Dyadic)
    ensures
        out == Dyadic::whole(value as nat),
        out.well_formed(),
        -52 <= out.e <= 12,
{
    if value == 0 {
        return Dyadic { m: 0, e: 0 };
    }
    let n: u32 = count_bits(value);
    proof {
        lemma_bit_length(value as nat);
        lemma2_to64();
        lemma2_to64_rest();
    }
    if n <= 53 {
        let shift: u128 = power_of_two(53 - n);
        let ghost p = pow2((53 - n) as nat);
        proof {
            lemma_pow2_adds((n - 1) as nat, (53 - n) as nat);
            lemma_pow2_adds(n as nat, (53 - n) as nat);
            let a = pow2((n - 1) as nat);
            let b = pow2(n as nat);
            assert(a * p <= value * p && value * p < b * p) by (nonlinear_arith)
                requires
                    a <= value,
                    value < b,
                    p > 0,
            ;
        }
        let m: u128 = value as u128 * shift;
        Dyadic { m: m as u64, e: n as i32 - 53 }
    } else {
        let den: u128 = power_of_two(n - 53);
        proof {
            lemma_pow2_adds((n - 53) as nat, 52);
            lemma_pow2_adds((n - 53) as nat, 53);
            let d = pow2((n - 53) as nat);
            assert(LOW * d == d * LOW) by (nonlinear_arith);
            assert(HIGH * d == d * HIGH) by (nonlinear_arith);
            lemma_nearest_bounds(value as nat, d, LOW as nat, HIGH as nat);
        }
        let m: u128 = round(value as u128, den);
        carry(m, n as i32 - 53)
    }
}

pub(crate) fn size_of(quantity: Quantity) -> (out: Dyadic)
    requires
        quantity.finite(),
    ensures
        out == Dyadic::size_of(quantity),
        out.well_formed(),
        -1126 <= out.e <= 971,
{
    let magnitude: u64 = if quantity.bits >= 0x8000_0000_0000_0000 {
        quantity.bits - 0x8000_0000_0000_0000
    } else {
        quantity.bits
    };
    let exponent: u64 = magnitude / 0x10_0000_0000_0000;
    let fraction: u64 = magnitude % 0x10_0000_0000_0000;
    if exponent == 0 {
        if fraction == 0 {
            return Dyadic { m: 0, e: 0 };
        }
        let n: u32 = count_bits(fraction);
        proof {
            lemma_bit_length(fraction as nat);
            lemma2_to64();
            lemma2_to64_rest();
            if n > 53 {
                lemma_pow2_strictly_increases(52, (n - 1) as nat);
            }
        }
        assert(n <= 53);
        let shift: u128 = power_of_two(53 - n);
        proof {
            let p = pow2((53 - n) as nat);
            lemma_pow2_adds((n - 1) as nat, (53 - n) as nat);
            lemma_pow2_adds(n as nat, (53 - n) as nat);
            let a = pow2((n - 1) as nat);
            let b = pow2(n as nat);
            assert(a * p <= fraction * p && fraction * p < b * p) by (nonlinear_arith)
                requires
                    a <= fraction,
                    fraction < b,
                    p > 0,
            ;
        }
        let m: u128 = fraction as u128 * shift;
        Dyadic { m: m as u64, e: n as i32 - 53 - 1074 }
    } else {
        Dyadic { m: fraction + 0x10_0000_0000_0000, e: exponent as i32 - 1075 }
    }
}

pub(crate) fn multiply(a: Dyadic, b: Dyadic) -> (out: Dyadic)
    requires
        a.moderate(),
        b.moderate(),
    ensures
        out == a.times(b),
        out.well_formed(),
        a.e + b.e <= out.e <= a.e + b.e + 54 || out.m == 0,
{
    if a.m == 0 || b.m == 0 {
        assert(a.m as nat * b.m as nat == 0) by (nonlinear_arith)
            requires
                a.m == 0 || b.m == 0,
        ;
        return Dyadic { m: 0, e: 0 };
    }
    let ghost x = a.m as nat;
    let ghost y = b.m as nat;
    proof {
        assert(LOW * LOW <= x * y && x * y < HIGH * HIGH) by (nonlinear_arith)
            requires
                LOW <= x < HIGH,
                LOW <= y < HIGH,
        ;
        lemma2_to64();
        lemma2_to64_rest();
    }
    let p: u128 = a.m as u128 * b.m as u128;
    if p < 0x200_0000_0000_0000_0000_0000_0000 {
        proof {
            lemma_nearest_bounds(p as nat, pow2(52), LOW as nat, HIGH as nat);
        }
        let m: u128 = round(p, LOW as u128);
        carry(m, a.e + b.e + 52)
    } else {
        proof {
            lemma_nearest_bounds(p as nat, pow2(53), LOW as nat, HIGH as nat);
        }
        let m: u128 = round(p, HIGH as u128);
        carry(m, a.e + b.e + 53)
    }
}

pub(crate) fn divide(a: Dyadic, b: Dyadic) -> (out: Dyadic)
    requires
        a.moderate(),
        b.moderate(),
        b.m != 0,
    ensures
        out == a.over(b),
        out.well_formed(),
        a.e - b.e - 53 <= out.e <= a.e - b.e - 51 || out.m == 0,
{
    if a.m == 0 {
        return Dyadic { m: 0, e: 0 };
    }
    let ghost x = a.m as nat;
    let ghost y = b.m as nat;
    proof {
        lemma2_to64();
        lemma2_to64_rest();
    }
    if a.m >= b.m {
        proof {
            assert(LOW * y <= x * LOW && x * LOW <= HIGH * y) by (nonlinear_arith)
                requires
                    y <= x,
                    x < HIGH,
                    y >= LOW,
            ;
            lemma_nearest_bounds(x * pow2(52), y, LOW as nat, HIGH as nat);
            assert(x * LOW < 0x400_0000_0000_0000_0000_0000_0000) by (nonlinear_arith)
                requires
                    x < HIGH,
            ;
        }
        let m: u128 = round(a.m as u128 * LOW as u128, b.m as u128);
        carry(m, a.e - b.e - 52)
    } else {
        proof {
            assert(LOW * y <= x * HIGH && x * HIGH <= HIGH * y) by (nonlinear_arith)
                requires
                    x <= y,
                    y < HIGH,
                    x >= LOW,
            ;
            lemma_nearest_bounds(x * pow2(53), y, LOW as nat, HIGH as nat);
            assert(x * HIGH < 0x400_0000_0000_0000_0000_0000_0000) by (nonlinear_arith)
                requires
                    x < HIGH,
            ;
        }
        let m: u128 = round(a.m as u128 * HIGH as u128, b.m as u128);
        carry(m, a.e - b.e - 53)
    }
}

/// Ten to the power of a number of decimal places.
pub open spec fn tens(places: nat) -> nat
    decreases places,
{
    if places == 0 {
        1
    } else {
        10 * tens((places - 1) as nat)
    }
}

/// The last decimal places of a number, with leading zeros.
pub open spec fn padded(value: nat, places: nat) -> Seq<char>
    decreases places,
{
    if places == 0 {
        Seq::empty()
    } else {
        padded(value / 10, (places - 1) as nat).push(digit(value % 10))
    }
}

/// A count of the smallest shown part, with a point before its last places.
pub open spec fn pointed(count: nat, places: nat) -> Seq<char> {
    if places == 0 {
        decimal(count)
    } else {
        decimal(count / tens(places)) + "."@ + padded(count % tens(places), places)
    }
}

impl Dyadic {
    /// The number in the smallest shown part, rounded.
    pub open spec fn count(self, places: nat) -> nat {
        if self.e >= 0 {
            (self.m as nat) * pow2(self.e as nat) * tens(places)
        } else {
            nearest((self.m as nat) * tens(places), pow2((-self.e) as nat))
        }
    }

    /// The number with a fixed number of decimal places. What no binary64
    /// number reaches is infinite.
    pub open spec fn shown(self, places: nat) -> Seq<char> {
        if self.e > 971 {
            "inf"@
        } else {
            pointed(self.count(places), places)
        }
    }

    /// The nearest whole number; of two equally near ones the larger.
    pub open spec fn rounded_up(self) -> nat {
        if self.e >= 0 {
            (self.m as nat) * pow2(self.e as nat)
        } else {
            (2 * (self.m as nat) + pow2((-self.e) as nat)) / (2 * pow2((-self.e) as nat))
        }
    }
}

/// The number that decimal digits spell, the lowest first.
spec fn spelled(digits: Seq<u8>) -> nat
    decreases digits.len(),
{
    if digits.len() == 0 {
        0
    } else {
        digits[0] as nat + 10 * spelled(digits.drop_first())
    }
}

spec fn all_decimal(digits: Seq<u8>) -> bool {
    forall|i: int| 0 <= i < digits.len() ==> (#[trigger] digits[i]) < 10
}

proof fn lemma_spelled_push(digits: Seq<u8>, last: u8)
    ensures
        spelled(digits.push(last)) == spelled(digits) + last * tens(digits.len()),
    decreases digits.len(),
{
    let longer = digits.push(last);
    if digits.len() == 0 {
        assert(longer.drop_first() =~= Seq::empty());
        assert(spelled(longer.drop_first()) == 0);
        assert(tens(0) == 1);
        assert(last * tens(0) == last) by (nonlinear_arith)
            requires
                tens(0) == 1,
        ;
    } else {
        assert(longer.drop_first() =~= digits.drop_first().push(last));
        lemma_spelled_push(digits.drop_first(), last);
        let t = tens((digits.len() - 1) as nat);
        assert(10 * (last * t) == last * (10 * t)) by (nonlinear_arith);
    }
}

/// Doubles a decimal number, digit by digit.
fn double_digits(digits: &Vec<u8>) -> (out: Vec<u8>)
    requires
        all_decimal(digits@),
        digits@.len() > 0,
        digits@.last() > 0,
    ensures
        all_decimal(out@),
        spelled(out@) == 2 * spelled(digits@),
        out@.len() > 0,
        out@.last() > 0,
{
    let mut out: Vec<u8> = Vec::new();
    let mut over: u8 = 0;
    let mut i: usize = 0;
    assert(digits@.take(0) =~= Seq::empty());
    while i < digits.len()
        invariant
            i <= digits@.len(),
            all_decimal(digits@),
            all_decimal(out@),
            out@.len() == i,
            over <= 1,
            spelled(out@) + over * tens(i as nat) == 2 * spelled(digits@.take(i as int)),
            i > 0 && digits@[i - 1] > 0 ==> (out@[i - 1] > 0 || over > 0),
        decreases digits@.len() - i,
    {
        let d: u8 = digits[i];
        assert(digits@[i as int] < 10);
        let twice: u8 = d * 2 + over;
        let low: u8 = twice % 10;
        let high: u8 = twice / 10;
        proof {
            lemma_spelled_push(out@, low);
            lemma_spelled_push(digits@.take(i as int), d);
            assert(digits@.take(i + 1) =~= digits@.take(i as int).push(d));
            let t = tens(i as nat);
            assert(low * t + high * (10 * t) == (2 * d + over) * t) by (nonlinear_arith)
                requires
                    low + 10 * high == 2 * d + over,
            ;
            assert((2 * d + over) * t == 2 * (d * t) + over * t) by (nonlinear_arith);
        }
        out.push(low);
        over = high;
        i = i + 1;
    }
    assert(digits@.take(i as int) =~= digits@);
    if over > 0 {
        proof {
            lemma_spelled_push(out@, over);
        }
        out.push(over);
    }
    out
}

/// The digits of a decimal number as a text.
spec fn digit_texts(digits: Seq<u8>) -> Seq<char>
    decreases digits.len(),
{
    if digits.len() == 0 {
        Seq::empty()
    } else {
        digit_texts(digits.drop_first()).push(digit(digits[0] as nat))
    }
}

proof fn lemma_spelled_positive(digits: Seq<u8>)
    requires
        digits.len() > 0,
        digits.last() > 0,
    ensures
        spelled(digits) > 0,
    decreases digits.len(),
{
    if digits.len() > 1 {
        assert(digits.drop_first().last() == digits.last());
        lemma_spelled_positive(digits.drop_first());
    }
}

proof fn lemma_digit_texts(digits: Seq<u8>)
    requires
        all_decimal(digits),
        digits.len() > 0,
        digits.last() > 0,
    ensures
        digit_texts(digits) == decimal(spelled(digits)),
    decreases digits.len(),
{
    let rest = digits.drop_first();
    assert(digits[0] < 10);
    if digits.len() == 1 {
        assert(spelled(rest) == 0);
        assert(digit_texts(rest) =~= Seq::empty());
        assert(digit_texts(digits) =~= seq![digit(digits[0] as nat)]);
    } else {
        assert(rest.last() == digits.last());
        assert forall|i: int| 0 <= i < rest.len() implies (#[trigger] rest[i]) < 10 by {
            assert(rest[i] == digits[i + 1]);
        }
        lemma_digit_texts(rest);
        lemma_spelled_positive(rest);
        let value = spelled(digits);
        assert(value == digits[0] as nat + 10 * spelled(rest));
        assert(value / 10 == spelled(rest));
        assert(value % 10 == digits[0] as nat);
    }
}

fn write_digits(digits: &Vec<u8>) -> (out: String)
    requires
        all_decimal(digits@),
    ensures
        out@ == digit_texts(digits@),
{
    let mut out = String::new();
    let mut i: usize = digits.len();
    assert(digits@.skip(i as int) =~= Seq::empty());
    while i > 0
        invariant
            i <= digits@.len(),
            all_decimal(digits@),
            out@ == digit_texts(digits@.skip(i as int)),
        decreases i,
    {
        i = i - 1;
        assert(digits@.skip(i as int).drop_first() =~= digits@.skip(i + 1));
        assert(digits@.skip(i as int)[0] == digits@[i as int]);
        assert(digits@[i as int] < 10);
        out.push((48u8 + digits[i]) as char);
    }
    assert(digits@.skip(0) =~= digits@);
    out
}

fn split_digits(value: u64) -> (out: Vec<u8>)
    requires
        value > 0,
    ensures
        all_decimal(out@),
        spelled(out@) == value,
        out@.len() > 0,
        out@.last() > 0,
{
    let mut out: Vec<u8> = Vec::new();
    let mut rest: u64 = value;
    assert(tens(0) == 1);
    while rest > 0
        invariant
            all_decimal(out@),
            spelled(out@) + rest * tens(out@.len()) == value,
            value > 0,
            rest == 0 ==> out@.len() > 0 && out@.last() > 0,
        decreases rest,
    {
        let last: u8 = (rest % 10) as u8;
        let next: u64 = rest / 10;
        proof {
            lemma_spelled_push(out@, last);
            let t = tens(out@.len());
            assert(last * t + next * (10 * t) == rest * t) by (nonlinear_arith)
                requires
                    last + 10 * next == rest,
            ;
        }
        out.push(last);
        rest = next;
    }
    out
}

/// A number times a power of two, in decimal notation.
fn large_text(m: u64, e: u32) -> (out: String)
    requires
        m > 0,
    ensures
        out@ == decimal((m as nat) * pow2(e as nat)),
{
    let mut digits = split_digits(m);
    let mut i: u32 = 0;
    proof {
        lemma2_to64();
    }
    while i < e
        invariant
            i <= e,
            all_decimal(digits@),
            digits@.len() > 0,
            digits@.last() > 0,
            spelled(digits@) == (m as nat) * pow2(i as nat),
        decreases e - i,
    {
        proof {
            lemma_pow2_unfold((i + 1) as nat);
            let p = pow2(i as nat);
            assert(2 * (m * p) == m * (2 * p)) by (nonlinear_arith);
        }
        digits = double_digits(&digits);
        i = i + 1;
    }
    proof {
        lemma_digit_texts(digits@);
    }
    write_digits(&digits)
}

fn power_of_ten(places: u32) -> (out: u64)
    requires
        places <= 4,
    ensures
        out == tens(places as nat),
        1 <= out <= 10_000,
{
    proof {
        reveal_with_fuel(tens, 5);
    }
    if places == 0 {
        1
    } else if places == 1 {
        10
    } else if places == 2 {
        100
    } else if places == 3 {
        1_000
    } else {
        10_000
    }
}

fn padded_text(value: u64, places: u32) -> (out: String)
    ensures
        out@ == padded(value as nat, places as nat),
    decreases places,
{
    if places == 0 {
        let out = String::new();
        assert(out@ =~= Seq::empty());
        out
    } else {
        let mut out = padded_text(value / 10, places - 1);
        out.push((48u8 + (value % 10) as u8) as char);
        out
    }
}

fn pointed_text(count: u128, places: u32) -> (out: String)
    requires
        places <= 4,
        count <= HIGH * tens(places as nat),
    ensures
        out@ == pointed(count as nat, places as nat),
{
    let part: u64 = power_of_ten(places);
    let whole: u128 = count / (part as u128);
    proof {
        assert(whole <= HIGH) by (nonlinear_arith)
            requires
                count <= HIGH * part,
                part > 0,
                whole == count / (part as u128),
        ;
    }
    if places == 0 {
        decimal_text(count as u64)
    } else {
        let rest: u128 = count % (part as u128);
        let mut out = decimal_text(whole as u64);
        out.append(".");
        out.append(padded_text(rest as u64, places).as_str());
        out
    }
}

pub proof fn lemma_nearest_zero(num: nat, den: nat)
    requires
        den > 0,
        2 * num < den,
    ensures
        nearest(num, den) == 0,
{
    assert(num / den == 0 && num % den == num) by (nonlinear_arith)
        requires
            num < den,
    ;
}

proof fn lemma_even_parts(value: nat, part: nat)
    requires
        part > 0,
    ensures
        (value * part) / part == value,
        (value * part) % part == 0,
{
    assert((value * part) / part == value) by (nonlinear_arith)
        requires
            part > 0,
    ;
    assert((value * part) % part == 0) by (nonlinear_arith)
        requires
            part > 0,
    ;
}

/// The number with a fixed number of decimal places.
pub(crate) fn show(value: Dyadic, places: u32) -> (out: String)
    requires
        value.well_formed(),
        places <= 4,
        value.e > -20000,
    ensures
        out@ == value.shown(places as nat),
{
    if value.e > 971 {
        return "inf".to_owned();
    }
    let part: u64 = power_of_ten(places);
    if value.e >= 0 {
        if value.m == 0 {
            assert(value.count(places as nat) == 0) by (nonlinear_arith)
                requires
                    value.m == 0,
                    value.count(places as nat) == (value.m as nat) * pow2(value.e as nat) * tens(
                        places as nat,
                    ),
            ;
            return pointed_text(0u128, places);
        }
        let ghost whole = (value.m as nat) * pow2(value.e as nat);
        proof {
            lemma_even_parts(whole, part as nat);
        }
        let mut out = large_text(value.m, value.e as u32);
        if places > 0 {
            out.append(".");
            out.append(padded_text(0, places).as_str());
        } else {
            assert(whole * 1 == whole);
        }
        return out;
    }
    let s: u32 = (-value.e) as u32;
    proof {
        assert(value.m * part <= HIGH * 10_000) by (nonlinear_arith)
            requires
                value.m < HIGH,
                part <= 10_000,
        ;
        lemma2_to64();
        lemma2_to64_rest();
    }
    let num: u128 = value.m as u128 * part as u128;
    if s > 100 {
        proof {
            lemma_pow2_adds(64, 6);
            if s > 70 {
                lemma_pow2_strictly_increases(70, s as nat);
            }
            lemma_nearest_zero(num as nat, pow2(s as nat));
        }
        return pointed_text(0u128, places);
    }
    let den: u128 = power_of_two(s);
    let count: u128 = round(num, den);
    proof {
        let most = (HIGH * part) as nat;
        assert(num <= most * den) by (nonlinear_arith)
            requires
                num == value.m * part,
                value.m < HIGH,
                most == HIGH * part,
                den >= 1,
        ;
        lemma_nearest_bounds(num as nat, den as nat, 0, most);
    }
    pointed_text(count, places)
}

/// The nearest whole number lies within half of what it stands for, and of two
/// that lie as near it is the even one.
pub proof fn law_nearest_is_within_half(num: nat, den: nat)
    requires
        den > 0,
    ensures
        2 * (nearest(num, den) * den) <= 2 * num + den,
        2 * num <= 2 * (nearest(num, den) * den) + den,
        2 * (num % den) == den ==> nearest(num, den) % 2 == 0,
{
    let whole = num / den;
    vstd::arithmetic::div_mod::lemma_fundamental_div_mod(num as int, den as int);
    assert(den * whole == whole * den) by (nonlinear_arith);
    assert((whole + 1) * den == whole * den + den) by (nonlinear_arith);
}

/// A whole number of at most 53 bits is shown digit by digit.
pub proof fn law_whole_numbers_show_themselves(value: nat)
    requires
        0 < value,
        value < 0x20_0000_0000_0000,
    ensures
        Dyadic::whole(value).count(0) == value,
        Dyadic::whole(value).shown(0) == decimal(value),
{
    lemma_bit_length(value);
    let n = bit_length(value);
    let scale = pow2((53 - n) as nat);
    vstd::arithmetic::power2::lemma_pow2_pos((53 - n) as nat);
    vstd::arithmetic::power2::lemma2_to64();
    vstd::arithmetic::power2::lemma2_to64_rest();
    if n > 53 {
        if n > 54 {
            vstd::arithmetic::power2::lemma_pow2_strictly_increases(53, (n - 1) as nat);
        }
        assert(false);
    }
    vstd::arithmetic::power2::lemma_pow2_adds(n, (53 - n) as nat);
    assert(value * scale < pow2(n) * scale) by (nonlinear_arith)
        requires
            value < pow2(n),
            scale > 0,
    {
        assert(scale > 0);
    }
    reveal_with_fuel(tens, 2);
    if n < 53 {
        assert(((value * scale) as u64) as nat == value * scale);
        assert((value * scale) * 1 == value * scale);
        vstd::arithmetic::div_mod::lemma_div_multiples_vanish(value as int, scale as int);
        vstd::arithmetic::div_mod::lemma_mod_multiples_basic(value as int, scale as int);
        assert(scale * value == value * scale) by (nonlinear_arith);
    } else {
        assert(scale == 1);
        assert(value * 1 == value);
        assert((value * 1) * 1 == value);
    }
}

/// What is shown of a number below the whole ones is its nearest count of tenths,
/// hundredths and so on: within half of the last place.
pub proof fn law_shown_digits_are_within_half(number: Dyadic, places: nat)
    requires
        number.e < 0,
    ensures
        ({
            let unit = pow2((-number.e) as nat);
            let exact = (number.m as nat) * tens(places);
            &&& 2 * (number.count(places) * unit) <= 2 * exact + unit
            &&& 2 * exact <= 2 * (number.count(places) * unit) + unit
        }),
{
    vstd::arithmetic::power2::lemma_pow2_pos((-number.e) as nat);
    law_nearest_is_within_half((number.m as nat) * tens(places), pow2((-number.e) as nat));
}

} // verus!
