//! Amounts, percentages and token counts as the screen shows them.

use vstd::prelude::*;
use vstd::arithmetic::power2::{lemma2_to64, lemma2_to64_rest, lemma_pow2_pos};
use vstd::arithmetic::power2::{lemma_pow2_strictly_increases, pow2};

use crate::figures::{divide, multiply, power_of_two, show, size_of, whole_number, Dyadic, HIGH};
use crate::figures::LOW;
use crate::quantity::{HUNDRED, Quantity, ZERO};
use crate::text::{align_right, repeat_char, right_aligned, run_of, two};

verus! {

/// A quantity with a fixed number of decimal places.
pub open spec fn fixed(value: Quantity, places: nat) -> Seq<char> {
    let size = if value.nan() {
        "NaN"@
    } else if !value.finite() {
        "inf"@
    } else {
        Dyadic::size_of(value).shown(places)
    };
    if value.negative() && !value.nan() {
        "-"@ + size
    } else {
        size
    }
}

pub fn fixed_text(value: Quantity, places: u32) -> (out: String)
    requires
        places <= 4,
    ensures
        out@ == fixed(value, places as nat),
{
    if value.is_nan() {
        return "NaN".to_owned();
    }
    let size = if value.is_finite() {
        show(size_of(value), places)
    } else {
        "inf".to_owned()
    };
    if value.bits >= 0x8000_0000_0000_0000 {
        two("-", size.as_str())
    } else {
        size
    }
}

/// The amount behind a dollar sign.
pub open spec fn dollars(value: Quantity, places: nat) -> Seq<char> {
    "$"@ + fixed(value, places)
}

pub fn dollar_text(value: Quantity, places: u32) -> (out: String)
    requires
        places <= 4,
    ensures
        out@ == dollars(value, places as nat),
{
    two("$", fixed_text(value, places).as_str())
}

/// The amount behind a dollar sign where it is positive.
pub open spec fn cost(value: Quantity) -> Seq<char> {
    if (Quantity { bits: ZERO }).below(value) {
        dollars(value, 2)
    } else {
        "—"@
    }
}

pub fn cost_text(value: Quantity) -> (out: String)
    ensures
        out@ == cost(value),
{
    if (Quantity { bits: ZERO }).is_below(value) {
        dollar_text(value, 2)
    } else {
        "—".to_owned()
    }
}

/// More than a hundredth is behind the point of the number. (The number
/// nearest to a hundredth is `0x147ae147ae147b` times two to the power -59.)
pub open spec fn wavers(value: Quantity) -> bool {
    let x = value.place_exponent();
    &&& value.finite()
    &&& -59 <= x < 0
    &&& (value.significand() % pow2((-x) as nat)) * pow2((x + 59) as nat) > 0x14_7ae1_47ae_147b
}

fn is_wavering(value: Quantity) -> (yes: bool)
    ensures
        yes == wavers(value),
{
    if !value.is_finite() {
        return false;
    }
    let magnitude: u64 = if value.bits >= 0x8000_0000_0000_0000 {
        value.bits - 0x8000_0000_0000_0000
    } else {
        value.bits
    };
    let exponent: u64 = magnitude / LOW;
    if exponent < 1016 || exponent >= 1075 {
        return false;
    }
    let significand: u64 = magnitude % LOW + LOW;
    let whole: u128 = power_of_two((1075 - exponent) as u32);
    let shift: u128 = power_of_two((exponent - 1016) as u32);
    let rest: u128 = significand as u128 % whole;
    proof {
        lemma2_to64();
        lemma2_to64_rest();
        if exponent - 1016 < 58 {
            lemma_pow2_strictly_increases((exponent - 1016) as nat, 58);
        }
        assert(rest <= significand) by (nonlinear_arith)
            requires
                rest == significand as u128 % whole,
                whole > 0,
        ;
        assert(rest * shift <= HIGH * 0x400_0000_0000_0000) by (nonlinear_arith)
            requires
                rest <= HIGH,
                shift <= 0x400_0000_0000_0000,
        ;
    }
    rest * shift > 0x14_7ae1_47ae_147b
}

/// A percentage, with a decimal place where it has a noticeable fraction.
pub open spec fn percent(value: Quantity) -> Seq<char> {
    if wavers(value) {
        fixed(value, 1) + "%"@
    } else {
        fixed(value, 0) + "%"@
    }
}

pub fn format_percent(value: Quantity) -> (out: String)
    ensures
        out@ == percent(value),
{
    if is_wavering(value) {
        two(fixed_text(value, 1).as_str(), "%")
    } else {
        two(fixed_text(value, 0).as_str(), "%")
    }
}

/// A token count in thousands, millions or billions; none below zero.
pub open spec fn token_count(tokens: i64) -> Seq<char> {
    let count: nat = if tokens > 0 {
        tokens as nat
    } else {
        0
    };
    if count >= 1_000_000_000 {
        Dyadic::whole(count).over(Dyadic::whole(1_000_000_000)).shown(2) + "B"@
    } else if count >= 1_000_000 {
        Dyadic::whole(count).over(Dyadic::whole(1_000_000)).shown(2) + "M"@
    } else if count >= 1_000 {
        Dyadic::whole(count).over(Dyadic::whole(1_000)).shown(1) + "K"@
    } else {
        Dyadic::whole(count).shown(0)
    }
}

/// A whole number that is not zero, as a divisor.
fn divisor(value: u64) -> (out: Dyadic)
    requires
        0 < value < LOW,
    ensures
        out == Dyadic::whole(value as nat),
        out.moderate(),
        out.m != 0,
        -52 <= out.e <= 12,
{
    proof {
        crate::figures::lemma_bit_length(value as nat);
        let n = crate::figures::bit_length(value as nat);
        lemma2_to64();
        lemma2_to64_rest();
        if n > 52 {
            if n > 53 {
                lemma_pow2_strictly_increases(52, (n - 1) as nat);
            }
        }
        lemma_pow2_pos((53 - n) as nat);
        assert(value * pow2((53 - n) as nat) > 0) by (nonlinear_arith)
            requires
                value > 0,
                pow2((53 - n) as nat) > 0,
        ;
    }
    whole_number(value)
}

pub fn format_tokens(tokens: i64) -> (out: String)
    ensures
        out@ == token_count(tokens),
{
    let count: u64 = if tokens > 0 {
        tokens as u64
    } else {
        0
    };
    let number = whole_number(count);
    if count >= 1_000_000_000 {
        two(show(divide(number, divisor(1_000_000_000)), 2).as_str(), "B")
    } else if count >= 1_000_000 {
        two(show(divide(number, divisor(1_000_000)), 2).as_str(), "M")
    } else if count >= 1_000 {
        two(show(divide(number, divisor(1_000)), 1).as_str(), "K")
    } else {
        show(number, 0)
    }
}

/// Millions of tokens for one dollar, where the amount is positive.
pub open spec fn efficiency(tokens: i64, usd: Quantity) -> Seq<char> {
    let size = if tokens < 0 {
        (-tokens) as nat
    } else {
        tokens as nat
    };
    let ratio = if usd.finite() {
        Dyadic::whole(size).over(Dyadic::whole(1_000_000)).over(Dyadic::size_of(usd))
    } else {
        Dyadic::zero()
    };
    if !(Quantity { bits: ZERO }).below(usd) {
        "—"@
    } else if tokens < 0 {
        "-"@ + ratio.shown(2) + "M/$"@
    } else {
        ratio.shown(2) + "M/$"@
    }
}

pub fn efficiency_text(tokens: i64, usd: Quantity) -> (out: String)
    ensures
        out@ == efficiency(tokens, usd),
{
    if !(Quantity { bits: ZERO }).is_below(usd) {
        return "—".to_owned();
    }
    let size: u64 = if tokens == i64::MIN {
        0x8000_0000_0000_0000u64
    } else if tokens < 0 {
        (-tokens) as u64
    } else {
        tokens as u64
    };
    let ratio = if usd.is_finite() {
        let price = size_of(usd);
        proof {
            lemma_size_positive(usd);
        }
        divide(divide(whole_number(size), divisor(1_000_000)), price)
    } else {
        Dyadic { m: 0, e: 0 }
    };
    let shown = show(ratio, 2);
    if tokens < 0 {
        two(two("-", shown.as_str()).as_str(), "M/$")
    } else {
        two(shown.as_str(), "M/$")
    }
}

proof fn lemma_size_positive(value: Quantity)
    requires
        value.finite(),
        value.magnitude() > 0,
    ensures
        Dyadic::size_of(value).m != 0,
{
    let s = value.significand();
    if value.exponent() == 0 {
        crate::figures::lemma_bit_length(s);
        let n = crate::figures::bit_length(s);
        lemma2_to64();
        lemma2_to64_rest();
        if n > 53 {
            lemma_pow2_strictly_increases(52, (n - 1) as nat);
        }
        vstd::arithmetic::power2::lemma_pow2_adds(n, (53 - n) as nat);
        let p = pow2((53 - n) as nat);
        lemma_pow2_pos((53 - n) as nat);
        let high = pow2(n);
        assert(0 < s * p && s * p < high * p) by (nonlinear_arith)
            requires
                s > 0,
                p > 0,
                s < high,
        ;
    }
}

/// Thirty times the amount, without decimal places.
pub open spec fn thirtyfold(value: Quantity) -> Seq<char> {
    if value.finite() {
        let size = Dyadic::size_of(value).times(Dyadic::whole(30)).shown(0);
        if value.negative() {
            "-"@ + size
        } else {
            size
        }
    } else {
        fixed(value, 0)
    }
}

pub fn thirtyfold_text(value: Quantity) -> (out: String)
    ensures
        out@ == thirtyfold(value),
{
    if !value.is_finite() {
        return fixed_text(value, 0);
    }
    let size = show(multiply(size_of(value), divisor(30)), 0);
    if value.bits >= 0x8000_0000_0000_0000 {
        two("-", size.as_str())
    } else {
        size
    }
}

/// The nearest whole number up to a limit.
fn round_up_to(value: Dyadic, most: u64) -> (out: u64)
    requires
        value.well_formed(),
        value.e > -20000,
    ensures
        out == if value.rounded_up() < most {
            value.rounded_up()
        } else {
            most as nat
        },
{
    proof {
        lemma2_to64();
        lemma2_to64_rest();
    }
    if value.m == 0 {
        assert(value.rounded_up() == 0) by (nonlinear_arith)
            requires
                value.rounded_up() == (value.m as nat) * pow2(value.e as nat),
                value.m == 0,
        ;
        return 0;
    }
    if value.e >= 0 {
        if value.e > 11 {
            proof {
                if value.e > 12 {
                    lemma_pow2_strictly_increases(12, value.e as nat);
                }
                let p = pow2(value.e as nat);
                assert(value.m * p >= LOW * 4096) by (nonlinear_arith)
                    requires
                        value.m >= LOW,
                        p >= 4096,
                ;
            }
            return most;
        }
        let shift: u128 = power_of_two(value.e as u32);
        proof {
            if value.e < 11 {
                lemma_pow2_strictly_increases(value.e as nat, 11);
            }
            assert(value.m * shift <= HIGH * 2048) by (nonlinear_arith)
                requires
                    value.m < HIGH,
                    shift <= 2048,
            ;
        }
        let all: u128 = value.m as u128 * shift;
        return if all < most as u128 {
            all as u64
        } else {
            most
        };
    }
    let s: u32 = (-value.e) as u32;
    if s > 60 {
        proof {
            lemma_pow2_strictly_increases(54, s as nat);
            let p = pow2(s as nat);
            let m = value.m as nat;
            assert((2 * m + p) / (2 * p) == 0) by (nonlinear_arith)
                requires
                    2 * m < p,
            ;
        }
        return 0;
    }
    let part: u128 = power_of_two(s);
    proof {
        if s < 60 {
            lemma_pow2_strictly_increases(s as nat, 60);
        }
    }
    let all: u128 = (2 * value.m as u128 + part) / (2 * part);
    if all < most as u128 {
        all as u64
    } else {
        most
    }
}

/// How many of `width` places a share of one hundred fills.
pub open spec fn filled(hundredths: Dyadic, width: nat) -> nat {
    let places = hundredths.over(Dyadic::whole(100)).times(Dyadic::whole(width)).rounded_up();
    if places < width {
        places
    } else {
        width
    }
}

fn fill(hundredths: Dyadic, width: usize) -> (out: usize)
    requires
        hundredths.moderate(),
        -1200 <= hundredths.e <= 1200,
    ensures
        out == filled(hundredths, width as nat),
{
    let share = divide(hundredths, divisor(100));
    let places = multiply(share, whole_number(width as u64));
    round_up_to(places, width as u64) as usize
}

/// How many places of a meter a percentage fills: every positive one at least
/// one place.
pub open spec fn meter_fill(value: Quantity, width: nat) -> nat {
    if value.nan() || value.at_most(Quantity { bits: ZERO }) {
        0
    } else if (Quantity { bits: HUNDRED }).at_most(value) {
        width
    } else {
        let places = filled(Dyadic::size_of(value), width);
        if places == 0 && width > 0 {
            1
        } else {
            places
        }
    }
}

/// Full places, and light ones behind them.
pub open spec fn bar(full: nat, width: nat) -> Seq<char> {
    run_of('█', full) + run_of('░', (width - full) as nat)
}

pub open spec fn meter_view(value: Quantity, width: nat) -> Seq<char> {
    bar(meter_fill(value, width), width)
}

pub fn meter(value: Quantity, width: usize) -> (out: String)
    ensures
        out@ == meter_view(value, width as nat),
{
    let full: usize = if value.is_nan() || value.is_at_most(Quantity { bits: ZERO }) {
        0
    } else if (Quantity { bits: HUNDRED }).is_at_most(value) {
        width
    } else {
        let places: usize = fill(size_of(value), width);
        if places == 0 && width > 0 {
            1
        } else {
            places
        }
    };
    two(repeat_char('█', full).as_str(), repeat_char('░', width - full).as_str())
}

/// A part of a whole in hundredths, at most one hundred.
pub open spec fn hundredths_of(part: i64, whole: i64) -> Dyadic {
    let share = Dyadic::whole(part as nat).over(Dyadic::whole(whole as nat)).times(
        Dyadic::whole(100),
    );
    if part <= 0 || whole <= 0 {
        Dyadic::zero()
    } else if share.exceeds(Dyadic::whole(100)) {
        Dyadic::whole(100)
    } else {
        share
    }
}

fn is_larger(a: Dyadic, b: Dyadic) -> (yes: bool)
    ensures
        yes == a.exceeds(b),
{
    if a.m == 0 {
        false
    } else if b.m == 0 {
        true
    } else {
        a.e > b.e || (a.e == b.e && a.m > b.m)
    }
}

fn positive_count(value: i64) -> (out: Dyadic)
    requires
        value > 0,
    ensures
        out == Dyadic::whole(value as nat),
        out.moderate(),
        out.m != 0,
        -52 <= out.e <= 12,
{
    let out = whole_number(value as u64);
    proof {
        if out.m == 0 {
            let v = value as nat;
            let n = crate::figures::bit_length(v);
            crate::figures::lemma_bit_length(v);
            if n <= 53 {
                let p = pow2((53 - n) as nat);
                lemma_pow2_pos((53 - n) as nat);
                vstd::arithmetic::power2::lemma_pow2_adds(n, (53 - n) as nat);
                lemma2_to64();
                lemma2_to64_rest();
                let high = pow2(n);
                assert(0 < v * p && v * p < high * p) by (nonlinear_arith)
                    requires
                        v > 0,
                        p > 0,
                        v < high,
                ;
            } else {
                lemma2_to64();
                lemma2_to64_rest();
                let d = pow2((n - 53) as nat);
                lemma_pow2_pos((n - 53) as nat);
                vstd::arithmetic::power2::lemma_pow2_adds((n - 53) as nat, 52);
                vstd::arithmetic::power2::lemma_pow2_adds((n - 53) as nat, 53);
                assert(LOW * d == d * LOW && HIGH * d == d * HIGH) by (nonlinear_arith);
                crate::figures::lemma_nearest_bounds(v, d, LOW as nat, HIGH as nat);
            }
        }
    }
    out
}

pub(crate) fn hundredths_of_whole(part: i64, whole: i64) -> (out: Dyadic)
    ensures
        out == hundredths_of(part, whole),
        out.moderate(),
        -1200 <= out.e <= 1200,
{
    if part <= 0 || whole <= 0 {
        return Dyadic { m: 0, e: 0 };
    }
    let share = multiply(divide(positive_count(part), positive_count(whole)), divisor(100));
    let all = divisor(100);
    if is_larger(share, all) {
        all
    } else {
        share
    }
}

/// The usage bar of a row: its tokens as a share of the most tokens of any row.
pub open spec fn usage_fill(tokens: i64, most: i64, width: nat) -> nat {
    filled(hundredths_of(tokens, most), width)
}

pub fn fill_usage(tokens: i64, most: i64, width: usize) -> (out: usize)
    ensures
        out == usage_fill(tokens, most, width as nat),
        out <= width,
{
    fill(hundredths_of_whole(tokens, most), width)
}

/// The share of tokens that is priced, aligned under its heading.
pub open spec fn coverage(priced: i64, total: i64) -> Seq<char> {
    let share = Dyadic::whole(priced as nat).over(Dyadic::whole(total as nat));
    let covered = if priced <= 0 {
        Dyadic::zero()
    } else if share.exceeds(Dyadic::whole(1)) {
        Dyadic::whole(1)
    } else {
        share
    };
    if total > 0 {
        right_aligned(covered.times(Dyadic::whole(100)).shown(1), 5) + "%"@
    } else {
        "    —"@
    }
}

pub fn coverage_text(priced: i64, total: i64) -> (out: String)
    ensures
        out@ == coverage(priced, total),
{
    if total <= 0 {
        return "    —".to_owned();
    }
    let covered = if priced <= 0 {
        Dyadic { m: 0, e: 0 }
    } else {
        let share = divide(positive_count(priced), positive_count(total));
        let all = divisor(1);
        if is_larger(share, all) {
            all
        } else {
            share
        }
    };
    let shown = show(multiply(covered, divisor(100)), 1);
    two(align_right(shown.as_str(), 5).as_str(), "%")
}

/// The share of tokens that is priced.
pub open spec fn priced_share(priced: i64, total: i64) -> Seq<char> {
    if total > 0 {
        hundredths_of(priced, total).shown(1) + "%"@
    } else {
        "—"@
    }
}

pub fn priced_share_text(priced: i64, total: i64) -> (out: String)
    ensures
        out@ == priced_share(priced, total),
{
    if total <= 0 {
        return "—".to_owned();
    }
    two(show(hundredths_of_whole(priced, total), 1).as_str(), "%")
}

/// A meter is as wide as asked for: no percentage fills more than its width.
pub proof fn law_meter_keeps_its_width(value: Quantity, width: nat)
    ensures
        meter_fill(value, width) <= width,
        meter_view(value, width).len() == width,
{
}

/// A count of tokens is shown in thousands from a thousand on, in millions from
/// a million and in billions from a billion; none is shown below zero.
pub proof fn law_token_counts_have_their_unit(tokens: i64)
    ensures
        tokens <= 0 ==> token_count(tokens) == token_count(0),
        0 < tokens < 1_000 ==> token_count(tokens) == crate::text::decimal(tokens as nat),
        1_000 <= tokens < 1_000_000 ==> token_count(tokens).last() == 'K',
        1_000_000 <= tokens < 1_000_000_000 ==> token_count(tokens).last() == 'M',
        1_000_000_000 <= tokens ==> token_count(tokens).last() == 'B',
{
    reveal_strlit("K");
    reveal_strlit("M");
    reveal_strlit("B");
    if 0 < tokens < 1_000 {
        crate::figures::law_whole_numbers_show_themselves(tokens as nat);
    }
}

/// An amount is shown in dollars and cents where it is above zero, and as a dash
/// otherwise.
pub proof fn law_costs_are_shown_above_zero(value: Quantity)
    ensures
        !value.nan() && value.rank() > 0 ==> cost(value) == "$"@ + fixed(value, 2),
        value.nan() || value.rank() <= 0 ==> cost(value) == "—"@,
{
}

/// A meter is empty at zero and below and full at one hundred and above; between
/// them it shows at least one place of its width, and never more than all.
pub proof fn law_meter_fills_between_its_ends(value: Quantity, width: nat)
    ensures
        value.nan() || value.rank() <= 0 ==> meter_fill(value, width) == 0,
        !value.nan() && value.rank() >= 0x4059_0000_0000_0000 ==> meter_fill(value, width) == width,
        !value.nan() && value.rank() > 0 && width > 0 ==> 1 <= meter_fill(value, width) <= width,
{
}

/// A bar has its full places first and its empty ones behind them.
pub proof fn law_bars_fill_from_the_left(full: nat, width: nat, i: int)
    requires
        full <= width,
        0 <= i < width,
    ensures
        bar(full, width).len() == width,
        i < full ==> bar(full, width)[i] == '█',
        i >= full ==> bar(full, width)[i] == '░',
{
    lemma_run_of('█', full);
    lemma_run_of('░', (width - full) as nat);
}

proof fn lemma_run_of(c: char, n: nat)
    ensures
        run_of(c, n).len() == n,
        forall|i: int| 0 <= i < n ==> #[trigger] run_of(c, n)[i] == c,
{
}

/// A share needs a whole above zero; without one there is a dash.
pub proof fn law_shares_need_a_whole(part: i64, whole: i64)
    ensures
        whole <= 0 ==> priced_share(part, whole) == "—"@,
        whole <= 0 ==> coverage(part, whole) == "    —"@,
        whole > 0 && part <= 0 ==> priced_share(part, whole) == Dyadic::zero().shown(1) + "%"@,
{
}

} // verus!
