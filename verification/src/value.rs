//! Exact expected values.
//!
//! Every expected value that the evaluator meets is a multiple of
//! `1 / (2 * 300^k)` for some small `k`: a withdrawal is half an integer,
//! and one betting turn weighs the two outcomes by `100/300` and `197/300`.
//! A [`Value`] holds such a number as a signed 256-bit count of units
//! together with `k`.

use vstd::arithmetic::div_mod::{lemma_div_denominator, lemma_div_plus_one};
use vstd::prelude::*;

verus! {

/// `300^k`.
pub open spec fn pow300(k: nat) -> int
    decreases k,
{
    if k == 0 {
        1
    } else {
        300 * pow300((k - 1) as nat)
    }
}

/// Weight of the winning outcome of a bet, in parts of `SHARE_SCALE`.
pub const WIN_SHARE: u128 = 100;

/// Weight of the losing outcome of a bet, in parts of `SHARE_SCALE`.
pub const LOSS_SHARE: u128 = 197;

/// The whole of which `WIN_SHARE` and `LOSS_SHARE` are parts.
pub const SHARE_SCALE: u128 = 300;

/// Every power of 300 is positive.
pub proof fn lemma_pow300_positive(k: nat)
    ensures
        pow300(k) > 0,
    decreases k,
{
    if k > 0 {
        lemma_pow300_positive((k - 1) as nat);
    }
}

/// `x * 300^k`, by repeated multiplication.
pub open spec fn scaled(x: int, k: nat) -> int
    decreases k,
{
    if k == 0 {
        x
    } else {
        300 * scaled(x, (k - 1) as nat)
    }
}

/// `scaled(x, k)` is the product of `x` and `300^k`.
pub proof fn lemma_scaled_is_product(x: int, k: nat)
    ensures
        scaled(x, k) == x * pow300(k),
    decreases k,
{
    if k > 0 {
        lemma_scaled_is_product(x, (k - 1) as nat);
        let p = pow300((k - 1) as nat);
        assert(300 * (x * p) == x * (300 * p)) by (nonlinear_arith);
    }
}

/// Scaling keeps the order.
pub proof fn lemma_scaled_monotone(x: int, y: int, k: nat)
    requires
        x <= y,
    ensures
        scaled(x, k) <= scaled(y, k),
    decreases k,
{
    if k > 0 {
        lemma_scaled_monotone(x, y, (k - 1) as nat);
    }
}

/// Scaling distributes over sums and differences.
pub proof fn lemma_scaled_linear(x: int, y: int, k: nat)
    ensures
        scaled(x + y, k) == scaled(x, k) + scaled(y, k),
        scaled(x - y, k) == scaled(x, k) - scaled(y, k),
        scaled(-x, k) == -scaled(x, k),
        scaled(0, k) == 0,
    decreases k,
{
    if k > 0 {
        lemma_scaled_linear(x, y, (k - 1) as nat);
    }
}

/// Scaling twice is scaling by the sum of the exponents.
pub proof fn lemma_scaled_twice(x: int, i: nat, j: nat)
    ensures
        scaled(scaled(x, i), j) == scaled(x, i + j),
    decreases j,
{
    if j > 0 {
        lemma_scaled_twice(x, i, (j - 1) as nat);
    }
}

/// A number between `-c` and `c` stays between the scaled bounds.
pub proof fn lemma_scaled_within(x: int, c: int, k: nat)
    requires
        -c <= x <= c,
    ensures
        -scaled(c, k) <= scaled(x, k) <= scaled(c, k),
{
    lemma_scaled_monotone(x, c, k);
    lemma_scaled_monotone(-c, x, k);
    lemma_scaled_linear(c, 0, k);
}

/// The magnitude of a scaled number grows with the exponent.
pub proof fn lemma_scaled_grows(x: int, i: nat, j: nat)
    requires
        i <= j,
    ensures
        x >= 0 ==> 0 <= scaled(x, i) <= scaled(x, j),
        x <= 0 ==> scaled(x, j) <= scaled(x, i) <= 0,
    decreases j,
{
    lemma_scaled_linear(x, 0, i);
    if x >= 0 {
        lemma_scaled_monotone(0, x, i);
    }
    if x <= 0 {
        lemma_scaled_monotone(x, 0, i);
    }
    if i < j {
        lemma_scaled_grows(x, i, (j - 1) as nat);
    }
}

/// Bound on the magnitude of the unit counts that the arithmetic accepts:
/// `2^200`.
pub open spec fn working_limit() -> int {
    0x1_0000_0000_0000_0000_0000_0000_0000_0000_0000_0000_0000_0000_00int
}

/// The rational number `units / (2 * 300^depth)`, where `units` is
/// `hi * 2^128 + lo`.
#[derive(Debug, Clone, Copy, PartialEq, Eq, Structural)]
pub struct Value {
    /// Upper half of the unit count, carrying the sign.
    pub hi: i128,
    /// Lower half of the unit count.
    pub lo: u128,
    /// Exponent of 300 in the denominator.
    pub depth: u8,
}

impl Value {
    /// The numerator.
    pub open spec fn units(&self) -> int {
        self.hi * 0x1_0000_0000_0000_0000_0000_0000_0000_0000int + self.lo
    }

    /// The denominator.
    pub open spec fn denominator(&self) -> int {
        2 * pow300(self.depth as nat)
    }

    /// Whether the unit count lies within the working limit.
    pub open spec fn small(&self) -> bool {
        -working_limit() <= self.units() <= working_limit()
    }

    /// The magnitude of the numerator.
    pub open spec fn magnitude(&self) -> int {
        if self.units() < 0 {
            -self.units()
        } else {
            self.units()
        }
    }

    /// The number in hundredths, rounded to the nearest whole; a half is
    /// rounded away from zero.
    pub open spec fn hundredths(&self) -> int {
        let nearest = (100 * self.magnitude() + pow300(self.depth as nat)) / (2 * pow300(
            self.depth as nat,
        ));
        if self.units() < 0 {
            -nearest
        } else {
            nearest
        }
    }

    /// Tells whether the unit count lies within the working limit.
    pub fn is_small(&self) -> (small: bool)
        ensures
            small == self.small(),
    {
        self.hi >= -0x1_00_0000_0000_0000_0000 && (self.hi < 0x1_00_0000_0000_0000_0000 || (self.hi
            == 0x1_00_0000_0000_0000_0000 && self.lo == 0))
    }

    /// The absolute value.
    pub fn abs(&self) -> (v: Value)
        requires
            self.small(),
        ensures
            v.units() == self.magnitude(),
            v.depth == self.depth,
    {
        if self.hi >= 0 {
            *self
        } else if self.lo == 0 {
            Value { hi: -self.hi, lo: 0, depth: self.depth }
        } else {
            Value { hi: -(self.hi + 1), lo: u128::MAX - self.lo + 1, depth: self.depth }
        }
    }

    /// The unit count multiplied by 100.
    fn times100(&self) -> (v: Value)
        requires
            self.small(),
        ensures
            v.units() == 100 * self.units(),
            v.depth == self.depth,
    {
        let lower: u128 = self.lo % 0x1_0000_0000_0000_0000;
        let upper: u128 = self.lo / 0x1_0000_0000_0000_0000;
        let low: u128 = lower * 100;
        let high: u128 = upper * 100 + low / 0x1_0000_0000_0000_0000;
        let low_digit: u128 = low % 0x1_0000_0000_0000_0000;
        let high_digit: u128 = high % 0x1_0000_0000_0000_0000;
        let carry: u128 = high / 0x1_0000_0000_0000_0000;
        Value {
            hi: self.hi * 100 + carry as i128,
            lo: high_digit * 0x1_0000_0000_0000_0000 + low_digit,
            depth: self.depth,
        }
    }

    /// A number that is not negative, with its unit count divided by 300 and
    /// rounded down.
    fn div300(&self) -> (v: Value)
        requires
            self.units() >= 0,
        ensures
            v.units() == self.units() / 300,
            v.depth == self.depth,
    {
        let hi: u128 = self.hi as u128;
        let upper: u128 = self.lo / 0x1_0000_0000_0000_0000;
        let lower: u128 = self.lo % 0x1_0000_0000_0000_0000;
        let high_part: u128 = (hi % 300) * 0x1_0000_0000_0000_0000 + upper;
        let low_part: u128 = (high_part % 300) * 0x1_0000_0000_0000_0000 + lower;
        Value {
            hi: (hi / 300) as i128,
            lo: (high_part / 300) * 0x1_0000_0000_0000_0000 + low_part / 300,
            depth: self.depth,
        }
    }

    /// Computes the number in hundredths, rounded to the nearest whole, a
    /// half away from zero; `None` where that does not fit the result.
    pub fn to_hundredths(&self) -> (rounded: Option<i128>)
        requires
            self.small(),
        ensures
            rounded matches Some(nearest) ==> nearest == self.hundredths(),
            rounded is None <==> (self.hundredths() > i128::MAX || self.hundredths()
                < -i128::MAX),
    {
        let mut quotient = self.abs().times100();
        let ghost hundredfold: int = 100 * self.magnitude();
        let mut done: u8 = 0;
        while done < self.depth
            invariant
                done <= self.depth,
                hundredfold == 100 * self.magnitude(),
                quotient.units() == hundredfold / pow300(done as nat),
                quotient.units() >= 0,
            decreases self.depth - done,
        {
            proof {
                lemma_pow300_positive(done as nat);
                lemma_div_denominator(hundredfold, pow300(done as nat), 300);
                assert(pow300(done as nat) * 300 == pow300((done + 1) as nat));
            }
            quotient = quotient.div300();
            done = done + 1;
        }
        proof {
            let unit = pow300(self.depth as nat);
            lemma_pow300_positive(self.depth as nat);
            lemma_div_plus_one(hundredfold, unit);
            lemma_div_denominator(hundredfold + unit, unit, 2);
            assert(unit * 2 == 2 * unit);
            assert((hundredfold + unit) / (2 * unit) == (quotient.units() + 1) / 2);
        }
        if quotient.hi == 0 && quotient.lo < u128::MAX {
            let nearest: u128 = (quotient.lo + 1) / 2;
            if self.is_negative() {
                Some(-(nearest as i128))
            } else {
                Some(nearest as i128)
            }
        } else {
            None
        }
    }

    /// Zero, written with the given denominator exponent.
    pub fn zero(depth: u8) -> (v: Value)
        ensures
            v.units() == 0,
            v.depth == depth,
    {
        Value { hi: 0, lo: 0, depth }
    }

    /// Half of `amount`.
    pub fn half(amount: i64) -> (v: Value)
        ensures
            v.units() == amount,
            v.depth == 0,
    {
        if amount < 0 {
            let below: i64 = -(amount + 1);
            Value { hi: -1, lo: u128::MAX - below as u128, depth: 0 }
        } else {
            Value { hi: 0, lo: amount as u128, depth: 0 }
        }
    }

    /// The same number with the denominator exponent raised by one.
    pub fn times300(&self) -> (v: Value)
        requires
            self.small(),
            self.depth < u8::MAX,
        ensures
            v.units() == 300 * self.units(),
            v.depth == self.depth + 1,
    {
        let lower: u128 = self.lo % 0x1_0000_0000_0000_0000;
        let upper: u128 = self.lo / 0x1_0000_0000_0000_0000;
        let low: u128 = lower * SHARE_SCALE;
        let high: u128 = upper * SHARE_SCALE + low / 0x1_0000_0000_0000_0000;
        let low_digit: u128 = low % 0x1_0000_0000_0000_0000;
        let high_digit: u128 = high % 0x1_0000_0000_0000_0000;
        let carry: u128 = high / 0x1_0000_0000_0000_0000;
        Value {
            hi: self.hi * (SHARE_SCALE as i128) + carry as i128,
            lo: high_digit * 0x1_0000_0000_0000_0000 + low_digit,
            depth: self.depth + 1,
        }
    }

    /// The value of a bet whose winning outcome is worth `win` and whose
    /// losing outcome is worth `lose`: `win / 3 + lose * 197 / 300`.
    pub fn blend(win: &Value, lose: &Value) -> (v: Value)
        requires
            win.small(),
            lose.small(),
            win.depth == lose.depth,
            win.depth < u8::MAX,
        ensures
            v.units() == WIN_SHARE * win.units() + LOSS_SHARE * lose.units(),
            v.depth == win.depth + 1,
    {
        let win_low: u128 = win.lo % 0x1_0000_0000_0000_0000;
        let win_high: u128 = win.lo / 0x1_0000_0000_0000_0000;
        let lose_low: u128 = lose.lo % 0x1_0000_0000_0000_0000;
        let lose_high: u128 = lose.lo / 0x1_0000_0000_0000_0000;
        let low: u128 = win_low * WIN_SHARE + lose_low * LOSS_SHARE;
        let high: u128 = win_high * WIN_SHARE + lose_high * LOSS_SHARE + low
            / 0x1_0000_0000_0000_0000;
        let low_digit: u128 = low % 0x1_0000_0000_0000_0000;
        let high_digit: u128 = high % 0x1_0000_0000_0000_0000;
        let carry: u128 = high / 0x1_0000_0000_0000_0000;
        Value {
            hi: win.hi * (WIN_SHARE as i128) + lose.hi * (LOSS_SHARE as i128) + carry as i128,
            lo: high_digit * 0x1_0000_0000_0000_0000 + low_digit,
            depth: win.depth + 1,
        }
    }

    /// The sum of two values with the same denominator.
    pub fn plus(&self, other: &Value) -> (v: Value)
        requires
            self.small(),
            other.small(),
        ensures
            v.units() == self.units() + other.units(),
            v.depth == self.depth,
    {
        if self.lo > u128::MAX - other.lo {
            Value {
                hi: self.hi + other.hi + 1,
                lo: self.lo - (u128::MAX - other.lo) - 1,
                depth: self.depth,
            }
        } else {
            Value { hi: self.hi + other.hi, lo: self.lo + other.lo, depth: self.depth }
        }
    }

    /// The same number with the denominator exponent raised by `levels`.
    pub fn rescaled(&self, levels: u8) -> (v: Value)
        requires
            -working_limit() <= scaled(self.units(), levels as nat) <= working_limit(),
            self.depth + levels <= u8::MAX,
        ensures
            v.units() == scaled(self.units(), levels as nat),
            v.units() == self.units() * pow300(levels as nat),
            v.depth == self.depth + levels,
    {
        proof {
            lemma_scaled_is_product(self.units(), levels as nat);
        }
        let mut v: Value = *self;
        let mut done: u8 = 0;
        while done < levels
            invariant
                done <= levels,
                v.units() == scaled(self.units(), done as nat),
                v.depth == self.depth + done,
                self.depth + levels <= u8::MAX,
                -working_limit() <= scaled(self.units(), levels as nat) <= working_limit(),
            decreases levels - done,
        {
            proof {
                lemma_scaled_grows(self.units(), done as nat, levels as nat);
            }
            v = v.times300();
            done = done + 1;
        }
        v
    }

    /// Whether this unit count is strictly greater than the other.
    pub fn exceeds(&self, other: &Value) -> (greater: bool)
        ensures
            greater == (self.units() > other.units()),
    {
        self.hi > other.hi || (self.hi == other.hi && self.lo > other.lo)
    }

    /// Whether the value is below zero.
    pub fn is_negative(&self) -> (negative: bool)
        ensures
            negative == (self.units() < 0),
    {
        self.hi < 0
    }

    /// Whether the value is zero.
    pub fn is_zero(&self) -> (zero: bool)
        ensures
            zero == (self.units() == 0),
    {
        self.hi == 0 && self.lo == 0
    }
}

} // verus!
