//! Exact integer arithmetic that rounds as binary floating point does.
//!
//! Positions are stored as single-precision numbers and the size of an overlay is fitted in
//! double precision, so pixels depend on how these formats round. The functions here work on
//! the numbers' integer mantissas and exponents.

use vstd::arithmetic::power2::*;
use vstd::prelude::*;
use vstd::std_specs::cmp::PartialEqSpec;

verus! {

/// A non-negative number `mantissa * 2^exponent`.
#[derive(Debug, Clone, Copy, PartialEq, Eq, Structural)]
pub struct Dyadic {
    pub mantissa: u64,
    pub exponent: i64,
}

/// A floating-point format.
#[derive(Debug, Clone, Copy, PartialEq, Eq, Structural)]
pub enum Format {
    Single,
    Double,
}

impl Format {
    /// The bits of a mantissa.
    pub open spec fn precision(self) -> nat {
        match self {
            Format::Single => 24,
            Format::Double => 53,
        }
    }

    /// The exponent of the smallest numbers.
    pub open spec fn least_exponent(self) -> int {
        match self {
            Format::Single => -149,
            Format::Double => -1074,
        }
    }

    /// The number that a mantissa stays below before it is rounded.
    pub open spec fn mantissa_bound(self) -> nat {
        pow2(self.precision())
    }
}

/// The least integer that is no smaller than a number.
pub open spec fn integer_ceiling(a: (nat, int)) -> nat {
    if a.1 >= 0 {
        a.0 * pow2(a.1 as nat)
    } else {
        ((a.0 + pow2((-a.1) as nat) - 1) / pow2((-a.1) as nat) as int) as nat
    }
}

/// The integer nearest to `n / d`, the even one of two that are equally near.
pub open spec fn nearest_even(n: nat, d: nat) -> nat {
    let quotient = n / d;
    let remainder = n % d;
    if 2 * remainder < d || (2 * remainder == d && quotient % 2 == 0) {
        quotient
    } else {
        quotient + 1
    }
}

/// `n / d * 2^e` rounded to a format: scaled until the quotient has as many bits as the format
/// keeps, or its smallest exponent is reached, and then rounded to the nearest integer.
pub open spec fn rounded(format: Format, n: nat, d: nat, e: int) -> (nat, int)
    decreases
            (if n >= format.mantissa_bound() * d {
                1int
            } else {
                0int
            }),
            (if n >= format.mantissa_bound() * d {
                n - format.mantissa_bound() * d
            } else {
                e - format.least_exponent()
            }),
    when d > 0
{
    proof {
        lemma_pow2_pos(format.precision());
        let bound = format.mantissa_bound();
        assert(bound * (2 * d) == bound * d + bound * d) by (nonlinear_arith);
        assert(bound * d > 0) by (nonlinear_arith)
            requires
                bound > 0,
                d > 0,
        ;
    }
    if n >= format.mantissa_bound() * d {
        rounded(format, n, 2 * d, e + 1)
    } else if 2 * n < format.mantissa_bound() * d && e > format.least_exponent() {
        rounded(format, 2 * n, d, e - 1)
    } else {
        (nearest_even(n, d), e)
    }
}

/// A dyadic number as a pair of a mantissa and an exponent.
impl View for Dyadic {
    type V = (nat, int);

    open spec fn view(&self) -> (nat, int) {
        (self.mantissa as nat, self.exponent as int)
    }
}

fn mantissa_bound(format: Format) -> (bound: u128)
    ensures
        bound == format.mantissa_bound(),
        0x100_0000 <= bound <= 0x20_0000_0000_0000,
{
    proof {
        lemma2_to64();
        lemma2_to64_rest();
    }
    match format {
        Format::Single => 0x100_0000,
        Format::Double => 0x20_0000_0000_0000,
    }
}

fn least_exponent(format: Format) -> (exponent: i64)
    ensures
        exponent == format.least_exponent(),
        -1074 <= exponent <= -149,
{
    match format {
        Format::Single => -149,
        Format::Double => -1074,
    }
}

/// `n / d * 2^e` rounded to a format.
pub fn round_ratio(format: Format, n: u128, d: u128, e: i64) -> (result: Dyadic)
    requires
        n <= u64::MAX,
        0 < d <= u64::MAX,
        -0x4000_0000 <= e <= 0x4000_0000,
    ensures
        result@ == rounded(format, n as nat, d as nat, e as int),
        result.mantissa <= format.mantissa_bound(),
        e <= result.exponent <= e + 64 || format.least_exponent() <= result.exponent <= e + 64,
        result.exponent > e ==> n >= format.mantissa_bound() * (d * pow2(
            (result.exponent - e - 1) as nat,
        )),
        result.exponent < e ==> n * pow2((e - result.exponent) as nat) < format.mantissa_bound()
            * d,
{
    let bound: u128 = mantissa_bound(format);
    let least: i64 = least_exponent(format);
    let mut numerator: u128 = n;
    let mut denominator: u128 = d;
    let mut exponent: i64 = e;
    let ghost mut steps: nat = 0;
    proof {
        lemma2_to64();
    }
    assert(bound * denominator <= 0x20_0000_0000_0000 * 0xffff_ffff_ffff_ffff) by (nonlinear_arith)
        requires
            bound <= 0x20_0000_0000_0000,
            denominator <= 0xffff_ffff_ffff_ffff,
    ;
    while numerator >= bound * denominator
        invariant
            bound == format.mantissa_bound(),
            0x100_0000 <= bound <= 0x20_0000_0000_0000,
            least == format.least_exponent(),
            numerator <= u64::MAX,
            0 < denominator <= u64::MAX,
            bound * denominator <= 0x20_0000_0000_0000 * 0xffff_ffff_ffff_ffff,
            -0x4000_0000 <= e <= 0x4000_0000,
            exponent == e + steps,
            steps <= 64,
            denominator == d * pow2(steps),
            d > 0,
            numerator == n,
            steps > 0 ==> n >= bound * (d * pow2((steps - 1) as nat)),
            pow2(64) == 0x1_0000_0000_0000_0000,
            rounded(format, n as nat, d as nat, e as int) == rounded(
                format,
                numerator as nat,
                denominator as nat,
                exponent as int,
            ),
        decreases u64::MAX - denominator,
    {
        assert(bound * (2 * denominator) == 2 * (bound * denominator)) by (nonlinear_arith);
        assert(0x100_0000 * denominator <= bound * denominator) by (nonlinear_arith)
            requires
                bound >= 0x100_0000,
        ;
        proof {
            lemma_pow2_unfold(steps + 1);
            let power = pow2(steps);
            assert(d * power >= power) by (nonlinear_arith)
                requires
                    d > 0,
            ;
            if steps >= 64 {
                if steps > 64 {
                    lemma_pow2_strictly_increases(64, steps);
                }
                assert(false);
            }
            assert(d * (2 * power) == 2 * (d * power)) by (nonlinear_arith);
            steps = steps + 1;
        }
        denominator = 2 * denominator;
        exponent = exponent + 1;
    }
    let ghost mut lowered: nat = 0;
    assert(n * pow2(0) == n) by {
        lemma2_to64();
    }
    while 2 * numerator < bound * denominator && exponent > least
        invariant
            exponent == e + steps - lowered,
            lowered > 0 ==> steps == 0,
            numerator == n * pow2(lowered),
            denominator == d * pow2(steps),
            steps > 0 ==> n >= bound * (d * pow2((steps - 1) as nat)),
            lowered == 0 ==> numerator == n,
            bound == format.mantissa_bound(),
            0x100_0000 <= bound <= 0x20_0000_0000_0000,
            least == format.least_exponent(),
            0 < denominator <= u64::MAX,
            bound * denominator <= 0x20_0000_0000_0000 * 0xffff_ffff_ffff_ffff,
            numerator < bound * denominator,
            -0x4000_0000 <= e <= 0x4000_0000,
            e <= exponent <= e + 64 || least <= exponent <= e + 64,
            rounded(format, n as nat, d as nat, e as int) == rounded(
                format,
                numerator as nat,
                denominator as nat,
                exponent as int,
            ),
        decreases exponent - least,
    {
        proof {
            if steps > 0 {
                let power = pow2((steps - 1) as nat);
                lemma_pow2_unfold(steps);
                assert(n * pow2(lowered) == n);
                assert(bound * (d * (2 * power)) == 2 * (bound * (d * power))) by (nonlinear_arith);
                assert(false);
            }
            lemma_pow2_unfold(lowered + 1);
            let power = pow2(lowered);
            assert(n * (2 * power) == 2 * (n * power)) by (nonlinear_arith);
            lowered = lowered + 1;
        }
        numerator = 2 * numerator;
        exponent = exponent - 1;
    }
    let quotient: u128 = numerator / denominator;
    let remainder: u128 = numerator % denominator;
    assert(quotient < bound) by (nonlinear_arith)
        requires
            quotient == numerator / denominator,
            numerator < bound * denominator,
            denominator > 0,
    ;
    let mantissa: u128 = if 2 * remainder < denominator || (2 * remainder == denominator && quotient
        % 2 == 0) {
        quotient
    } else {
        quotient + 1
    };
    Dyadic { mantissa: mantissa as u64, exponent }
}

/// Whether one dyadic number is no greater than another.
pub open spec fn at_most(a: (nat, int), b: (nat, int)) -> bool {
    if a.1 <= b.1 {
        a.0 <= b.0 * pow2((b.1 - a.1) as nat)
    } else {
        a.0 * pow2((a.1 - b.1) as nat) <= b.0
    }
}

/// The greater of two dyadic numbers.
pub open spec fn greater(a: (nat, int), b: (nat, int)) -> (nat, int) {
    if at_most(a, b) {
        b
    } else {
        a
    }
}

/// `a - b`, where `b` is smaller, rounded to single precision.
pub open spec fn difference(a: (nat, int), b: (nat, int)) -> (nat, int) {
    if a.1 >= b.1 {
        rounded(Format::Single, (a.0 * pow2((a.1 - b.1) as nat) - b.0) as nat, 1, b.1)
    } else {
        rounded(Format::Single, (a.0 - b.0 * pow2((b.1 - a.1) as nat)) as nat, 1, a.1)
    }
}

/// The integer nearest to a dyadic number, the greater one of two that are equally near.
pub open spec fn nearest_integer(a: (nat, int)) -> nat {
    if a.1 >= 0 {
        a.0 * pow2(a.1 as nat)
    } else {
        (2 * a.0 + pow2((-a.1) as nat)) / (2 * pow2((-a.1) as nat))
    }
}

/// `2^e`, or the greatest `u128` that is sure to exceed every `u64`.
fn power_of_two(e: i64) -> (power: u128)
    requires
        0 <= e,
    ensures
        e <= 64 ==> power == pow2(e as nat),
        e > 64 ==> u64::MAX < power <= pow2(e as nat),
        power <= 0x1_0000_0000_0000_0000,
        power > 0,
{
    proof {
        lemma2_to64();
        if e > 64 {
            lemma_pow2_strictly_increases(64, e as nat);
        }
    }
    let mut power: u128 = 1;
    let mut i: i64 = 0;
    while i < e && i < 64
        invariant
            0 <= i <= e,
            i <= 64,
            power == pow2(i as nat),
            pow2(64) == 0x1_0000_0000_0000_0000,
        decreases 64 - i,
    {
        proof {
            lemma_pow2_unfold((i + 1) as nat);
            if i + 1 < 64 {
                lemma_pow2_strictly_increases((i + 1) as nat, 64);
            }
        }
        power = 2 * power;
        i += 1;
    }
    proof {
        if i < 64 {
            lemma_pow2_strictly_increases(i as nat, 64);
        }
        lemma_pow2_pos(i as nat);
    }
    power
}

/// `mantissa * 2^gap` where that is a `u64`, and something greater than every `u64` where it
/// is not.
fn scaled(mantissa: u64, gap: i64) -> (result: u128)
    requires
        0 <= gap,
    ensures
        result <= u64::MAX || mantissa * pow2(gap as nat) <= u64::MAX ==> result == mantissa * pow2(
            gap as nat,
        ),
{
    let power: u128 = power_of_two(gap);
    assert(mantissa * power <= 0xffff_ffff_ffff_ffff * 0x1_0000_0000_0000_0000) by (nonlinear_arith)
        requires
            mantissa <= 0xffff_ffff_ffff_ffff,
            power <= 0x1_0000_0000_0000_0000,
    ;
    proof {
        if mantissa == 0 {
            assert(mantissa * power == 0) by (nonlinear_arith)
                requires
                    mantissa == 0,
            ;
            assert(mantissa * pow2(gap as nat) == 0) by (nonlinear_arith)
                requires
                    mantissa == 0,
            ;
        } else {
            assert(mantissa * power >= power) by (nonlinear_arith)
                requires
                    mantissa > 0,
            ;
            assert(mantissa * pow2(gap as nat) >= pow2(gap as nat)) by (nonlinear_arith)
                requires
                    mantissa > 0,
            ;
        }
    }
    mantissa as u128 * power
}

proof fn lemma_powers_grow(small: nat, large: nat)
    requires
        small <= large,
    ensures
        pow2(small) <= pow2(large),
{
    if small < large {
        lemma_pow2_strictly_increases(small, large);
    }
}

proof fn lemma_exponent_below(e: nat, bound: nat)
    requires
        pow2(e) < pow2(bound),
    ensures
        e < bound,
{
    if e > bound {
        lemma_pow2_strictly_increases(bound, e);
    }
}

/// A positive integer does not round to zero.
proof fn lemma_rounded_positive(n: nat)
    requires
        n > 0,
    ensures
        rounded(Format::Single, n, 1, 0).0 > 0,
{
    lemma_rounded_positive_from(n, 1, 0);
}

proof fn lemma_rounded_positive_from(n: nat, d: nat, e: int)
    requires
        n > 0,
        d > 0,
        n >= d,
    ensures
        rounded(Format::Single, n, d, e).0 > 0,
    decreases
            (if n >= Format::Single.mantissa_bound() * d {
                1int
            } else {
                0int
            }),
            (if n >= Format::Single.mantissa_bound() * d {
                n - Format::Single.mantissa_bound() * d
            } else {
                e - Format::Single.least_exponent()
            }),
{
    let bound = Format::Single.mantissa_bound();
    lemma2_to64();
    assert(bound * (2 * d) == 2 * (bound * d)) by (nonlinear_arith);
    assert(bound * d >= 2 * d) by (nonlinear_arith)
        requires
            bound >= 2,
    ;
    if n >= bound * d {
        lemma_rounded_positive_from(n, 2 * d, e + 1);
    } else if 2 * n < bound * d && e > Format::Single.least_exponent() {
        lemma_rounded_positive_from(2 * n, d, e - 1);
    } else {
        assert(n / d >= 1) by (nonlinear_arith)
            requires
                n >= d,
                d > 0,
        ;
    }
}

impl Dyadic {
    /// The number one.
    pub fn one() -> (result: Self)
        ensures
            result@ == (1nat, 0int),
    {
        Dyadic { mantissa: 1, exponent: 0 }
    }

    /// The integer `n` rounded to a format.
    pub fn of_integer(format: Format, n: u64) -> (result: Self)
        ensures
            result@ == rounded(format, n as nat, 1, 0),
            result.mantissa <= format.mantissa_bound(),
            -1074 <= result.exponent <= 64,
            n <= u32::MAX ==> result.exponent <= 8,
            n > 0 && format == Format::Single ==> result.exponent >= -23 && result.mantissa > 0,
    {
        let result = round_ratio(format, n as u128, 1, 0);
        proof {
            lemma2_to64();
            lemma2_to64_rest();
            if n <= u32::MAX && result.exponent > 0 {
                let power = pow2((result.exponent - 1) as nat);
                let bound = format.mantissa_bound();
                assert(0x100_0000 * power <= bound * (1 * power)) by (nonlinear_arith)
                    requires
                        bound >= 0x100_0000,
                ;
                lemma_exponent_below((result.exponent - 1) as nat, 8);
            }
            if n > 0 && format == Format::Single {
                if result.exponent < 0 {
                    let power = pow2((-result.exponent) as nat);
                    assert(power <= n * power) by (nonlinear_arith)
                        requires
                            n > 0,
                    ;
                    lemma_exponent_below((-result.exponent) as nat, 24);
                }
                lemma_rounded_positive(n as nat);
            }
        }
        result
    }

    /// Whether the exponent is one that the operations here accept.
    pub open spec fn moderate(self) -> bool {
        -0x8000_0000 <= self.exponent <= 0x8000_0000
    }

    /// Whether the number is no greater than `other`.
    pub fn is_at_most(&self, other: Dyadic) -> (result: bool)
        requires
            self.moderate(),
            other.moderate(),
        ensures
            result == at_most(self@, other@),
    {
        if self.exponent <= other.exponent {
            let right: u128 = scaled(other.mantissa, other.exponent - self.exponent);
            self.mantissa as u128 <= right
        } else {
            let left: u128 = scaled(self.mantissa, self.exponent - other.exponent);
            left <= other.mantissa as u128
        }
    }

    /// The greater of the two numbers.
    pub fn greater(&self, other: Dyadic) -> (result: Self)
        requires
            self.moderate(),
            other.moderate(),
        ensures
            result@ == greater(self@, other@),
            result == *self || result == other,
    {
        if self.is_at_most(other) {
            other
        } else {
            *self
        }
    }

    /// The number without `other`, which is smaller, rounded to single precision.
    pub fn minus(&self, other: Dyadic) -> (result: Self)
        requires
            !at_most(self@, other@),
            self.mantissa <= 0x100_0000,
            self.exponent <= 10,
            self.moderate(),
            0 < other.mantissa <= 0x100_0000,
            -24 <= other.exponent <= 10,
        ensures
            result@ == difference(self@, other@),
            result.moderate(),
    {
        proof {
            lemma2_to64();
            lemma2_to64_rest();
        }
        if self.exponent >= other.exponent {
            let gap: i64 = self.exponent - other.exponent;
            proof {
                if gap < 34 {
                    lemma_pow2_strictly_increases(gap as nat, 34);
                }
                let power = pow2(gap as nat);
                let mantissa = self.mantissa;
                assert(mantissa * power <= 0x100_0000 * 0x4_0000_0000) by (nonlinear_arith)
                    requires
                        mantissa <= 0x100_0000,
                        power <= 0x4_0000_0000,
                ;
            }
            proof {
                if gap == 0 {
                    assert(self.mantissa * pow2(0) == self.mantissa);
                    assert(other.mantissa * pow2(0) == other.mantissa);
                }
            }
            let left: u128 = scaled(self.mantissa, gap);
            round_ratio(Format::Single, left - other.mantissa as u128, 1, other.exponent)
        } else {
            let gap: i64 = other.exponent - self.exponent;
            proof {
                let power = pow2(gap as nat);
                let mantissa = other.mantissa;
                assert(power <= mantissa * power) by (nonlinear_arith)
                    requires
                        mantissa > 0,
                ;
                lemma_exponent_below(gap as nat, 25);
            }
            let right: u128 = scaled(other.mantissa, gap);
            round_ratio(Format::Single, self.mantissa as u128 - right, 1, self.exponent)
        }
    }

    /// The nearest integer, or the greatest `u64` where that is greater still.
    pub fn nearest_integer(&self) -> (result: u64)
        requires
            self.moderate(),
        ensures
            result == if nearest_integer(self@) <= u64::MAX {
                nearest_integer(self@)
            } else {
                u64::MAX as nat
            },
    {
        if self.exponent >= 0 {
            let value: u128 = scaled(self.mantissa, self.exponent);
            if value <= u64::MAX as u128 {
                value as u64
            } else {
                u64::MAX
            }
        } else {
            let gap: i64 = -self.exponent;
            if gap > 64 {
                proof {
                    lemma2_to64();
                    lemma_pow2_unfold(65);
                    if gap > 65 {
                        lemma_pow2_strictly_increases(65, gap as nat);
                    }
                    lemma_small_quotient(
                        2 * self.mantissa as nat + pow2(gap as nat),
                        2 * pow2(gap as nat),
                    );
                }
                return 0;
            }
            let power: u128 = power_of_two(gap);
            let doubled: u128 = 2 * self.mantissa as u128 + power;
            proof {
                assert(doubled < 0x1_0000_0000_0000_0000 * (2 * power));
                lemma_quotient_bound(doubled as nat, (2 * power) as nat, 0xffff_ffff_ffff_ffff);
            }
            (doubled / (2 * power)) as u64
        }
    }
}

proof fn lemma_small_quotient(n: nat, d: nat)
    requires
        n < d,
    ensures
        n / d == 0,
{
    assert(n / d == 0) by (nonlinear_arith)
        requires
            n < d,
    ;
}

proof fn lemma_quotient_bound(n: nat, d: nat, bound: nat)
    requires
        d > 0,
        n < (bound + 1) * d,
    ensures
        n / d <= bound,
{
    assert(n / d <= bound) by (nonlinear_arith)
        requires
            d > 0,
            n < (bound + 1) * d,
    ;
}

/// `n / d * 2^e` written with the exponent `target`: the numerator or the denominator takes up
/// the difference.
pub open spec fn numerator_at(n: nat, e: int, target: int) -> nat {
    if target < e {
        n * pow2((e - target) as nat)
    } else {
        n
    }
}

/// See `numerator_at`.
pub open spec fn denominator_at(d: nat, e: int, target: int) -> nat {
    if target > e {
        d * pow2((target - e) as nat)
    } else {
        d
    }
}

/// What rounding gives, without the scaling on the way: the quotient at the resulting exponent,
/// rounded to the nearest integer, has no more bits than the format keeps, and no fewer unless
/// the exponent is the smallest.
pub(crate) proof fn lemma_rounded(format: Format, n: nat, d: nat, e: int)
    requires
        d > 0,
    ensures
        ({
            let (m, target) = rounded(format, n, d, e);
            let numerator = numerator_at(n, e, target);
            let denominator = denominator_at(d, e, target);
            &&& m == nearest_even(numerator, denominator)
            &&& denominator > 0
            &&& numerator < format.mantissa_bound() * denominator
            &&& target > format.least_exponent() ==> 2 * numerator >= format.mantissa_bound()
                * denominator
            &&& target > e ==> n >= format.mantissa_bound() * denominator_at(d, e, target - 1)
        }),
    decreases
            (if n >= format.mantissa_bound() * d {
                1int
            } else {
                0int
            }),
            (if n >= format.mantissa_bound() * d {
                n - format.mantissa_bound() * d
            } else {
                e - format.least_exponent()
            }),
{
    let bound = format.mantissa_bound();
    lemma2_to64();
    lemma2_to64_rest();
    assert(bound * (2 * d) == 2 * (bound * d)) by (nonlinear_arith);
    assert(bound * d >= 2 * d) by (nonlinear_arith)
        requires
            bound >= 2,
    ;
    let (m, target) = rounded(format, n, d, e);
    if n >= bound * d {
        lemma_rounded(format, n, 2 * d, e + 1);
        lemma_raised(format, n, 2 * d, e + 1);
        lemma_pow2_unfold((target - e) as nat);
        let power = pow2((target - e - 1) as nat);
        assert((2 * d) * power == d * (2 * power)) by (nonlinear_arith);
        if target > e + 1 {
            lemma_pow2_unfold((target - 1 - e) as nat);
            let less = pow2((target - e - 2) as nat);
            assert((2 * d) * less == d * (2 * less)) by (nonlinear_arith);
            if target == e + 2 {
                assert((2 * d) * less == 2 * d) by (nonlinear_arith)
                    requires
                        less == 1,
                ;
            }
            assert(denominator_at(2 * d, e + 1, target - 1) == denominator_at(d, e, target - 1));
        } else {
            assert(pow2(1) == 2);
            assert((2 * d) * power == 2 * d) by (nonlinear_arith)
                requires
                    power == 1,
            ;
        }
        assert(denominator_at(2 * d, e + 1, target) == denominator_at(d, e, target));
    } else if 2 * n < bound * d && e > format.least_exponent() {
        lemma_rounded(format, 2 * n, d, e - 1);
        lemma_lowered(format, 2 * n, d, e - 1);
        lemma_pow2_unfold((e - target) as nat);
        let power = pow2((e - target - 1) as nat);
        assert((2 * n) * power == n * (2 * power)) by (nonlinear_arith);
        if target == e - 1 {
            assert((2 * n) * power == 2 * n) by (nonlinear_arith)
                requires
                    power == 1,
            ;
        }
    }
}

/// A quotient that is not too small is never scaled up.
proof fn lemma_raised(format: Format, n: nat, d: nat, e: int)
    requires
        d > 0,
        2 * n >= format.mantissa_bound() * d,
    ensures
        rounded(format, n, d, e).1 >= e,
    decreases
            (if n >= format.mantissa_bound() * d {
                1int
            } else {
                0int
            }),
            (if n >= format.mantissa_bound() * d {
                n - format.mantissa_bound() * d
            } else {
                0
            }),
{
    let bound = format.mantissa_bound();
    lemma2_to64();
    lemma2_to64_rest();
    assert(bound * (2 * d) == 2 * (bound * d)) by (nonlinear_arith);
    assert(bound * d > 0) by (nonlinear_arith)
        requires
            bound > 0,
            d > 0,
    ;
    if n >= bound * d {
        lemma_raised(format, n, 2 * d, e + 1);
    }
}

/// A quotient that is not too great is never scaled down.
proof fn lemma_lowered(format: Format, n: nat, d: nat, e: int)
    requires
        d > 0,
        n < format.mantissa_bound() * d,
    ensures
        rounded(format, n, d, e).1 <= e,
    decreases e - format.least_exponent(),
{
    if 2 * n < format.mantissa_bound() * d && e > format.least_exponent() {
        lemma_lowered(format, 2 * n, d, e - 1);
    }
}

/// A dyadic number as a multiple of `2^-scale`.
pub open spec fn at_scale(a: (nat, int), scale: nat) -> nat {
    a.0 * pow2((a.1 + scale) as nat)
}

/// Comparing dyadic numbers is comparing them as multiples of the same unit.
pub(crate) proof fn lemma_at_most_at_scale(a: (nat, int), b: (nat, int), scale: nat)
    requires
        a.1 + scale >= 0,
        b.1 + scale >= 0,
    ensures
        at_most(a, b) <==> at_scale(a, scale) <= at_scale(b, scale),
{
    let x = a.0;
    let y = b.0;
    if a.1 <= b.1 {
        let unit = pow2((a.1 + scale) as nat);
        let gap = pow2((b.1 - a.1) as nat);
        lemma_pow2_pos((a.1 + scale) as nat);
        lemma_pow2_adds((b.1 - a.1) as nat, (a.1 + scale) as nat);
        assert(y * (gap * unit) == (y * gap) * unit) by (nonlinear_arith);
        let right = y * gap;
        assert(x <= right <==> x * unit <= right * unit) by (nonlinear_arith)
            requires
                unit > 0,
        ;
    } else {
        let unit = pow2((b.1 + scale) as nat);
        let gap = pow2((a.1 - b.1) as nat);
        lemma_pow2_pos((b.1 + scale) as nat);
        lemma_pow2_adds((a.1 - b.1) as nat, (b.1 + scale) as nat);
        assert(x * (gap * unit) == (x * gap) * unit) by (nonlinear_arith);
        let left = x * gap;
        assert(left <= y <==> left * unit <= y * unit) by (nonlinear_arith)
            requires
                unit > 0,
        ;
    }
}

/// The nearest integer is off by a half at most.
proof fn lemma_nearest_even(n: nat, d: nat)
    requires
        d > 0,
    ensures
        2 * (d * nearest_even(n, d)) <= 2 * n + d,
        2 * (d * nearest_even(n, d)) + d >= 2 * n,
{
    let quotient = n / d;
    let remainder = n % d;
    vstd::arithmetic::div_mod::lemma_fundamental_div_mod(n as int, d as int);
    assert(d * (quotient + 1) == d * quotient + d) by (nonlinear_arith);
}

/// Rounding changes a number by a part in `2^precision` at most, unless it is tiny.
pub(crate) proof fn lemma_relative_error(format: Format, n: nat, d: nat, e: int, scale: nat)
    requires
        d > 0,
        e + scale >= 0,
        rounded(format, n, d, e).1 + scale >= 0,
        rounded(format, n, d, e).1 > format.least_exponent(),
    ensures
        ({
            let bound = format.mantissa_bound();
            let result = at_scale(rounded(format, n, d, e), scale);
            let exact = n * pow2((e + scale) as nat);
            &&& bound * (d * result) <= (bound + 1) * exact
            &&& bound * (d * result) >= (bound - 1) * exact
        }),
{
    let bound = format.mantissa_bound();
    let (m, target) = rounded(format, n, d, e);
    let numerator = numerator_at(n, e, target);
    let denominator = denominator_at(d, e, target);
    lemma_rounded(format, n, d, e);
    lemma_nearest_even(numerator, denominator);
    let product = denominator * m;
    assert(bound * product <= (bound + 1) * numerator && bound * product >= (bound - 1) * numerator)
        by (nonlinear_arith)
        requires
            2 * product <= 2 * numerator + denominator,
            2 * product + denominator >= 2 * numerator,
            2 * numerator >= bound * denominator,
            bound >= 0,
    ;
    if target >= e {
        let unit = pow2((e + scale) as nat);
        lemma_pow2_adds((target - e) as nat, (e + scale) as nat);
        let gap = pow2((target - e) as nat);
        if target == e {
            lemma2_to64();
            assert(d * gap == d) by (nonlinear_arith)
                requires
                    gap == 1,
            ;
        }
        assert(d * (m * (gap * unit)) == ((d * gap) * m) * unit) by (nonlinear_arith);
        lemma_scaled_bounds(bound, product, numerator, unit);
    } else {
        let unit = pow2((target + scale) as nat);
        lemma_pow2_adds((e - target) as nat, (target + scale) as nat);
        let gap = pow2((e - target) as nat);
        assert(d * (m * unit) == (d * m) * unit) by (nonlinear_arith);
        assert(n * (gap * unit) == (n * gap) * unit) by (nonlinear_arith);
        lemma_scaled_bounds(bound, product, numerator, unit);
    }
}

proof fn lemma_scaled_bounds(bound: nat, product: nat, numerator: nat, unit: nat)
    requires
        bound * product <= (bound + 1) * numerator,
        bound * product >= (bound - 1) * numerator,
    ensures
        bound * (product * unit) <= (bound + 1) * (numerator * unit),
        bound * (product * unit) >= (bound - 1) * (numerator * unit),
{
    let left = bound * product;
    let upper = (bound + 1) * numerator;
    let lower = (bound - 1) * numerator;
    assert(left * unit <= upper * unit && left * unit >= lower * unit) by (nonlinear_arith)
        requires
            left <= upper,
            left >= lower,
    ;
    assert(bound * (product * unit) == left * unit) by (nonlinear_arith)
        requires
            left == bound * product,
    ;
    assert((bound + 1) * (numerator * unit) == upper * unit) by (nonlinear_arith)
        requires
            upper == (bound + 1) * numerator,
    ;
    assert((bound - 1) * (numerator * unit) == lower * unit) by (nonlinear_arith)
        requires
            lower == (bound - 1) * numerator,
    ;
}

/// Rounding a positive quotient of moderate numbers does not reach the smallest exponent.
pub(crate) proof fn lemma_not_tiny(format: Format, n: nat, d: nat, e: int)
    requires
        n > 0,
        0 < d <= 0x1_0000_0000_0000_0000,
        e >= format.least_exponent() + 120,
    ensures
        rounded(format, n, d, e).1 > e - 120,
{
    let target = rounded(format, n, d, e).1;
    lemma_rounded(format, n, d, e);
    lemma2_to64();
    lemma2_to64_rest();
    if target <= e - 120 {
        let bound = format.mantissa_bound();
        let power = pow2((e - target) as nat);
        lemma_pow2_adds(64, 56);
        lemma_pow2_adds(53, 3);
        if e - target > 120 {
            lemma_pow2_strictly_increases(120, (e - target) as nat);
        }
        assert(n * power >= power) by (nonlinear_arith)
            requires
                n > 0,
        ;
        assert(bound * d <= 0x20_0000_0000_0000 * 0x1_0000_0000_0000_0000) by (nonlinear_arith)
            requires
                bound <= 0x20_0000_0000_0000,
                d <= 0x1_0000_0000_0000_0000,
        ;
    }
}

/// Rounding a moderate number does not raise its exponent by much.
pub(crate) proof fn lemma_not_huge(format: Format, n: nat, d: nat, e: int)
    requires
        n <= 0x1_0000_0000_0000_0000,
        d > 0,
    ensures
        rounded(format, n, d, e).1 <= e + 64,
{
    let target = rounded(format, n, d, e).1;
    lemma_rounded(format, n, d, e);
    lemma2_to64();
    lemma2_to64_rest();
    if target > e + 64 {
        let bound = format.mantissa_bound();
        let power = pow2((target - 1 - e) as nat);
        if target - 1 - e > 64 {
            lemma_pow2_strictly_increases(64, (target - 1 - e) as nat);
        }
        assert(d * power >= power) by (nonlinear_arith)
            requires
                d > 0,
        ;
        let denominator = d * power;
        assert(bound * denominator >= 2 * denominator) by (nonlinear_arith)
            requires
                bound >= 2,
        ;
    }
}

/// A mantissa is at most the bound of its format, and positive where the number is and is not
/// tiny.
pub(crate) proof fn lemma_mantissa(format: Format, n: nat, d: nat, e: int)
    requires
        d > 0,
    ensures
        rounded(format, n, d, e).0 <= format.mantissa_bound(),
        rounded(format, n, d, e).1 > format.least_exponent() ==> rounded(format, n, d, e).0 > 0,
{
    let (m, target) = rounded(format, n, d, e);
    let numerator = numerator_at(n, e, target);
    let denominator = denominator_at(d, e, target);
    let bound = format.mantissa_bound();
    lemma_rounded(format, n, d, e);
    lemma2_to64();
    lemma2_to64_rest();
    assert(numerator / denominator < bound) by (nonlinear_arith)
        requires
            numerator < bound * denominator,
            denominator > 0,
    ;
    if target > format.least_exponent() {
        assert(numerator >= denominator) by (nonlinear_arith)
            requires
                2 * numerator >= bound * denominator,
                bound >= 2,
        ;
        assert(numerator / denominator >= 1) by (nonlinear_arith)
            requires
                numerator >= denominator,
                denominator > 0,
        ;
    }
}

/// The nearest integer of a number below `limit + 1/2` is at most `limit`.
pub(crate) proof fn lemma_nearest_integer_at_most(a: (nat, int), scale: nat, limit: nat)
    requires
        a.1 + scale >= 0,
        2 * at_scale(a, scale) < (2 * limit + 1) * pow2(scale),
    ensures
        nearest_integer(a) <= limit,
{
    let unit = pow2(scale);
    lemma_pow2_pos(scale);
    if a.1 >= 0 {
        lemma_pow2_adds(a.1 as nat, scale);
        let power = pow2(a.1 as nat);
        let value = a.0 * power;
        assert(a.0 * (power * unit) == value * unit) by (nonlinear_arith)
            requires
                value == a.0 * power,
        ;
        assert(2 * value < 2 * limit + 1) by (nonlinear_arith)
            requires
                2 * (value * unit) < (2 * limit + 1) * unit,
                unit > 0,
        ;
    } else {
        let gap = (-a.1) as nat;
        lemma_pow2_adds(gap, (scale - gap) as nat);
        lemma_pow2_pos((scale - gap) as nat);
        lemma_pow2_pos(gap);
        let power = pow2(gap);
        let rest = pow2((scale - gap) as nat);
        let x = a.0;
        assert(2 * x < (2 * limit + 1) * power) by (nonlinear_arith)
            requires
                2 * (x * rest) < (2 * limit + 1) * (power * rest),
                rest > 0,
        ;
        let d = 2 * power;
        let n = 2 * x + power;
        assert((2 * limit + 1) * power + power == (limit + 1) * d) by (nonlinear_arith)
            requires
                d == 2 * power,
        ;
        lemma_quotient_bound(n, d, limit);
    }
}

/// Scaling up stops at the smallest exponent.
pub(crate) proof fn lemma_least_exponent(format: Format, n: nat, d: nat, e: int)
    requires
        d > 0,
        e >= format.least_exponent(),
    ensures
        rounded(format, n, d, e).1 >= format.least_exponent(),
    decreases
            (if n >= format.mantissa_bound() * d {
                1int
            } else {
                0int
            }),
            (if n >= format.mantissa_bound() * d {
                n - format.mantissa_bound() * d
            } else {
                e - format.least_exponent()
            }),
{
    let bound = format.mantissa_bound();
    lemma2_to64();
    lemma2_to64_rest();
    assert(bound * (2 * d) == 2 * (bound * d)) by (nonlinear_arith);
    assert(bound * d > 0) by (nonlinear_arith)
        requires
            bound > 0,
            d > 0,
    ;
    if n >= bound * d {
        lemma_least_exponent(format, n, 2 * d, e + 1);
    } else if 2 * n < bound * d && e > format.least_exponent() {
        lemma_least_exponent(format, 2 * n, d, e - 1);
    }
}

/// A single-precision number, by the bits that store it.
#[derive(Debug, Clone, Copy)]
pub struct Single {
    pub bits: u32,
}

/// Two numbers are equal where their bits are, except that both zeros are equal and that what
/// is no number equals nothing.
impl PartialEq for Single {
    fn eq(&self, other: &Single) -> (result: bool) {
        let zero = self.bits % 0x8000_0000 == 0 && other.bits % 0x8000_0000 == 0;
        zero || self.bits == other.bits && self.bits % 0x8000_0000 <= 0x7f80_0000
    }
}

impl vstd::std_specs::cmp::PartialEqSpecImpl for Single {
    open spec fn obeys_eq_spec() -> bool {
        true
    }

    open spec fn eq_spec(&self, other: &Single) -> bool {
        ||| self.unsigned_bits() == 0 && other.unsigned_bits() == 0
        ||| self.bits == other.bits && !self.is_nan()
    }
}

impl Single {
    /// Whether the sign bit is set.
    pub open spec fn negative(self) -> bool {
        self.bits >= 0x8000_0000
    }

    /// The bits without the sign.
    pub open spec fn unsigned_bits(self) -> nat {
        self.bits as nat % 0x8000_0000
    }

    /// Whether the bits store no number.
    pub open spec fn is_nan(self) -> bool {
        self.unsigned_bits() > 0x7f80_0000
    }

    /// Whether the bits store a number that is not infinite.
    pub open spec fn is_finite(self) -> bool {
        self.unsigned_bits() < 0x7f80_0000
    }

    /// The absolute value of a finite number.
    pub open spec fn magnitude(self) -> (nat, int) {
        let exponent = self.unsigned_bits() / 0x80_0000;
        let fraction = self.unsigned_bits() % 0x80_0000;
        if exponent == 0 {
            (fraction, -149)
        } else {
            (fraction + 0x80_0000, exponent - 150)
        }
    }

    /// Whether the number is finite and from zero to one.
    pub open spec fn in_unit_range(self) -> bool {
        &&& self.is_finite()
        &&& self.negative() ==> self.magnitude().0 == 0
        &&& at_most(self.magnitude(), (1, 0))
    }

    /// The number moved to the nearer end of the range from zero to one where it is outside;
    /// nothing where it is no number.
    pub open spec fn clamped_to_unit(self) -> Option<(nat, int)> {
        if self.is_nan() {
            None
        } else if self.in_unit_range() {
            Some(self.magnitude())
        } else if self.negative() {
            Some((0, 0))
        } else {
            Some((1, 0))
        }
    }

    /// Where the number lies in an extent of whole pixels, if it is a number: its product with
    /// the extent, both in single precision.
    pub open spec fn offset_in(self, extent: nat) -> Option<(nat, int)> {
        match self.clamped_to_unit() {
            None => None,
            Some(part) => {
                let whole = rounded(Format::Single, extent, 1, 0);
                Some(rounded(Format::Single, part.0 * whole.0, 1, part.1 + whole.1))
            },
        }
    }

    /// A half is from zero to one.
    pub(crate) proof fn half_is_in_unit_range()
        ensures
            (Single { bits: 0x3f00_0000 }).in_unit_range(),
    {
        (Single { bits: 0x3f00_0000 }).unit_range_in_bits();
    }

    /// A half.
    pub fn half() -> (result: Self)
        ensures
            result.in_unit_range(),
            result.magnitude() == (0x80_0000nat, -24int),
            result.bits == 0x3f00_0000,
    {
        proof {
            lemma2_to64();
        }
        Single { bits: 0x3f00_0000 }
    }

    /// Whether the number is finite and from zero to one.
    pub fn is_in_unit_range(&self) -> (result: bool)
        ensures
            result == self.in_unit_range(),
    {
        proof {
            self.unit_range_in_bits();
        }
        self.bits <= 0x3f80_0000 || self.bits == 0x8000_0000
    }

    /// The numbers from zero to one are those up to the bits of one, and negative zero.
    pub proof fn unit_range_in_bits(self)
        ensures
            self.in_unit_range() <==> self.bits <= 0x3f80_0000 || self.bits == 0x8000_0000,
    {
        let exponent = self.unsigned_bits() / 0x80_0000;
        let fraction = self.unsigned_bits() % 0x80_0000;
        lemma2_to64();
        if self.is_finite() {
            if exponent == 0 {
                lemma_pow2_strictly_increases(32, 149);
            } else if exponent <= 126 {
                lemma_pow2_strictly_increases(23, (150 - exponent) as nat);
                if exponent < 126 {
                    lemma_pow2_strictly_increases(24, (150 - exponent) as nat);
                }
            } else if exponent == 127 {
                assert(pow2(23) == 0x80_0000);
            } else if exponent <= 150 {
                if exponent < 150 {
                    lemma_pow2_strictly_increases((150 - exponent) as nat, 23);
                }
            } else {
                lemma_pow2_pos((exponent - 150) as nat);
                let power = pow2((exponent - 150) as nat);
                assert((fraction + 0x80_0000) * power >= 0x80_0000) by (nonlinear_arith)
                    requires
                        power > 0,
                        fraction >= 0,
                ;
            }
        }
    }

    /// The number moved into the range from zero to one, if it is a number.
    pub fn clamp_to_unit(&self) -> (result: Option<Dyadic>)
        ensures
            result is Some <==> self.clamped_to_unit() is Some,
            result is Some ==> result->0@ == self.clamped_to_unit()->0,
            result is Some ==> -149 <= result->0.exponent && (result->0.mantissa <= 0x100_0000
                && result->0.exponent <= -23 || result->0.mantissa <= 1 && result->0.exponent <= 0),
    {
        proof {
            self.unit_range_in_bits();
        }
        if self.bits % 0x8000_0000 > 0x7f80_0000 {
            None
        } else if self.is_in_unit_range() {
            let unsigned: u32 = self.bits % 0x8000_0000;
            let exponent: u32 = unsigned / 0x80_0000;
            let fraction: u32 = unsigned % 0x80_0000;
            if exponent == 0 {
                Some(Dyadic { mantissa: fraction as u64, exponent: -149 })
            } else {
                Some(
                    Dyadic {
                        mantissa: fraction as u64 + 0x80_0000,
                        exponent: exponent as i64 - 150,
                    },
                )
            }
        } else if self.bits >= 0x8000_0000 {
            Some(Dyadic { mantissa: 0, exponent: 0 })
        } else {
            Some(Dyadic { mantissa: 1, exponent: 0 })
        }
    }

    /// Where the number lies in an extent of whole pixels, if it is a number.
    pub fn offset(&self, extent: u32) -> (result: Option<Dyadic>)
        ensures
            result is Some <==> self.offset_in(extent as nat) is Some,
            result is Some ==> result->0@ == self.offset_in(extent as nat)->0,
            result is Some ==> result->0.mantissa <= 0x100_0000 && -2000 <= result->0.exponent
                <= 10,
    {
        match self.clamp_to_unit() {
            None => None,
            Some(part) => {
                let whole = Dyadic::of_integer(Format::Single, extent as u64);
                proof {
                    lemma2_to64();
                    assert(part.mantissa * whole.mantissa <= 0x100_0000 * 0x100_0000)
                        by (nonlinear_arith)
                        requires
                            part.mantissa <= 0x100_0000,
                            whole.mantissa <= 0x100_0000,
                    ;
                }
                let exponent: i64 = part.exponent + whole.exponent;
                let product: u128 = part.mantissa as u128 * whole.mantissa as u128;
                let result = round_ratio(Format::Single, product, 1, exponent);
                proof {
                    lemma2_to64();
                    lemma2_to64_rest();
                    if result.exponent > exponent {
                        let power = pow2((result.exponent - exponent - 1) as nat);
                        assert(0x100_0000 * (1 * power) == 0x100_0000 * power);
                        if part.mantissa <= 1 {
                            assert(product <= whole.mantissa) by (nonlinear_arith)
                                requires
                                    product == part.mantissa * whole.mantissa,
                                    part.mantissa <= 1,
                            ;
                            lemma_exponent_below((result.exponent - exponent - 1) as nat, 1);
                        } else {
                            lemma_exponent_below((result.exponent - exponent - 1) as nat, 25);
                        }
                    }
                }
                Some(result)
            },
        }
    }

    /// The least whole number that is no smaller, moved into the range of a `u32`; zero where
    /// the bits store no number.
    pub open spec fn ceiling(self) -> nat {
        if self.is_nan() || self.negative() {
            0
        } else if self.is_finite() && integer_ceiling(self.magnitude()) <= u32::MAX {
            integer_ceiling(self.magnitude())
        } else {
            u32::MAX as nat
        }
    }

    /// The least whole number that is no smaller, moved into the range of a `u32`.
    pub fn round_up(&self) -> (result: u32)
        ensures
            result == self.ceiling(),
    {
        if self.bits >= 0x8000_0000 || self.bits > 0x7f80_0000 {
            return 0;
        }
        let exponent: u32 = self.bits / 0x80_0000;
        let fraction: u32 = self.bits % 0x80_0000;
        proof {
            lemma2_to64();
        }
        if exponent > 158 {
            proof {
                if self.is_finite() {
                    let power = pow2((exponent - 150) as nat);
                    lemma_powers_grow(9, (exponent - 150) as nat);
                    assert((fraction + 0x80_0000) * power >= 0x80_0000 * 512) by (nonlinear_arith)
                        requires
                            power >= 512,
                            fraction >= 0,
                    ;
                }
            }
            return u32::MAX;
        }
        if exponent >= 150 {
            let power = power_of_two(exponent as i64 - 150);
            proof {
                lemma_powers_grow((exponent - 150) as nat, 8);
                assert((fraction + 0x80_0000) * power <= 0xff_ffff * 256) by (nonlinear_arith)
                    requires
                        power <= 256,
                        fraction <= 0x7f_ffff,
                ;
            }
            return ((fraction as u128 + 0x80_0000) * power) as u32;
        }
        if exponent < 127 {
            let empty = exponent == 0 && fraction == 0;
            proof {
                let (mantissa, e) = self.magnitude();
                let power = pow2((-e) as nat);
                lemma_powers_grow(24, (-e) as nat);
                if empty {
                    assert((0 + power - 1) / (power as int) == 0) by (nonlinear_arith)
                        requires
                            power > 0,
                    ;
                } else {
                    assert((mantissa + power - 1) / (power as int) == 1) by (nonlinear_arith)
                        requires
                            0 < mantissa <= power,
                    ;
                }
            }
            return if empty {
                0
            } else {
                1
            };
        }
        let power = power_of_two(150 - exponent as i64);
        let mantissa: u128 = fraction as u128 + 0x80_0000;
        proof {
            lemma_powers_grow((150 - exponent) as nat, 23);
            lemma_pow2_pos((150 - exponent) as nat);
            assert((mantissa + power - 1) / (power as int) <= mantissa + power - 1)
                by (nonlinear_arith)
                requires
                    power > 0,
                    mantissa > 0,
            ;
        }
        ((mantissa + power - 1) / power) as u32
    }
}

/// The nearest integer is even where two are equally near.
proof fn lemma_ties(n: nat, d: nat)
    requires
        d > 0,
    ensures
        2 * (d * nearest_even(n, d)) == 2 * n + d ==> nearest_even(n, d) % 2 == 0,
        2 * (d * nearest_even(n, d)) + d == 2 * n ==> nearest_even(n, d) % 2 == 0,
{
    let quotient = n / d;
    let remainder = n % d;
    vstd::arithmetic::div_mod::lemma_fundamental_div_mod(n as int, d as int);
    assert(d * (quotient + 1) == d * quotient + d) by (nonlinear_arith);
}

/// Rounding gives the number of the format that is nearest to `n / d * 2^e`, the one with an even
/// mantissa of two that are equally near. Single precision keeps 24 bits down to `2^-149`, double
/// precision 53 bits down to `2^-1074`, and no bit is given away: where the exponent is not the
/// smallest one, the mantissa has them all.
pub proof fn rounding_is_to_the_nearest(format: Format, n: nat, d: nat, e: int)
    requires
        d > 0,
    ensures
        ({
            let (mantissa, exponent) = rounded(format, n, d, e);
            let (bound, least): (nat, int) = match format {
                Format::Single => (0x100_0000, -149),
                Format::Double => (0x20_0000_0000_0000, -1074),
            };
            let numerator = if exponent < e {
                n * pow2((e - exponent) as nat)
            } else {
                n
            };
            let denominator = if exponent > e {
                d * pow2((exponent - e) as nat)
            } else {
                d
            };
            &&& 2 * (denominator * mantissa) <= 2 * numerator + denominator
            &&& 2 * (denominator * mantissa) + denominator >= 2 * numerator
            &&& 2 * (denominator * mantissa) == 2 * numerator + denominator || 2 * (denominator
                * mantissa) + denominator == 2 * numerator ==> mantissa % 2 == 0
            &&& mantissa <= bound
            &&& exponent > least ==> 2 * mantissa >= bound
            &&& exponent > e ==> n >= bound * denominator_at(d, e, exponent - 1)
            &&& e >= least ==> exponent >= least
        }),
{
    let (mantissa, exponent) = rounded(format, n, d, e);
    let numerator = numerator_at(n, e, exponent);
    let denominator = denominator_at(d, e, exponent);
    let bound = format.mantissa_bound();
    lemma2_to64();
    lemma2_to64_rest();
    lemma_rounded(format, n, d, e);
    lemma_nearest_even(numerator, denominator);
    lemma_ties(numerator, denominator);
    lemma_mantissa(format, n, d, e);
    if e >= format.least_exponent() {
        lemma_least_exponent(format, n, d, e);
    }
    if exponent > format.least_exponent() {
        let half = bound / 2;
        assert(numerator / denominator >= half) by (nonlinear_arith)
            requires
                2 * numerator >= bound * denominator,
                bound == 2 * half,
                denominator > 0,
        ;
    }
}

/// Comparing numbers compares their values, as multiples of a unit that both are made of.
pub proof fn numbers_compare_by_their_values(a: (nat, int), b: (nat, int), scale: nat)
    requires
        a.1 + scale >= 0,
        b.1 + scale >= 0,
    ensures
        ({
            let x = a.0 * pow2((a.1 + scale) as nat);
            let y = b.0 * pow2((b.1 + scale) as nat);
            let z = greater(a, b).0 * pow2((greater(a, b).1 + scale) as nat);
            &&& at_most(a, b) <==> x <= y
            &&& z >= x && z >= y
            &&& greater(a, b) == a || greater(a, b) == b
        }),
{
    lemma_at_most_at_scale(a, b, scale);
}

/// The nearest integer is less than a half below a number, or exactly that, and no more than a
/// half above it; a whole number is its own nearest integer.
pub proof fn nearest_integers_are_near(a: (nat, int))
    ensures
        a.1 >= 0 ==> nearest_integer(a) == a.0 * pow2(a.1 as nat),
        a.1 < 0 ==> {
            let unit = pow2((-a.1) as nat);
            &&& 2 * (nearest_integer(a) * unit) <= 2 * a.0 + unit
            &&& 2 * (nearest_integer(a) * unit) > 2 * a.0 - unit
        },
{
    if a.1 < 0 {
        let unit = pow2((-a.1) as nat);
        lemma_pow2_pos((-a.1) as nat);
        let x = a.0;
        let q = (2 * x + unit) / (2 * unit);
        vstd::arithmetic::div_mod::lemma_fundamental_div_mod(
            (2 * x + unit) as int,
            (2 * unit) as int,
        );
        assert((2 * unit) * q == 2 * (q * unit)) by (nonlinear_arith);
    }
}

/// Rounding up gives the least integer that is no smaller than a number.
pub proof fn ceilings_are_the_next_integers(a: (nat, int))
    ensures
        a.1 >= 0 ==> integer_ceiling(a) == a.0 * pow2(a.1 as nat),
        a.1 < 0 ==> {
            let unit = pow2((-a.1) as nat);
            &&& integer_ceiling(a) * unit >= a.0
            &&& integer_ceiling(a) * unit < a.0 + unit
        },
{
    if a.1 < 0 {
        let unit = pow2((-a.1) as nat);
        lemma_pow2_pos((-a.1) as nat);
        let q = (a.0 + unit - 1) / unit as int;
        vstd::arithmetic::div_mod::lemma_fundamental_div_mod(a.0 + unit - 1, unit as int);
        assert(unit * q == q * unit) by (nonlinear_arith);
        assert(q >= 0) by (nonlinear_arith)
            requires
                unit * q > -1,
                unit > 0,
        ;
    }
}

/// The difference of two numbers is off by one part in `2^24` at most, unless it is tiny.
pub proof fn differences_are_close(a: (nat, int), b: (nat, int), scale: nat)
    requires
        a.1 + scale >= 0,
        b.1 + scale >= 0,
        difference(a, b).1 + scale >= 0,
        at_most(b, a),
        difference(a, b).1 > -149,
    ensures
        ({
            let exact = a.0 * pow2((a.1 + scale) as nat) - b.0 * pow2((b.1 + scale) as nat);
            let result = difference(a, b).0 * pow2((difference(a, b).1 + scale) as nat);
            &&& 0x100_0000 * result <= 0x100_0001 * exact
            &&& 0x100_0000 * result >= 0xff_ffff * exact
        }),
{
    lemma2_to64();
    lemma_at_most_at_scale(b, a, scale);
    if a.1 >= b.1 {
        let unit = pow2((b.1 + scale) as nat);
        let gap = pow2((a.1 - b.1) as nat);
        lemma_pow2_adds((a.1 - b.1) as nat, (b.1 + scale) as nat);
        if a.1 == b.1 {
            assert(b.0 * gap == b.0) by (nonlinear_arith)
                requires
                    gap == 1,
            ;
            assert(a.0 * gap == a.0) by (nonlinear_arith)
                requires
                    gap == 1,
            ;
        }
        let n = (a.0 * gap - b.0) as nat;
        lemma_relative_error(Format::Single, n, 1, b.1, scale);
        let x = a.0;
        let y = b.0;
        assert((x * gap - y) * unit == x * (gap * unit) - y * unit) by (nonlinear_arith);
    } else {
        let unit = pow2((a.1 + scale) as nat);
        let gap = pow2((b.1 - a.1) as nat);
        lemma_pow2_adds((b.1 - a.1) as nat, (a.1 + scale) as nat);
        let n = (a.0 - b.0 * gap) as nat;
        lemma_relative_error(Format::Single, n, 1, a.1, scale);
        let x = a.0;
        let y = b.0;
        assert((x - y * gap) * unit == x * unit - y * (gap * unit)) by (nonlinear_arith);
    }
}

/// Numbers stored with the bits of no number are told apart from others, and those that are
/// infinite from those that are finite, by their bits alone, whatever their sign.
pub proof fn bits_tell_numbers_apart(number: Single)
    ensures
        number.negative() <==> number.bits >= 0x8000_0000,
        number.is_nan() <==> 0x7f80_0000 < number.bits < 0x8000_0000 || number.bits > 0xff80_0000,
        number.is_finite() <==> number.bits < 0x7f80_0000 || 0x8000_0000 <= number.bits
            < 0xff80_0000,
{
}

/// Numbers are equal where their bits are; both zeros are equal too; what is no number equals
/// nothing, not even itself.
pub proof fn equal_numbers(a: Single, b: Single)
    ensures
        a.eq_spec(&b) <==> b.eq_spec(&a),
        a.is_nan() ==> !a.eq_spec(&b),
        !a.is_nan() ==> a.eq_spec(&a),
        (Single { bits: 0 }).eq_spec(&Single { bits: 0x8000_0000 }),
        a.eq_spec(&b) ==> a.bits == b.bits || (a.bits == 0 || a.bits == 0x8000_0000) && (b.bits
            == 0 || b.bits == 0x8000_0000),
{
}

proof fn lemma_value_of_bits(bits: nat)
    requires
        bits < 0x7f80_0000,
    ensures
        at_scale((Single { bits: bits as u32 }).magnitude(), 149) == if bits < 0x80_0000 {
            bits
        } else {
            (bits % 0x80_0000 + 0x80_0000) * pow2((bits / 0x80_0000 - 1) as nat)
        },
{
    lemma2_to64();
    if bits < 0x80_0000 {
        assert(bits * pow2(0) == bits) by (nonlinear_arith)
            requires
                pow2(0) == 1,
        ;
    }
}

/// What the bits of finite numbers stand for, as multiples of `2^-149`. The smallest numbers are
/// stored as they are; adding `0x80_0000` to the bits of others doubles them; one is stored as
/// `0x3f80_0000`; between two powers of two, the numbers are equally far apart; the sign does not
/// count.
#[verifier::spinoff_prover]
pub proof fn bits_stand_for_their_numbers(number: Single)
    requires
        number.is_finite(),
    ensures
        ({
            let value = at_scale(number.magnitude(), 149);
            let bits = number.unsigned_bits();
            let next = at_scale((Single { bits: (bits + 1) as u32 }).magnitude(), 149);
            let twice = at_scale((Single { bits: (bits + 0x80_0000) as u32 }).magnitude(), 149);
            let start = at_scale(
                (Single { bits: (bits - bits % 0x80_0000) as u32 }).magnitude(),
                149,
            );
            &&& bits < 0x100_0000 ==> value == bits
            &&& bits >= 0x80_0000 && bits + 0x80_0000 < 0x7f80_0000 ==> twice == 2 * value
            &&& bits == 0x3f80_0000 ==> value == pow2(149)
            &&& bits + 1 < 0x7f80_0000 ==> next > value
            &&& bits >= 0x80_0000 ==> 0x80_0000 * value == (0x80_0000 + bits % 0x80_0000) * start
            &&& value == at_scale((Single { bits: bits as u32 }).magnitude(), 149)
        }),
{
    lemma2_to64();
    let bits = number.unsigned_bits();
    let exponent = bits / 0x80_0000;
    let fraction = bits % 0x80_0000;
    lemma_value_of_bits(bits);
    assert(number.magnitude() == (Single { bits: bits as u32 }).magnitude());
    if bits + 1 < 0x7f80_0000 {
        lemma_value_of_bits(bits + 1);
    }
    if bits + 0x80_0000 < 0x7f80_0000 {
        lemma_value_of_bits(bits + 0x80_0000);
    }
    if exponent > 0 {
        let x = fraction + 0x80_0000;
        let unit = pow2((exponent - 1) as nat);
        lemma_value_of_bits((bits - fraction) as nat);
        assert((bits - fraction) % 0x80_0000 == 0);
        assert((bits - fraction) / 0x80_0000 == exponent);
        lemma_pow2_pos((exponent - 1) as nat);
        lemma_pow2_unfold(exponent);
        assert(x * (2 * unit) == 2 * (x * unit)) by (nonlinear_arith);
        assert((x + 1) * unit == x * unit + unit) by (nonlinear_arith);
        assert(0x80_0000 * (x * unit) == x * (0x80_0000 * unit)) by (nonlinear_arith);
        if exponent == 1 {
            assert(x * unit == x) by (nonlinear_arith)
                requires
                    unit == 1,
            ;
        }
        if bits == 0x3f80_0000 {
            lemma_pow2_adds(23, 126);
        }
        if fraction == 0x7f_ffff {
            assert((bits + 1) / 0x80_0000 == exponent + 1);
            assert((bits + 1) % 0x80_0000 == 0);
            assert(x * unit < 0x80_0000 * (2 * unit)) by (nonlinear_arith)
                requires
                    x == 0xff_ffff,
                    unit > 0,
            ;
        } else {
            assert((bits + 1) / 0x80_0000 == exponent);
            assert((bits + 1) % 0x80_0000 == fraction + 1);
        }
    }
}

/// A number below zero moves to zero and one above one to one; those between stay; what is no
/// number is not moved.
pub proof fn numbers_move_to_the_nearer_end(number: Single)
    ensures
        number.is_nan() <==> number.clamped_to_unit() is None,
        !number.is_nan() ==> {
            let moved = number.clamped_to_unit()->0;
            let value = at_scale(number.magnitude(), 149);
            &&& moved.1 >= -149
            &&& number.negative() ==> at_scale(moved, 149) == 0
            &&& !number.negative() && (!number.is_finite() || value > pow2(149)) ==> at_scale(
                moved,
                149,
            ) == pow2(149)
            &&& !number.negative() && number.is_finite() && value <= pow2(149) ==> at_scale(
                moved,
                149,
            ) == value
        },
{
    lemma2_to64();
    lemma_at_most_at_scale(number.magnitude(), (1, 0), 149);
    let unit = pow2(149);
    assert(1 * unit == unit && 0 * unit == 0) by (nonlinear_arith);
    let (x, e) = number.magnitude();
    let power = pow2((e + 149) as nat);
    if x == 0 {
        assert(x * power == 0) by (nonlinear_arith)
            requires
                x == 0,
        ;
    }
}

/// Rounding a number up to a `u32` gives the next integer where there is one: nothing for what is
/// negative or no number, and the greatest one for what is too large.
#[verifier::spinoff_prover]
pub proof fn numbers_round_up(number: Single)
    ensures
        number.is_nan() || number.negative() ==> number.ceiling() == 0,
        !number.is_nan() && !number.negative() && !number.is_finite() ==> number.ceiling()
            == 0xffff_ffff,
        number.is_finite() && !number.negative() ==> {
            let value = at_scale(number.magnitude(), 149);
            &&& value > 0xffff_ffff * pow2(149) ==> number.ceiling() == 0xffff_ffff
            &&& value <= 0xffff_ffff * pow2(149) ==> number.ceiling() * pow2(149) >= value
                && number.ceiling() * pow2(149) < value + pow2(149)
        },
{
    if number.is_finite() && !number.negative() {
        let (x, e) = number.magnitude();
        let whole = integer_ceiling((x, e));
        ceilings_are_the_next_integers((x, e));
        let unit = pow2(149);
        lemma_pow2_pos(149);
        let value = at_scale((x, e), 149);
        if e >= 0 {
            let power = pow2(e as nat);
            lemma_pow2_adds(e as nat, 149);
            assert(x * (power * unit) == (x * power) * unit) by (nonlinear_arith);
            assert(whole * unit == value);
        } else {
            let power = pow2((-e) as nat);
            let rest = pow2((149 + e) as nat);
            lemma_pow2_adds((-e) as nat, (149 + e) as nat);
            lemma_pow2_pos((149 + e) as nat);
            assert(whole * (power * rest) >= x * rest && whole * (power * rest) < x * rest + power
                * rest) by (nonlinear_arith)
                requires
                    whole * power >= x,
                    whole * power < x + power,
                    rest > 0,
            ;
        }
        assert(whole * unit >= value && whole * unit < value + unit);
        if value > 0xffff_ffff * unit {
            assert(whole > 0xffff_ffff) by (nonlinear_arith)
                requires
                    whole * unit > 0xffff_ffff * unit,
                    unit > 0,
            ;
        } else {
            assert(whole <= 0xffff_ffff) by (nonlinear_arith)
                requires
                    whole * unit < 0xffff_ffff * unit + unit,
                    unit > 0,
            ;
        }
    }
}

/// Scaling up stops at the smallest exponent, or does not start below it.
pub(crate) proof fn lemma_exponent_floor(format: Format, n: nat, d: nat, e: int)
    requires
        d > 0,
    ensures
        rounded(format, n, d, e).1 >= format.least_exponent() || rounded(format, n, d, e).1 >= e,
    decreases
            (if n >= format.mantissa_bound() * d {
                1int
            } else {
                0int
            }),
            (if n >= format.mantissa_bound() * d {
                n - format.mantissa_bound() * d
            } else {
                e - format.least_exponent()
            }),
{
    let bound = format.mantissa_bound();
    lemma2_to64();
    lemma2_to64_rest();
    assert(bound * (2 * d) == 2 * (bound * d)) by (nonlinear_arith);
    assert(bound * d > 0) by (nonlinear_arith)
        requires
            bound > 0,
            d > 0,
    ;
    if n >= bound * d {
        lemma_exponent_floor(format, n, 2 * d, e + 1);
    } else if 2 * n < bound * d && e > format.least_exponent() {
        lemma_exponent_floor(format, 2 * n, d, e - 1);
    }
}

/// An integer that a format has the bits for stays what it is.
#[verifier::spinoff_prover]
pub(crate) proof fn lemma_integers_are_exact(format: Format, n: nat, scale: nat)
    requires
        n < format.mantissa_bound(),
        scale >= 1074,
    ensures
        format.least_exponent() <= rounded(format, n, 1, 0).1 <= 0,
        at_scale(rounded(format, n, 1, 0), scale) == n * pow2(scale),
        rounded(format, n, 1, 0).0 < format.mantissa_bound(),
{
    lemma2_to64();
    lemma2_to64_rest();
    let (m, target) = rounded(format, n, 1, 0);
    let bound = format.mantissa_bound();
    lemma_least_exponent(format, n, 1, 0);
    lemma_rounded(format, n, 1, 0);
    lemma_lowered(format, n, 1, 0);
    let numerator = numerator_at(n, 0, target);
    assert(numerator / 1 == numerator && numerator % 1 == 0) by (nonlinear_arith);
    if target < 0 {
        let power = pow2((-target) as nat);
        let rest = pow2((target + scale) as nat);
        lemma_pow2_adds((-target) as nat, (target + scale) as nat);
        assert((n * power) * rest == n * (power * rest)) by (nonlinear_arith);
    }
}

/// Rounding moves a dyadic number by half a unit of the result's last place at most.
pub(crate) proof fn lemma_absolute_error(format: Format, n: nat, e: int, scale: nat)
    requires
        e + scale >= 0,
        rounded(format, n, 1, e).1 + scale >= 0,
    ensures
        ({
            let result = at_scale(rounded(format, n, 1, e), scale);
            let exact = n * pow2((e + scale) as nat);
            let unit = pow2((rounded(format, n, 1, e).1 + scale) as nat);
            &&& 2 * result <= 2 * exact + unit
            &&& 2 * result + unit >= 2 * exact
        }),
{
    let (m, target) = rounded(format, n, 1, e);
    let numerator = numerator_at(n, e, target);
    let denominator = denominator_at(1, e, target);
    lemma_rounded(format, n, 1, e);
    lemma_nearest_even(numerator, denominator);
    lemma_pow2_pos((target + scale) as nat);
    if target > e {
        let gap = pow2((target - e) as nat);
        let unit = pow2((e + scale) as nat);
        lemma_pow2_adds((target - e) as nat, (e + scale) as nat);
        assert(1 * gap == gap);
        let product = gap * m;
        assert(2 * (product * unit) <= 2 * (n * unit) + gap * unit && 2 * (product * unit) + gap
            * unit >= 2 * (n * unit)) by (nonlinear_arith)
            requires
                2 * product <= 2 * n + gap,
                2 * product + gap >= 2 * n,
                unit >= 0,
        ;
        assert(m * (gap * unit) == (gap * m) * unit) by (nonlinear_arith);
    } else {
        assert(1 * m == m);
        assert(m == numerator);
        if target < e {
            let gap = pow2((e - target) as nat);
            let unit = pow2((target + scale) as nat);
            lemma_pow2_adds((e - target) as nat, (target + scale) as nat);
            assert((n * gap) * unit == n * (gap * unit)) by (nonlinear_arith);
        }
    }
}

/// The nearest integer is off by a half at most, as multiples of a unit that the number is made
/// of.
pub(crate) proof fn lemma_nearest_integer_at_scale(a: (nat, int), scale: nat)
    requires
        a.1 + scale >= 0,
    ensures
        2 * (nearest_integer(a) * pow2(scale)) <= 2 * at_scale(a, scale) + pow2(scale),
        2 * (nearest_integer(a) * pow2(scale)) + pow2(scale) > 2 * at_scale(a, scale),
{
    nearest_integers_are_near(a);
    let whole = nearest_integer(a);
    let x = a.0;
    lemma_pow2_pos(scale);
    if a.1 >= 0 {
        let power = pow2(a.1 as nat);
        let unit = pow2(scale);
        lemma_pow2_adds(a.1 as nat, scale);
        assert((x * power) * unit == x * (power * unit)) by (nonlinear_arith);
    } else {
        let power = pow2((-a.1) as nat);
        let rest = pow2((a.1 + scale) as nat);
        lemma_pow2_adds((-a.1) as nat, (a.1 + scale) as nat);
        lemma_pow2_pos((a.1 + scale) as nat);
        assert(2 * (whole * (power * rest)) <= 2 * (x * rest) + power * rest && 2 * (whole * (power
            * rest)) + power * rest > 2 * (x * rest)) by (nonlinear_arith)
            requires
                2 * (whole * power) <= 2 * x + power,
                2 * (whole * power) > 2 * x - power,
                rest > 0,
        ;
    }
}

/// How far along an extent a number from zero to one leads, in multiples of `2^-1400`. Where the
/// product is not tiny, it is off by one part in `2^24` at most.
#[verifier::spinoff_prover]
pub(crate) proof fn lemma_offset(number: Single, extent: nat)
    requires
        !number.is_nan(),
        extent < 0x100_0000,
    ensures
        number.offset_in(extent) is Some,
        ({
            let part = number.clamped_to_unit()->0;
            let exact = extent * at_scale(part, 1400);
            let offset = number.offset_in(extent)->0;
            let result = at_scale(offset, 1400);
            &&& offset.1 >= -1300
            &&& offset.1 > -149 ==> 0x100_0000 * result <= 0x100_0001 * exact && 0x100_0000
                * result >= 0xff_ffff * exact
            &&& offset.1 <= -149 ==> 4 * result <= pow2(1300) && 4 * exact <= pow2(1300)
        }),
{
    lemma2_to64();
    let part = number.clamped_to_unit()->0;
    let whole = rounded(Format::Single, extent, 1, 0);
    numbers_move_to_the_nearer_end(number);
    lemma_integers_are_exact(Format::Single, extent, 1200);
    let n = part.0 * whole.0;
    let e = part.1 + whole.1;
    let offset = rounded(Format::Single, n, 1, e);
    lemma_exponent_floor(Format::Single, n, 1, e);
    let x = part.0;
    let y = whole.0;
    let a = pow2((part.1 + 200) as nat);
    let b = pow2((whole.1 + 1200) as nat);
    let c = pow2(1200);
    lemma_pow2_adds((part.1 + 200) as nat, (whole.1 + 1200) as nat);
    lemma_pow2_adds((part.1 + 200) as nat, 1200);
    assert((x * y) * (a * b) == (x * a) * (y * b)) by (nonlinear_arith);
    assert((x * a) * (extent * c) == extent * (x * (a * c))) by (nonlinear_arith);
    let exact = extent * at_scale(part, 1400);
    assert(n * pow2((e + 1400) as nat) == exact);
    let result = at_scale(offset, 1400);
    if offset.1 > -149 {
        lemma_relative_error(Format::Single, n, 1, e, 1400);
        assert(1 * result == result);
    } else {
        lemma_absolute_error(Format::Single, n, e, 1400);
        lemma_mantissa(Format::Single, n, 1, e);
        let unit = pow2((offset.1 + 1400) as nat);
        let m = offset.0;
        lemma_powers_grow((offset.1 + 1400) as nat, 1251);
        let most = pow2(1251);
        assert(m * unit <= 0x100_0000 * most) by (nonlinear_arith)
            requires
                m <= 0x100_0000,
                unit <= most,
        ;
        lemma_pow2_adds(49, 1251);
        lemma2_to64_rest();
        assert(pow2(49) * most >= 0x1000_0000 * most) by (nonlinear_arith)
            requires
                pow2(49) >= 0x1000_0000,
        ;
    }
}

/// The pixel at a position is the one nearest to that share of the extent: it is off by half a
/// pixel and one part in `2^24` at most. The share is the position where that lies between zero
/// and one, and the nearer end else.
pub proof fn pixels_lie_at_their_share(number: Single, extent: nat)
    requires
        !number.is_nan(),
        extent < 0x100_0000,
    ensures
        number.offset_in(extent) is Some,
        ({
            let pixel = nearest_integer(number.offset_in(extent)->0);
            let share = at_scale(number.clamped_to_unit()->0, 1400);
            let one = pow2(1400);
            &&& 0x100_0000 * (2 * (pixel * one)) <= 0x100_0001 * (2 * (extent * share)) + 0x100_0000
                * one
            &&& 0x100_0000 * (2 * (pixel * one)) + 0x100_0000 * one >= 0xff_ffff * (2 * (extent
                * share))
        }),
{
    lemma_offset(number, extent);
    let offset = number.offset_in(extent)->0;
    lemma_nearest_integer_at_scale(offset, 1400);
    let pixel = nearest_integer(offset);
    let one = pow2(1400);
    if offset.1 <= -149 {
        lemma_pow2_pos(1400);
        lemma_powers_grow(1300, 1400);
        lemma_pow2_adds(100, 1300);
        lemma_powers_grow(1, 100);
        lemma2_to64();
        assert(pixel < 1) by (nonlinear_arith)
            requires
                2 * (pixel * one) < 2 * one,
                one > 0,
        ;
        assert(pixel * one == 0) by (nonlinear_arith)
            requires
                pixel == 0,
        ;
    }
}

/// The difference of two numbers in multiples of `2^-1400`: where it is not tiny, it is off by one
/// part in `2^24` at most.
#[verifier::spinoff_prover]
pub(crate) proof fn lemma_difference_at_scale(a: (nat, int), b: (nat, int))
    requires
        a.1 >= -1300,
        b.1 >= -1300,
        at_most(b, a),
    ensures
        ({
            let exact = at_scale(a, 1400) - at_scale(b, 1400);
            let result = at_scale(difference(a, b), 1400);
            &&& exact >= 0
            &&& difference(a, b).1 >= -1300
            &&& difference(a, b).1 > -149 ==> 0x100_0000 * result <= 0x100_0001 * exact
                && 0x100_0000 * result >= 0xff_ffff * exact
            &&& difference(a, b).1 <= -149 ==> 2 * result <= 2 * exact + pow2(1300) && 2 * result
                + pow2(1300) >= 2 * exact
        }),
{
    lemma2_to64();
    lemma_at_most_at_scale(b, a, 1400);
    let d = difference(a, b);
    let low = if a.1 >= b.1 {
        b.1
    } else {
        a.1
    };
    let gap_a = pow2((a.1 - low) as nat);
    let gap_b = pow2((b.1 - low) as nat);
    let unit = pow2((low + 1400) as nat);
    lemma_pow2_pos((low + 1400) as nat);
    lemma_pow2_adds((a.1 - low) as nat, (low + 1400) as nat);
    lemma_pow2_adds((b.1 - low) as nat, (low + 1400) as nat);
    let x = a.0;
    let y = b.0;
    if a.1 == low {
        assert(x * gap_a == x) by (nonlinear_arith)
            requires
                gap_a == 1,
        ;
    }
    if b.1 == low {
        assert(y * gap_b == y) by (nonlinear_arith)
            requires
                gap_b == 1,
        ;
    }
    assert((x * gap_a - y * gap_b) * unit == x * (gap_a * unit) - y * (gap_b * unit))
        by (nonlinear_arith);
    assert(x * gap_a >= y * gap_b) by (nonlinear_arith)
        requires
            (x * gap_a - y * gap_b) * unit >= 0,
            unit > 0,
    ;
    let n = (x * gap_a - y * gap_b) as nat;
    assert(d == rounded(Format::Single, n, 1, low));
    lemma_exponent_floor(Format::Single, n, 1, low);
    if d.1 > -149 {
        lemma_relative_error(Format::Single, n, 1, low, 1400);
        assert(1 * at_scale(d, 1400) == at_scale(d, 1400));
    } else {
        lemma_absolute_error(Format::Single, n, low, 1400);
        lemma_powers_grow((d.1 + 1400) as nat, 1300);
    }
}

} // verus!
