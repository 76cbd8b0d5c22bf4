//! Split ratios and the pane sizes that follow from them.
//!
//! A ratio is a double-precision number. It is held as its bit pattern, and everything that is
//! computed from it is computed on integers, rounding as IEEE 754 prescribes.

use crate::error::Error;
use crate::text;
use crate::text::Text;
use vstd::prelude::*;
use vstd::string::*;

verus! {

/// Two to the power of 52: the number of fractions of a double-precision number.
pub const FRACTIONS: u64 = 0x10_0000_0000_0000;

/// Two to the power of 60: the common denominator of all ratios.
pub const DENOMINATOR: u64 = 0x1000_0000_0000_0000;

/// The bit patterns of the ratios from 0.006 (inclusive) to 0.99 (exclusive). Positive numbers
/// are ordered as their bit patterns are; those of negative numbers, infinities and NaN are all
/// greater.
pub open spec fn valid_ratio(bits: u64) -> bool {
    SplitRatio::MIN_INCLUSIVE <= bits < SplitRatio::MAX_EXCLUSIVE
}

/// Two to the power of `exponent`, from 0 to 7.
pub open spec fn power_of_two(exponent: int) -> int {
    if exponent == 0 {
        1
    } else if exponent == 1 {
        2
    } else if exponent == 2 {
        4
    } else if exponent == 3 {
        8
    } else if exponent == 4 {
        16
    } else if exponent == 5 {
        32
    } else if exponent == 6 {
        64
    } else {
        128
    }
}

/// The ratio with the given bit pattern, as a fraction with the denominator [`DENOMINATOR`]: one
/// and the fraction bits, scaled by the exponent bits.
pub open spec fn numerator(bits: u64) -> int {
    (FRACTIONS + bits % FRACTIONS) * power_of_two(bits / FRACTIONS - 1015)
}

/// `n / unit`, rounded to the nearest integer, to the even one of two equally near.
pub open spec fn to_nearest(n: int, unit: int) -> int {
    let q = n / unit;
    let r = n % unit;
    if 2 * r < unit || (2 * r == unit && q % 2 == 0) {
        q
    } else {
        q + 1
    }
}

/// `1.0 - ratio`, rounded to double precision, in units of two to the power of -53.
pub open spec fn second_share(bits: u64) -> int {
    to_nearest(DENOMINATOR - numerator(bits), 128)
}

/// The distance of double-precision numbers around `p`, both in units of two to the power of -53.
pub open spec fn precision(p: int) -> int {
    if p < 0x40_0000_0000_0000 {
        2
    } else if p < 0x80_0000_0000_0000 {
        4
    } else if p < 0x100_0000_0000_0000 {
        8
    } else if p < 0x200_0000_0000_0000 {
        16
    } else if p < 0x400_0000_0000_0000 {
        32
    } else if p < 0x800_0000_0000_0000 {
        64
    } else {
        128
    }
}

/// A product in units of two to the power of -53, rounded to double precision.
pub open spec fn rounded(p: int) -> int {
    to_nearest(p, precision(p)) * precision(p)
}

/// `((1.0 - ratio) * 100.0).round()`: the product rounded to double precision, then to the nearest
/// integer, a half away from zero.
pub open spec fn percent(bits: u64) -> int {
    (rounded(100 * second_share(bits)) + 0x10_0000_0000_0000) / 0x20_0000_0000_0000
}

/// The numerator of a valid ratio lies between those of the bounds.
pub proof fn lemma_numerator_bounds(bits: u64)
    requires
        valid_ratio(bits),
    ensures
        numerator(SplitRatio::MIN_INCLUSIVE) <= numerator(bits) < numerator(SplitRatio::MAX_EXCLUSIVE),
        numerator(SplitRatio::MIN_INCLUSIVE) == 6917529027641082,
        numerator(SplitRatio::MAX_EXCLUSIVE) == 1141392289560778496,
{
    let e = bits / FRACTIONS - 1015;
    assert(0 <= e <= 7);
    assert(numerator(bits) == (FRACTIONS + bits % FRACTIONS) * power_of_two(e));
}

/// The bounds on what is computed on the way to the percentage.
proof fn lemma_percent_steps(bits: u64)
    requires
        valid_ratio(bits),
    ensures
        0x20_0000_0000_0000 < 100 * second_share(bits) < 0xc7_0000_0000_0000 * 16,
        1 <= percent(bits) <= 99,
        -6400 <= 12800 * second_share(bits) - 100 * (DENOMINATOR - numerator(bits)) <= 6400,
        -0x800_0000_0000_3900 <= percent(bits) * DENOMINATOR - 100 * (DENOMINATOR - numerator(bits))
            <= 0x800_0000_0000_3900,
{
    lemma_numerator_bounds(bits);
    let n = DENOMINATOR - numerator(bits);
    let d = second_share(bits);
    assert(128 * d - 64 <= n <= 128 * d + 64);
    let p = 100 * d;
    let u = precision(p);
    let q = to_nearest(p, u);
    let product = q * u;
    assert(-64 <= product - p <= 64) by {
        assert(u == 2 || u == 4 || u == 8 || u == 16 || u == 32 || u == 64 || u == 128);
    }
}

/// The pane sizes that tmux accepts as a percentage.
#[derive(Debug, Clone, Copy, PartialEq, Eq, PartialOrd, Ord, Hash, Structural)]
pub struct TmuxPanePercent(u8);

impl View for TmuxPanePercent {
    type V = int;

    closed spec fn view(&self) -> int {
        self.0 as int
    }
}

/// A pane size as `split-window -l` takes it.
pub open spec fn tmux_size(percent: int) -> Text {
    text::decimal(percent as nat) + "%"@
}

impl TmuxPanePercent {
    pub const MIN: u32 = 1;

    pub const MAX: u32 = 99;

    /// The range that every value lies in.
    #[verifier::type_invariant]
    pub open spec fn wf(&self) -> bool {
        1 <= self@ <= 99
    }

    /// The size of `value` percent.
    pub fn new(value: u32) -> (r: Result<TmuxPanePercent, Error>)
        ensures
            crate::error::failure(r) == if 1 <= value <= 99 {
                None
            } else {
                Some(
                    seq![
                        "tmux pane percent must be between 1 and 99, got "@ + text::decimal(
                            value as nat,
                        ),
                    ],
                )
            },
            r matches Ok(v) ==> v@ == value,
    {
        if value < Self::MIN || value > Self::MAX {
            return Err(
                Error::msg(
                    "tmux pane percent must be between 1 and 99, got ".to_owned().concat(
                        text::decimal_string(value as u64).as_str(),
                    ),
                ),
            );
        }
        Ok(TmuxPanePercent(value as u8))
    }

    /// The percentage.
    pub fn as_u32(self) -> (r: u32)
        ensures
            r == self@,
            self.wf(),
    {
        proof {
            use_type_invariant(&self);
        }
        self.0 as u32
    }

    /// The size as `split-window -l` takes it.
    pub fn as_tmux_size(self) -> (r: String)
        ensures
            r@ == tmux_size(self@),
    {
        text::decimal_string(self.as_u32() as u64).concat("%")
    }
}

/// The fraction of space that the first child of a split gets.
#[derive(Debug, Clone, Copy, PartialEq, PartialOrd, Structural)]
pub struct SplitRatio(u64);

impl View for SplitRatio {
    type V = u64;

    /// The bit pattern.
    closed spec fn view(&self) -> u64 {
        self.0
    }
}

/// Why the number with the given bit pattern is no split ratio. `shown` is the number as it is
/// printed.
pub open spec fn ratio_error(bits: u64, shown: Text) -> Option<Seq<Text>> {
    if valid_ratio(bits) {
        None
    } else {
        Some(
            seq!["split ratio must be between 0.006 (inclusive) and 0.99 (exclusive), got "@ + shown],
        )
    }
}

impl SplitRatio {
    /// The bit pattern of the least ratio, 0.006.
    pub const MIN_INCLUSIVE: u64 = 0x3f78_9374_bc6a_7efa;

    /// The bit pattern of the number that every ratio is below, 0.99.
    pub const MAX_EXCLUSIVE: u64 = 0x3fef_ae14_7ae1_47ae;

    /// The range that every value lies in.
    #[verifier::type_invariant]
    pub open spec fn wf(&self) -> bool {
        valid_ratio(self@)
    }

    /// The ratio with the bit pattern `bits`. `shown` is the number as it is printed, for the
    /// message of the error.
    pub fn new(bits: u64, shown: &str) -> (r: Result<SplitRatio, Error>)
        ensures
            crate::error::failure(r) == ratio_error(bits, shown@),
            r matches Ok(v) ==> v@ == bits,
    {
        if bits < Self::MIN_INCLUSIVE || bits >= Self::MAX_EXCLUSIVE {
            return Err(
                Error::msg(
                    "split ratio must be between 0.006 (inclusive) and 0.99 (exclusive), got ".to_owned().concat(
                        shown,
                    ),
                ),
            );
        }
        Ok(SplitRatio(bits))
    }

    /// The bit pattern of the ratio.
    pub fn get(self) -> (r: u64)
        ensures
            r == self@,
            self.wf(),
    {
        proof {
            use_type_invariant(&self);
        }
        self.0
    }

    /// The size of the second child: what the first leaves over, in percent.
    pub fn tmux_second_pane_percent(self) -> (r: TmuxPanePercent)
        ensures
            r@ == percent(self@),
    {
        proof {
            use_type_invariant(&self);
            lemma_percent_steps(self@);
            lemma_numerator_bounds(self@);
        }
        let bits: u64 = self.0;
        let share: u64 = nearest(DENOMINATOR - numerator_of(bits), 128);
        let p: u64 = 100 * share;
        let unit: u64 = precision_of(p);
        let product: u64 = nearest(p, unit) * unit;
        let value: u64 = (product + 0x10_0000_0000_0000) / 0x20_0000_0000_0000;
        TmuxPanePercent(value as u8)
    }
}

fn scale_of(exponent: u64) -> (r: u64)
    ensures
        r == power_of_two(exponent as int),
        1 <= r <= 128,
{
    if exponent == 0 {
        1
    } else if exponent == 1 {
        2
    } else if exponent == 2 {
        4
    } else if exponent == 3 {
        8
    } else if exponent == 4 {
        16
    } else if exponent == 5 {
        32
    } else if exponent == 6 {
        64
    } else {
        128
    }
}

fn numerator_of(bits: u64) -> (r: u64)
    requires
        valid_ratio(bits),
    ensures
        r == numerator(bits),
{
    let mantissa: u64 = FRACTIONS + bits % FRACTIONS;
    let scale: u64 = scale_of(bits / FRACTIONS - 1015);
    assert(mantissa * scale <= 0x20_0000_0000_0000 * 128) by (nonlinear_arith)
        requires
            mantissa <= 0x20_0000_0000_0000,
            scale <= 128,
    ;
    mantissa * scale
}

fn nearest(n: u64, unit: u64) -> (r: u64)
    requires
        2 <= unit <= 128,
    ensures
        r == to_nearest(n as int, unit as int),
{
    let q: u64 = n / unit;
    let rest: u64 = n % unit;
    assert(q <= n / 2) by (nonlinear_arith)
        requires
            q == n / unit,
            unit >= 2,
    ;
    if 2 * rest < unit || (2 * rest == unit && q % 2 == 0) {
        q
    } else {
        q + 1
    }
}

fn precision_of(p: u64) -> (r: u64)
    ensures
        r == precision(p as int),
        2 <= r <= 128,
{
    if p < 0x40_0000_0000_0000 {
        2
    } else if p < 0x80_0000_0000_0000 {
        4
    } else if p < 0x100_0000_0000_0000 {
        8
    } else if p < 0x200_0000_0000_0000 {
        16
    } else if p < 0x400_0000_0000_0000 {
        32
    } else if p < 0x800_0000_0000_0000 {
        64
    } else {
        128
    }
}

/// Whatever the ratio, the size of the second pane is one that tmux accepts: from 1 to 99 percent.
pub proof fn law_every_ratio_gives_a_pane_size(bits: u64)
    requires
        valid_ratio(bits),
    ensures
        1 <= percent(bits) <= 99,
{
    lemma_percent_steps(bits);
}

/// The second pane gets what the ratio leaves over, to within half a percent and the rounding of
/// two double-precision operations.
pub proof fn law_second_pane_gets_the_rest(bits: u64)
    requires
        valid_ratio(bits),
    ensures
        -(DENOMINATOR / 2 + 0x3900) <= percent(bits) * DENOMINATOR - 100 * (DENOMINATOR - numerator(
            bits,
        )) <= DENOMINATOR / 2 + 0x3900,
{
    lemma_percent_steps(bits);
}

/// A greater bit pattern is that of a greater ratio.
proof fn lemma_numerator_order(a: u64, b: u64)
    requires
        valid_ratio(a),
        valid_ratio(b),
        a <= b,
    ensures
        numerator(a) <= numerator(b),
{
    let ea = a / FRACTIONS - 1015;
    let eb = b / FRACTIONS - 1015;
    let ma = FRACTIONS + a % FRACTIONS;
    let mb = FRACTIONS + b % FRACTIONS;
    assert(0 <= ea <= eb <= 7);
    assert(numerator(a) == ma * power_of_two(ea));
    assert(numerator(b) == mb * power_of_two(eb));
    if ea == eb {
        assert(ma <= mb);
        assert(ma * power_of_two(ea) <= mb * power_of_two(ea)) by (nonlinear_arith)
            requires
                ma <= mb,
                power_of_two(ea) >= 1,
        ;
    } else {
        assert(2 * power_of_two(ea) <= power_of_two(eb));
        assert(ma <= 2 * mb);
        assert(ma * power_of_two(ea) <= mb * power_of_two(eb)) by (nonlinear_arith)
            requires
                0 <= ma <= 2 * mb,
                2 * power_of_two(ea) <= power_of_two(eb),
                power_of_two(ea) >= 1,
        ;
    }
}

/// Rounding keeps the order.
proof fn lemma_nearest_order(m: int, n: int, unit: int)
    requires
        0 <= m <= n,
        unit >= 2,
    ensures
        to_nearest(m, unit) <= to_nearest(n, unit),
{
    let a = m / unit;
    let b = n / unit;
    assert(a <= b) by (nonlinear_arith)
        requires
            a == m / unit,
            b == n / unit,
            m <= n,
            unit >= 2,
    ;
    if a == b {
        assert(m % unit <= n % unit) by (nonlinear_arith)
            requires
                m / unit == n / unit,
                m <= n,
                unit >= 2,
        ;
    }
}

/// A number stays within the numbers of its precision that are around it.
proof fn lemma_rounded_between(p: int, low: int, high: int, unit: int)
    requires
        0 <= low <= p <= high,
        precision(p) == unit,
        low % unit == 0,
        high % unit == 0,
    ensures
        low <= rounded(p) <= high,
{
    lemma_nearest_order(low, p, unit);
    lemma_nearest_order(p, high, unit);
    let q = to_nearest(p, unit);
    assert(to_nearest(low, unit) == low / unit);
    assert(to_nearest(high, unit) == high / unit);
    assert(low <= q * unit <= high) by (nonlinear_arith)
        requires
            low % unit == 0,
            high % unit == 0,
            low / unit <= q <= high / unit,
            unit >= 2,
    ;
}

/// Rounding to double precision keeps the order, also where the precision changes.
proof fn lemma_rounded_order(p: int, q: int)
    requires
        0 <= p <= q,
    ensures
        rounded(p) <= rounded(q),
{
    let u = precision(p);
    let v = precision(q);
    if u == v {
        lemma_nearest_order(p, q, u);
        assert(to_nearest(p, u) * u <= to_nearest(q, u) * u) by (nonlinear_arith)
            requires
                to_nearest(p, u) <= to_nearest(q, u),
                u >= 2,
        ;
    } else {
        let bound: int = if v == 4 {
            0x40_0000_0000_0000
        } else if v == 8 {
            0x80_0000_0000_0000
        } else if v == 16 {
            0x100_0000_0000_0000
        } else if v == 32 {
            0x200_0000_0000_0000
        } else if v == 64 {
            0x400_0000_0000_0000
        } else {
            0x800_0000_0000_0000
        };
        assert(p <= bound <= q);
        assert(bound % u == 0 && bound % v == 0);
        lemma_rounded_between(p, 0, bound, u);
        let high = (q / v + 1) * v;
        assert(high % v == 0 && q <= high) by (nonlinear_arith)
            requires
                high == (q / v + 1) * v,
                v >= 2,
                q >= 0,
        ;
        lemma_rounded_between(q, bound, high, v);
    }
}

/// The more the first pane gets, the less the second: a greater ratio never gives a greater second
/// pane. Ratios are ordered as their bit patterns are.
pub proof fn law_greater_ratio_gives_no_greater_second_pane(a: u64, b: u64)
    requires
        valid_ratio(a),
        valid_ratio(b),
        a <= b,
    ensures
        1 <= percent(b) <= percent(a) <= 99,
        numerator(a) <= numerator(b),
{
    lemma_numerator_bounds(a);
    lemma_numerator_bounds(b);
    lemma_numerator_order(a, b);
    lemma_percent_steps(a);
    lemma_percent_steps(b);
    lemma_nearest_order(DENOMINATOR - numerator(b), DENOMINATOR - numerator(a), 128);
    lemma_rounded_order(100 * second_share(b), 100 * second_share(a));
}

// ─── What a bit pattern stands for ───────────────────────────────────────────

/// The bit pattern `0x3fe0_0000_0000_0000` is that of one half. One more in the exponent bits is
/// twice the number, and the fraction bits go evenly from one power of two to the next. This fixes
/// the ratio of every bit pattern.
pub proof fn law_bit_patterns_of_ratios(bits: u64)
    requires
        1015 <= bits / FRACTIONS <= 1022,
    ensures
        2 * numerator(0x3fe0_0000_0000_0000) == DENOMINATOR,
        bits / FRACTIONS <= 1021 ==> numerator((bits + FRACTIONS) as u64) == 2 * numerator(bits),
        FRACTIONS * numerator(bits) == (FRACTIONS + bits % FRACTIONS) * numerator(
            (bits - bits % FRACTIONS) as u64,
        ),
{
    let f = bits % FRACTIONS;
    let m = FRACTIONS + f;
    let e = bits / FRACTIONS - 1015;
    let scale = power_of_two(e);
    assert(numerator(bits) == m * scale);
    if e <= 6 {
        let next = (bits + FRACTIONS) as u64;
        assert(next == bits + FRACTIONS);
        assert(next % FRACTIONS == f && next / FRACTIONS == bits / FRACTIONS + 1);
        assert(power_of_two(e + 1) == 2 * scale);
        assert(m * (2 * scale) == 2 * (m * scale)) by (nonlinear_arith);
    }
    let floor = (bits - f) as u64;
    assert(floor % FRACTIONS == 0 && floor / FRACTIONS == bits / FRACTIONS);
    assert(numerator(floor) == FRACTIONS * scale);
    assert(FRACTIONS * (m * scale) == m * (FRACTIONS * scale)) by (nonlinear_arith);
}

/// A ratio is a number from 0.006 up to, but not including, the double-precision number 0.99: in
/// fractions of [`DENOMINATOR`], at least 0.006, and so much below 0.99 that the next number of
/// double precision is not above it. Numbers with other exponents are all smaller, greater or none.
pub proof fn law_range_of_ratios(bits: u64, shown: Text)
    ensures
        valid_ratio(bits) <==> 1015 <= bits / FRACTIONS <= 1022 && 1000 * numerator(bits) >= 6
            * DENOMINATOR && 100 * (numerator(bits) + 128) <= 99 * DENOMINATOR,
        ratio_error(bits, shown) is None <==> valid_ratio(bits),
        !valid_ratio(bits) ==> ratio_error(bits, shown) == Some(
            seq!["split ratio must be between 0.006 (inclusive) and 0.99 (exclusive), got "@ + shown],
        ),
{
    let e = bits / FRACTIONS - 1015;
    let m = FRACTIONS + bits % FRACTIONS;
    if 0 <= e <= 7 {
        assert(numerator(bits) == m * power_of_two(e));
        if e == 0 {
            assert(m * power_of_two(e) == m);
        } else if e == 7 {
            assert(m * power_of_two(e) == 128 * m);
        } else {
            assert(2 <= power_of_two(e) <= 64);
            assert(2 * m <= m * power_of_two(e) <= 64 * m) by (nonlinear_arith)
                requires
                    m > 0,
                    2 <= power_of_two(e) <= 64,
            ;
        }
    }
}

/// Rounding gives the nearest integer, and the even one of two that are equally near.
pub proof fn law_rounding_gives_the_nearest(n: int, unit: int)
    requires
        n >= 0,
        unit >= 2,
    ensures
        -unit <= 2 * (n - unit * to_nearest(n, unit)) <= unit,
        2 * (n - unit * to_nearest(n, unit)) == unit || 2 * (n - unit * to_nearest(n, unit))
            == -unit ==> to_nearest(n, unit) % 2 == 0,
{
    let q = n / unit;
    let r = n % unit;
    assert(n == unit * q + r && 0 <= r < unit) by (nonlinear_arith)
        requires
            q == n / unit,
            r == n % unit,
            unit >= 2,
    ;
    let t = to_nearest(n, unit);
    assert(unit * (q + 1) == unit * q + unit) by (nonlinear_arith);
}

/// Products are rounded to 53 significant bits, and the percentage is the nearest integer to what
/// that gives, a half going up.
pub proof fn law_percentage_is_the_rounded_product(bits: u64, p: int)
    requires
        valid_ratio(bits),
        0x20_0000_0000_0000 <= p < 0x1000_0000_0000_0000,
    ensures
        precision(p) * 0x10_0000_0000_0000 <= p < precision(p) * 0x20_0000_0000_0000,
        rounded(p) == to_nearest(p, precision(p)) * precision(p),
        2 * percent(bits) * 0x20_0000_0000_0000 - 0x20_0000_0000_0000 <= 2 * rounded(
            100 * to_nearest(DENOMINATOR - numerator(bits), 128),
        ) < 2 * percent(bits) * 0x20_0000_0000_0000 + 0x20_0000_0000_0000,
{
}

} // verus!
