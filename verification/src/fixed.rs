//! Fixed-point scales and exact rational values.
//!
//! Every real-valued quantity of the engine is carried as an integer in a
//! fixed scale, so that all arithmetic is exact and verifiable:
//! - concentrations in units of `1 / CONC_ONE`,
//! - the dynamics parameters beta and delta in thousandths (`MILLI`),
//! - interaction weights in units of `1 / EXP_ONE`,
//! - distances in units of `1 / DIST_ONE` (one address step weighted by a
//!   full weight of eight eighths is `DIST_ONE / 32` of a distance unit),
//! - final distances as exact ratios ([`Ratio`]).

use vstd::prelude::*;
use vstd::arithmetic::div_mod::{lemma_div_is_ordered, lemma_div_multiples_vanish, lemma_div_of0};
use vstd::arithmetic::mul::{lemma_mul_inequality, lemma_mul_nonnegative};

verus! {

/// A concentration of `1.0`.
pub const CONC_ONE: u64 = 1_000_000;

/// Largest concentration a protein may carry (`1000.0`).
pub const CONC_LIMIT: u64 = 1_000_000_000;

/// Scale of beta and delta: `1000` stands for `1.0`.
pub const MILLI: u32 = 1000;

/// An interaction weight of `1.0`.
pub const EXP_ONE: u128 = 100_000;

/// Euler's number in `EXP_ONE` units.
pub const E_FIX: u128 = 271_828;

/// Upper bound on every value [`fx_exp`] returns.
pub const FX_MAX: u128 = 600_000_000_000_000_000_000;

/// A distance of `1.0`: eight weight eighths over thirty-two addresses.
pub const DIST_ONE: u64 = 256;

/// Sentinel distance charged for a protein or gene that has no same-role
/// partner to match against (`10000.0` in `DIST_ONE` units).
pub const UNMATCHED_DIST: u64 = 2_560_000;

/// Most proteins a model, and most genes a genome, may hold.
pub const N_MAX: usize = 100_000;

/// Third powers, used only to bound the fixed-point exponential.
pub open spec fn pow3(q: nat) -> int
    decreases q,
{
    if q == 0 {
        1
    } else {
        3 * pow3((q - 1) as nat)
    }
}

/// `e^q` in `EXP_ONE` units, for a whole exponent `q`, computed by repeated
/// fixed-point multiplication with `E_FIX` (each step rounds down).
pub open spec fn exp_pos(q: nat) -> int
    decreases q,
{
    if q == 0 {
        EXP_ONE as int
    } else {
        exp_pos((q - 1) as nat) * (E_FIX as int) / (EXP_ONE as int)
    }
}

/// `e^(r/1000)` in `EXP_ONE` units for `0 <= r < 1000`, from a third-order
/// series (each division rounds down).
pub open spec fn exp_frac(r: int) -> int {
    let t = r * 100;
    (EXP_ONE as int) + t + t * t / (2 * EXP_ONE as int) + t * t * t / (
    6 * (EXP_ONE as int) * (EXP_ONE as int))
}

/// `e^(x/1000)` in `EXP_ONE` units for `x >= 0`: the whole and fractional
/// parts of the exponent handled separately and recombined.
pub open spec fn fx_exp_nonneg(x: int) -> int {
    exp_pos((x / 1000) as nat) * exp_frac(x % 1000) / (EXP_ONE as int)
}

/// `e^(x/1000)` in `EXP_ONE` units; negative exponents go through the
/// reciprocal of the non-negative case.
pub open spec fn fx_exp_spec(x: int) -> int {
    if x >= 0 {
        fx_exp_nonneg(x)
    } else {
        (EXP_ONE as int) * (EXP_ONE as int) / fx_exp_nonneg(-x)
    }
}

proof fn lemma_pow3_bound_32()
    ensures
        pow3(32) == 1853020188851841int,
{
    reveal_with_fuel(pow3, 33);
}

proof fn lemma_pow3_increases(a: nat, b: nat)
    requires
        a <= b,
    ensures
        pow3(a) <= pow3(b),
        pow3(a) >= 1,
    decreases b,
{
    if a < b {
        lemma_pow3_increases(a, (b - 1) as nat);
    } else if b > 0 {
        lemma_pow3_increases((a - 1) as nat, (b - 1) as nat);
    }
}

proof fn lemma_exp_pos_bounds(q: nat)
    requires
        q <= 32,
    ensures
        EXP_ONE as int <= exp_pos(q),
        exp_pos(q) <= (EXP_ONE as int) * pow3(q),
    decreases q,
{
    if q == 0 {
        assert(exp_pos(0) == EXP_ONE as int);
    } else {
        lemma_exp_pos_bounds((q - 1) as nat);
        let w = exp_pos((q - 1) as nat);
        // lower bound: w * E_FIX / EXP_ONE >= w * EXP_ONE / EXP_ONE == w >= EXP_ONE
        lemma_mul_inequality(EXP_ONE as int, E_FIX as int, w);
        assert(w * (EXP_ONE as int) <= w * (E_FIX as int)) by (nonlinear_arith)
            requires
                w >= 0,
        ;
        lemma_div_is_ordered(w * (EXP_ONE as int), w * (E_FIX as int), EXP_ONE as int);
        lemma_div_multiples_vanish(w, EXP_ONE as int);
        // upper bound: w * E_FIX <= w * (3 * EXP_ONE), so the quotient is at most 3 * w
        assert(w * (E_FIX as int) <= w * (3 * EXP_ONE as int)) by (nonlinear_arith)
            requires
                w >= 0,
        ;
        lemma_div_is_ordered(w * (E_FIX as int), w * (3 * EXP_ONE as int), EXP_ONE as int);
        assert(w * (3 * EXP_ONE as int) == (3 * w) * (EXP_ONE as int)) by (nonlinear_arith);
        lemma_div_multiples_vanish(3 * w, EXP_ONE as int);
        assert(exp_pos(q) <= 3 * w);
        assert(3 * w <= 3 * ((EXP_ONE as int) * pow3((q - 1) as nat)));
        assert(3 * ((EXP_ONE as int) * pow3((q - 1) as nat)) == (EXP_ONE as int) * pow3(q))
            by (nonlinear_arith)
            requires
                pow3(q) == 3 * pow3((q - 1) as nat),
        ;
    }
}

proof fn lemma_exp_frac_bounds(r: int)
    requires
        0 <= r < 1000,
    ensures
        EXP_ONE as int <= exp_frac(r),
        exp_frac(r) <= 270_000,
{
    let e = EXP_ONE as int;
    let t = r * 100;
    assert(0 <= t <= 99_900);
    lemma_mul_nonnegative(t, t);
    lemma_mul_nonnegative(t * t, t);
    lemma_div_of0(2 * e);
    lemma_div_of0(6 * e * e);
    lemma_div_is_ordered(0, t * t, 2 * e);
    lemma_div_is_ordered(0, t * t * t, 6 * e * e);
    assert(t * t <= 50_000 * (2 * e)) by (nonlinear_arith)
        requires
            0 <= t <= 99_900 && e == 100_000,
    ;
    assert(t * t * t <= 16_700 * (6 * e * e)) by (nonlinear_arith)
        requires
            0 <= t <= 99_900 && e == 100_000,
    ;
    lemma_div_is_ordered(t * t, 50_000 * (2 * e), 2 * e);
    lemma_div_multiples_vanish(50_000, 2 * e);
    lemma_div_is_ordered(t * t * t, 16_700 * (6 * e * e), 6 * e * e);
    assert(6 * e * e > 0) by (nonlinear_arith)
        requires
            e == 100_000,
    ;
    lemma_div_multiples_vanish(16_700, 6 * e * e);
}

/// Both factor bounds combined: the non-negative fixed-point exponential is
/// at least one weight unit and never exceeds [`FX_MAX`].
pub proof fn lemma_fx_exp_nonneg_bounds(x: int)
    requires
        0 <= x <= 32_000,
    ensures
        EXP_ONE as int <= fx_exp_nonneg(x),
        fx_exp_nonneg(x) <= FX_MAX as int,
{
    let q = (x / 1000) as nat;
    let r = x % 1000;
    assert(q <= 32 && 0 <= r < 1000);
    lemma_exp_pos_bounds(q);
    lemma_exp_frac_bounds(r);
    let p = exp_pos(q);
    let f = exp_frac(r);
    // lower: p * f / EXP_ONE >= p * EXP_ONE / EXP_ONE == p >= EXP_ONE
    lemma_mul_inequality(EXP_ONE as int, f, p);
    assert(p * (EXP_ONE as int) <= p * f) by (nonlinear_arith)
        requires
            p >= 0 && EXP_ONE as int <= f,
    ;
    lemma_div_is_ordered(p * (EXP_ONE as int), p * f, EXP_ONE as int);
    lemma_div_multiples_vanish(p, EXP_ONE as int);
    // upper: p <= EXP_ONE * pow3(32) and f <= 270_000
    lemma_pow3_increases(q, 32);
    lemma_pow3_bound_32();
    let e = EXP_ONE as int;
    assert(p <= e * 1853020188851841int);
    assert(p * f <= 500315450990197070000int * e) by (nonlinear_arith)
        requires
            0 <= p <= e * 1853020188851841int && 0 <= f <= 270_000 && e == 100_000,
    ;
    lemma_div_is_ordered(p * f, 500315450990197070000int * e, e);
    lemma_div_multiples_vanish(500315450990197070000int, e);
}

/// The fixed-point exponential `e^(x/1000)` in `EXP_ONE` units, the weighting
/// kernel of the interaction matrices.
pub fn fx_exp(x: i64) -> (r: u128)
    requires
        -32_000 <= x <= 32_000,
    ensures
        r == fx_exp_spec(x as int),
        r <= FX_MAX,
        x >= 0 ==> r >= EXP_ONE,
{
    let y: u64 = if x < 0 {
        (-x) as u64
    } else {
        x as u64
    };
    let q: u64 = y / 1000;
    let rem: u64 = y % 1000;
    let t: u128 = (rem as u128) * 100;
    proof {
        lemma_exp_frac_bounds(rem as int);
        assert(t * t <= 99_900 * 99_900) by (nonlinear_arith)
            requires
                t <= 99_900,
        ;
        assert(t * t * t <= 99_900 * 99_900 * 99_900) by (nonlinear_arith)
            requires
                t <= 99_900,
        ;
    }
    let frac: u128 = EXP_ONE + t + t * t / (2 * EXP_ONE) + t * t * t / (6 * EXP_ONE * EXP_ONE);
    assert(frac == exp_frac(rem as int));
    let mut w: u128 = EXP_ONE;
    let mut i: u64 = 0;
    while i < q
        invariant
            i <= q,
            q <= 32,
            w == exp_pos(i as nat),
            EXP_ONE as int <= w <= (EXP_ONE as int) * pow3(i as nat),
        decreases q - i,
    {
        proof {
            lemma_exp_pos_bounds((i + 1) as nat);
            lemma_pow3_increases((i + 1) as nat, 32);
            lemma_pow3_bound_32();
            assert((EXP_ONE as int) * pow3((i + 1) as nat) <= (EXP_ONE as int)
                * 1853020188851841int) by (nonlinear_arith)
                requires
                    pow3((i + 1) as nat) <= 1853020188851841int,
            ;
            assert(w * (E_FIX as int) <= ((EXP_ONE as int) * 1853020188851841int) * (
            E_FIX as int)) by (nonlinear_arith)
                requires
                    0 <= w <= (EXP_ONE as int) * 1853020188851841int,
            ;
        }
        w = w * E_FIX / EXP_ONE;
        i = i + 1;
    }
    proof {
        lemma_exp_pos_bounds(q as nat);
        lemma_exp_frac_bounds(rem as int);
        lemma_pow3_increases(q as nat, 32);
        lemma_pow3_bound_32();
        assert(w * frac <= ((EXP_ONE as int) * 1853020188851841int) * 270_000)
            by (nonlinear_arith)
            requires
                0 <= w <= (EXP_ONE as int) * 1853020188851841int && 0 <= frac <= 270_000,
        ;
        lemma_fx_exp_nonneg_bounds(y as int);
    }
    let pos: u128 = w * frac / EXP_ONE;
    assert(pos == fx_exp_nonneg(y as int));
    if x < 0 {
        let r = EXP_ONE * EXP_ONE / pos;
        assert(r <= FX_MAX) by {
            lemma_div_is_ordered(
                EXP_ONE as int * EXP_ONE as int,
                FX_MAX as int * pos as int,
                pos as int,
            );
            lemma_div_multiples_vanish(FX_MAX as int, pos as int);
            assert(EXP_ONE as int * EXP_ONE as int <= FX_MAX as int * pos as int)
                by (nonlinear_arith)
                requires
                    pos as int >= EXP_ONE as int,
            ;
        };
        r
    } else {
        pos
    }
}

/// The character for one decimal digit.
pub open spec fn digit_char(d: int) -> char {
    if d == 0 {
        '0'
    } else if d == 1 {
        '1'
    } else if d == 2 {
        '2'
    } else if d == 3 {
        '3'
    } else if d == 4 {
        '4'
    } else if d == 5 {
        '5'
    } else if d == 6 {
        '6'
    } else if d == 7 {
        '7'
    } else if d == 8 {
        '8'
    } else {
        '9'
    }
}

/// The decimal digits of a non-negative integer, most significant first.
pub open spec fn dec_digits(n: int) -> Seq<char>
    recommends
        n >= 0,
    decreases n,
{
    if n < 10 {
        seq![digit_char(n)]
    } else {
        dec_digits(n / 10).push(digit_char(n % 10))
    }
}

/// The decimal rendering of a signed integer.
pub open spec fn dec_i32(x: int) -> Seq<char> {
    if x < 0 {
        seq!['-'] + dec_digits(-x)
    } else {
        dec_digits(x)
    }
}

/// A thousandths value rendered with two decimal places, rounded to the
/// nearest hundredth with ties up: `1000` becomes `1.00`, `500` becomes
/// `0.50`, `1999` becomes `2.00`.
pub open spec fn two_dec(b: int) -> Seq<char> {
    let h = (b + 5) / 10;
    dec_digits(h / 100) + seq!['.', digit_char(h / 10 % 10), digit_char(h % 10)]
}

/// Relies on `format!` (std's `Display` for `i32`): plain decimal digits,
/// with a leading minus sign for negative values.
#[verifier::external_body]
pub fn fmt_i32(x: i32) -> (r: String)
    ensures
        r@ == dec_i32(x as int),
{
    format!("{}", x)
}

/// Relies on `format!` (std's `Display` for `bool`): the words `true` and
/// `false`.
#[verifier::external_body]
pub fn fmt_bool(b: bool) -> (r: String)
    ensures
        b ==> r@ == seq!['t', 'r', 'u', 'e'],
        !b ==> r@ == seq!['f', 'a', 'l', 's', 'e'],
{
    format!("{}", b)
}

/// A thousandths value rendered with two decimal places, rounded to the
/// nearest hundredth (ties up): the whole part, a point, and two digits.
pub fn render_two_dec(b: u32) -> (r: String)
    ensures
        r@ == two_dec(b as int),
{
    let h: u64 = ((b as u64) + 5) / 10;
    let mut s = fmt_i32((h / 100) as i32);
    let tenths = fmt_i32((h / 10 % 10) as i32);
    let hundredths = fmt_i32((h % 10) as i32);
    s.append(".");
    s.append(tenths.as_str());
    s.append(hundredths.as_str());
    proof {
        reveal_strlit(".");
        assert(dec_digits((h / 10 % 10) as int) =~= seq![digit_char((h / 10 % 10) as int)]);
        assert(dec_digits((h % 10) as int) =~= seq![digit_char((h % 10) as int)]);
        assert(s@ =~= two_dec(b as int));
    }
    s
}

/// An exact non-negative rational: distances are reported in this form so
/// that comparisons against thresholds need no rounding at all.
#[derive(Clone, Copy, Debug, PartialEq, Eq, Structural)]
pub struct Ratio {
    pub num: u64,
    pub den: u64,
}

impl Ratio {
    /// A well-formed ratio has a positive denominator.
    pub open spec fn wf(self) -> bool {
        self.den > 0
    }

    pub fn new(num: u64, den: u64) -> (r: Ratio)
        ensures
            r.num == num && r.den == den,
    {
        Ratio { num, den }
    }

    /// Exact comparison `self <= other` by cross-multiplication.
    pub fn le(&self, other: &Ratio) -> (r: bool)
        ensures
            r == ((self.num as int) * (other.den as int) <= (other.num as int) * (
            self.den as int)),
    {
        proof {
            assert((self.num as int) * (other.den as int) <= 0xffff_ffff_ffff_ffffint
                * 0xffff_ffff_ffff_ffffint) by (nonlinear_arith)
                requires
                    0 <= self.num as int <= 0xffff_ffff_ffff_ffffint && 0 <= other.den as int
                        <= 0xffff_ffff_ffff_ffffint,
            ;
            assert((other.num as int) * (self.den as int) <= 0xffff_ffff_ffff_ffffint
                * 0xffff_ffff_ffff_ffffint) by (nonlinear_arith)
                requires
                    0 <= other.num as int <= 0xffff_ffff_ffff_ffffint && 0 <= self.den as int
                        <= 0xffff_ffff_ffff_ffffint,
            ;
        }
        let a: u128 = (self.num as u128) * (other.den as u128);
        let b: u128 = (other.num as u128) * (self.den as u128);
        a <= b
    }
}

} // verus!
