//! The GRN dynamical model: a sequence of proteins, the precomputed
//! interaction-weight matrices derived from their addresses, and the
//! synchronous concentration-update rule.

use vstd::prelude::*;
use crate::fixed::{CONC_ONE, CONC_LIMIT, EXP_ONE, FX_MAX, N_MAX, UNMATCHED_DIST, Ratio, fx_exp,
    fx_exp_spec};
use crate::grn::grn_protein::{GrnProtein, abs_diff, prot_dist, INPUT_PROTEIN, OUTPUT_PROTEIN,
    IDSIZE};

verus! {

/// The larger of two integers.
pub open spec fn int_max(a: int, b: int) -> int {
    if a >= b {
        a
    } else {
        b
    }
}

/// Raw enhancing affinity of pair `(j, k)`: how close protein `j`'s enhancer
/// address is to protein `k`'s identity, on a scale from near `0` (far) to
/// `IDSIZE` (exact match).
pub open spec fn raw_enh(p: Seq<GrnProtein>, j: int, k: int) -> int {
    IDSIZE - abs_diff(p[j].enhancer as int, p[k].id as int)
}

/// Raw inhibiting affinity of pair `(j, k)`.
pub open spec fn raw_inh(p: Seq<GrnProtein>, j: int, k: int) -> int {
    IDSIZE - abs_diff(p[j].inhibiter as int, p[k].id as int)
}

/// Largest raw enhancing affinity in row `j` over columns `[0, k)`.
pub open spec fn row_max_enh(p: Seq<GrnProtein>, j: int, k: int) -> int
    decreases k,
{
    if k <= 0 {
        0
    } else {
        int_max(row_max_enh(p, j, k - 1), raw_enh(p, j, k - 1))
    }
}

/// Largest raw inhibiting affinity in row `j` over columns `[0, k)`.
pub open spec fn row_max_inh(p: Seq<GrnProtein>, j: int, k: int) -> int
    decreases k,
{
    if k <= 0 {
        0
    } else {
        int_max(row_max_inh(p, j, k - 1), raw_inh(p, j, k - 1))
    }
}

/// Largest raw enhancing affinity over rows `[0, j)` (full rows).
pub open spec fn max_enh_upto(p: Seq<GrnProtein>, j: int) -> int
    decreases j,
{
    if j <= 0 {
        0
    } else {
        int_max(max_enh_upto(p, j - 1), row_max_enh(p, j - 1, p.len() as int))
    }
}

/// Largest raw inhibiting affinity over rows `[0, j)` (full rows).
pub open spec fn max_inh_upto(p: Seq<GrnProtein>, j: int) -> int
    decreases j,
{
    if j <= 0 {
        0
    } else {
        int_max(max_inh_upto(p, j - 1), row_max_inh(p, j - 1, p.len() as int))
    }
}

/// Global maximum raw enhancing affinity (0 for an empty model).
pub open spec fn max_enh(p: Seq<GrnProtein>) -> int {
    max_enh_upto(p, p.len() as int)
}

/// Global maximum raw inhibiting affinity (0 for an empty model).
pub open spec fn max_inh(p: Seq<GrnProtein>) -> int {
    max_inh_upto(p, p.len() as int)
}

/// The enhancing weight of pair `(j, k)`: the fixed-point exponential of
/// `beta * raw - max_raw`, beta in thousandths — the numerically stabilized
/// sharpening kernel (note the subtrahend is the unscaled maximum).
pub open spec fn enh_weight(p: Seq<GrnProtein>, beta: int, j: int, k: int) -> int {
    fx_exp_spec(beta * raw_enh(p, j, k) - 1000 * max_enh(p))
}

/// The inhibiting weight of pair `(j, k)`.
pub open spec fn inh_weight(p: Seq<GrnProtein>, beta: int, j: int, k: int) -> int {
    fx_exp_spec(beta * raw_inh(p, j, k) - 1000 * max_inh(p))
}

proof fn lemma_row_max_enh_ge(p: Seq<GrnProtein>, j: int, k: int, kk: int)
    requires
        0 <= kk < k,
    ensures
        raw_enh(p, j, kk) <= row_max_enh(p, j, k),
        row_max_enh(p, j, kk) <= row_max_enh(p, j, k),
    decreases k,
{
    if kk < k - 1 {
        lemma_row_max_enh_ge(p, j, k - 1, kk);
    }
}

proof fn lemma_row_max_inh_ge(p: Seq<GrnProtein>, j: int, k: int, kk: int)
    requires
        0 <= kk < k,
    ensures
        raw_inh(p, j, kk) <= row_max_inh(p, j, k),
        row_max_inh(p, j, kk) <= row_max_inh(p, j, k),
    decreases k,
{
    if kk < k - 1 {
        lemma_row_max_inh_ge(p, j, k - 1, kk);
    }
}

proof fn lemma_max_enh_ge(p: Seq<GrnProtein>, j: int, jj: int)
    requires
        0 <= jj < j,
    ensures
        row_max_enh(p, jj, p.len() as int) <= max_enh_upto(p, j),
    decreases j,
{
    if jj < j - 1 {
        lemma_max_enh_ge(p, j - 1, jj);
    }
}

proof fn lemma_max_inh_ge(p: Seq<GrnProtein>, j: int, jj: int)
    requires
        0 <= jj < j,
    ensures
        row_max_inh(p, jj, p.len() as int) <= max_inh_upto(p, j),
    decreases j,
{
    if jj < j - 1 {
        lemma_max_inh_ge(p, j - 1, jj);
    }
}

/// Every raw affinity is at most the global maximum, and for well-formed
/// proteins both lie in `[0, IDSIZE]`.
proof fn lemma_raw_le_max(p: Seq<GrnProtein>, j: int, k: int)
    requires
        0 <= j < p.len(),
        0 <= k < p.len(),
    ensures
        raw_enh(p, j, k) <= max_enh(p),
        raw_inh(p, j, k) <= max_inh(p),
{
    lemma_row_max_enh_ge(p, j, p.len() as int, k);
    lemma_max_enh_ge(p, p.len() as int, j);
    lemma_row_max_inh_ge(p, j, p.len() as int, k);
    lemma_max_inh_ge(p, p.len() as int, j);
}

/// The matrix rows as a sequence of sequences.
pub open spec fn mat_of(m: Seq<Vec<u128>>) -> Seq<Seq<u128>> {
    Seq::new(m.len(), |j: int| m[j]@)
}

/// The signal fed into one protein by the proteins in `[0, upto)`: each
/// non-output protein contributes its concentration times its weight in
/// `row`; output proteins feed nothing.
pub open spec fn signal_upto(p: Seq<GrnProtein>, row: Seq<u128>, upto: int) -> int
    decreases upto,
{
    if upto <= 0 {
        0
    } else {
        signal_upto(p, row, upto - 1) + if p[upto - 1].type_ != OUTPUT_PROTEIN {
            (p[upto - 1].concentration as int) * (row[upto - 1] as int)
        } else {
            0
        }
    }
}

/// The concentration of protein `j` after one synchronous update, before
/// normalization: inputs keep their concentration; every other protein moves
/// by `delta / n` times its net signal (in concentration units), floored at
/// zero and saturated at `CONC_LIMIT`.
pub open spec fn stepped_conc(
    p: Seq<GrnProtein>,
    em: Seq<Seq<u128>>,
    im: Seq<Seq<u128>>,
    delta: int,
    j: int,
) -> int {
    let n = p.len() as int;
    let c = p[j].concentration as int;
    if p[j].type_ == INPUT_PROTEIN {
        c
    } else {
        let e = signal_upto(p, em[j], n);
        let i = signal_upto(p, im[j], n);
        if e >= i {
            let add = delta * (e - i) / (1000 * n * (EXP_ONE as int));
            if c + add > CONC_LIMIT {
                CONC_LIMIT as int
            } else {
                c + add
            }
        } else {
            let sub = delta * (i - e) / (1000 * n * (EXP_ONE as int));
            if sub >= c {
                0
            } else {
                c - sub
            }
        }
    }
}

/// All proteins after one synchronous update, before normalization.
pub open spec fn step_raw(
    p: Seq<GrnProtein>,
    em: Seq<Seq<u128>>,
    im: Seq<Seq<u128>>,
    delta: int,
) -> Seq<GrnProtein> {
    Seq::new(
        p.len(),
        |j: int| GrnProtein { concentration: stepped_conc(p, em, im, delta, j) as u64, ..p[j] },
    )
}

/// Total concentration of the non-input proteins in `[0, upto)`.
pub open spec fn nonin_total_upto(p: Seq<GrnProtein>, upto: int) -> int
    decreases upto,
{
    if upto <= 0 {
        0
    } else {
        nonin_total_upto(p, upto - 1) + if p[upto - 1].type_ != INPUT_PROTEIN {
            p[upto - 1].concentration as int
        } else {
            0
        }
    }
}

/// Total concentration of all non-input proteins.
pub open spec fn nonin_total(p: Seq<GrnProtein>) -> int {
    nonin_total_upto(p, p.len() as int)
}

/// How many proteins in `[0, upto)` are not inputs.
pub open spec fn nonin_count_upto(p: Seq<GrnProtein>, upto: int) -> int
    decreases upto,
{
    if upto <= 0 {
        0
    } else {
        nonin_count_upto(p, upto - 1) + if p[upto - 1].type_ != INPUT_PROTEIN {
            1int
        } else {
            0int
        }
    }
}

/// Renormalization: if the non-input proteins carry any concentration at
/// all, each is divided by their total so that together they carry
/// (up to rounding) one unit; inputs are left untouched.
pub open spec fn normalize(p: Seq<GrnProtein>) -> Seq<GrnProtein> {
    let t = nonin_total(p);
    if t == 0 {
        p
    } else {
        Seq::new(
            p.len(),
            |j: int|
                if p[j].type_ == INPUT_PROTEIN {
                    p[j]
                } else {
                    GrnProtein {
                        concentration: ((p[j].concentration as int) * (CONC_ONE as int) / t) as u64,
                        ..p[j]
                    }
                },
        )
    }
}

/// One full synchronous step: update every protein from the previous state,
/// then renormalize the non-input concentrations.
pub open spec fn step_once(
    p: Seq<GrnProtein>,
    em: Seq<Seq<u128>>,
    im: Seq<Seq<u128>>,
    delta: int,
) -> Seq<GrnProtein> {
    normalize(step_raw(p, em, im, delta))
}

/// `k` synchronous steps from `p`.
pub open spec fn spec_evolve(
    p: Seq<GrnProtein>,
    em: Seq<Seq<u128>>,
    im: Seq<Seq<u128>>,
    delta: int,
    k: nat,
) -> Seq<GrnProtein>
    decreases k,
{
    if k == 0 {
        p
    } else {
        step_once(spec_evolve(p, em, im, delta, (k - 1) as nat), em, im, delta)
    }
}

proof fn lemma_nonin_total_nonneg(p: Seq<GrnProtein>, upto: int)
    ensures
        nonin_total_upto(p, upto) >= 0,
    decreases upto,
{
    if upto > 0 {
        lemma_nonin_total_nonneg(p, upto - 1);
    }
}

proof fn lemma_nonin_total_monotone(p: Seq<GrnProtein>, a: int, b: int)
    requires
        a <= b,
    ensures
        nonin_total_upto(p, a) <= nonin_total_upto(p, b),
    decreases b - a,
{
    if a < b {
        lemma_nonin_total_monotone(p, a, b - 1);
    }
}

/// A non-input protein's concentration never exceeds the non-input total.
proof fn lemma_nonin_elem_le_total(p: Seq<GrnProtein>, j: int)
    requires
        0 <= j < p.len(),
        p[j].type_ != INPUT_PROTEIN,
    ensures
        p[j].concentration as int <= nonin_total(p),
{
    lemma_nonin_total_nonneg(p, j);
    assert(nonin_total_upto(p, j + 1) == nonin_total_upto(p, j) + p[j].concentration as int);
    lemma_nonin_total_monotone(p, j + 1, p.len() as int);
}

proof fn lemma_norm_prefix(p: Seq<GrnProtein>, upto: int)
    requires
        nonin_total(p) > 0,
        0 <= upto <= p.len(),
    ensures
        nonin_total(p) * nonin_total_upto(normalize(p), upto) <= (CONC_ONE as int)
            * nonin_total_upto(p, upto),
        nonin_total(p) * nonin_total_upto(normalize(p), upto) >= (CONC_ONE as int)
            * nonin_total_upto(p, upto) - nonin_count_upto(p, upto) * nonin_total(p),
    decreases upto,
{
    let t = nonin_total(p);
    let np = normalize(p);
    let s = CONC_ONE as int;
    if upto == 0 {
        assert(t * 0 == 0) by (nonlinear_arith);
        assert(s * 0 == 0) by (nonlinear_arith);
        assert(0 * t == 0) by (nonlinear_arith);
    } else {
        lemma_norm_prefix(p, upto - 1);
        let j = upto - 1;
        let ta = nonin_total_upto(np, j);
        let pa = nonin_total_upto(p, j);
        let ma = nonin_count_upto(p, j);
        if p[j].type_ != INPUT_PROTEIN {
            lemma_nonin_elem_le_total(p, j);
            let c = p[j].concentration as int;
            let q = c * s / t;
            vstd::arithmetic::mul::lemma_mul_nonnegative(c, s);
            vstd::arithmetic::div_mod::lemma_div_pos_is_pos(c * s, t);
            assert(c * s <= t * s) by (nonlinear_arith)
                requires
                    0 <= c <= t && s >= 0,
            ;
            vstd::arithmetic::div_mod::lemma_div_is_ordered(c * s, t * s, t);
            vstd::arithmetic::div_mod::lemma_div_multiples_vanish(s, t);
            assert(q <= s);
            assert(np[j].concentration as int == q);
            vstd::arithmetic::div_mod::lemma_fundamental_div_mod(c * s, t);
            vstd::arithmetic::div_mod::lemma_mod_bound(c * s, t);
            assert(t * q <= c * s && t * q > c * s - t);
            assert(t * (ta + q) == t * ta + t * q) by (nonlinear_arith);
            assert(s * (pa + c) == s * pa + s * c) by (nonlinear_arith);
            assert((ma + 1) * t == ma * t + t) by (nonlinear_arith);
            assert(s * c == c * s) by (nonlinear_arith);
        } else {
            assert(np[j] == p[j]);
        }
    }
}

proof fn lemma_step_raw_counts(
    p: Seq<GrnProtein>,
    em: Seq<Seq<u128>>,
    im: Seq<Seq<u128>>,
    delta: int,
    upto: int,
)
    requires
        0 <= upto <= p.len(),
    ensures
        nonin_count_upto(step_raw(p, em, im, delta), upto) == nonin_count_upto(p, upto),
    decreases upto,
{
    if upto > 0 {
        lemma_step_raw_counts(p, em, im, delta, upto - 1);
    }
}

/// After a step whose update left the non-input proteins with any
/// concentration at all, normalization brings their total back to one unit,
/// up to one rounding unit per non-input protein: the total lands in
/// `(CONC_ONE - m, CONC_ONE]` where `m` counts the non-input proteins.
pub proof fn lemma_step_total_normalized(
    p: Seq<GrnProtein>,
    em: Seq<Seq<u128>>,
    im: Seq<Seq<u128>>,
    delta: int,
)
    requires
        nonin_total(step_raw(p, em, im, delta)) > 0,
    ensures
        nonin_total(step_once(p, em, im, delta)) <= CONC_ONE as int,
        nonin_total(step_once(p, em, im, delta)) >= (CONC_ONE as int) - nonin_count_upto(
            p,
            p.len() as int,
        ),
{
    let raw = step_raw(p, em, im, delta);
    let t = nonin_total(raw);
    let s = CONC_ONE as int;
    let len = raw.len() as int;
    lemma_norm_prefix(raw, len);
    lemma_step_raw_counts(p, em, im, delta, p.len() as int);
    let tn = nonin_total(normalize(raw));
    let m = nonin_count_upto(raw, len);
    assert(t * tn <= s * t) by (nonlinear_arith)
        requires
            t * tn <= s * nonin_total_upto(raw, len) && nonin_total_upto(raw, len) == t && s
                >= 0,
    ;
    assert(tn <= s) by (nonlinear_arith)
        requires
            t * tn <= s * t && t > 0,
    ;
    assert(t * tn >= s * t - m * t) by (nonlinear_arith)
        requires
            t * tn >= s * nonin_total_upto(raw, len) - m * t && nonin_total_upto(raw, len) == t
                && s >= 0,
    ;
    assert(tn >= s - m) by (nonlinear_arith)
        requires
            t * tn >= s * t - m * t && t > 0,
    ;
}

/// Stepping is memoryless in everything but the proteins: `a + b` steps are
/// exactly `a` steps followed by another `b`.
pub proof fn lemma_evolve_additive(
    p: Seq<GrnProtein>,
    em: Seq<Seq<u128>>,
    im: Seq<Seq<u128>>,
    delta: int,
    a: nat,
    b: nat,
)
    ensures
        spec_evolve(p, em, im, delta, a + b) == spec_evolve(
            spec_evolve(p, em, im, delta, a),
            em,
            im,
            delta,
            b,
        ),
    decreases b,
{
    if b > 0 {
        lemma_evolve_additive(p, em, im, delta, a, (b - 1) as nat);
        assert(a + b == (a + (b - 1) as nat) + 1);
    }
}

/// The least weighted distance from `q` to a same-role protein among the
/// first `upto` of `small`, or `UNMATCHED_DIST` if none shares `q`'s role.
pub open spec fn min_same_role_dist(
    q: GrnProtein,
    small: Seq<GrnProtein>,
    upto: int,
    pw: int,
    ew: int,
    iw: int,
) -> int
    decreases upto,
{
    if upto <= 0 {
        UNMATCHED_DIST as int
    } else {
        let prev = min_same_role_dist(q, small, upto - 1, pw, ew, iw);
        let d = prot_dist(q, small[upto - 1], pw, ew, iw);
        if small[upto - 1].type_ == q.type_ && d < prev {
            d
        } else {
            prev
        }
    }
}

/// Sum over the first `upto` proteins of `large` of their best same-role
/// match in `small` — the directed (large-to-small) raw distance, in
/// `1 / 256` units.
pub open spec fn model_dist_sum(
    large: Seq<GrnProtein>,
    small: Seq<GrnProtein>,
    upto: int,
    pw: int,
    ew: int,
    iw: int,
) -> int
    decreases upto,
{
    if upto <= 0 {
        0
    } else {
        model_dist_sum(large, small, upto - 1, pw, ew, iw) + min_same_role_dist(
            large[upto - 1],
            small,
            small.len() as int,
            pw,
            ew,
            iw,
        )
    }
}

/// The exact value of the directed model distance, as a numerator and a
/// denominator: the smaller model (by protein count) is matched into from
/// every protein of the larger, and the dynamics coefficients, when
/// included, add their normalized differences and widen the denominator
/// from `|large|` to `|large| + 2`.
pub open spec fn model_dist_ratio(
    a: GrnModel,
    b: GrnModel,
    compare_dynamics_coeff: bool,
    pw: int,
    ew: int,
    iw: int,
    bmax: int,
    bmin: int,
    dmax: int,
    dmin: int,
) -> (int, int) {
    let gs = if a.proteins@.len() < b.proteins@.len() {
        a.proteins@
    } else {
        b.proteins@
    };
    let gl = if a.proteins@.len() < b.proteins@.len() {
        b.proteins@
    } else {
        a.proteins@
    };
    let sum = model_dist_sum(gl, gs, gl.len() as int, pw, ew, iw);
    if compare_dynamics_coeff {
        let bden = bmax - bmin;
        let dden = dmax - dmin;
        let db = abs_diff(a.beta as int, b.beta as int);
        let dd = abs_diff(a.delta as int, b.delta as int);
        (
            sum * bden * dden + db * 256 * dden + dd * 256 * bden,
            256 * bden * dden * (gl.len() + 2),
        )
    } else {
        (sum, 256 * gl.len() as int)
    }
}

/// The phenotype: proteins (their order is the index space of the matrices),
/// the dynamics parameters beta and delta in thousandths, the step counter,
/// the maxima of the raw address affinities, and the two weight matrices in
/// `1 / EXP_ONE` units.
#[derive(Debug)]
pub struct GrnModel {
    pub beta: u32,
    pub delta: u32,
    pub current_step: i32,
    pub max_enhance: u32,
    pub max_inhibit: u32,
    pub enhance_matching: Vec<Vec<u128>>,
    pub inhibit_matching: Vec<Vec<u128>>,
    pub proteins: Vec<GrnProtein>,
}

impl GrnModel {
    /// Every protein is well formed, the model is small enough to step, the
    /// dynamics parameters stay within their scale, and both matrices are
    /// square over the proteins with every weight bounded by `FX_MAX`.
    pub open spec fn wf(self) -> bool {
        &&& self.proteins@.len() <= N_MAX
        &&& forall|j: int| 0 <= j < self.proteins@.len() ==> (#[trigger] self.proteins@[j]).wf()
        &&& self.beta <= 2000
        &&& self.delta <= 2000
        &&& self.enhance_matching@.len() == self.proteins@.len()
        &&& self.inhibit_matching@.len() == self.proteins@.len()
        &&& forall|j: int|
            0 <= j < self.proteins@.len() ==> (#[trigger] self.enhance_matching@[j])@.len()
                == self.proteins@.len()
        &&& forall|j: int|
            0 <= j < self.proteins@.len() ==> (#[trigger] self.inhibit_matching@[j])@.len()
                == self.proteins@.len()
        &&& forall|j: int, k: int|
            0 <= j < self.proteins@.len() && 0 <= k < self.proteins@.len()
                ==> (#[trigger] self.enhance_matching@[j]@[k]) <= FX_MAX
        &&& forall|j: int, k: int|
            0 <= j < self.proteins@.len() && 0 <= k < self.proteins@.len()
                ==> (#[trigger] self.inhibit_matching@[j]@[k]) <= FX_MAX
    }

    /// A model over the given proteins with beta and delta in thousandths;
    /// the matrices start empty and must be computed by
    /// `update_signature` before the model is stepped.
    pub fn new(p: Vec<GrnProtein>, beta: u32, delta: u32) -> (r: GrnModel)
        ensures
            r.proteins == p,
            r.beta == beta,
            r.delta == delta,
            r.current_step == 0,
            r.enhance_matching@.len() == 0,
            r.inhibit_matching@.len() == 0,
    {
        GrnModel {
            beta,
            delta,
            proteins: p,
            current_step: 0,
            max_enhance: 0,
            max_inhibit: 0,
            enhance_matching: Vec::new(),
            inhibit_matching: Vec::new(),
        }
    }

    /// An empty model: no proteins, beta and delta zero.
    pub fn new_default() -> (r: GrnModel)
        ensures
            r.proteins@.len() == 0,
            r.beta == 0,
            r.delta == 0,
            r.current_step == 0,
            r.enhance_matching@.len() == 0,
            r.inhibit_matching@.len() == 0,
            r.wf(),
    {
        GrnModel {
            beta: 0,
            delta: 0,
            proteins: Vec::new(),
            current_step: 0,
            max_enhance: 0,
            max_inhibit: 0,
            enhance_matching: Vec::new(),
            inhibit_matching: Vec::new(),
        }
    }

    /// The directed distance to another model as an exact ratio: every
    /// protein of the larger model is charged its best same-role match in
    /// the smaller one (`UNMATCHED_DIST` when no protein there shares its
    /// role), normalized by the larger protein count — plus, when asked,
    /// the normalized beta and delta differences, with the count widened by
    /// two.  Only large-to-small matches are computed, so the distance is
    /// deliberately not symmetric in general.
    pub fn distance_to(
        &self,
        g: &GrnModel,
        compare_dynamics_coeff: bool,
        prot_coef: u64,
        enh_coef: u64,
        inh_coef: u64,
        beta_max: u32,
        beta_min: u32,
        delta_max: u32,
        delta_min: u32,
    ) -> (r: Ratio)
        requires
            self.wf(),
            g.wf(),
            prot_coef <= 1000 && enh_coef <= 1000 && inh_coef <= 1000,
            compare_dynamics_coeff ==> beta_min < beta_max <= 2000 && delta_min < delta_max
                <= 2000,
            !compare_dynamics_coeff ==> self.proteins@.len() + g.proteins@.len() > 0,
        ensures
            r.num == model_dist_ratio(
                *self,
                *g,
                compare_dynamics_coeff,
                prot_coef as int,
                enh_coef as int,
                inh_coef as int,
                beta_max as int,
                beta_min as int,
                delta_max as int,
                delta_min as int,
            ).0,
            r.den == model_dist_ratio(
                *self,
                *g,
                compare_dynamics_coeff,
                prot_coef as int,
                enh_coef as int,
                inh_coef as int,
                beta_max as int,
                beta_min as int,
                delta_max as int,
                delta_min as int,
            ).1,
            r.wf(),
    {
        let gs: &GrnModel;
        let gl: &GrnModel;
        if self.proteins.len() < g.proteins.len() {
            gs = self;
            gl = g;
        } else {
            gs = g;
            gl = self;
        }
        let ghost glp = gl.proteins@;
        let ghost gsp = gs.proteins@;
        let nl = gl.proteins.len();
        let ns = gs.proteins.len();
        let mut sum: u64 = 0;
        let mut j: usize = 0;
        while j < nl
            invariant
                j <= nl,
                nl == glp.len(),
                ns == gsp.len(),
                nl <= N_MAX,
                glp == gl.proteins@,
                gsp == gs.proteins@,
                gl.wf(),
                gs.wf(),
                prot_coef <= 1000 && enh_coef <= 1000 && inh_coef <= 1000,
                sum == model_dist_sum(
                    glp,
                    gsp,
                    j as int,
                    prot_coef as int,
                    enh_coef as int,
                    inh_coef as int,
                ),
                sum <= j * (UNMATCHED_DIST as int),
            decreases nl - j,
        {
            let q = gl.proteins[j];
            let mut min_d: u64 = UNMATCHED_DIST;
            let mut k: usize = 0;
            while k < ns
                invariant
                    j < nl,
                    k <= ns,
                    nl == glp.len(),
                    ns == gsp.len(),
                    glp == gl.proteins@,
                    gsp == gs.proteins@,
                    gl.wf(),
                    gs.wf(),
                    prot_coef <= 1000 && enh_coef <= 1000 && inh_coef <= 1000,
                    q == glp[j as int],
                    min_d == min_same_role_dist(
                        q,
                        gsp,
                        k as int,
                        prot_coef as int,
                        enh_coef as int,
                        inh_coef as int,
                    ),
                    min_d <= UNMATCHED_DIST,
                decreases ns - k,
            {
                let cand = gs.proteins[k];
                let d = q.distance_to(&cand, prot_coef, enh_coef, inh_coef);
                if cand.type_ == q.type_ && d < min_d {
                    min_d = d;
                }
                k = k + 1;
            }
            proof {
                assert((j + 1) * (UNMATCHED_DIST as int) == j * (UNMATCHED_DIST as int)
                    + UNMATCHED_DIST as int) by (nonlinear_arith);
                assert((j + 1) * (UNMATCHED_DIST as int) <= 100_000 * (UNMATCHED_DIST as int))
                    by (nonlinear_arith)
                    requires
                        j + 1 <= 100_000,
                ;
            }
            sum = sum + min_d;
            j = j + 1;
        }
        proof {
            assert(sum <= 100_000 * (UNMATCHED_DIST as int)) by (nonlinear_arith)
                requires
                    sum <= nl * (UNMATCHED_DIST as int) && nl <= 100_000,
            ;
        }
        if compare_dynamics_coeff {
            let bden: u64 = (beta_max - beta_min) as u64;
            let dden: u64 = (delta_max - delta_min) as u64;
            let db: u64 = if self.beta >= g.beta {
                (self.beta - g.beta) as u64
            } else {
                (g.beta - self.beta) as u64
            };
            let dd: u64 = if self.delta >= g.delta {
                (self.delta - g.delta) as u64
            } else {
                (g.delta - self.delta) as u64
            };
            proof {
                assert((sum as int) * (bden as int) <= 5_120_000_000_000_000int)
                    by (nonlinear_arith)
                    requires
                        0 <= sum as int <= 2_560_000_000_000int && 0 <= bden as int <= 2000,
                ;
                assert((sum as int) * (bden as int) * (dden as int)
                    <= 10_240_000_000_000_000_000int) by (nonlinear_arith)
                    requires
                        0 <= (sum as int) * (bden as int) <= 5_120_000_000_000_000int && 0
                            <= dden as int <= 2000,
                ;
                assert((db as int) * 256 * (dden as int) <= 1_024_000_000int)
                    by (nonlinear_arith)
                    requires
                        0 <= db as int <= 2000 && 0 <= dden as int <= 2000,
                ;
                assert((dd as int) * 256 * (bden as int) <= 1_024_000_000int)
                    by (nonlinear_arith)
                    requires
                        0 <= dd as int <= 2000 && 0 <= bden as int <= 2000,
                ;
                assert(256 * (bden as int) * (dden as int) <= 1_024_000_000int)
                    by (nonlinear_arith)
                    requires
                        0 < bden as int <= 2000 && 0 < dden as int <= 2000,
                ;
                assert(256 * (bden as int) * (dden as int) * ((nl as int) + 2)
                    <= 1_024_000_000int * 100_002) by (nonlinear_arith)
                    requires
                        0 <= 256 * (bden as int) * (dden as int) <= 1_024_000_000int && 0 <= (
                        nl as int) + 2 <= 100_002,
                ;
                assert(256 * (bden as int) * (dden as int) * ((nl as int) + 2) > 0)
                    by (nonlinear_arith)
                    requires
                        0 < bden as int && 0 < dden as int && nl >= 0,
                ;
            }
            let num128: u128 = (sum as u128) * (bden as u128) * (dden as u128) + (db as u128)
                * 256 * (dden as u128) + (dd as u128) * 256 * (bden as u128);
            let den128: u128 = 256 * (bden as u128) * (dden as u128) * ((nl as u128) + 2);
            Ratio { num: num128 as u64, den: den128 as u64 }
        } else {
            Ratio { num: sum, den: 256 * (nl as u64) }
        }
    }

    pub fn get_proteins(&self) -> (r: &Vec<GrnProtein>)
        ensures
            r == self.proteins,
    {
        &self.proteins
    }

    /// Recompute the raw-affinity maxima and both weight matrices from the
    /// current proteins and beta.  Must be run after construction, loading,
    /// or any change to the proteins, their addresses, or beta; the whole
    /// signature is rebuilt from scratch.
    pub fn update_signature(&mut self)
        requires
            old(self).proteins@.len() <= N_MAX,
            forall|i: int|
                0 <= i < old(self).proteins@.len() ==> (#[trigger] old(self).proteins@[i]).wf(),
            old(self).beta <= 2000,
            old(self).delta <= 2000,
        ensures
            final(self).proteins == old(self).proteins,
            final(self).beta == old(self).beta,
            final(self).delta == old(self).delta,
            final(self).current_step == old(self).current_step,
            final(self).max_enhance == max_enh(old(self).proteins@),
            final(self).max_inhibit == max_inh(old(self).proteins@),
            final(self).enhance_matching@.len() == old(self).proteins@.len(),
            final(self).inhibit_matching@.len() == old(self).proteins@.len(),
            forall|j: int, k: int|
                0 <= j < old(self).proteins@.len() && 0 <= k < old(self).proteins@.len()
                    ==> #[trigger] final(self).enhance_matching@[j]@[k] == enh_weight(
                    old(self).proteins@,
                    old(self).beta as int,
                    j,
                    k,
                ),
            forall|j: int, k: int|
                0 <= j < old(self).proteins@.len() && 0 <= k < old(self).proteins@.len()
                    ==> #[trigger] final(self).inhibit_matching@[j]@[k] == inh_weight(
                    old(self).proteins@,
                    old(self).beta as int,
                    j,
                    k,
                ),
            final(self).wf(),
    {
        let ghost p = self.proteins@;
        let n = self.proteins.len();
        // first pass: the global maxima of the raw affinities
        let mut me: i64 = 0;
        let mut mi: i64 = 0;
        let mut j: usize = 0;
        while j < n
            invariant
                j <= n,
                n == p.len(),
                self == old(self),
                p == self.proteins@,
                forall|i: int| 0 <= i < p.len() ==> (#[trigger] p[i]).wf(),
                me == max_enh_upto(p, j as int),
                mi == max_inh_upto(p, j as int),
                0 <= me <= IDSIZE,
                0 <= mi <= IDSIZE,
            decreases n - j,
        {
            let mut k: usize = 0;
            while k < n
                invariant
                    j < n,
                    k <= n,
                    n == p.len(),
                    self == old(self),
                    p == self.proteins@,
                    forall|i: int| 0 <= i < p.len() ==> (#[trigger] p[i]).wf(),
                    me == int_max(max_enh_upto(p, j as int), row_max_enh(p, j as int, k as int)),
                    mi == int_max(max_inh_upto(p, j as int), row_max_inh(p, j as int, k as int)),
                    0 <= me <= IDSIZE,
                    0 <= mi <= IDSIZE,
                decreases n - k,
            {
                let pj = self.proteins[j];
                let pk = self.proteins[k];
                let de: i32 = if pj.enhancer >= pk.id {
                    pj.enhancer - pk.id
                } else {
                    pk.id - pj.enhancer
                };
                let re: i64 = (IDSIZE - de) as i64;
                if re > me {
                    me = re;
                }
                let di: i32 = if pj.inhibiter >= pk.id {
                    pj.inhibiter - pk.id
                } else {
                    pk.id - pj.inhibiter
                };
                let ri: i64 = (IDSIZE - di) as i64;
                if ri > mi {
                    mi = ri;
                }
                k = k + 1;
            }
            j = j + 1;
        }
        assert(me == max_enh(p));
        assert(mi == max_inh(p));
        // second pass: the exponential weighting of every raw affinity
        let beta = self.beta;
        let mut em: Vec<Vec<u128>> = Vec::new();
        let mut im: Vec<Vec<u128>> = Vec::new();
        j = 0;
        while j < n
            invariant
                j <= n,
                n == p.len(),
                self == old(self),
                p == self.proteins@,
                forall|i: int| 0 <= i < p.len() ==> (#[trigger] p[i]).wf(),
                beta == self.beta,
                beta <= 2000,
                me == max_enh(p),
                mi == max_inh(p),
                0 <= me <= IDSIZE,
                0 <= mi <= IDSIZE,
                em@.len() == j,
                im@.len() == j,
                forall|jj: int|
                    0 <= jj < j ==> (#[trigger] em@[jj])@.len() == p.len(),
                forall|jj: int|
                    0 <= jj < j ==> (#[trigger] im@[jj])@.len() == p.len(),
                forall|jj: int, kk: int|
                    0 <= jj < j && 0 <= kk < p.len() ==> #[trigger] em@[jj]@[kk] == enh_weight(
                        p,
                        beta as int,
                        jj,
                        kk,
                    ),
                forall|jj: int, kk: int|
                    0 <= jj < j && 0 <= kk < p.len() ==> #[trigger] im@[jj]@[kk] == inh_weight(
                        p,
                        beta as int,
                        jj,
                        kk,
                    ),
                forall|jj: int, kk: int|
                    0 <= jj < j && 0 <= kk < p.len() ==> #[trigger] em@[jj]@[kk] <= FX_MAX,
                forall|jj: int, kk: int|
                    0 <= jj < j && 0 <= kk < p.len() ==> #[trigger] im@[jj]@[kk] <= FX_MAX,
            decreases n - j,
        {
            let mut row_e: Vec<u128> = Vec::new();
            let mut row_i: Vec<u128> = Vec::new();
            let mut k: usize = 0;
            while k < n
                invariant
                    j < n,
                    k <= n,
                    n == p.len(),
                    self == old(self),
                    p == self.proteins@,
                    forall|i: int| 0 <= i < p.len() ==> (#[trigger] p[i]).wf(),
                    beta == self.beta,
                    beta <= 2000,
                    me == max_enh(p),
                    mi == max_inh(p),
                    0 <= me <= IDSIZE,
                    0 <= mi <= IDSIZE,
                    row_e@.len() == k,
                    row_i@.len() == k,
                    forall|kk: int|
                        0 <= kk < k ==> #[trigger] row_e@[kk] == enh_weight(
                            p,
                            beta as int,
                            j as int,
                            kk,
                        ),
                    forall|kk: int|
                        0 <= kk < k ==> #[trigger] row_i@[kk] == inh_weight(
                            p,
                            beta as int,
                            j as int,
                            kk,
                        ),
                    forall|kk: int| 0 <= kk < k ==> #[trigger] row_e@[kk] <= FX_MAX,
                    forall|kk: int| 0 <= kk < k ==> #[trigger] row_i@[kk] <= FX_MAX,
                decreases n - k,
            {
                let pj = self.proteins[j];
                let pk = self.proteins[k];
                let de: i32 = if pj.enhancer >= pk.id {
                    pj.enhancer - pk.id
                } else {
                    pk.id - pj.enhancer
                };
                let re: i64 = (IDSIZE - de) as i64;
                let di: i32 = if pj.inhibiter >= pk.id {
                    pj.inhibiter - pk.id
                } else {
                    pk.id - pj.inhibiter
                };
                let ri: i64 = (IDSIZE - di) as i64;
                proof {
                    lemma_raw_le_max(p, j as int, k as int);
                    assert((beta as int) * re <= 2000 * re) by (nonlinear_arith)
                        requires
                            beta <= 2000 && re >= 0,
                    ;
                    assert((beta as int) * re >= 0) by (nonlinear_arith)
                        requires
                            beta >= 0 && re >= 0,
                    ;
                    assert((beta as int) * ri <= 2000 * ri) by (nonlinear_arith)
                        requires
                            beta <= 2000 && ri >= 0,
                    ;
                    assert((beta as int) * ri >= 0) by (nonlinear_arith)
                        requires
                            beta >= 0 && ri >= 0,
                    ;
                }
                let xe: i64 = (beta as i64) * re - 1000 * me;
                let xi: i64 = (beta as i64) * ri - 1000 * mi;
                row_e.push(fx_exp(xe));
                row_i.push(fx_exp(xi));
                k = k + 1;
            }
            em.push(row_e);
            im.push(row_i);
            j = j + 1;
        }
        self.max_enhance = me as u32;
        self.max_inhibit = mi as u32;
        self.enhance_matching = em;
        self.inhibit_matching = im;
    }

    /// One synchronous step: every protein updated from the previous state,
    /// then the non-input concentrations renormalized.
    fn evolve_step(&mut self)
        requires
            old(self).wf(),
        ensures
            final(self).proteins@ == step_once(
                old(self).proteins@,
                mat_of(old(self).enhance_matching@),
                mat_of(old(self).inhibit_matching@),
                old(self).delta as int,
            ),
            final(self).beta == old(self).beta,
            final(self).delta == old(self).delta,
            final(self).current_step == old(self).current_step,
            final(self).max_enhance == old(self).max_enhance,
            final(self).max_inhibit == old(self).max_inhibit,
            final(self).enhance_matching == old(self).enhance_matching,
            final(self).inhibit_matching == old(self).inhibit_matching,
            final(self).wf(),
    {
        let ghost p = self.proteins@;
        let ghost ems = mat_of(self.enhance_matching@);
        let ghost ims = mat_of(self.inhibit_matching@);
        let ghost cf: int = (CONC_LIMIT as int) * (FX_MAX as int);
        let n = self.proteins.len();
        let delta = self.delta;
        let mut next: Vec<GrnProtein> = Vec::new();
        let mut j: usize = 0;
        while j < n
            invariant
                j <= n,
                n == p.len(),
                self == old(self),
                p == self.proteins@,
                ems == mat_of(self.enhance_matching@),
                ims == mat_of(self.inhibit_matching@),
                delta == self.delta,
                self.wf(),
                cf == (CONC_LIMIT as int) * (FX_MAX as int),
                next@.len() == j,
                forall|jj: int|
                    0 <= jj < j ==> #[trigger] next@[jj] == step_raw(
                        p,
                        ems,
                        ims,
                        delta as int,
                    )[jj],
                forall|jj: int| 0 <= jj < j ==> (#[trigger] next@[jj]).wf(),
            decreases n - j,
        {
            let pj = self.proteins[j];
            if pj.type_ == INPUT_PROTEIN {
                next.push(pj);
                assert(next@[j as int] == step_raw(p, ems, ims, delta as int)[j as int]);
            } else {
                let mut enh: u128 = 0;
                let mut inh: u128 = 0;
                let mut k: usize = 0;
                while k < n
                    invariant
                        j < n,
                        k <= n,
                        n == p.len(),
                        self == old(self),
                        p == self.proteins@,
                        ems == mat_of(self.enhance_matching@),
                        ims == mat_of(self.inhibit_matching@),
                        self.wf(),
                        cf == (CONC_LIMIT as int) * (FX_MAX as int),
                        enh == signal_upto(p, ems[j as int], k as int),
                        inh == signal_upto(p, ims[j as int], k as int),
                        enh <= k * cf,
                        inh <= k * cf,
                    decreases n - k,
                {
                    let pk = self.proteins[k];
                    if pk.type_ != OUTPUT_PROTEIN {
                        let we: u128 = self.enhance_matching[j][k];
                        let wi: u128 = self.inhibit_matching[j][k];
                        proof {
                            assert((pk.concentration as int) * (we as int) <= cf)
                                by (nonlinear_arith)
                                requires
                                    0 <= pk.concentration as int <= CONC_LIMIT as int,
                                    0 <= we as int <= FX_MAX as int,
                                    cf == (CONC_LIMIT as int) * (FX_MAX as int),
                            ;
                            assert((pk.concentration as int) * (wi as int) <= cf)
                                by (nonlinear_arith)
                                requires
                                    0 <= pk.concentration as int <= CONC_LIMIT as int,
                                    0 <= wi as int <= FX_MAX as int,
                                    cf == (CONC_LIMIT as int) * (FX_MAX as int),
                            ;
                            assert((k + 1) * cf == k * cf + cf) by (nonlinear_arith);
                            assert((k + 1) * cf <= 100_000 * cf) by (nonlinear_arith)
                                requires
                                    k + 1 <= 100_000 && cf >= 0,
                            ;
                            assert(100_000 * cf < 0x1_0000_0000_0000_0000_0000_0000_0000_0000int)
                                by (nonlinear_arith)
                                requires
                                    cf == (CONC_LIMIT as int) * (FX_MAX as int),
                            ;
                        }
                        enh = enh + (pk.concentration as u128) * we;
                        inh = inh + (pk.concentration as u128) * wi;
                    }
                    proof {
                        assert(cf >= 0) by (nonlinear_arith)
                            requires
                                cf == (CONC_LIMIT as int) * (FX_MAX as int),
                        ;
                        assert(k * cf + cf == (k + 1) * cf) by (nonlinear_arith);
                        assert((k + 1) * cf <= 100_000 * cf) by (nonlinear_arith)
                            requires
                                k + 1 <= 100_000 && cf >= 0,
                        ;
                    }
                    k = k + 1;
                }
                proof {
                    assert(n * cf <= 100_000 * cf) by (nonlinear_arith)
                        requires
                            n <= 100_000 && cf >= 0,
                    ;
                    assert(2000 * (100_000 * cf) < 0x1_0000_0000_0000_0000_0000_0000_0000_0000int)
                        by (nonlinear_arith)
                        requires
                            cf == (CONC_LIMIT as int) * (FX_MAX as int),
                    ;
                    assert(1000 * (n as int) * (EXP_ONE as int) > 0) by (nonlinear_arith)
                        requires
                            n >= 1,
                    ;
                }
                let denom: u128 = 1000 * (n as u128) * EXP_ONE;
                let c = pj.concentration;
                let nc: u64;
                if enh >= inh {
                    let diff = enh - inh;
                    proof {
                        assert((delta as int) * (diff as int) <= 2000 * (100_000 * cf))
                            by (nonlinear_arith)
                            requires
                                0 <= delta as int <= 2000,
                                0 <= diff as int <= 100_000 * cf,
                        ;
                        vstd::arithmetic::div_mod::lemma_div_nonincreasing(
                            (delta as int) * (diff as int),
                            denom as int,
                        );
                    }
                    let add = (delta as u128) * diff / denom;
                    if (c as u128) + add > CONC_LIMIT as u128 {
                        nc = CONC_LIMIT;
                    } else {
                        nc = ((c as u128) + add) as u64;
                    }
                } else {
                    let diff = inh - enh;
                    proof {
                        assert((delta as int) * (diff as int) <= 2000 * (100_000 * cf))
                            by (nonlinear_arith)
                            requires
                                0 <= delta as int <= 2000,
                                0 <= diff as int <= 100_000 * cf,
                        ;
                    }
                    let sub = (delta as u128) * diff / denom;
                    if sub >= c as u128 {
                        nc = 0;
                    } else {
                        nc = c - (sub as u64);
                    }
                }
                next.push(GrnProtein { concentration: nc, ..pj });
                assert(nc as int == stepped_conc(p, ems, ims, delta as int, j as int));
                assert(next@[j as int] == step_raw(p, ems, ims, delta as int)[j as int]);
            }
            j = j + 1;
        }
        assert(next@ =~= step_raw(p, ems, ims, delta as int));
        let ghost praw = next@;
        // total concentration of the non-input proteins
        let mut total: u128 = 0;
        let mut k: usize = 0;
        while k < n
            invariant
                k <= n,
                n == praw.len(),
                n <= N_MAX,
                next@ == praw,
                forall|jj: int| 0 <= jj < praw.len() ==> (#[trigger] praw[jj]).wf(),
                total == nonin_total_upto(praw, k as int),
                total <= k * (CONC_LIMIT as int),
            decreases n - k,
        {
            let pk = next[k];
            if pk.type_ != INPUT_PROTEIN {
                proof {
                    assert((k + 1) * (CONC_LIMIT as int) == k * (CONC_LIMIT as int)
                        + CONC_LIMIT as int) by (nonlinear_arith);
                    assert((k + 1) * (CONC_LIMIT as int) <= 100_000 * (CONC_LIMIT as int))
                        by (nonlinear_arith)
                        requires
                            k + 1 <= 100_000,
                    ;
                }
                total = total + (pk.concentration as u128);
            }
            k = k + 1;
        }
        assert(total == nonin_total(praw));
        // renormalize so that the non-input proteins together carry one unit
        if total != 0 {
            let mut jj: usize = 0;
            while jj < n
                invariant
                    jj <= n,
                    n == praw.len(),
                    n <= N_MAX,
                    next@.len() == n,
                    total == nonin_total(praw),
                    total > 0,
                    forall|x: int| 0 <= x < praw.len() ==> (#[trigger] praw[x]).wf(),
                    forall|x: int| 0 <= x < jj ==> #[trigger] next@[x] == normalize(praw)[x],
                    forall|x: int| 0 <= x < next@.len() ==> (#[trigger] next@[x]).wf(),
                    forall|x: int| jj <= x < n ==> #[trigger] next@[x] == praw[x],
                decreases n - jj,
            {
                let pq = next[jj];
                if pq.type_ != INPUT_PROTEIN {
                    proof {
                        lemma_nonin_elem_le_total(praw, jj as int);
                        assert((pq.concentration as int) * (CONC_ONE as int) <= (total as int) * (
                        CONC_ONE as int)) by (nonlinear_arith)
                            requires
                                0 <= pq.concentration as int <= total as int,
                        ;
                        vstd::arithmetic::div_mod::lemma_div_is_ordered(
                            (pq.concentration as int) * (CONC_ONE as int),
                            (total as int) * (CONC_ONE as int),
                            total as int,
                        );
                        vstd::arithmetic::div_mod::lemma_div_multiples_vanish(
                            CONC_ONE as int,
                            total as int,
                        );
                    }
                    let scaled: u128 = (pq.concentration as u128) * (CONC_ONE as u128) / total;
                    next.set(jj, GrnProtein { concentration: scaled as u64, ..pq });
                }
                jj = jj + 1;
            }
        }
        assert(next@ =~= normalize(praw));
        self.proteins = next;
    }

    /// Step the dynamics `nb_step` times.  Each step updates every protein
    /// synchronously from the previous state (inputs are left to the caller),
    /// renormalizes the non-input concentrations, and advances the step
    /// counter.
    pub fn evolve(&mut self, nb_step: usize)
        requires
            old(self).wf(),
            old(self).current_step + nb_step <= i32::MAX,
        ensures
            final(self).proteins@ == spec_evolve(
                old(self).proteins@,
                mat_of(old(self).enhance_matching@),
                mat_of(old(self).inhibit_matching@),
                old(self).delta as int,
                nb_step as nat,
            ),
            final(self).current_step == old(self).current_step + nb_step,
            final(self).beta == old(self).beta,
            final(self).delta == old(self).delta,
            final(self).max_enhance == old(self).max_enhance,
            final(self).max_inhibit == old(self).max_inhibit,
            final(self).enhance_matching == old(self).enhance_matching,
            final(self).inhibit_matching == old(self).inhibit_matching,
            final(self).wf(),
    {
        let mut s: usize = 0;
        while s < nb_step
            invariant
                s <= nb_step,
                old(self).current_step + nb_step <= i32::MAX,
                self.proteins@ == spec_evolve(
                    old(self).proteins@,
                    mat_of(old(self).enhance_matching@),
                    mat_of(old(self).inhibit_matching@),
                    old(self).delta as int,
                    s as nat,
                ),
                self.current_step == old(self).current_step + s,
                self.beta == old(self).beta,
                self.delta == old(self).delta,
                self.max_enhance == old(self).max_enhance,
                self.max_inhibit == old(self).max_inhibit,
                self.enhance_matching == old(self).enhance_matching,
                self.inhibit_matching == old(self).inhibit_matching,
                self.wf(),
            decreases nb_step - s,
        {
            self.evolve_step();
            self.current_step = self.current_step + 1;
            s = s + 1;
        }
    }

    /// Every protein's concentration becomes exactly `1 / |proteins|` (in
    /// `CONC_ONE` units, rounded down); the step counter is left as it is.
    pub fn reset(&mut self)
        ensures
            final(self).proteins@.len() == old(self).proteins@.len(),
            forall|j: int|
                0 <= j < old(self).proteins@.len() ==> #[trigger] final(self).proteins@[j] == (
                GrnProtein {
                    concentration: (CONC_ONE as nat / old(self).proteins@.len()) as u64,
                    ..old(self).proteins@[j]
                }),
            final(self).beta == old(self).beta,
            final(self).delta == old(self).delta,
            final(self).current_step == old(self).current_step,
            final(self).max_enhance == old(self).max_enhance,
            final(self).max_inhibit == old(self).max_inhibit,
            final(self).enhance_matching == old(self).enhance_matching,
            final(self).inhibit_matching == old(self).inhibit_matching,
            old(self).wf() ==> final(self).wf(),
    {
        let prot_size = self.proteins.len();
        if prot_size > 0 {
            let share: u64 = CONC_ONE / (prot_size as u64);
            let mut j: usize = 0;
            while j < self.proteins.len()
                invariant
                    j <= self.proteins@.len(),
                    self.proteins@.len() == old(self).proteins@.len(),
                    prot_size == old(self).proteins@.len(),
                    share == CONC_ONE as nat / old(self).proteins@.len(),
                    share <= CONC_ONE,
                    forall|k: int|
                        0 <= k < j ==> #[trigger] self.proteins@[k] == (GrnProtein {
                            concentration: share,
                            ..old(self).proteins@[k]
                        }),
                    forall|k: int|
                        j <= k < self.proteins@.len() ==> #[trigger] self.proteins@[k] == old(
                            self,
                        ).proteins@[k],
                    self.beta == old(self).beta,
                    self.delta == old(self).delta,
                    self.current_step == old(self).current_step,
                    self.max_enhance == old(self).max_enhance,
                    self.max_inhibit == old(self).max_inhibit,
                    self.enhance_matching == old(self).enhance_matching,
                    self.inhibit_matching == old(self).inhibit_matching,
                decreases self.proteins@.len() - j,
            {
                let p = self.proteins[j];
                self.proteins.set(
                    j,
                    GrnProtein { concentration: share, ..p },
                );
                j = j + 1;
            }
        }
    }
}

} // verus!
