//! The atomic unit of the GRN encoding: an addressed protein with a role, two
//! interaction targets and a fixed-point concentration.

use vstd::prelude::*;
use crate::fixed::CONC_LIMIT;

verus! {

/// Role of a protein whose concentration is driven externally.
pub const INPUT_PROTEIN: i32 = 0;

/// Role of a protein that is read out and never feeds signal to others.
pub const OUTPUT_PROTEIN: i32 = 1;

/// Role of an ordinary, internally regulated protein.
pub const REGULATORY_PROTEIN: i32 = 2;

/// Size of the address space: every address lies in `[0, IDSIZE)`.
pub const IDSIZE: i32 = 32;

/// The three roles above are the only valid ones.
pub open spec fn valid_role(t: int) -> bool {
    t == INPUT_PROTEIN || t == OUTPUT_PROTEIN || t == REGULATORY_PROTEIN
}

/// `|a - b|` over the mathematical integers.
pub open spec fn abs_diff(a: int, b: int) -> int {
    if a >= b {
        a - b
    } else {
        b - a
    }
}

/// A protein: its identity address, the addresses its enhancing and
/// inhibiting signals target, its role, and its concentration in
/// `1 / CONC_ONE` units.
#[derive(Debug, Clone, Copy, PartialEq, Eq, Structural)]
pub struct GrnProtein {
    pub id: i32,
    pub concentration: u64,
    pub enhancer: i32,
    pub inhibiter: i32,
    pub type_: i32,
}

/// The weighted address-space distance between two proteins, with the three
/// weights given in eighths of one; the result is in `1 / (8 * IDSIZE)`
/// units, so with weights summing to eight, `8 * IDSIZE` stands for `1.0`.
pub open spec fn prot_dist(a: GrnProtein, b: GrnProtein, pw: int, ew: int, iw: int) -> int {
    pw * abs_diff(a.id as int, b.id as int) + ew * abs_diff(a.enhancer as int, b.enhancer as int)
        + iw * abs_diff(a.inhibiter as int, b.inhibiter as int)
}

impl GrnProtein {
    /// All three addresses lie in the address space and the concentration is
    /// representable.
    pub open spec fn wf(self) -> bool {
        &&& 0 <= self.id < IDSIZE
        &&& 0 <= self.enhancer < IDSIZE
        &&& 0 <= self.inhibiter < IDSIZE
        &&& self.concentration <= CONC_LIMIT
    }

    /// A protein with every field zero: address 0, input role, empty
    /// concentration.
    pub fn new() -> (r: GrnProtein)
        ensures
            r.id == 0 && r.concentration == 0 && r.enhancer == 0 && r.inhibiter == 0 && r.type_
                == 0,
            r.wf(),
    {
        GrnProtein { id: 0, concentration: 0, enhancer: 0, inhibiter: 0, type_: 0 }
    }

    /// The weighted address distance to `g`; the weights come in eighths of
    /// one, so `8 * IDSIZE` result units stand for a distance of `1.0`.
    pub fn distance_to(&self, g: &GrnProtein, prot_coef: u64, enh_coef: u64, inh_coef: u64) -> (r:
        u64)
        requires
            self.wf(),
            g.wf(),
            prot_coef <= 1000 && enh_coef <= 1000 && inh_coef <= 1000,
        ensures
            r == prot_dist(*self, *g, prot_coef as int, enh_coef as int, inh_coef as int),
            r <= 3000 * (IDSIZE as u64),
    {
        let d_id: u64 = if self.id >= g.id {
            (self.id - g.id) as u64
        } else {
            (g.id - self.id) as u64
        };
        let d_enh: u64 = if self.enhancer >= g.enhancer {
            (self.enhancer - g.enhancer) as u64
        } else {
            (g.enhancer - self.enhancer) as u64
        };
        let d_inh: u64 = if self.inhibiter >= g.inhibiter {
            (self.inhibiter - g.inhibiter) as u64
        } else {
            (g.inhibiter - self.inhibiter) as u64
        };
        proof {
            assert(prot_coef * d_id <= 1000 * 31) by (nonlinear_arith)
                requires
                    prot_coef <= 1000 && d_id <= 31,
            ;
            assert(enh_coef * d_enh <= 1000 * 31) by (nonlinear_arith)
                requires
                    enh_coef <= 1000 && d_enh <= 31,
            ;
            assert(inh_coef * d_inh <= 1000 * 31) by (nonlinear_arith)
                requires
                    inh_coef <= 1000 && d_inh <= 31,
            ;
        }
        prot_coef * d_id + enh_coef * d_enh + inh_coef * d_inh
    }
}

} // verus!
