//! The evolvable encoding unit: one protein descriptor plus wiring metadata
//! (an external binding index, an enable flag, a unique identifier).

use vstd::prelude::*;
use crate::fixed::{dec_i32, fmt_bool, fmt_i32, DIST_ONE};
use crate::grn::grn_protein::{abs_diff, GrnProtein, IDSIZE, REGULATORY_PROTEIN};
use crate::evolver::rng::{rng_below, rng_flip};

verus! {

/// Weight of the identity address in the gene distance, in eighths of one
/// (`6/8 = 0.75`).
pub const W_PROT: u64 = 6;

/// Weight of the enhancer address, in eighths of one (`1/8 = 0.125`).
pub const W_ENH: u64 = 1;

/// Weight of the inhibitor address, in eighths of one (`1/8 = 0.125`).
pub const W_INH: u64 = 1;

/// The three weights are eighths and must sum to a whole one.
pub const W_DEN: u64 = 8;

/// The allocator for process-unique, monotonically increasing identifiers;
/// the evolution driver owns one and threads it into every call that mints
/// a fresh gene (or species) identity.
#[derive(Debug, Clone, Copy, PartialEq, Eq, Structural)]
pub struct IdCounter {
    pub next_id: i32,
}

impl IdCounter {
    /// A counter whose first handed-out value is `0`.
    pub fn new() -> (r: IdCounter)
        ensures
            r.next_id == 0,
    {
        IdCounter { next_id: 0 }
    }

    /// Hand out the current value and advance: consecutive calls return
    /// strictly increasing numbers.
    pub fn take(&mut self) -> (r: i32)
        requires
            old(self).next_id < i32::MAX,
        ensures
            r == old(self).next_id,
            final(self).next_id == old(self).next_id + 1,
    {
        let id = self.next_id;
        self.next_id = self.next_id + 1;
        id
    }
}

/// A gene: the protein it encodes (identity, enhancer and inhibitor
/// addresses, role), which external sensor or actuator it binds to, whether
/// it is expressed, and its unique identifier.  The distance weights are the
/// fixed constants `W_PROT`, `W_ENH`, `W_INH` over `W_DEN`.
#[derive(Debug, Clone, Copy, PartialEq, Eq, Structural)]
pub struct GrnGene {
    pub gene_id: i32,
    pub disabled: bool,
    pub prot_id: i32,
    pub prot_enh: i32,
    pub prot_inh: i32,
    pub prot_type: i32,
    pub connect_to: i32,
}

/// The role-gated gene distance in `1 / DIST_ONE` units: genes of different
/// roles are maximally apart (`DIST_ONE`, one full unit); same-role genes
/// are at their weighted address distance.
pub open spec fn gene_dist(a: GrnGene, b: GrnGene) -> int {
    if a.prot_type == b.prot_type {
        (W_PROT as int) * abs_diff(a.prot_id as int, b.prot_id as int) + (W_ENH as int)
            * abs_diff(a.prot_enh as int, b.prot_enh as int) + (W_INH as int) * abs_diff(
            a.prot_inh as int,
            b.prot_inh as int,
        )
    } else {
        DIST_ONE as int
    }
}

/// The bracketed rendering `to_string` produces: every field in decimal,
/// comma-separated, in the fixed order identity, enhancer, inhibitor, role,
/// enable flag, binding, identifier.
pub open spec fn gene_str(g: GrnGene) -> Seq<char> {
    seq!['['] + dec_i32(g.prot_id as int) + seq![','] + dec_i32(g.prot_enh as int) + seq![',']
        + dec_i32(g.prot_inh as int) + seq![','] + dec_i32(g.prot_type as int) + seq![','] + (
    if g.disabled {
        seq!['t', 'r', 'u', 'e']
    } else {
        seq!['f', 'a', 'l', 's', 'e']
    }) + seq![','] + dec_i32(g.connect_to as int) + seq![','] + dec_i32(g.gene_id as int) + seq![
        ']',
    ]
}

/// Two same-role genes sit strictly inside the unit distance; a gene is at
/// distance zero from itself.
pub proof fn lemma_gene_dist_bounds(a: GrnGene, b: GrnGene)
    requires
        a.wf(),
        b.wf(),
    ensures
        0 <= gene_dist(a, b) <= DIST_ONE,
        a.prot_type == b.prot_type ==> gene_dist(a, b) < DIST_ONE,
        a == b ==> gene_dist(a, b) == 0,
        a.prot_type != b.prot_type ==> gene_dist(a, b) == DIST_ONE,
{
}

impl GrnGene {
    /// All three protein addresses lie in the address space.
    pub open spec fn wf(self) -> bool {
        &&& 0 <= self.prot_id < IDSIZE
        &&& 0 <= self.prot_enh < IDSIZE
        &&& 0 <= self.prot_inh < IDSIZE
    }

    /// A regulatory gene with every numeric field zero and identifier zero
    /// (no identity is minted).
    pub fn default() -> (r: GrnGene)
        ensures
            r == (GrnGene {
                gene_id: 0,
                disabled: false,
                prot_id: 0,
                prot_enh: 0,
                prot_inh: 0,
                prot_type: REGULATORY_PROTEIN,
                connect_to: 0,
            }),
            r.wf(),
    {
        GrnGene {
            gene_id: 0,
            disabled: false,
            prot_id: 0,
            prot_enh: 0,
            prot_inh: 0,
            prot_type: REGULATORY_PROTEIN,
            connect_to: 0,
        }
    }

    /// A fully parameterized gene carrying a freshly minted identifier.
    pub fn with_parameters_prot(
        n_is_disabled: bool,
        n_prot_id: i32,
        n_prot_enh: i32,
        n_prot_inh: i32,
        n_prot_type: i32,
        n_connect_to: i32,
        ids: &mut IdCounter,
    ) -> (r: GrnGene)
        requires
            0 <= n_prot_id < IDSIZE,
            0 <= n_prot_enh < IDSIZE,
            0 <= n_prot_inh < IDSIZE,
            old(ids).next_id < i32::MAX,
        ensures
            r == (GrnGene {
                gene_id: (old(ids).next_id + 1) as i32,
                disabled: n_is_disabled,
                prot_id: n_prot_id,
                prot_enh: n_prot_enh,
                prot_inh: n_prot_inh,
                prot_type: n_prot_type,
                connect_to: n_connect_to,
            }),
            final(ids).next_id == old(ids).next_id + 1,
            r.wf(),
    {
        let id = ids.take();
        GrnGene {
            gene_id: id + 1,
            disabled: n_is_disabled,
            prot_id: n_prot_id,
            prot_enh: n_prot_enh,
            prot_inh: n_prot_inh,
            prot_type: n_prot_type,
            connect_to: n_connect_to,
        }
    }

    /// A fresh regulatory gene with the given protein addresses.
    pub fn with_prot_values(
        n_prot_id: i32,
        n_prot_enh: i32,
        n_prot_inh: i32,
        ids: &mut IdCounter,
    ) -> (r: GrnGene)
        requires
            0 <= n_prot_id < IDSIZE,
            0 <= n_prot_enh < IDSIZE,
            0 <= n_prot_inh < IDSIZE,
            old(ids).next_id < i32::MAX,
        ensures
            r == (GrnGene {
                gene_id: (old(ids).next_id + 1) as i32,
                disabled: false,
                prot_id: n_prot_id,
                prot_enh: n_prot_enh,
                prot_inh: n_prot_inh,
                prot_type: REGULATORY_PROTEIN,
                connect_to: 0,
            }),
            final(ids).next_id == old(ids).next_id + 1,
            r.wf(),
    {
        Self::with_parameters_prot(false, n_prot_id, n_prot_enh, n_prot_inh, REGULATORY_PROTEIN, 0, ids)
    }

    /// A copy of this gene's payload re-registered under a freshly minted
    /// identifier — new genetic material with an old value.
    pub fn clone(&self, ids: &mut IdCounter) -> (r: GrnGene)
        requires
            self.wf(),
            old(ids).next_id < i32::MAX,
        ensures
            r == (GrnGene { gene_id: (old(ids).next_id + 1) as i32, ..*self }),
            final(ids).next_id == old(ids).next_id + 1,
            r.wf(),
    {
        Self::with_parameters_prot(
            self.disabled,
            self.prot_id,
            self.prot_enh,
            self.prot_inh,
            self.prot_type,
            self.connect_to,
            ids,
        )
    }

    /// Role mismatch yields the maximal sentinel `i32::MAX`; same-role genes
    /// compare by signed identity-address difference, zero exactly when the
    /// addresses agree.
    pub fn compare_to(&self, g: &GrnGene) -> (r: i32)
        requires
            self.wf(),
            g.wf(),
        ensures
            self.prot_type == g.prot_type ==> r == self.prot_id - g.prot_id,
            self.prot_type != g.prot_type ==> r == i32::MAX,
    {
        if g.prot_type == self.prot_type {
            self.prot_id - g.prot_id
        } else {
            i32::MAX
        }
    }

    /// The role-gated weighted address distance, in `1 / DIST_ONE` units:
    /// `DIST_ONE` stands for the sentinel distance `1.0` between genes of
    /// different roles.
    pub fn distance_to(&self, g: &GrnGene) -> (r: u64)
        requires
            self.wf(),
            g.wf(),
        ensures
            r == gene_dist(*self, *g),
            r <= DIST_ONE,
    {
        proof {
            lemma_gene_dist_bounds(*self, *g);
        }
        if g.prot_type == self.prot_type {
            let d_id: u64 = if self.prot_id >= g.prot_id {
                (self.prot_id - g.prot_id) as u64
            } else {
                (g.prot_id - self.prot_id) as u64
            };
            let d_enh: u64 = if self.prot_enh >= g.prot_enh {
                (self.prot_enh - g.prot_enh) as u64
            } else {
                (g.prot_enh - self.prot_enh) as u64
            };
            let d_inh: u64 = if self.prot_inh >= g.prot_inh {
                (self.prot_inh - g.prot_inh) as u64
            } else {
                (g.prot_inh - self.prot_inh) as u64
            };
            W_PROT * d_id + W_ENH * d_enh + W_INH * d_inh
        } else {
            DIST_ONE
        }
    }

    /// A gene with uniformly drawn addresses and enable flag, the given role
    /// and binding, and a freshly minted identifier.
    pub fn generate_random_gene(
        n_prot_type: i32,
        connect_to: i32,
        rng: &mut rand::rngs::StdRng,
        ids: &mut IdCounter,
    ) -> (r: GrnGene)
        requires
            old(ids).next_id < i32::MAX,
        ensures
            r.wf(),
            r.gene_id == old(ids).next_id + 1,
            r.prot_type == n_prot_type,
            r.connect_to == connect_to,
            final(ids).next_id == old(ids).next_id + 1,
    {
        let flip = rng_flip(rng);
        let a = rng_below(rng, IDSIZE as usize);
        let e = rng_below(rng, IDSIZE as usize);
        let i = rng_below(rng, IDSIZE as usize);
        Self::with_parameters_prot(
            flip,
            a as i32,
            e as i32,
            i as i32,
            n_prot_type,
            connect_to,
            ids,
        )
    }

    /// A random regulatory gene (binding index unused, so zero).
    pub fn generate_random_regulatory_gene(
        rng: &mut rand::rngs::StdRng,
        ids: &mut IdCounter,
    ) -> (r: GrnGene)
        requires
            old(ids).next_id < i32::MAX,
        ensures
            r.wf(),
            r.gene_id == old(ids).next_id + 1,
            r.prot_type == REGULATORY_PROTEIN,
            r.connect_to == 0,
            final(ids).next_id == old(ids).next_id + 1,
    {
        GrnGene::generate_random_gene(REGULATORY_PROTEIN, 0, rng, ids)
    }

    /// A bracketed, comma-separated rendering of every field, in the fixed
    /// order identity, enhancer, inhibitor, role, enable flag, binding,
    /// identifier.
    pub fn to_string(&self) -> (r: String)
        ensures
            r@ == gene_str(*self),
    {
        let mut s = String::from_str("[");
        s.append(fmt_i32(self.prot_id).as_str());
        s.append(",");
        s.append(fmt_i32(self.prot_enh).as_str());
        s.append(",");
        s.append(fmt_i32(self.prot_inh).as_str());
        s.append(",");
        s.append(fmt_i32(self.prot_type).as_str());
        s.append(",");
        s.append(fmt_bool(self.disabled).as_str());
        s.append(",");
        s.append(fmt_i32(self.connect_to).as_str());
        s.append(",");
        s.append(fmt_i32(self.gene_id).as_str());
        s.append("]");
        proof {
            reveal_strlit("[");
            reveal_strlit(",");
            reveal_strlit("]");
            assert(s@ =~= gene_str(*self));
        }
        s
    }

    pub fn is_disbaled(&self) -> (r: bool)
        ensures
            r == self.disabled,
    {
        self.disabled
    }

    pub fn enable(&mut self)
        ensures
            *final(self) == (GrnGene { disabled: false, ..*old(self) }),
    {
        self.disabled = false;
    }

    pub fn disable(&mut self)
        ensures
            *final(self) == (GrnGene { disabled: true, ..*old(self) }),
    {
        self.disabled = true;
    }

    pub fn get_id(&self) -> (r: i32)
        ensures
            r == self.gene_id,
    {
        self.gene_id
    }

    /// The protein this gene encodes, with an empty concentration.
    pub fn get_proteins(&self) -> (r: GrnProtein)
        ensures
            r == (GrnProtein {
                id: self.prot_id,
                concentration: 0,
                enhancer: self.prot_enh,
                inhibiter: self.prot_inh,
                type_: self.prot_type,
            }),
            self.wf() ==> r.wf(),
    {
        GrnProtein {
            id: self.prot_id,
            concentration: 0,
            enhancer: self.prot_enh,
            inhibiter: self.prot_inh,
            type_: self.prot_type,
        }
    }

    pub fn get_connect_to(&self) -> (r: i32)
        ensures
            r == self.connect_to,
    {
        self.connect_to
    }

    pub fn get_prot_id(&self) -> (r: i32)
        ensures
            r == self.prot_id,
    {
        self.prot_id
    }

    pub fn set_prot_id(&mut self, prot_id: i32)
        requires
            0 <= prot_id < IDSIZE,
        ensures
            *final(self) == (GrnGene { prot_id, ..*old(self) }),
    {
        self.prot_id = prot_id;
    }

    pub fn get_prot_enh(&self) -> (r: i32)
        ensures
            r == self.prot_enh,
    {
        self.prot_enh
    }

    pub fn set_prot_enh(&mut self, prot_enh: i32)
        requires
            0 <= prot_enh < IDSIZE,
        ensures
            *final(self) == (GrnGene { prot_enh, ..*old(self) }),
    {
        self.prot_enh = prot_enh;
    }

    pub fn get_prot_inh(&self) -> (r: i32)
        ensures
            r == self.prot_inh,
    {
        self.prot_inh
    }

    pub fn set_prot_inh(&mut self, prot_inh: i32)
        requires
            0 <= prot_inh < IDSIZE,
        ensures
            *final(self) == (GrnGene { prot_inh, ..*old(self) }),
    {
        self.prot_inh = prot_inh;
    }

    pub fn get_prot_type(&self) -> (r: i32)
        ensures
            r == self.prot_type,
    {
        self.prot_type
    }

    pub fn set_prot_type(&mut self, prot_type: i32)
        ensures
            *final(self) == (GrnGene { prot_type, ..*old(self) }),
    {
        self.prot_type = prot_type;
    }

    pub fn set_disabled(&mut self, is_disabled: bool)
        ensures
            *final(self) == (GrnGene { disabled: is_disabled, ..*old(self) }),
    {
        self.disabled = is_disabled;
    }
}

} // verus!
