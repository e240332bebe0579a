//! The complete evolvable individual: genes partitioned by role and keyed
//! collections over them, dynamics parameters, and fitness bookkeeping.

use vstd::prelude::*;
use crate::fixed::{render_two_dec, two_dec, DIST_ONE, N_MAX, Ratio, UNMATCHED_DIST};
use crate::evolver::grn_gene::{gene_dist, gene_str, GrnGene};
use crate::evolver::rng::rng_below;
use crate::grn::grn_protein::{abs_diff, valid_role, INPUT_PROTEIN, OUTPUT_PROTEIN,
    REGULATORY_PROTEIN};

verus! {

/// No two genes in the sequence share an identifier.
pub open spec fn unique_ids(s: Seq<GrnGene>) -> bool {
    forall|i: int, j: int| 0 <= i < j < s.len() ==> s[i].gene_id != s[j].gene_id
}

/// No two genes in the sequence share a binding key.
pub open spec fn unique_keys(s: Seq<GrnGene>) -> bool {
    forall|i: int, j: int| 0 <= i < j < s.len() ==> s[i].connect_to != s[j].connect_to
}

/// Every gene in the sequence has the given role.
pub open spec fn all_role(s: Seq<GrnGene>, role: int) -> bool {
    forall|i: int| 0 <= i < s.len() ==> (#[trigger] s[i]).prot_type == role
}

/// Every gene in the sequence is well formed.
pub open spec fn all_wf(s: Seq<GrnGene>) -> bool {
    forall|i: int| 0 <= i < s.len() ==> (#[trigger] s[i]).wf()
}

/// The sequence holds this exact gene value.
pub open spec fn has_gene(s: Seq<GrnGene>, g: GrnGene) -> bool {
    exists|i: int| 0 <= i < s.len() && s[i] == g
}

/// The sequence holds a gene with this identifier.
pub open spec fn has_id(s: Seq<GrnGene>, id: int) -> bool {
    exists|i: int| 0 <= i < s.len() && (#[trigger] s[i]).gene_id == id
}

/// The sequence holds a gene with this binding key.
pub open spec fn has_key(s: Seq<GrnGene>, c: int) -> bool {
    exists|i: int| 0 <= i < s.len() && (#[trigger] s[i]).connect_to == c
}

/// The role partition a gene of this role is keyed into matches the gene's
/// key field: `connect_to` for inputs and outputs, the identifier for
/// regulatory genes.
pub open spec fn in_partition(gm: GrnGenome, g: GrnGene) -> bool {
    if g.prot_type == INPUT_PROTEIN {
        has_gene(gm.input_genes@, g)
    } else if g.prot_type == OUTPUT_PROTEIN {
        has_gene(gm.output_genes@, g)
    } else {
        has_gene(gm.regulatory_genes@, g)
    }
}

/// The sequence with every gene of this identifier removed (under unique
/// identifiers, at most one).
pub open spec fn drop_id(s: Seq<GrnGene>, id: int) -> Seq<GrnGene>
    decreases s.len(),
{
    if s.len() == 0 {
        s
    } else if s.last().gene_id == id {
        drop_id(s.drop_last(), id)
    } else {
        drop_id(s.drop_last(), id).push(s.last())
    }
}

/// The sequence with every gene of this binding key removed.
pub open spec fn drop_key(s: Seq<GrnGene>, c: int) -> Seq<GrnGene>
    decreases s.len(),
{
    if s.len() == 0 {
        s
    } else if s.last().connect_to == c {
        drop_key(s.drop_last(), c)
    } else {
        drop_key(s.drop_last(), c).push(s.last())
    }
}

/// What removal by identifier leaves: exactly the genes of the other
/// identifiers, uniqueness of both kinds intact, every survivor an element
/// of the input sequence.
pub proof fn lemma_drop_id_props(s: Seq<GrnGene>, id: int)
    ensures
        drop_id(s, id).len() <= s.len(),
        forall|i: int|
            0 <= i < drop_id(s, id).len() ==> has_gene(s, #[trigger] drop_id(s, id)[i])
                && drop_id(s, id)[i].gene_id != id,
        forall|x: GrnGene| #[trigger] has_gene(drop_id(s, id), x) <==> (has_gene(s, x)
            && x.gene_id != id),
        unique_ids(s) ==> unique_ids(drop_id(s, id)),
        unique_keys(s) ==> unique_keys(drop_id(s, id)),
        !has_id(s, id) ==> drop_id(s, id) == s,
        unique_ids(s) && has_id(s, id) ==> drop_id(s, id).len() == s.len() - 1,
    decreases s.len(),
{
    let r = drop_id(s, id);
    if s.len() == 0 {
        assert(r =~= s);
        assert forall|x: GrnGene| #[trigger] has_gene(r, x) implies (has_gene(s, x) && x.gene_id
            != id) by {}
    } else {
        let p = s.drop_last();
        let l = s.last();
        lemma_drop_id_props(p, id);
        let rp = drop_id(p, id);
        assert(forall|x: GrnGene| has_gene(p, x) ==> has_gene(s, x));
        assert forall|x: GrnGene| has_gene(s, x) && x.gene_id != id implies #[trigger] has_gene(
            r,
            x,
        ) by {
            let i = choose|i: int| 0 <= i < s.len() && s[i] == x;
            if i < s.len() - 1 {
                assert(p[i] == x);
                assert(has_gene(rp, x));
                if l.gene_id != id {
                    let j = choose|j: int| 0 <= j < rp.len() && rp[j] == x;
                    assert(r[j] == x);
                }
            } else {
                assert(x == l);
                assert(r.last() == x);
            }
        }
        assert forall|x: GrnGene| #[trigger] has_gene(r, x) implies (has_gene(s, x) && x.gene_id
            != id) by {
            let i = choose|i: int| 0 <= i < r.len() && r[i] == x;
            if l.gene_id != id && i == r.len() - 1 {
                assert(x == l);
                let j = s.len() - 1;
                assert(s[j] == x);
            } else {
                assert(rp[i] == x);
                assert(has_gene(p, x));
                let j = choose|j: int| 0 <= j < p.len() && p[j] == x;
                assert(s[j] == x);
            }
        }
        if l.gene_id != id {
            if unique_ids(s) {
                assert(unique_ids(p));
                assert forall|i: int, j: int| 0 <= i < j < r.len() implies r[i].gene_id
                    != r[j].gene_id by {
                    if j == r.len() - 1 {
                        assert(r[j] == l);
                        assert(has_gene(p, r[i]));
                        let k = choose|k: int| 0 <= k < p.len() && p[k] == r[i];
                        assert(s[k] == r[i] && s[s.len() - 1] == l);
                    } else {
                        assert(r[i] == rp[i] && r[j] == rp[j]);
                    }
                }
            }
            if unique_keys(s) {
                assert(unique_keys(p));
                assert forall|i: int, j: int| 0 <= i < j < r.len() implies r[i].connect_to
                    != r[j].connect_to by {
                    if j == r.len() - 1 {
                        assert(r[j] == l);
                        assert(has_gene(p, r[i]));
                        let k = choose|k: int| 0 <= k < p.len() && p[k] == r[i];
                        assert(s[k] == r[i] && s[s.len() - 1] == l);
                    } else {
                        assert(r[i] == rp[i] && r[j] == rp[j]);
                    }
                }
            }
        } else {
            if unique_ids(s) {
                assert(unique_ids(p));
            }
            if unique_keys(s) {
                assert(unique_keys(p));
            }
        }
        if !has_id(s, id) {
            assert(!has_id(p, id)) by {
                if has_id(p, id) {
                    let i = choose|i: int| 0 <= i < p.len() && #[trigger] p[i].gene_id == id;
                    assert(s[i].gene_id == id);
                }
            }
            assert(l.gene_id != id);
            assert(r =~= s);
        }
        if unique_ids(s) && has_id(s, id) {
            if l.gene_id == id {
                assert(!has_id(p, id)) by {
                    if has_id(p, id) {
                        let i = choose|i: int| 0 <= i < p.len() && #[trigger] p[i].gene_id == id;
                        assert(s[i].gene_id == s[s.len() - 1].gene_id);
                    }
                }
            } else {
                assert(has_id(p, id)) by {
                    let i = choose|i: int| 0 <= i < s.len() && #[trigger] s[i].gene_id == id;
                    assert(i < s.len() - 1);
                    assert(p[i].gene_id == id);
                }
                assert(unique_ids(p));
            }
        }
    }
}

/// What removal by binding key leaves, mirroring `lemma_drop_id_props`.
pub proof fn lemma_drop_key_props(s: Seq<GrnGene>, c: int)
    ensures
        drop_key(s, c).len() <= s.len(),
        forall|i: int|
            0 <= i < drop_key(s, c).len() ==> has_gene(s, #[trigger] drop_key(s, c)[i])
                && drop_key(s, c)[i].connect_to != c,
        forall|x: GrnGene| #[trigger] has_gene(drop_key(s, c), x) <==> (has_gene(s, x)
            && x.connect_to != c),
        unique_ids(s) ==> unique_ids(drop_key(s, c)),
        unique_keys(s) ==> unique_keys(drop_key(s, c)),
        !has_key(s, c) ==> drop_key(s, c) == s,
    decreases s.len(),
{
    let r = drop_key(s, c);
    if s.len() == 0 {
        assert(r =~= s);
        assert forall|x: GrnGene| #[trigger] has_gene(r, x) implies (has_gene(s, x)
            && x.connect_to != c) by {}
    } else {
        let p = s.drop_last();
        let l = s.last();
        lemma_drop_key_props(p, c);
        let rp = drop_key(p, c);
        assert(forall|x: GrnGene| has_gene(p, x) ==> has_gene(s, x));
        assert forall|x: GrnGene| has_gene(s, x) && x.connect_to != c implies #[trigger] has_gene(
            r,
            x,
        ) by {
            let i = choose|i: int| 0 <= i < s.len() && s[i] == x;
            if i < s.len() - 1 {
                assert(p[i] == x);
                assert(has_gene(rp, x));
                if l.connect_to != c {
                    let j = choose|j: int| 0 <= j < rp.len() && rp[j] == x;
                    assert(r[j] == x);
                }
            } else {
                assert(x == l);
                assert(r.last() == x);
            }
        }
        assert forall|x: GrnGene| #[trigger] has_gene(r, x) implies (has_gene(s, x)
            && x.connect_to != c) by {
            let i = choose|i: int| 0 <= i < r.len() && r[i] == x;
            if l.connect_to != c && i == r.len() - 1 {
                assert(x == l);
                let j = s.len() - 1;
                assert(s[j] == x);
            } else {
                assert(rp[i] == x);
                assert(has_gene(p, x));
                let j = choose|j: int| 0 <= j < p.len() && p[j] == x;
                assert(s[j] == x);
            }
        }
        if l.connect_to != c {
            if unique_ids(s) {
                assert(unique_ids(p));
                assert forall|i: int, j: int| 0 <= i < j < r.len() implies r[i].gene_id
                    != r[j].gene_id by {
                    if j == r.len() - 1 {
                        assert(r[j] == l);
                        assert(has_gene(p, r[i]));
                        let k = choose|k: int| 0 <= k < p.len() && p[k] == r[i];
                        assert(s[k] == r[i] && s[s.len() - 1] == l);
                    } else {
                        assert(r[i] == rp[i] && r[j] == rp[j]);
                    }
                }
            }
            if unique_keys(s) {
                assert(unique_keys(p));
                assert forall|i: int, j: int| 0 <= i < j < r.len() implies r[i].connect_to
                    != r[j].connect_to by {
                    if j == r.len() - 1 {
                        assert(r[j] == l);
                        assert(has_gene(p, r[i]));
                        let k = choose|k: int| 0 <= k < p.len() && p[k] == r[i];
                        assert(s[k] == r[i] && s[s.len() - 1] == l);
                    } else {
                        assert(r[i] == rp[i] && r[j] == rp[j]);
                    }
                }
            }
        } else {
            if unique_ids(s) {
                assert(unique_ids(p));
            }
            if unique_keys(s) {
                assert(unique_keys(p));
            }
        }
        if !has_key(s, c) {
            assert(!has_key(p, c)) by {
                if has_key(p, c) {
                    let i = choose|i: int| 0 <= i < p.len() && #[trigger] p[i].connect_to == c;
                    assert(s[i].connect_to == c);
                }
            }
            assert(l.connect_to != c);
            assert(r =~= s);
        }
    }
}

/// The vector's genes with every gene of this identifier left out.
fn retain_without_id(v: &Vec<GrnGene>, id: i32) -> (r: Vec<GrnGene>)
    ensures
        r@ == drop_id(v@, id as int),
{
    let mut r: Vec<GrnGene> = Vec::new();
    let mut i: usize = 0;
    while i < v.len()
        invariant
            i <= v@.len(),
            r@ == drop_id(v@.subrange(0, i as int), id as int),
        decreases v@.len() - i,
    {
        let g = v[i];
        proof {
            assert(v@.subrange(0, i + 1).drop_last() =~= v@.subrange(0, i as int));
            assert(v@.subrange(0, i + 1).last() == v@[i as int]);
        }
        if g.gene_id != id {
            r.push(g);
        }
        i = i + 1;
    }
    proof {
        assert(v@.subrange(0, v@.len() as int) =~= v@);
    }
    r
}

/// The vector's genes with every gene of this binding key left out.
fn retain_without_key(v: &Vec<GrnGene>, c: i32) -> (r: Vec<GrnGene>)
    ensures
        r@ == drop_key(v@, c as int),
{
    let mut r: Vec<GrnGene> = Vec::new();
    let mut i: usize = 0;
    while i < v.len()
        invariant
            i <= v@.len(),
            r@ == drop_key(v@.subrange(0, i as int), c as int),
        decreases v@.len() - i,
    {
        let g = v[i];
        proof {
            assert(v@.subrange(0, i + 1).drop_last() =~= v@.subrange(0, i as int));
            assert(v@.subrange(0, i + 1).last() == v@[i as int]);
        }
        if g.connect_to != c {
            r.push(g);
        }
        i = i + 1;
    }
    proof {
        assert(v@.subrange(0, v@.len() as int) =~= v@);
    }
    r
}

/// The first index holding this binding key, if any.
fn find_index_by_key(v: &Vec<GrnGene>, c: i32) -> (r: Option<usize>)
    ensures
        match r {
            Some(i) => i < v@.len() && v@[i as int].connect_to == c,
            None => !has_key(v@, c as int),
        },
{
    let mut i: usize = 0;
    while i < v.len()
        invariant
            i <= v@.len(),
            forall|j: int| 0 <= j < i ==> (#[trigger] v@[j]).connect_to != c,
        decreases v@.len() - i,
    {
        if v[i].connect_to == c {
            return Some(i);
        }
        i = i + 1;
    }
    None
}

/// What appending one gene adds: exactly that value, and uniqueness holds
/// when its identifier and key are fresh.
pub proof fn lemma_push_props(s: Seq<GrnGene>, g: GrnGene)
    ensures
        forall|x: GrnGene| #[trigger] has_gene(s.push(g), x) <==> (x == g || has_gene(s, x)),
        unique_ids(s) && !has_id(s, g.gene_id as int) ==> unique_ids(s.push(g)),
        unique_keys(s) && !has_key(s, g.connect_to as int) ==> unique_keys(s.push(g)),
{
    let r = s.push(g);
    assert forall|x: GrnGene| #[trigger] has_gene(r, x) implies (x == g || has_gene(s, x)) by {
        let i = choose|i: int| 0 <= i < r.len() && r[i] == x;
        if i < s.len() {
            assert(s[i] == x);
        }
    }
    assert forall|x: GrnGene| (x == g || has_gene(s, x)) implies #[trigger] has_gene(r, x) by {
        if x == g {
            assert(r[s.len() as int] == x);
        } else {
            let i = choose|i: int| 0 <= i < s.len() && s[i] == x;
            assert(r[i] == x);
        }
    }
    if unique_ids(s) && !has_id(s, g.gene_id as int) {
        assert forall|i: int, j: int| 0 <= i < j < r.len() implies r[i].gene_id
            != r[j].gene_id by {
            if j == s.len() {
                assert(r[i] == s[i]);
            }
        }
    }
    if unique_keys(s) && !has_key(s, g.connect_to as int) {
        assert forall|i: int, j: int| 0 <= i < j < r.len() implies r[i].connect_to
            != r[j].connect_to by {
            if j == s.len() {
                assert(r[i] == s[i]);
            }
        }
    }
}

/// The first index holding this identifier, if any.
fn find_index_by_id(v: &Vec<GrnGene>, id: i32) -> (r: Option<usize>)
    ensures
        match r {
            Some(i) => i < v@.len() && v@[i as int].gene_id == id,
            None => !has_id(v@, id as int),
        },
{
    let mut i: usize = 0;
    while i < v.len()
        invariant
            i <= v@.len(),
            forall|j: int| 0 <= j < i ==> (#[trigger] v@[j]).gene_id != id,
        decreases v@.len() - i,
    {
        if v[i].gene_id == id {
            return Some(i);
        }
        i = i + 1;
    }
    None
}

/// Whether inserting `a` evicts `x` from the genome: they share an
/// identifier, or they share the role partition and its key.
pub open spec fn displaced_by(a: GrnGene, x: GrnGene) -> bool {
    x.gene_id == a.gene_id || (x.prot_type == a.prot_type && a.prot_type != REGULATORY_PROTEIN
        && x.connect_to == a.connect_to)
}

/// Whether inserting `a` into this genome evicts nothing: its identifier is
/// unregistered and its role partition slot is free.
pub open spec fn fresh_slot(gm: GrnGenome, a: GrnGene) -> bool {
    &&& !has_id(gm.all_genes@, a.gene_id as int)
    &&& a.prot_type == INPUT_PROTEIN ==> !has_key(gm.input_genes@, a.connect_to as int)
    &&& a.prot_type == OUTPUT_PROTEIN ==> !has_key(gm.output_genes@, a.connect_to as int)
}

/// One when the two genes differ in role or identity address (a nonzero
/// gene comparison), zero otherwise.
pub open spec fn pair_mismatch(a: GrnGene, b: GrnGene) -> int {
    if a.prot_type == b.prot_type && a.prot_id == b.prot_id {
        0
    } else {
        1
    }
}

/// Mismatches of one gene against the first `upto` genes of a collection.
pub open spec fn row_mismatch(g: GrnGene, s: Seq<GrnGene>, upto: int) -> int
    decreases upto,
{
    if upto <= 0 {
        0
    } else {
        row_mismatch(g, s, upto - 1) + pair_mismatch(g, s[upto - 1])
    }
}

/// Mismatching pairs over the full cross product of the first `upto` genes
/// of `a` against all of `b`.
pub open spec fn cross_mismatch(a: Seq<GrnGene>, b: Seq<GrnGene>, upto: int) -> int
    decreases upto,
{
    if upto <= 0 {
        0
    } else {
        cross_mismatch(a, b, upto - 1) + row_mismatch(a[upto - 1], b, b.len() as int)
    }
}

proof fn lemma_row_mismatch_bound(g: GrnGene, s: Seq<GrnGene>, upto: int)
    requires
        0 <= upto,
    ensures
        0 <= row_mismatch(g, s, upto) <= upto,
    decreases upto,
{
    if upto > 0 {
        lemma_row_mismatch_bound(g, s, upto - 1);
    }
}

proof fn lemma_cross_mismatch_bound(a: Seq<GrnGene>, b: Seq<GrnGene>, upto: int)
    requires
        0 <= upto,
    ensures
        0 <= cross_mismatch(a, b, upto) <= upto * b.len(),
    decreases upto,
{
    if upto > 0 {
        lemma_cross_mismatch_bound(a, b, upto - 1);
        lemma_row_mismatch_bound(a[upto - 1], b, b.len() as int);
        assert(upto * b.len() == (upto - 1) * b.len() + b.len()) by (nonlinear_arith);
    } else {
        assert(0 * b.len() == 0) by (nonlinear_arith);
    }
}

/// Mismatching pairs counted over one full cross product.
fn cross_count(a: &Vec<GrnGene>, b: &Vec<GrnGene>) -> (r: i64)
    requires
        a@.len() * b@.len() <= i32::MAX,
    ensures
        r == cross_mismatch(a@, b@, a@.len() as int),
        0 <= r <= a@.len() * b@.len(),
{
    proof {
        lemma_cross_mismatch_bound(a@, b@, a@.len() as int);
    }
    let mut count: i64 = 0;
    let mut i: usize = 0;
    while i < a.len()
        invariant
            i <= a@.len(),
            a@.len() * b@.len() <= i32::MAX,
            count == cross_mismatch(a@, b@, i as int),
            0 <= count <= i * b@.len(),
        decreases a@.len() - i,
    {
        let ga = a[i];
        proof {
            assert(b@.len() <= a@.len() * b@.len()) by (nonlinear_arith)
                requires
                    a@.len() >= 1 && b@.len() >= 0,
            ;
        }
        let mut j: usize = 0;
        let mut row: i64 = 0;
        while j < b.len()
            invariant
                i < a@.len(),
                j <= b@.len(),
                b@.len() <= i32::MAX,
                ga == a@[i as int],
                row == row_mismatch(ga, b@, j as int),
                0 <= row <= j,
            decreases b@.len() - j,
        {
            let gb = b[j];
            if !(ga.prot_type == gb.prot_type && ga.prot_id == gb.prot_id) {
                row = row + 1;
            }
            j = j + 1;
        }
        proof {
            lemma_cross_mismatch_bound(a@, b@, i + 1);
            assert((i + 1) * b@.len() == i * b@.len() + b@.len()) by (nonlinear_arith);
            assert((i + 1) * b@.len() <= a@.len() * b@.len()) by (nonlinear_arith)
                requires
                    i + 1 <= a@.len() && b@.len() >= 0,
            ;
        }
        count = count + row;
        i = i + 1;
    }
    count
}

/// The distance charged for one gene of the larger genome against the
/// matching key of the smaller one: the gene distance to the gene stored
/// under the same binding key, or nothing when the key is absent (that
/// contribution is skipped, not an error).
pub open spec fn keyed_contrib(q: GrnGene, s: Seq<GrnGene>) -> int {
    if has_key(s, q.connect_to as int) {
        let i = choose|i: int| 0 <= i < s.len() && (#[trigger] s[i]).connect_to == q.connect_to;
        gene_dist(q, s[i])
    } else {
        0
    }
}

/// Keyed contributions summed over the first `upto` genes of the larger
/// genome's partition.
pub open spec fn keyed_sum(gl_part: Seq<GrnGene>, gs_part: Seq<GrnGene>, upto: int) -> int
    decreases upto,
{
    if upto <= 0 {
        0
    } else {
        keyed_sum(gl_part, gs_part, upto - 1) + keyed_contrib(gl_part[upto - 1], gs_part)
    }
}

/// The least gene distance from `q` to the first `upto` genes of `s`, or
/// `UNMATCHED_DIST` when there are none.
pub open spec fn reg_min(q: GrnGene, s: Seq<GrnGene>, upto: int) -> int
    decreases upto,
{
    if upto <= 0 {
        UNMATCHED_DIST as int
    } else {
        let prev = reg_min(q, s, upto - 1);
        let d = gene_dist(q, s[upto - 1]);
        if d < prev {
            d
        } else {
            prev
        }
    }
}

/// Best-match regulatory contributions summed over the first `upto`
/// regulatory genes of the larger genome.
pub open spec fn reg_sum(gl_regs: Seq<GrnGene>, gs_regs: Seq<GrnGene>, upto: int) -> int
    decreases upto,
{
    if upto <= 0 {
        0
    } else {
        reg_sum(gl_regs, gs_regs, upto - 1) + reg_min(
            gl_regs[upto - 1],
            gs_regs,
            gs_regs.len() as int,
        )
    }
}

/// The exact genome distance as a numerator and a denominator: inputs and
/// outputs of the larger genome matched by exact binding key into the
/// smaller (missing keys skipped), regulatory genes by directed best match,
/// normalized by the larger genome's size — plus, when asked, the
/// dynamics-coefficient differences normalized by the bounds of `a`, with
/// the size widened by two.
pub open spec fn genome_dist_ratio(a: GrnGenome, b: GrnGenome, with_dyn: bool) -> (int, int) {
    let gs = if a.all_genes@.len() < b.all_genes@.len() {
        a
    } else {
        b
    };
    let gl = if a.all_genes@.len() < b.all_genes@.len() {
        b
    } else {
        a
    };
    let sum = keyed_sum(gl.input_genes@, gs.input_genes@, gl.input_genes@.len() as int)
        + keyed_sum(gl.output_genes@, gs.output_genes@, gl.output_genes@.len() as int) + reg_sum(
        gl.regulatory_genes@,
        gs.regulatory_genes@,
        gl.regulatory_genes@.len() as int,
    );
    if with_dyn {
        let bden = a.beta_max - a.beta_min;
        let dden = a.delta_max - a.delta_min;
        let db = abs_diff(a.beta as int, b.beta as int);
        let dd = abs_diff(a.delta as int, b.delta as int);
        (
            sum * bden * dden + db * 256 * dden + dd * 256 * bden,
            256 * bden * dden * (gl.all_genes@.len() + 2),
        )
    } else {
        (sum, 256 * gl.all_genes@.len() as int)
    }
}

proof fn lemma_keyed_sum_bound(gl_part: Seq<GrnGene>, gs_part: Seq<GrnGene>, upto: int)
    requires
        0 <= upto,
        all_wf(gl_part),
        all_wf(gs_part),
        upto <= gl_part.len(),
    ensures
        0 <= keyed_sum(gl_part, gs_part, upto) <= upto * (DIST_ONE as int),
    decreases upto,
{
    if upto > 0 {
        lemma_keyed_sum_bound(gl_part, gs_part, upto - 1);
        let q = gl_part[upto - 1];
        if has_key(gs_part, q.connect_to as int) {
            let i = choose|i: int|
                0 <= i < gs_part.len() && (#[trigger] gs_part[i]).connect_to == q.connect_to;
            crate::evolver::grn_gene::lemma_gene_dist_bounds(q, gs_part[i]);
        }
        assert(upto * (DIST_ONE as int) == (upto - 1) * (DIST_ONE as int) + DIST_ONE as int)
            by (nonlinear_arith);
    } else {
        assert(0 * (DIST_ONE as int) == 0) by (nonlinear_arith);
    }
}

proof fn lemma_reg_min_bound(q: GrnGene, s: Seq<GrnGene>, upto: int)
    requires
        0 <= upto,
    ensures
        0 <= reg_min(q, s, upto) <= UNMATCHED_DIST,
    decreases upto,
{
    if upto > 0 {
        lemma_reg_min_bound(q, s, upto - 1);
    }
}

proof fn lemma_reg_sum_bound(gl_regs: Seq<GrnGene>, gs_regs: Seq<GrnGene>, upto: int)
    requires
        0 <= upto,
    ensures
        0 <= reg_sum(gl_regs, gs_regs, upto) <= upto * (UNMATCHED_DIST as int),
    decreases upto,
{
    if upto > 0 {
        lemma_reg_sum_bound(gl_regs, gs_regs, upto - 1);
        lemma_reg_min_bound(gl_regs[upto - 1], gs_regs, gs_regs.len() as int);
        assert(upto * (UNMATCHED_DIST as int) == (upto - 1) * (UNMATCHED_DIST as int)
            + UNMATCHED_DIST as int) by (nonlinear_arith);
    } else {
        assert(0 * (UNMATCHED_DIST as int) == 0) by (nonlinear_arith);
    }
}

/// The concatenated renderings of the first `upto` genes.
pub open spec fn genes_str(s: Seq<GrnGene>, upto: int) -> Seq<char>
    decreases upto,
{
    if upto <= 0 {
        Seq::empty()
    } else {
        genes_str(s, upto - 1) + gene_str(s[upto - 1])
    }
}

/// Two genomes carry the same genes, parameters and bookkeeping — equality
/// up to the identity of the backing vectors.
pub open spec fn genome_eq(a: GrnGenome, b: GrnGenome) -> bool {
    &&& a.input_genes@ == b.input_genes@
    &&& a.output_genes@ == b.output_genes@
    &&& a.regulatory_genes@ == b.regulatory_genes@
    &&& a.all_genes@ == b.all_genes@
    &&& a.beta == b.beta && a.delta == b.delta
    &&& a.beta_max == b.beta_max && a.beta_min == b.beta_min
    &&& a.delta_max == b.delta_max && a.delta_min == b.delta_min
    &&& a.parent_best_fit == b.parent_best_fit
    &&& a.adjusted_fit == b.adjusted_fit
    &&& a.last_fit == b.last_fit
    &&& a.has_been_evaluated == b.has_been_evaluated
}

/// A fresh vector with the same genes.
fn copy_genes(v: &Vec<GrnGene>) -> (r: Vec<GrnGene>)
    ensures
        r@ == v@,
{
    let mut r: Vec<GrnGene> = Vec::new();
    let mut i: usize = 0;
    while i < v.len()
        invariant
            i <= v@.len(),
            r@ == v@.subrange(0, i as int),
        decreases v@.len() - i,
    {
        r.push(v[i]);
        i = i + 1;
    }
    proof {
        assert(v@.subrange(0, v@.len() as int) =~= v@);
    }
    r
}

/// A member of a well-formed genome agrees with everything stored under its
/// identifier and under its role partition key, so removing it by
/// descriptor is consistent.
pub proof fn lemma_remove_alignment(gm: GrnGenome, g: GrnGene)
    requires
        gm.wf(),
        has_gene(gm.all_genes@, g),
    ensures
        valid_role(g.prot_type as int),
        forall|i: int|
            0 <= i < gm.all_genes@.len() && (#[trigger] gm.all_genes@[i]).gene_id == g.gene_id
                ==> gm.all_genes@[i].prot_type == g.prot_type && gm.all_genes@[i].connect_to
                == g.connect_to,
        g.prot_type == INPUT_PROTEIN ==> forall|i: int|
            0 <= i < gm.input_genes@.len() && (#[trigger] gm.input_genes@[i]).connect_to
                == g.connect_to ==> gm.input_genes@[i].gene_id == g.gene_id,
        g.prot_type == OUTPUT_PROTEIN ==> forall|i: int|
            0 <= i < gm.output_genes@.len() && (#[trigger] gm.output_genes@[i]).connect_to
                == g.connect_to ==> gm.output_genes@[i].gene_id == g.gene_id,
{
    let k = choose|k: int| 0 <= k < gm.all_genes@.len() && gm.all_genes@[k] == g;
    assert(valid_role((gm.all_genes@[k]).prot_type as int));
    assert forall|i: int|
        0 <= i < gm.all_genes@.len() && (#[trigger] gm.all_genes@[i]).gene_id
            == g.gene_id implies gm.all_genes@[i].prot_type == g.prot_type
        && gm.all_genes@[i].connect_to == g.connect_to by {
        assert(i == k);
    }
    if g.prot_type == INPUT_PROTEIN {
        assert(in_partition(gm, gm.all_genes@[k]));
        let m = choose|m: int| 0 <= m < gm.input_genes@.len() && gm.input_genes@[m] == g;
        assert forall|i: int|
            0 <= i < gm.input_genes@.len() && (#[trigger] gm.input_genes@[i]).connect_to
                == g.connect_to implies gm.input_genes@[i].gene_id == g.gene_id by {
            assert(i == m);
        }
    }
    if g.prot_type == OUTPUT_PROTEIN {
        assert(in_partition(gm, gm.all_genes@[k]));
        let m = choose|m: int| 0 <= m < gm.output_genes@.len() && gm.output_genes@[m] == g;
        assert forall|i: int|
            0 <= i < gm.output_genes@.len() && (#[trigger] gm.output_genes@[i]).connect_to
                == g.connect_to implies gm.output_genes@[i].gene_id == g.gene_id by {
            assert(i == m);
        }
    }
}

/// A genome: the three role partitions (inputs and outputs keyed by their
/// binding index, regulatory genes by their identifier), the authoritative
/// registry keyed by identifier, the dynamics parameters in thousandths with
/// their normalization bounds, and the fitness bookkeeping.
#[derive(Debug, Clone)]
pub struct GrnGenome {
    pub input_genes: Vec<GrnGene>,
    pub output_genes: Vec<GrnGene>,
    pub regulatory_genes: Vec<GrnGene>,
    pub all_genes: Vec<GrnGene>,
    pub beta: u32,
    pub delta: u32,
    pub beta_max: u32,
    pub beta_min: u32,
    pub delta_max: u32,
    pub delta_min: u32,
    pub parent_best_fit: i64,
    pub adjusted_fit: i64,
    pub last_fit: i64,
    pub has_been_evaluated: bool,
}

impl GrnGenome {
    /// The registry invariant: identifiers are unique, the role partitions
    /// are keyed uniquely and hold exactly the registry's genes of their
    /// role, every gene is well formed with a valid role, and the dynamics
    /// parameters stay in scale.
    pub open spec fn wf(self) -> bool {
        &&& self.all_genes@.len() <= N_MAX
        &&& self.input_genes@.len() <= N_MAX
        &&& self.output_genes@.len() <= N_MAX
        &&& self.regulatory_genes@.len() <= N_MAX
        &&& all_wf(self.all_genes@)
        &&& all_wf(self.input_genes@)
        &&& all_wf(self.output_genes@)
        &&& all_wf(self.regulatory_genes@)
        &&& unique_ids(self.all_genes@)
        &&& unique_keys(self.input_genes@)
        &&& unique_keys(self.output_genes@)
        &&& unique_ids(self.regulatory_genes@)
        &&& all_role(self.input_genes@, INPUT_PROTEIN as int)
        &&& all_role(self.output_genes@, OUTPUT_PROTEIN as int)
        &&& all_role(self.regulatory_genes@, REGULATORY_PROTEIN as int)
        &&& forall|i: int|
            0 <= i < self.input_genes@.len() ==> has_gene(
                self.all_genes@,
                #[trigger] self.input_genes@[i],
            )
        &&& forall|i: int|
            0 <= i < self.output_genes@.len() ==> has_gene(
                self.all_genes@,
                #[trigger] self.output_genes@[i],
            )
        &&& forall|i: int|
            0 <= i < self.regulatory_genes@.len() ==> has_gene(
                self.all_genes@,
                #[trigger] self.regulatory_genes@[i],
            )
        &&& forall|i: int|
            0 <= i < self.all_genes@.len() ==> valid_role(
                (#[trigger] self.all_genes@[i]).prot_type as int,
            )
        &&& forall|i: int|
            0 <= i < self.all_genes@.len() ==> in_partition(self, #[trigger] self.all_genes@[i])
        &&& self.beta <= 2000
        &&& self.delta <= 2000
        &&& self.beta_min < self.beta_max <= 2000
        &&& self.delta_min < self.delta_max <= 2000
    }

    /// An empty genome: beta and delta at one, their bounds at the standard
    /// half-to-two range, no fitness recorded.
    pub fn new() -> (r: GrnGenome)
        ensures
            r.input_genes@.len() == 0,
            r.output_genes@.len() == 0,
            r.regulatory_genes@.len() == 0,
            r.all_genes@.len() == 0,
            r.beta == 1000 && r.delta == 1000,
            r.beta_max == 2000 && r.beta_min == 500,
            r.delta_max == 2000 && r.delta_min == 500,
            r.parent_best_fit == 0 && r.adjusted_fit == 0 && r.last_fit == 0,
            !r.has_been_evaluated,
            r.wf(),
    {
        GrnGenome {
            input_genes: Vec::new(),
            output_genes: Vec::new(),
            regulatory_genes: Vec::new(),
            all_genes: Vec::new(),
            beta: 1000,
            delta: 1000,
            beta_max: 2000,
            beta_min: 500,
            delta_max: 2000,
            delta_min: 500,
            parent_best_fit: 0,
            adjusted_fit: 0,
            last_fit: 0,
            has_been_evaluated: false,
        }
    }

    /// Insert a gene under its role partition key and its identifier, with
    /// map semantics: any gene already registered under the same identifier,
    /// or keyed under the same role partition slot, is evicted from both the
    /// partition and the registry.  Marks the genome as evaluated.
    pub fn add_gene(&mut self, a_gene: GrnGene)
        requires
            old(self).wf(),
            a_gene.wf(),
            valid_role(a_gene.prot_type as int),
            old(self).all_genes@.len() < N_MAX,
            old(self).input_genes@.len() < N_MAX,
            old(self).output_genes@.len() < N_MAX,
            old(self).regulatory_genes@.len() < N_MAX,
        ensures
            final(self).wf(),
            final(self).has_been_evaluated,
            has_gene(final(self).all_genes@, a_gene),
            in_partition(*final(self), a_gene),
            forall|x: GrnGene| #[trigger] has_gene(final(self).all_genes@, x) <==> (x == a_gene
                || (has_gene(old(self).all_genes@, x) && !displaced_by(a_gene, x))),
            final(self).all_genes@.len() <= old(self).all_genes@.len() + 1,
            final(self).beta == old(self).beta && final(self).delta == old(self).delta,
            final(self).beta_max == old(self).beta_max && final(self).beta_min == old(self).beta_min,
            final(self).delta_max == old(self).delta_max && final(self).delta_min == old(self).delta_min,
            final(self).last_fit == old(self).last_fit,
            final(self).adjusted_fit == old(self).adjusted_fit,
            final(self).parent_best_fit == old(self).parent_best_fit,
            fresh_slot(*old(self), a_gene) ==> final(self).all_genes@.len() == old(self).all_genes@.len() + 1,
            fresh_slot(*old(self), a_gene) && a_gene.prot_type == INPUT_PROTEIN ==> final(self).input_genes@.len() == old(self).input_genes@.len() + 1 && final(self).output_genes
                == old(self).output_genes && final(self).regulatory_genes == old(self).regulatory_genes,
            fresh_slot(*old(self), a_gene) && a_gene.prot_type == OUTPUT_PROTEIN ==> final(self).output_genes@.len() == old(self).output_genes@.len() + 1 && final(self).input_genes
                == old(self).input_genes && final(self).regulatory_genes == old(self).regulatory_genes,
            fresh_slot(*old(self), a_gene) && a_gene.prot_type == REGULATORY_PROTEIN ==> final(self).regulatory_genes@.len() == old(self).regulatory_genes@.len() + 1 && final(self).input_genes == old(self).input_genes && final(self).output_genes == old(self).output_genes,
    {
        let ghost sold = *old(self);
        // evict whatever is registered under the same identifier
        match find_index_by_id(&self.all_genes, a_gene.gene_id) {
            Some(i) => {
                let old_entry = self.all_genes[i];
                proof {
                    lemma_remove_alignment(*self, old_entry);
                }
                self.remove_gene(&old_entry);
            },
            None => {},
        }
        assert(self.wf());
        assert(forall|x: GrnGene| #[trigger] has_gene(self.all_genes@, x) <==> (has_gene(
            sold.all_genes@,
            x,
        ) && x.gene_id != a_gene.gene_id));
        let ghost smid = *self;
        // evict whatever holds the same role partition slot
        if a_gene.prot_type == INPUT_PROTEIN {
            match find_index_by_key(&self.input_genes, a_gene.connect_to) {
                Some(i) => {
                    let displaced = self.input_genes[i];
                    proof {
                        lemma_remove_alignment(*self, displaced);
                    }
                    self.remove_gene(&displaced);
                    proof {
                        assert forall|x: GrnGene| #[trigger] has_gene(self.all_genes@, x) <==> (
                        has_gene(sold.all_genes@, x) && !displaced_by(a_gene, x)) by {
                            if has_gene(self.all_genes@, x) {
                                assert(has_gene(smid.all_genes@, x) && x.gene_id
                                    != displaced.gene_id);
                                if x.prot_type == INPUT_PROTEIN && x.connect_to
                                    == a_gene.connect_to {
                                    let k = choose|k: int|
                                        0 <= k < smid.all_genes@.len() && smid.all_genes@[k] == x;
                                    assert(in_partition(smid, smid.all_genes@[k]));
                                    let xi = choose|xi: int|
                                        0 <= xi < smid.input_genes@.len()
                                            && smid.input_genes@[xi] == x;
                                    assert(smid.input_genes@[xi].connect_to
                                        == smid.input_genes@[i as int].connect_to);
                                    assert(xi == i as int);
                                    assert(false);
                                }
                            }
                            if has_gene(sold.all_genes@, x) && !displaced_by(a_gene, x) {
                                assert(has_gene(smid.all_genes@, x));
                                if x.gene_id == displaced.gene_id {
                                    let k = choose|k: int|
                                        0 <= k < smid.all_genes@.len() && smid.all_genes@[k] == x;
                                    assert(has_gene(smid.all_genes@, displaced));
                                    let dk = choose|dk: int|
                                        0 <= dk < smid.all_genes@.len() && smid.all_genes@[dk]
                                            == displaced;
                                    assert(k == dk);
                                    assert(x == displaced);
                                    assert(x.prot_type == INPUT_PROTEIN);
                                    assert(false);
                                }
                                assert(has_gene(self.all_genes@, x));
                            }
                        }
                    }
                },
                None => {
                    proof {
                        assert forall|x: GrnGene| #[trigger] has_gene(self.all_genes@, x) <==> (
                        has_gene(sold.all_genes@, x) && !displaced_by(a_gene, x)) by {
                            if has_gene(self.all_genes@, x) {
                                if x.prot_type == INPUT_PROTEIN && x.connect_to
                                    == a_gene.connect_to {
                                    let k = choose|k: int|
                                        0 <= k < smid.all_genes@.len() && smid.all_genes@[k] == x;
                                    assert(in_partition(smid, smid.all_genes@[k]));
                                    let xi = choose|xi: int|
                                        0 <= xi < smid.input_genes@.len()
                                            && smid.input_genes@[xi] == x;
                                    assert((#[trigger] smid.input_genes@[xi]).connect_to
                                        == a_gene.connect_to);
                                    assert(has_key(
                                        smid.input_genes@,
                                        a_gene.connect_to as int,
                                    ));
                                    assert(false);
                                }
                            }
                        }
                    }
                },
            }
        } else if a_gene.prot_type == OUTPUT_PROTEIN {
            match find_index_by_key(&self.output_genes, a_gene.connect_to) {
                Some(i) => {
                    let displaced = self.output_genes[i];
                    proof {
                        lemma_remove_alignment(*self, displaced);
                    }
                    self.remove_gene(&displaced);
                    proof {
                        assert forall|x: GrnGene| #[trigger] has_gene(self.all_genes@, x) <==> (
                        has_gene(sold.all_genes@, x) && !displaced_by(a_gene, x)) by {
                            if has_gene(self.all_genes@, x) {
                                assert(has_gene(smid.all_genes@, x) && x.gene_id
                                    != displaced.gene_id);
                                if x.prot_type == OUTPUT_PROTEIN && x.connect_to
                                    == a_gene.connect_to {
                                    let k = choose|k: int|
                                        0 <= k < smid.all_genes@.len() && smid.all_genes@[k] == x;
                                    assert(in_partition(smid, smid.all_genes@[k]));
                                    let xi = choose|xi: int|
                                        0 <= xi < smid.output_genes@.len()
                                            && smid.output_genes@[xi] == x;
                                    assert(smid.output_genes@[xi].connect_to
                                        == smid.output_genes@[i as int].connect_to);
                                    assert(xi == i as int);
                                    assert(false);
                                }
                            }
                            if has_gene(sold.all_genes@, x) && !displaced_by(a_gene, x) {
                                assert(has_gene(smid.all_genes@, x));
                                if x.gene_id == displaced.gene_id {
                                    let k = choose|k: int|
                                        0 <= k < smid.all_genes@.len() && smid.all_genes@[k] == x;
                                    assert(has_gene(smid.all_genes@, displaced));
                                    let dk = choose|dk: int|
                                        0 <= dk < smid.all_genes@.len() && smid.all_genes@[dk]
                                            == displaced;
                                    assert(k == dk);
                                    assert(x == displaced);
                                    assert(x.prot_type == OUTPUT_PROTEIN);
                                    assert(false);
                                }
                                assert(has_gene(self.all_genes@, x));
                            }
                        }
                    }
                },
                None => {
                    proof {
                        assert forall|x: GrnGene| #[trigger] has_gene(self.all_genes@, x) <==> (
                        has_gene(sold.all_genes@, x) && !displaced_by(a_gene, x)) by {
                            if has_gene(self.all_genes@, x) {
                                if x.prot_type == OUTPUT_PROTEIN && x.connect_to
                                    == a_gene.connect_to {
                                    let k = choose|k: int|
                                        0 <= k < smid.all_genes@.len() && smid.all_genes@[k] == x;
                                    assert(in_partition(smid, smid.all_genes@[k]));
                                    let xi = choose|xi: int|
                                        0 <= xi < smid.output_genes@.len()
                                            && smid.output_genes@[xi] == x;
                                    assert((#[trigger] smid.output_genes@[xi]).connect_to
                                        == a_gene.connect_to);
                                    assert(has_key(
                                        smid.output_genes@,
                                        a_gene.connect_to as int,
                                    ));
                                    assert(false);
                                }
                            }
                        }
                    }
                },
            }
        } else {
            proof {
                assert(a_gene.prot_type == REGULATORY_PROTEIN);
            }
        }
        assert(self.wf());
        assert(forall|x: GrnGene| #[trigger] has_gene(self.all_genes@, x) <==> (has_gene(
            sold.all_genes@,
            x,
        ) && !displaced_by(a_gene, x)));
        let ghost spre = *self;
        // insert the gene under its key and identifier
        proof {
            lemma_push_props(spre.all_genes@, a_gene);
            lemma_push_props(spre.input_genes@, a_gene);
            lemma_push_props(spre.output_genes@, a_gene);
            lemma_push_props(spre.regulatory_genes@, a_gene);
            assert(!has_id(spre.all_genes@, a_gene.gene_id as int)) by {
                if has_id(spre.all_genes@, a_gene.gene_id as int) {
                    let i = choose|i: int|
                        0 <= i < spre.all_genes@.len() && (#[trigger] spre.all_genes@[i]).gene_id
                            == a_gene.gene_id;
                    assert(has_gene(spre.all_genes@, spre.all_genes@[i]));
                }
            }
            if a_gene.prot_type == INPUT_PROTEIN {
                assert(!has_key(spre.input_genes@, a_gene.connect_to as int)) by {
                    if has_key(spre.input_genes@, a_gene.connect_to as int) {
                        let i = choose|i: int|
                            0 <= i < spre.input_genes@.len() && (#[trigger] spre
                                .input_genes@[i]).connect_to == a_gene.connect_to;
                        let y = spre.input_genes@[i];
                        assert(has_gene(spre.all_genes@, y));
                    }
                }
            }
            if a_gene.prot_type == OUTPUT_PROTEIN {
                assert(!has_key(spre.output_genes@, a_gene.connect_to as int)) by {
                    if has_key(spre.output_genes@, a_gene.connect_to as int) {
                        let i = choose|i: int|
                            0 <= i < spre.output_genes@.len() && (#[trigger] spre
                                .output_genes@[i]).connect_to == a_gene.connect_to;
                        let y = spre.output_genes@[i];
                        assert(has_gene(spre.all_genes@, y));
                    }
                }
            }
            if a_gene.prot_type == REGULATORY_PROTEIN {
                assert(!has_id(spre.regulatory_genes@, a_gene.gene_id as int)) by {
                    if has_id(spre.regulatory_genes@, a_gene.gene_id as int) {
                        let i = choose|i: int|
                            0 <= i < spre.regulatory_genes@.len() && (#[trigger] spre
                                .regulatory_genes@[i]).gene_id == a_gene.gene_id;
                        let y = spre.regulatory_genes@[i];
                        assert(has_gene(spre.all_genes@, y));
                    }
                }
            }
        }
        if a_gene.prot_type == INPUT_PROTEIN {
            self.input_genes.push(a_gene);
        } else if a_gene.prot_type == OUTPUT_PROTEIN {
            self.output_genes.push(a_gene);
        } else {
            self.regulatory_genes.push(a_gene);
        }
        self.all_genes.push(a_gene);
        self.has_been_evaluated = true;
        proof {
            let snew = *self;
            assert(snew.all_genes@ == spre.all_genes@.push(a_gene));
            assert(has_gene(snew.all_genes@, a_gene));
            assert forall|i: int| 0 <= i < snew.all_genes@.len() implies in_partition(
                snew,
                #[trigger] snew.all_genes@[i],
            ) by {
                let x = snew.all_genes@[i];
                assert(has_gene(snew.all_genes@, x));
                if x == a_gene {
                } else {
                    assert(has_gene(spre.all_genes@, x));
                    assert(in_partition(spre, x));
                }
            }
            assert forall|i: int| 0 <= i < snew.input_genes@.len() implies has_gene(
                snew.all_genes@,
                #[trigger] snew.input_genes@[i],
            ) by {
                let x = snew.input_genes@[i];
                assert(has_gene(snew.input_genes@, x));
                if x != a_gene {
                    assert(has_gene(spre.input_genes@, x));
                    assert(has_gene(spre.all_genes@, x));
                }
            }
            assert forall|i: int| 0 <= i < snew.output_genes@.len() implies has_gene(
                snew.all_genes@,
                #[trigger] snew.output_genes@[i],
            ) by {
                let x = snew.output_genes@[i];
                assert(has_gene(snew.output_genes@, x));
                if x != a_gene {
                    assert(has_gene(spre.output_genes@, x));
                    assert(has_gene(spre.all_genes@, x));
                }
            }
            assert forall|i: int| 0 <= i < snew.regulatory_genes@.len() implies has_gene(
                snew.all_genes@,
                #[trigger] snew.regulatory_genes@[i],
            ) by {
                let x = snew.regulatory_genes@[i];
                assert(has_gene(snew.regulatory_genes@, x));
                if x != a_gene {
                    assert(has_gene(spre.regulatory_genes@, x));
                    assert(has_gene(spre.all_genes@, x));
                }
            }
            assert forall|i: int| 0 <= i < snew.all_genes@.len() implies (#[trigger] snew
                .all_genes@[i]).wf() && valid_role(snew.all_genes@[i].prot_type as int) by {
                let x = snew.all_genes@[i];
                assert(has_gene(snew.all_genes@, x));
                if x != a_gene {
                    assert(has_gene(spre.all_genes@, x));
                    let k = choose|k: int|
                        0 <= k < spre.all_genes@.len() && spre.all_genes@[k] == x;
                }
            }
        }
    }

    /// Remove a gene: its entry leaves the role partition (keyed by
    /// `connect_to` for inputs and outputs, by identifier for regulatory
    /// genes) and the registry, and the genome is marked as needing
    /// re-evaluation.  The descriptor must agree with what is stored under
    /// its identifier and key, as a clone of a member does.
    pub fn remove_gene(&mut self, g: &GrnGene)
        requires
            old(self).wf(),
            valid_role(g.prot_type as int),
            forall|i: int|
                0 <= i < old(self).all_genes@.len() && (#[trigger] old(self).all_genes@[i]).gene_id == g.gene_id ==> old(self).all_genes@[i].prot_type
                    == g.prot_type && old(self).all_genes@[i].connect_to == g.connect_to,
            g.prot_type == INPUT_PROTEIN ==> forall|i: int|
                0 <= i < old(self).input_genes@.len() && (#[trigger] old(self).input_genes@[i]).connect_to == g.connect_to ==> old(self).input_genes@[i].gene_id == g.gene_id,
            g.prot_type == OUTPUT_PROTEIN ==> forall|i: int|
                0 <= i < old(self).output_genes@.len() && (#[trigger] old(self).output_genes@[i]).connect_to == g.connect_to ==> old(self).output_genes@[i].gene_id == g.gene_id,
        ensures
            final(self).wf(),
            !final(self).has_been_evaluated,
            final(self).all_genes@.len() <= old(self).all_genes@.len(),
            final(self).input_genes@.len() <= old(self).input_genes@.len(),
            final(self).output_genes@.len() <= old(self).output_genes@.len(),
            final(self).regulatory_genes@.len() <= old(self).regulatory_genes@.len(),
            final(self).all_genes@ == drop_id(old(self).all_genes@, g.gene_id as int),
            forall|x: GrnGene| #[trigger] has_gene(final(self).all_genes@, x) <==> (has_gene(
                old(self).all_genes@,
                x,
            ) && x.gene_id != g.gene_id),
            g.prot_type == INPUT_PROTEIN ==> final(self).input_genes@ == drop_key(
                old(self).input_genes@,
                g.connect_to as int,
            ) && final(self).output_genes == old(self).output_genes && final(self).regulatory_genes == old(self).regulatory_genes,
            g.prot_type == OUTPUT_PROTEIN ==> final(self).output_genes@ == drop_key(
                old(self).output_genes@,
                g.connect_to as int,
            ) && final(self).input_genes == old(self).input_genes && final(self).regulatory_genes == old(self).regulatory_genes,
            g.prot_type == REGULATORY_PROTEIN ==> final(self).regulatory_genes@ == drop_id(
                old(self).regulatory_genes@,
                g.gene_id as int,
            ) && final(self).input_genes == old(self).input_genes && final(self).output_genes
                == old(self).output_genes,
            final(self).beta == old(self).beta && final(self).delta == old(self).delta,
            final(self).beta_max == old(self).beta_max && final(self).beta_min == old(self).beta_min,
            final(self).delta_max == old(self).delta_max && final(self).delta_min == old(self).delta_min,
            final(self).last_fit == old(self).last_fit,
            final(self).adjusted_fit == old(self).adjusted_fit,
            final(self).parent_best_fit == old(self).parent_best_fit,
    {
        proof {
            lemma_drop_id_props(self.all_genes@, g.gene_id as int);
            lemma_drop_key_props(self.input_genes@, g.connect_to as int);
            lemma_drop_key_props(self.output_genes@, g.connect_to as int);
            lemma_drop_id_props(self.regulatory_genes@, g.gene_id as int);
        }
        if g.prot_type == INPUT_PROTEIN {
            self.input_genes = retain_without_key(&self.input_genes, g.connect_to);
        } else if g.prot_type == OUTPUT_PROTEIN {
            self.output_genes = retain_without_key(&self.output_genes, g.connect_to);
        } else {
            self.regulatory_genes = retain_without_id(&self.regulatory_genes, g.gene_id);
        }
        self.all_genes = retain_without_id(&self.all_genes, g.gene_id);
        self.has_been_evaluated = false;
        proof {
            let snew = *self;
            let sold = *old(self);
            assert forall|i: int| 0 <= i < snew.all_genes@.len() implies in_partition(
                snew,
                #[trigger] snew.all_genes@[i],
            ) by {
                let x = snew.all_genes@[i];
                assert(has_gene(snew.all_genes@, x));
                assert(has_gene(sold.all_genes@, x) && x.gene_id != g.gene_id);
                assert(in_partition(sold, x));
                if x.prot_type == INPUT_PROTEIN {
                    if g.prot_type == INPUT_PROTEIN {
                        assert(x.connect_to != g.connect_to);
                        assert(has_gene(snew.input_genes@, x));
                    }
                } else if x.prot_type == OUTPUT_PROTEIN {
                    if g.prot_type == OUTPUT_PROTEIN {
                        assert(x.connect_to != g.connect_to);
                        assert(has_gene(snew.output_genes@, x));
                    }
                } else {
                }
            }
            assert forall|i: int| 0 <= i < snew.input_genes@.len() implies has_gene(
                snew.all_genes@,
                #[trigger] snew.input_genes@[i],
            ) by {
                let x = snew.input_genes@[i];
                assert(has_gene(sold.input_genes@, x));
                assert(has_gene(sold.all_genes@, x));
                if x.gene_id == g.gene_id {
                    let k = choose|k: int|
                        0 <= k < sold.all_genes@.len() && sold.all_genes@[k] == x;
                    assert(sold.all_genes@[k].connect_to == g.connect_to);
                    assert(sold.all_genes@[k].prot_type == g.prot_type);
                }
            }
            assert forall|i: int| 0 <= i < snew.output_genes@.len() implies has_gene(
                snew.all_genes@,
                #[trigger] snew.output_genes@[i],
            ) by {
                let x = snew.output_genes@[i];
                assert(has_gene(sold.output_genes@, x));
                assert(has_gene(sold.all_genes@, x));
                if x.gene_id == g.gene_id {
                    let k = choose|k: int|
                        0 <= k < sold.all_genes@.len() && sold.all_genes@[k] == x;
                    assert(sold.all_genes@[k].connect_to == g.connect_to);
                    assert(sold.all_genes@[k].prot_type == g.prot_type);
                }
            }
            assert forall|i: int| 0 <= i < snew.regulatory_genes@.len() implies has_gene(
                snew.all_genes@,
                #[trigger] snew.regulatory_genes@[i],
            ) by {
                let x = snew.regulatory_genes@[i];
                assert(has_gene(sold.regulatory_genes@, x));
                assert(has_gene(sold.all_genes@, x));
            }
            assert forall|i: int| 0 <= i < snew.all_genes@.len() implies (#[trigger] snew
                .all_genes@[i]).wf() by {
                let x = snew.all_genes@[i];
                assert(has_gene(sold.all_genes@, x));
                let k = choose|k: int| 0 <= k < sold.all_genes@.len() && sold.all_genes@[k] == x;
            }
            assert forall|i: int| 0 <= i < snew.all_genes@.len() implies valid_role(
                (#[trigger] snew.all_genes@[i]).prot_type as int,
            ) by {
                let x = snew.all_genes@[i];
                assert(has_gene(sold.all_genes@, x));
                let k = choose|k: int| 0 <= k < sold.all_genes@.len() && sold.all_genes@[k] == x;
            }
        }
    }

    /// An opening brace, the registry's genes rendered in order, and the
    /// two dynamics parameters with two decimal places.
    pub fn to_string(&self) -> (r: String)
        ensures
            r@ == (seq!['{'] + genes_str(self.all_genes@, self.all_genes@.len() as int) + seq![
                ' ',
                ';',
                ' ',
            ] + two_dec(self.beta as int) + seq![' ', ';', ' '] + two_dec(self.delta as int)),
    {
        let mut res = String::from_str("{");
        proof {
            reveal_strlit("{");
        }
        let mut i: usize = 0;
        while i < self.all_genes.len()
            invariant
                i <= self.all_genes@.len(),
                res@ == seq!['{'] + genes_str(self.all_genes@, i as int),
            decreases self.all_genes@.len() - i,
        {
            let gs = self.all_genes[i].to_string();
            res.append(gs.as_str());
            i = i + 1;
        }
        res.append(" ; ");
        res.append(render_two_dec(self.beta).as_str());
        res.append(" ; ");
        res.append(render_two_dec(self.delta).as_str());
        proof {
            reveal_strlit(" ; ");
            assert(res@ =~= seq!['{'] + genes_str(self.all_genes@, self.all_genes@.len() as int)
                + seq![' ', ';', ' '] + two_dec(self.beta as int) + seq![' ', ';', ' ']
                + two_dec(self.delta as int));
        }
        res
    }

    /// An owned copy of the genome — the snapshot a species keeps as its
    /// representative.
    pub fn snapshot(&self) -> (r: GrnGenome)
        ensures
            genome_eq(*self, r),
            self.wf() ==> r.wf(),
    {
        GrnGenome {
            input_genes: copy_genes(&self.input_genes),
            output_genes: copy_genes(&self.output_genes),
            regulatory_genes: copy_genes(&self.regulatory_genes),
            all_genes: copy_genes(&self.all_genes),
            beta: self.beta,
            delta: self.delta,
            beta_max: self.beta_max,
            beta_min: self.beta_min,
            delta_max: self.delta_max,
            delta_min: self.delta_min,
            parent_best_fit: self.parent_best_fit,
            adjusted_fit: self.adjusted_fit,
            last_fit: self.last_fit,
            has_been_evaluated: self.has_been_evaluated,
        }
    }

    /// Cardinality of the registry.
    pub fn size(&self) -> (r: usize)
        ensures
            r == self.all_genes@.len(),
    {
        self.all_genes.len()
    }

    /// Count, over the full cross product of same-role collections of the
    /// two genomes, how many gene pairs compare as different (in role or
    /// identity address) — a discrete dissimilarity count, independent of
    /// the weighted distance.
    pub fn compare_to(&self, other: &GrnGenome) -> (r: i32)
        requires
            self.input_genes@.len() * other.input_genes@.len() + self.output_genes@.len()
                * other.output_genes@.len() + self.regulatory_genes@.len()
                * other.regulatory_genes@.len() <= i32::MAX,
        ensures
            r == cross_mismatch(self.input_genes@, other.input_genes@, self.input_genes@.len() as int)
                + cross_mismatch(
                self.output_genes@,
                other.output_genes@,
                self.output_genes@.len() as int,
            ) + cross_mismatch(
                self.regulatory_genes@,
                other.regulatory_genes@,
                self.regulatory_genes@.len() as int,
            ),
    {
        proof {
            lemma_cross_mismatch_bound(
                self.input_genes@,
                other.input_genes@,
                self.input_genes@.len() as int,
            );
            lemma_cross_mismatch_bound(
                self.output_genes@,
                other.output_genes@,
                self.output_genes@.len() as int,
            );
            lemma_cross_mismatch_bound(
                self.regulatory_genes@,
                other.regulatory_genes@,
                self.regulatory_genes@.len() as int,
            );
        }
        let mut distance: i64 = 0;
        distance = distance + cross_count(&self.input_genes, &other.input_genes);
        distance = distance + cross_count(&self.output_genes, &other.output_genes);
        distance = distance + cross_count(&self.regulatory_genes, &other.regulatory_genes);
        distance as i32
    }

    /// The directed genome distance as an exact ratio.  The larger genome
    /// (by registry size) is matched into the smaller: inputs and outputs by
    /// exact binding key (a missing key contributes nothing), regulatory
    /// genes by their least gene distance (`UNMATCHED_DIST` against an empty
    /// collection), all normalized by the larger size; when
    /// `compare_dynamics_coeff` is set, the normalized beta and delta
    /// differences join the sum and the size is widened by two.
    pub fn distance_to(&self, g: &GrnGenome, compare_dynamics_coeff: bool) -> (r: Ratio)
        requires
            self.wf(),
            g.wf(),
            !compare_dynamics_coeff ==> self.all_genes@.len() + g.all_genes@.len() > 0,
        ensures
            r.num == genome_dist_ratio(*self, *g, compare_dynamics_coeff).0,
            r.den == genome_dist_ratio(*self, *g, compare_dynamics_coeff).1,
            r.wf(),
    {
        let gs: &GrnGenome;
        let gl: &GrnGenome;
        if self.all_genes.len() < g.all_genes.len() {
            gs = self;
            gl = g;
        } else {
            gs = g;
            gl = self;
        }
        let mut sum: u64 = 0;
        // inputs and outputs: exact key matching into the smaller genome
        let mut j: usize = 0;
        while j < gl.input_genes.len()
            invariant
                j <= gl.input_genes@.len(),
                gl.wf(),
                gs.wf(),
                sum == keyed_sum(gl.input_genes@, gs.input_genes@, j as int),
                sum <= j * (DIST_ONE as int),
            decreases gl.input_genes@.len() - j,
        {
            let q = gl.input_genes[j];
            match find_index_by_key(&gs.input_genes, q.connect_to) {
                Some(i) => {
                    let found = gs.input_genes[i];
                    let d = q.distance_to(&found);
                    proof {
                        assert((#[trigger] gs.input_genes@[i as int]).connect_to == q.connect_to);
                        let ci = choose|ci: int|
                            0 <= ci < gs.input_genes@.len() && (#[trigger] gs
                                .input_genes@[ci]).connect_to == q.connect_to;
                        assert(ci == i as int);
                        assert((j + 1) * (DIST_ONE as int) == j * (DIST_ONE as int)
                            + DIST_ONE as int) by (nonlinear_arith);
                        assert((j + 1) * (DIST_ONE as int) <= 100_000 * (DIST_ONE as int))
                            by (nonlinear_arith)
                            requires
                                j + 1 <= 100_000,
                        ;
                    }
                    sum = sum + d;
                },
                None => {
                    proof {
                        assert(keyed_contrib(q, gs.input_genes@) == 0);
                        assert(j * (DIST_ONE as int) <= (j + 1) * (DIST_ONE as int))
                            by (nonlinear_arith);
                    }
                },
            }
            j = j + 1;
        }
        let ghost in_sum = sum as int;
        j = 0;
        while j < gl.output_genes.len()
            invariant
                j <= gl.output_genes@.len(),
                gl.wf(),
                gs.wf(),
                in_sum == keyed_sum(
                    gl.input_genes@,
                    gs.input_genes@,
                    gl.input_genes@.len() as int,
                ),
                0 <= in_sum <= 100_000 * (DIST_ONE as int),
                sum == in_sum + keyed_sum(gl.output_genes@, gs.output_genes@, j as int),
                sum <= in_sum + j * (DIST_ONE as int),
            decreases gl.output_genes@.len() - j,
        {
            let q = gl.output_genes[j];
            match find_index_by_key(&gs.output_genes, q.connect_to) {
                Some(i) => {
                    let found = gs.output_genes[i];
                    let d = q.distance_to(&found);
                    proof {
                        assert((#[trigger] gs.output_genes@[i as int]).connect_to == q.connect_to);
                        let ci = choose|ci: int|
                            0 <= ci < gs.output_genes@.len() && (#[trigger] gs
                                .output_genes@[ci]).connect_to == q.connect_to;
                        assert(ci == i as int);
                        assert((j + 1) * (DIST_ONE as int) == j * (DIST_ONE as int)
                            + DIST_ONE as int) by (nonlinear_arith);
                        assert((j + 1) * (DIST_ONE as int) <= 100_000 * (DIST_ONE as int))
                            by (nonlinear_arith)
                            requires
                                j + 1 <= 100_000,
                        ;
                    }
                    sum = sum + d;
                },
                None => {
                    proof {
                        assert(keyed_contrib(q, gs.output_genes@) == 0);
                        assert(j * (DIST_ONE as int) <= (j + 1) * (DIST_ONE as int))
                            by (nonlinear_arith);
                    }
                },
            }
            j = j + 1;
        }
        let ghost io_sum = sum as int;
        // regulatory genes: directed best match
        j = 0;
        while j < gl.regulatory_genes.len()
            invariant
                j <= gl.regulatory_genes@.len(),
                gl.wf(),
                gs.wf(),
                io_sum == keyed_sum(gl.input_genes@, gs.input_genes@, gl.input_genes@.len() as int)
                    + keyed_sum(
                    gl.output_genes@,
                    gs.output_genes@,
                    gl.output_genes@.len() as int,
                ),
                0 <= io_sum <= 200_000 * (DIST_ONE as int),
                sum == io_sum + reg_sum(gl.regulatory_genes@, gs.regulatory_genes@, j as int),
                sum <= io_sum + j * (UNMATCHED_DIST as int),
            decreases gl.regulatory_genes@.len() - j,
        {
            let q = gl.regulatory_genes[j];
            let mut min_dist: u64 = UNMATCHED_DIST;
            let mut k: usize = 0;
            while k < gs.regulatory_genes.len()
                invariant
                    j < gl.regulatory_genes@.len(),
                    k <= gs.regulatory_genes@.len(),
                    gl.wf(),
                    gs.wf(),
                    q == gl.regulatory_genes@[j as int],
                    min_dist == reg_min(q, gs.regulatory_genes@, k as int),
                    min_dist <= UNMATCHED_DIST,
                decreases gs.regulatory_genes@.len() - k,
            {
                let d = q.distance_to(&gs.regulatory_genes[k]);
                if d < min_dist {
                    min_dist = d;
                }
                k = k + 1;
            }
            proof {
                assert((j + 1) * (UNMATCHED_DIST as int) == j * (UNMATCHED_DIST as int)
                    + UNMATCHED_DIST as int) by (nonlinear_arith);
                assert((j + 1) * (UNMATCHED_DIST as int) <= 100_000 * (UNMATCHED_DIST as int))
                    by (nonlinear_arith)
                    requires
                        j + 1 <= 100_000,
                ;
            }
            sum = sum + min_dist;
            j = j + 1;
        }
        proof {
            assert(sum <= 200_000 * (DIST_ONE as int) + 100_000 * (UNMATCHED_DIST as int));
        }
        if compare_dynamics_coeff {
            let bden: u64 = (self.beta_max - self.beta_min) as u64;
            let dden: u64 = (self.delta_max - self.delta_min) as u64;
            let db: u64 = if self.beta >= g.beta {
                (self.beta - g.beta) as u64
            } else {
                (g.beta - self.beta) as u64
            };
            let dd: u64 = if self.delta >= g.delta {
                (self.delta - g.delta) as u64
            } else {
                (g.delta - self.delta) as u64
            };
            proof {
                assert((sum as int) * (bden as int) <= 1_024_204_800_000_000int)
                    by (nonlinear_arith)
                    requires
                        0 <= sum as int <= 512_102_400_000int && 0 <= bden as int <= 2000,
                ;
                assert((sum as int) * (bden as int) * (dden as int)
                    <= 2_048_409_600_000_000_000int) by (nonlinear_arith)
                    requires
                        0 <= (sum as int) * (bden as int) <= 1_024_204_800_000_000int && 0
                            <= dden as int <= 2000,
                ;
                assert((db as int) * 256 * (dden as int) <= 1_024_000_000int)
                    by (nonlinear_arith)
                    requires
                        0 <= db as int <= 2000 && 0 <= dden as int <= 2000,
                ;
                assert((dd as int) * 256 * (bden as int) <= 1_024_000_000int)
                    by (nonlinear_arith)
                    requires
                        0 <= dd as int <= 2000 && 0 <= bden as int <= 2000,
                ;
                assert(256 * (bden as int) * (dden as int) <= 1_024_000_000int)
                    by (nonlinear_arith)
                    requires
                        0 < bden as int <= 2000 && 0 < dden as int <= 2000,
                ;
                assert(256 * (bden as int) * (dden as int) * ((gl.all_genes@.len() as int) + 2)
                    <= 1_024_000_000int * 100_002) by (nonlinear_arith)
                    requires
                        0 <= 256 * (bden as int) * (dden as int) <= 1_024_000_000int && 0 <= (
                        gl.all_genes@.len() as int) + 2 <= 100_002,
                ;
                assert(256 * (bden as int) * (dden as int) * ((gl.all_genes@.len() as int) + 2)
                    > 0) by (nonlinear_arith)
                    requires
                        0 < bden as int && 0 < dden as int && gl.all_genes@.len() >= 0,
                ;
            }
            let num128: u128 = (sum as u128) * (bden as u128) * (dden as u128) + (db as u128)
                * 256 * (dden as u128) + (dd as u128) * 256 * (bden as u128);
            let den128: u128 = 256 * (bden as u128) * (dden as u128) * ((gl.all_genes.len()
                as u128) + 2);
            Ratio { num: num128 as u64, den: den128 as u64 }
        } else {
            Ratio { num: sum, den: 256 * (gl.all_genes.len() as u64) }
        }
    }

    /// A genome built in bulk from a sequence of genes (identifiers and
    /// per-role keys pairwise distinct, so every gene survives) with the
    /// given dynamics parameters.
    pub fn with_vec(genes: Vec<GrnGene>, beta: u32, delta: u32) -> (r: GrnGenome)
        requires
            genes@.len() <= N_MAX,
            forall|i: int| 0 <= i < genes@.len() ==> (#[trigger] genes@[i]).wf(),
            forall|i: int|
                0 <= i < genes@.len() ==> valid_role((#[trigger] genes@[i]).prot_type as int),
            unique_ids(genes@),
            forall|i: int, j: int|
                0 <= i < j < genes@.len() && genes@[i].prot_type == genes@[j].prot_type
                    && genes@[i].prot_type != REGULATORY_PROTEIN ==> genes@[i].connect_to
                    != genes@[j].connect_to,
            beta <= 2000,
            delta <= 2000,
        ensures
            r.wf(),
            r.beta == beta,
            r.delta == delta,
            r.all_genes@.len() == genes@.len(),
            forall|x: GrnGene| #[trigger] has_gene(r.all_genes@, x) <==> has_gene(genes@, x),
            r.has_been_evaluated == (genes@.len() > 0),
    {
        let mut genome = Self::new();
        let mut i: usize = 0;
        while i < genes.len()
            invariant
                i <= genes@.len(),
                genes@.len() <= N_MAX,
                forall|k: int| 0 <= k < genes@.len() ==> (#[trigger] genes@[k]).wf(),
                forall|k: int|
                    0 <= k < genes@.len() ==> valid_role((#[trigger] genes@[k]).prot_type as int),
                unique_ids(genes@),
                forall|k: int, j: int|
                    0 <= k < j < genes@.len() && genes@[k].prot_type == genes@[j].prot_type
                        && genes@[k].prot_type != REGULATORY_PROTEIN ==> genes@[k].connect_to
                        != genes@[j].connect_to,
                genome.wf(),
                genome.all_genes@.len() == i,
                genome.input_genes@.len() + genome.output_genes@.len()
                    + genome.regulatory_genes@.len() == i,
                forall|x: GrnGene| #[trigger] has_gene(genome.all_genes@, x) <==> (exists|j: int|
                    0 <= j < i && genes@[j] == x),
                genome.has_been_evaluated == (i > 0),
                genome.beta == 1000 && genome.delta == 1000,
                genome.beta_max == 2000 && genome.beta_min == 500,
                genome.delta_max == 2000 && genome.delta_min == 500,
                genome.parent_best_fit == 0 && genome.adjusted_fit == 0 && genome.last_fit == 0,
            decreases genes@.len() - i,
        {
            let g = genes[i];
            proof {
                assert(!has_id(genome.all_genes@, g.gene_id as int)) by {
                    if has_id(genome.all_genes@, g.gene_id as int) {
                        let k = choose|k: int|
                            0 <= k < genome.all_genes@.len() && (#[trigger] genome
                                .all_genes@[k]).gene_id == g.gene_id;
                        let x = genome.all_genes@[k];
                        assert(has_gene(genome.all_genes@, x));
                        let j = choose|j: int| 0 <= j < i && genes@[j] == x;
                        assert(genes@[j].gene_id == genes@[i as int].gene_id);
                    }
                }
                if g.prot_type == INPUT_PROTEIN {
                    assert(!has_key(genome.input_genes@, g.connect_to as int)) by {
                        if has_key(genome.input_genes@, g.connect_to as int) {
                            let k = choose|k: int|
                                0 <= k < genome.input_genes@.len() && (#[trigger] genome
                                    .input_genes@[k]).connect_to == g.connect_to;
                            let x = genome.input_genes@[k];
                            assert(has_gene(genome.all_genes@, x));
                            let j = choose|j: int| 0 <= j < i && genes@[j] == x;
                            assert(genes@[j].prot_type == genes@[i as int].prot_type);
                        }
                    }
                }
                if g.prot_type == OUTPUT_PROTEIN {
                    assert(!has_key(genome.output_genes@, g.connect_to as int)) by {
                        if has_key(genome.output_genes@, g.connect_to as int) {
                            let k = choose|k: int|
                                0 <= k < genome.output_genes@.len() && (#[trigger] genome
                                    .output_genes@[k]).connect_to == g.connect_to;
                            let x = genome.output_genes@[k];
                            assert(has_gene(genome.all_genes@, x));
                            let j = choose|j: int| 0 <= j < i && genes@[j] == x;
                            assert(genes@[j].prot_type == genes@[i as int].prot_type);
                        }
                    }
                }
                assert(fresh_slot(genome, g));
            }
            genome.add_gene(g);
            proof {
                assert forall|x: GrnGene| #[trigger] has_gene(genome.all_genes@, x) implies (
                exists|j: int| 0 <= j < i + 1 && genes@[j] == x) by {
                    if x == g {
                        assert(genes@[i as int] == x);
                    } else {
                        let j = choose|j: int| 0 <= j < i && genes@[j] == x;
                    }
                }
                assert forall|x: GrnGene| (exists|j: int| 0 <= j < i + 1 && genes@[j]
                    == x) implies #[trigger] has_gene(genome.all_genes@, x) by {
                    let j = choose|j: int| 0 <= j < i + 1 && genes@[j] == x;
                    if j == i {
                        assert(x == g);
                    } else {
                        assert(!displaced_by(g, x)) by {
                            assert(genes@[j].gene_id != genes@[i as int].gene_id);
                        }
                    }
                }
            }
            i = i + 1;
        }
        genome.beta = beta;
        genome.delta = delta;
        genome
    }

    /// Empty the genome entirely: the registry and all three partitions are
    /// cleared and the genome is marked as needing re-evaluation.
    pub fn remove_all_genes(&mut self)
        ensures
            final(self).all_genes@.len() == 0,
            final(self).input_genes@.len() == 0,
            final(self).output_genes@.len() == 0,
            final(self).regulatory_genes@.len() == 0,
            !final(self).has_been_evaluated,
            final(self).beta == old(self).beta && final(self).delta == old(self).delta,
            final(self).beta_max == old(self).beta_max && final(self).beta_min == old(self).beta_min,
            final(self).delta_max == old(self).delta_max && final(self).delta_min == old(self).delta_min,
            final(self).last_fit == old(self).last_fit,
            old(self).wf() ==> final(self).wf(),
    {
        self.has_been_evaluated = false;
        self.all_genes = Vec::new();
        self.input_genes = Vec::new();
        self.output_genes = Vec::new();
        self.regulatory_genes = Vec::new();
    }

    /// Remove one regulatory gene drawn uniformly at random; reports whether
    /// there was any to remove.
    pub fn remove_randomly_regulatory_gene(&mut self, rng: &mut rand::rngs::StdRng) -> (r: bool)
        requires
            old(self).wf(),
        ensures
            final(self).wf(),
            r == (old(self).regulatory_genes@.len() > 0),
            !r ==> *final(self) == *old(self),
            r ==> final(self).regulatory_genes@.len() == old(self).regulatory_genes@.len() - 1
                && final(self).all_genes@.len() == old(self).all_genes@.len() - 1 && !final(self).has_been_evaluated,
    {
        if self.regulatory_genes.len() == 0 {
            return false;
        }
        let delete_index = rng_below(rng, self.regulatory_genes.len());
        let g = self.regulatory_genes[delete_index];
        proof {
            assert(has_gene(self.regulatory_genes@, g));
            assert(has_gene(self.all_genes@, g));
            lemma_remove_alignment(*self, g);
            lemma_drop_id_props(self.all_genes@, g.gene_id as int);
            lemma_drop_id_props(self.regulatory_genes@, g.gene_id as int);
            assert(has_id(self.all_genes@, g.gene_id as int)) by {
                let k = choose|k: int| 0 <= k < self.all_genes@.len() && self.all_genes@[k] == g;
                assert((#[trigger] self.all_genes@[k]).gene_id == g.gene_id);
            }
            assert(has_id(self.regulatory_genes@, g.gene_id as int)) by {
                assert((#[trigger] self.regulatory_genes@[delete_index as int]).gene_id
                    == g.gene_id);
            }
        }
        self.remove_gene(&g);
        self.has_been_evaluated = false;
        true
    }

    /// The registry's entry carrying this gene's identifier.
    pub fn contains_gene(&self, genes: GrnGene) -> (r: GrnGene)
        requires
            has_id(self.all_genes@, genes.gene_id as int),
        ensures
            has_gene(self.all_genes@, r),
            r.gene_id == genes.gene_id,
    {
        let mut i: usize = 0;
        while i < self.all_genes.len()
            invariant
                i <= self.all_genes@.len(),
                forall|j: int| 0 <= j < i ==> (#[trigger] self.all_genes@[j]).gene_id
                    != genes.gene_id,
            decreases self.all_genes@.len() - i,
        {
            if self.all_genes[i].gene_id == genes.gene_id {
                return self.all_genes[i];
            }
            i = i + 1;
        }
        proof {
            let k = choose|k: int|
                0 <= k < self.all_genes@.len() && (#[trigger] self.all_genes@[k]).gene_id
                    == genes.gene_id;
            assert(false);
        }
        self.all_genes[0]
    }

    /// The registry's entry carrying this identifier.
    pub fn contains_gene_id(&self, genes_id: i64) -> (r: GrnGene)
        requires
            exists|i: int|
                0 <= i < self.all_genes@.len() && (#[trigger] self.all_genes@[i]).gene_id as int
                    == genes_id,
        ensures
            has_gene(self.all_genes@, r),
            r.gene_id as int == genes_id,
    {
        let mut i: usize = 0;
        while i < self.all_genes.len()
            invariant
                i <= self.all_genes@.len(),
                forall|j: int| 0 <= j < i ==> (#[trigger] self.all_genes@[j]).gene_id as int
                    != genes_id,
            decreases self.all_genes@.len() - i,
        {
            if self.all_genes[i].gene_id as i64 == genes_id {
                return self.all_genes[i];
            }
            i = i + 1;
        }
        proof {
            let k = choose|k: int|
                0 <= k < self.all_genes@.len() && (#[trigger] self.all_genes@[k]).gene_id as int
                    == genes_id;
            assert(false);
        }
        self.all_genes[0]
    }

    /// The input gene bound to this sensor index.
    pub fn get_input_gene_connect_to(&self, sensor_id: i32) -> (r: GrnGene)
        requires
            has_key(self.input_genes@, sensor_id as int),
        ensures
            has_gene(self.input_genes@, r),
            r.connect_to == sensor_id,
    {
        let mut i: usize = 0;
        while i < self.input_genes.len()
            invariant
                i <= self.input_genes@.len(),
                forall|j: int| 0 <= j < i ==> (#[trigger] self.input_genes@[j]).connect_to
                    != sensor_id,
            decreases self.input_genes@.len() - i,
        {
            if self.input_genes[i].connect_to == sensor_id {
                return self.input_genes[i];
            }
            i = i + 1;
        }
        proof {
            let k = choose|k: int|
                0 <= k < self.input_genes@.len() && (#[trigger] self.input_genes@[k]).connect_to
                    == sensor_id;
            assert(false);
        }
        self.input_genes[0]
    }

    /// The output gene bound to this actuator index.
    pub fn get_output_gene_connect_to(&self, output_id: i32) -> (r: GrnGene)
        requires
            has_key(self.output_genes@, output_id as int),
        ensures
            has_gene(self.output_genes@, r),
            r.connect_to == output_id,
    {
        let mut i: usize = 0;
        while i < self.output_genes.len()
            invariant
                i <= self.output_genes@.len(),
                forall|j: int| 0 <= j < i ==> (#[trigger] self.output_genes@[j]).connect_to
                    != output_id,
            decreases self.output_genes@.len() - i,
        {
            if self.output_genes[i].connect_to == output_id {
                return self.output_genes[i];
            }
            i = i + 1;
        }
        proof {
            let k = choose|k: int|
                0 <= k < self.output_genes@.len() && (#[trigger] self.output_genes@[k]).connect_to
                    == output_id;
            assert(false);
        }
        self.output_genes[0]
    }

    pub fn get_input_genes(&self) -> (r: &Vec<GrnGene>)
        ensures
            r == self.input_genes,
    {
        &self.input_genes
    }

    pub fn get_output_genes(&self) -> (r: &Vec<GrnGene>)
        ensures
            r == self.output_genes,
    {
        &self.output_genes
    }

    pub fn get_regulatory_genes(&self) -> (r: &Vec<GrnGene>)
        ensures
            r == self.regulatory_genes,
    {
        &self.regulatory_genes
    }

    pub fn get_all_genes(&self) -> (r: &Vec<GrnGene>)
        ensures
            r == self.all_genes,
    {
        &self.all_genes
    }

    pub fn get_beta(&self) -> (r: u32)
        ensures
            r == self.beta,
    {
        self.beta
    }

    pub fn get_delta(&self) -> (r: u32)
        ensures
            r == self.delta,
    {
        self.delta
    }

    pub fn get_beta_max(&self) -> (r: u32)
        ensures
            r == self.beta_max,
    {
        self.beta_max
    }

    pub fn get_beta_min(&self) -> (r: u32)
        ensures
            r == self.beta_min,
    {
        self.beta_min
    }

    pub fn get_delta_max(&self) -> (r: u32)
        ensures
            r == self.delta_max,
    {
        self.delta_max
    }

    pub fn get_delta_min(&self) -> (r: u32)
        ensures
            r == self.delta_min,
    {
        self.delta_min
    }

    pub fn get_parent_best_fit(&self) -> (r: i64)
        ensures
            r == self.parent_best_fit,
    {
        self.parent_best_fit
    }

    pub fn get_adjusted_fit(&self) -> (r: i64)
        ensures
            r == self.adjusted_fit,
    {
        self.adjusted_fit
    }

    pub fn get_last_fit(&self) -> (r: i64)
        ensures
            r == self.last_fit,
    {
        self.last_fit
    }

    pub fn has_been_evaluated(&self) -> (r: bool)
        ensures
            r == self.has_been_evaluated,
    {
        self.has_been_evaluated
    }

    /// Replace the input partition wholesale; the caller is responsible for
    /// keeping the collections consistent with the registry.
    pub fn set_input_genes(&mut self, input_genes: Vec<GrnGene>)
        ensures
            *final(self) == (GrnGenome { input_genes, ..*old(self) }),
    {
        self.input_genes = input_genes;
    }

    /// Replace the output partition wholesale; the caller is responsible for
    /// keeping the collections consistent with the registry.
    pub fn set_output_genes(&mut self, output_genes: Vec<GrnGene>)
        ensures
            *final(self) == (GrnGenome { output_genes, ..*old(self) }),
    {
        self.output_genes = output_genes;
    }

    /// Replace the regulatory partition wholesale; the caller is responsible
    /// for keeping the collections consistent with the registry.
    pub fn set_regulatory_genes(&mut self, regulatory_genes: Vec<GrnGene>)
        ensures
            *final(self) == (GrnGenome { regulatory_genes, ..*old(self) }),
    {
        self.regulatory_genes = regulatory_genes;
    }

    /// Replace the registry wholesale; the caller is responsible for keeping
    /// the collections consistent with the partitions.
    pub fn set_all_genes(&mut self, all_genes: Vec<GrnGene>)
        ensures
            *final(self) == (GrnGenome { all_genes, ..*old(self) }),
    {
        self.all_genes = all_genes;
    }

    pub fn set_beta(&mut self, beta: u32)
        requires
            beta <= 2000,
        ensures
            *final(self) == (GrnGenome { beta, ..*old(self) }),
            old(self).wf() ==> final(self).wf(),
    {
        self.beta = beta;
    }

    pub fn set_delta(&mut self, delta: u32)
        requires
            delta <= 2000,
        ensures
            *final(self) == (GrnGenome { delta, ..*old(self) }),
            old(self).wf() ==> final(self).wf(),
    {
        self.delta = delta;
    }

    pub fn set_beta_max(&mut self, beta_max: u32)
        requires
            old(self).beta_min < beta_max <= 2000,
        ensures
            *final(self) == (GrnGenome { beta_max, ..*old(self) }),
            old(self).wf() ==> final(self).wf(),
    {
        self.beta_max = beta_max;
    }

    pub fn set_beta_min(&mut self, beta_min: u32)
        requires
            beta_min < old(self).beta_max,
        ensures
            *final(self) == (GrnGenome { beta_min, ..*old(self) }),
            old(self).wf() ==> final(self).wf(),
    {
        self.beta_min = beta_min;
    }

    pub fn set_delta_max(&mut self, delta_max: u32)
        requires
            old(self).delta_min < delta_max <= 2000,
        ensures
            *final(self) == (GrnGenome { delta_max, ..*old(self) }),
            old(self).wf() ==> final(self).wf(),
    {
        self.delta_max = delta_max;
    }

    pub fn set_delta_min(&mut self, delta_min: u32)
        requires
            delta_min < old(self).delta_max,
        ensures
            *final(self) == (GrnGenome { delta_min, ..*old(self) }),
            old(self).wf() ==> final(self).wf(),
    {
        self.delta_min = delta_min;
    }

    pub fn set_parent_best_fit(&mut self, parent_best_fit: i64)
        ensures
            *final(self) == (GrnGenome { parent_best_fit, ..*old(self) }),
    {
        self.parent_best_fit = parent_best_fit;
    }

    pub fn set_adjusted_fit(&mut self, adjusted_fit: i64)
        ensures
            *final(self) == (GrnGenome { adjusted_fit, ..*old(self) }),
    {
        self.adjusted_fit = adjusted_fit;
    }

    pub fn set_last_fit(&mut self, last_fit: i64)
        ensures
            *final(self) == (GrnGenome { last_fit, ..*old(self) }),
    {
        self.last_fit = last_fit;
    }

    pub fn set_has_been_evaluated(&mut self, has_been_evaluated: bool)
        ensures
            *final(self) == (GrnGenome { has_been_evaluated, ..*old(self) }),
    {
        self.has_been_evaluated = has_been_evaluated;
    }
}

} // verus!
