use rust_grn::evaluator::grn_genome_evaluator::{defaultEvaluator, GrnGenomeEvaluator};
use rust_grn::evaluator::grn_sine_evaluator::SineEvaluator;
use rust_grn::evolver::grn_gene::{GrnGene, IdCounter, W_DEN, W_ENH, W_INH, W_PROT};
use rust_grn::evolver::grn_genome::GrnGenome;
use rand::SeedableRng;
use rust_grn::evolver::species::Species;
use rust_grn::fixed::{Ratio, DIST_ONE, UNMATCHED_DIST};
use rust_grn::grn::grn_protein::{INPUT_PROTEIN, OUTPUT_PROTEIN, REGULATORY_PROTEIN};

fn gene(
    ids: &mut IdCounter,
    role: i32,
    connect: i32,
    addr: i32,
    enh: i32,
    inh: i32,
) -> GrnGene {
    GrnGene::with_parameters_prot(false, addr, enh, inh, role, connect, ids)
}

#[test]
fn distance_weights_sum_to_one() {
    // the three weighting coefficients, in eighths, make a whole one
    assert_eq!(W_PROT + W_ENH + W_INH, W_DEN);
}

#[test]
fn gene_distance_to_itself_is_zero() {
    let mut ids = IdCounter::new();
    let g = gene(&mut ids, REGULATORY_PROTEIN, 0, 17, 4, 29);
    assert_eq!(g.distance_to(&g), 0);
    assert_eq!(g.compare_to(&g), 0);
}

#[test]
fn differing_roles_are_maximally_apart() {
    let mut ids = IdCounter::new();
    let a = gene(&mut ids, INPUT_PROTEIN, 0, 17, 4, 29);
    let b = gene(&mut ids, OUTPUT_PROTEIN, 0, 17, 4, 29);
    assert_eq!(a.distance_to(&b), DIST_ONE);
    assert_eq!(a.compare_to(&b), i32::MAX);
}

#[test]
fn gene_distance_exact_value() {
    let mut ids = IdCounter::new();
    let a = gene(&mut ids, REGULATORY_PROTEIN, 0, 10, 4, 8);
    let b = gene(&mut ids, REGULATORY_PROTEIN, 0, 13, 1, 8);
    // 6*3 + 1*3 + 1*0 = 21 in 1/256 units
    assert_eq!(a.distance_to(&b), 21);
    assert_eq!(a.compare_to(&b), -3);
}

#[test]
fn fresh_genes_get_increasing_ids() {
    let mut ids = IdCounter::new();
    let a = gene(&mut ids, REGULATORY_PROTEIN, 0, 0, 0, 0);
    let b = gene(&mut ids, REGULATORY_PROTEIN, 0, 0, 0, 0);
    let c = a.clone(&mut ids);
    assert_eq!(a.get_id(), 1);
    assert_eq!(b.get_id(), 2);
    assert_eq!(c.get_id(), 3);
    assert_eq!(c.get_prot_id(), a.get_prot_id());
}

#[test]
fn random_genes_are_seed_deterministic_and_in_range() {
    let mut rng1 = rand::rngs::StdRng::seed_from_u64(42);
    let mut ids1 = IdCounter::new();
    let a = GrnGene::generate_random_gene(INPUT_PROTEIN, 3, &mut rng1, &mut ids1);
    let mut rng2 = rand::rngs::StdRng::seed_from_u64(42);
    let mut ids2 = IdCounter::new();
    let b = GrnGene::generate_random_gene(INPUT_PROTEIN, 3, &mut rng2, &mut ids2);
    assert_eq!(a.get_prot_id(), b.get_prot_id());
    assert_eq!(a.get_prot_enh(), b.get_prot_enh());
    assert_eq!(a.get_prot_inh(), b.get_prot_inh());
    assert_eq!(a.is_disbaled(), b.is_disbaled());
    assert!(a.get_prot_id() >= 0 && a.get_prot_id() < 32);
    assert!(a.get_prot_enh() >= 0 && a.get_prot_enh() < 32);
    assert!(a.get_prot_inh() >= 0 && a.get_prot_inh() < 32);
    assert_eq!(a.get_prot_type(), INPUT_PROTEIN);
    assert_eq!(a.get_connect_to(), 3);
}

#[test]
fn gene_rendering_matches_fields() {
    let g = GrnGene::default();
    assert_eq!(g.to_string(), "[0,0,0,2,false,0,0]");
    let mut ids = IdCounter::new();
    let mut h = gene(&mut ids, INPUT_PROTEIN, 5, 10, 20, 30);
    h.disable();
    assert_eq!(h.to_string(), "[10,20,30,0,true,5,1]");
}

#[test]
fn genome_size_tracks_registry() {
    let mut ids = IdCounter::new();
    let mut genome = GrnGenome::new();
    assert_eq!(genome.size(), 0);
    let gi = gene(&mut ids, INPUT_PROTEIN, 0, 1, 2, 3);
    let go = gene(&mut ids, OUTPUT_PROTEIN, 0, 4, 5, 6);
    let gr = gene(&mut ids, REGULATORY_PROTEIN, 0, 7, 8, 9);
    genome.add_gene(gi);
    genome.add_gene(go);
    genome.add_gene(gr);
    assert_eq!(genome.size(), 3);
    assert_eq!(genome.get_input_genes().len(), 1);
    assert_eq!(genome.get_output_genes().len(), 1);
    assert_eq!(genome.get_regulatory_genes().len(), 1);
    // every partition entry is keyed by its own field
    assert_eq!(genome.get_input_gene_connect_to(0).get_id(), gi.get_id());
    assert_eq!(genome.get_output_gene_connect_to(0).get_id(), go.get_id());
    genome.remove_gene(&gr);
    assert_eq!(genome.size(), 2);
    assert_eq!(genome.get_regulatory_genes().len(), 0);
    genome.remove_gene(&gi);
    assert_eq!(genome.size(), 1);
    assert_eq!(genome.get_input_genes().len(), 0);
    assert_eq!(genome.get_output_genes().len(), 1);
}

#[test]
fn adding_twice_under_one_key_replaces() {
    let mut ids = IdCounter::new();
    let mut genome = GrnGenome::new();
    let first = gene(&mut ids, INPUT_PROTEIN, 7, 1, 2, 3);
    let second = gene(&mut ids, INPUT_PROTEIN, 7, 9, 9, 9);
    genome.add_gene(first);
    genome.add_gene(second);
    assert_eq!(genome.size(), 1);
    assert_eq!(genome.get_input_gene_connect_to(7).get_id(), second.get_id());
}

#[test]
fn add_gene_marks_evaluated_and_remove_clears_it() {
    // addGene leaves the evaluated flag set, exactly as specified
    let mut ids = IdCounter::new();
    let mut genome = GrnGenome::new();
    assert!(!genome.has_been_evaluated());
    genome.add_gene(gene(&mut ids, REGULATORY_PROTEIN, 0, 1, 1, 1));
    assert!(genome.has_been_evaluated());
    let g = genome.get_regulatory_genes()[0];
    genome.remove_gene(&g);
    assert!(!genome.has_been_evaluated());
}

#[test]
fn remove_random_regulatory_gene() {
    let mut ids = IdCounter::new();
    let mut rng = rand::rngs::StdRng::seed_from_u64(7);
    let mut genome = GrnGenome::new();
    assert!(!genome.remove_randomly_regulatory_gene(&mut rng));
    genome.add_gene(gene(&mut ids, REGULATORY_PROTEIN, 0, 1, 1, 1));
    genome.add_gene(gene(&mut ids, REGULATORY_PROTEIN, 0, 2, 2, 2));
    assert!(genome.remove_randomly_regulatory_gene(&mut rng));
    assert_eq!(genome.size(), 1);
    assert_eq!(genome.get_regulatory_genes().len(), 1);
}

#[test]
fn genome_compare_counts_mismatching_pairs() {
    let mut ids = IdCounter::new();
    let a = GrnGenome::with_vec(
        vec![
            gene(&mut ids, REGULATORY_PROTEIN, 0, 5, 0, 0),
            gene(&mut ids, REGULATORY_PROTEIN, 0, 9, 0, 0),
        ],
        1000,
        1000,
    );
    let b = GrnGenome::with_vec(
        vec![
            gene(&mut ids, REGULATORY_PROTEIN, 0, 5, 3, 3),
            gene(&mut ids, REGULATORY_PROTEIN, 0, 7, 0, 0),
        ],
        1000,
        1000,
    );
    // pairs: (5,5) match, (5,7), (9,5), (9,7) mismatch
    assert_eq!(a.compare_to(&b), 3);
}

#[test]
fn disjoint_keys_skip_and_regulatory_best_match() {
    // two genomes whose input keys are disjoint: the keyed contributions
    // are all skipped and only the regulatory best match counts
    let mut ids = IdCounter::new();
    let a = GrnGenome::with_vec(
        vec![
            gene(&mut ids, INPUT_PROTEIN, 0, 0, 0, 0),
            gene(&mut ids, REGULATORY_PROTEIN, 0, 10, 0, 0),
        ],
        1000,
        1000,
    );
    let b = GrnGenome::with_vec(
        vec![
            gene(&mut ids, INPUT_PROTEIN, 1, 0, 0, 0),
            gene(&mut ids, REGULATORY_PROTEIN, 0, 12, 0, 0),
        ],
        1000,
        1000,
    );
    let d = a.distance_to(&b, false);
    // regulatory best match: 6 * |10 - 12| = 12; two genes in the larger
    assert_eq!(d.num, 12);
    assert_eq!(d.den, 512);
}

#[test]
fn missing_regulatory_partner_charges_sentinel() {
    let mut ids = IdCounter::new();
    let a = GrnGenome::with_vec(
        vec![gene(&mut ids, REGULATORY_PROTEIN, 0, 10, 0, 0)],
        1000,
        1000,
    );
    let b = GrnGenome::with_vec(
        vec![gene(&mut ids, INPUT_PROTEIN, 0, 10, 0, 0)],
        1000,
        1000,
    );
    // the smaller side has no regulatory gene to match against
    let d = a.distance_to(&b, false);
    assert_eq!(d.num, UNMATCHED_DIST);
    assert_eq!(d.den, 256);
}

#[test]
fn genome_distance_with_dynamics_coefficients() {
    let mut ids = IdCounter::new();
    let mut a = GrnGenome::with_vec(
        vec![gene(&mut ids, REGULATORY_PROTEIN, 0, 10, 0, 0)],
        1000,
        1000,
    );
    let mut b = GrnGenome::with_vec(
        vec![gene(&mut ids, REGULATORY_PROTEIN, 0, 10, 0, 0)],
        1300,
        1000,
    );
    a.set_last_fit(0);
    b.set_last_fit(0);
    let d = a.distance_to(&b, true);
    // gene sum zero; beta differs by 300 over 1500, over (1 + 2) genes
    // value = (300/1500)/3 = 1/15
    assert_eq!(d.num as u128 * 15, d.den as u128);
}

#[test]
fn evaluators_return_zero() {
    let genome = GrnGenome::new();
    let d = defaultEvaluator::new();
    assert_eq!(d.evaluate(&genome), 0);
    let s = SineEvaluator::new(1, 1);
    assert_eq!(s.evaluate(&genome), 0);
}

#[test]
fn species_rejects_distant_genome_and_keeps_sum() {
    let mut ids = IdCounter::new();
    let rep = GrnGenome::with_vec(
        vec![gene(&mut ids, REGULATORY_PROTEIN, 0, 0, 0, 0)],
        1000,
        1000,
    );
    let mut far = GrnGenome::with_vec(
        vec![gene(&mut ids, REGULATORY_PROTEIN, 0, 31, 31, 31)],
        1000,
        1000,
    );
    far.set_last_fit(5000);
    let mut species_ids = IdCounter::new();
    let mut s = Species::with_parameters(
        rep,
        Ratio::new(1, 100),
        true,
        SineEvaluator::new(1, 1),
        &mut species_ids,
    );
    let sum_before = s.fitness_sum;
    let accepted = s.add_genome(far, true);
    assert!(!accepted);
    assert_eq!(s.size(), 1);
    assert_eq!(s.fitness_sum, sum_before);
}

#[test]
fn species_accepts_close_genome() {
    let mut ids = IdCounter::new();
    let rep = GrnGenome::with_vec(
        vec![gene(&mut ids, REGULATORY_PROTEIN, 0, 10, 0, 0)],
        1000,
        1000,
    );
    let near = GrnGenome::with_vec(
        vec![gene(&mut ids, REGULATORY_PROTEIN, 0, 11, 0, 0)],
        1000,
        1000,
    );
    let mut species_ids = IdCounter::new();
    let mut s = Species::with_parameters(
        rep,
        Ratio::new(1, 2),
        true,
        SineEvaluator::new(1, 1),
        &mut species_ids,
    );
    assert!(s.add_genome(near, true));
    assert_eq!(s.size(), 2);
}

#[test]
fn species_sorts_ascending_and_removes_tail() {
    let mut ids = IdCounter::new();
    let mut make = |fit: i64| {
        let mut g = GrnGenome::with_vec(
            vec![gene(&mut ids, REGULATORY_PROTEIN, 0, 1, 1, 1)],
            1000,
            1000,
        );
        g.set_last_fit(fit);
        g
    };
    let mut species_ids = IdCounter::new();
    let mut s = Species::with_parameters(
        make(30),
        Ratio::new(1, 2),
        true,
        SineEvaluator::new(1, 1),
        &mut species_ids,
    );
    s.add_genome(make(10), false);
    s.add_genome(make(20), false);
    assert_eq!(s.fitness_sum, 60);
    s.sort_Genome();
    let fits: Vec<i64> = s.genomes.iter().map(|g| g.get_last_fit()).collect();
    assert_eq!(fits, vec![10, 20, 30]);
    // the tail of the ascending list — the highest fitness — is evicted
    s.remove_worst_genome();
    assert_eq!(s.size(), 2);
    assert_eq!(s.fitness_sum, 30);
    let fits: Vec<i64> = s.genomes.iter().map(|g| g.get_last_fit()).collect();
    assert_eq!(fits, vec![10, 20]);
}

#[test]
fn species_tracks_best_genome() {
    let mut ids = IdCounter::new();
    let mut make = |fit: i64| {
        let mut g = GrnGenome::with_vec(
            vec![gene(&mut ids, REGULATORY_PROTEIN, 0, 1, 1, 1)],
            1000,
            1000,
        );
        g.set_last_fit(fit);
        g
    };
    let mut species_ids = IdCounter::new();
    let mut s = Species::with_parameters(
        make(5),
        Ratio::new(1, 2),
        true,
        SineEvaluator::new(1, 1),
        &mut species_ids,
    );
    // founding the species already records its member as best
    assert_eq!(s.best_fitness, 5);
    s.add_genome(make(40), false);
    let best = s.best_genome.as_ref().expect("a best genome was recorded");
    assert_eq!(best.get_last_fit(), 40);
    // the new best genome's fitness becomes the recorded best fitness
    assert_eq!(s.best_fitness, 40);
    // a weaker genome leaves the best untouched
    s.add_genome(make(7), false);
    assert_eq!(s.best_fitness, 40);
    assert_eq!(s.best_genome.as_ref().map(|g| g.get_last_fit()), Some(40));
    assert_eq!(s.species_id, 0);
}

#[test]
fn genome_rendering_includes_parameters() {
    let genome = GrnGenome::new();
    assert_eq!(genome.to_string(), "{ ; 1.00 ; 1.00");
    let mut ids = IdCounter::new();
    let g = GrnGenome::with_vec(
        vec![gene(&mut ids, REGULATORY_PROTEIN, 0, 1, 2, 3)],
        1500,
        500,
    );
    assert_eq!(g.to_string(), "{[1,2,3,2,false,0,1] ; 1.50 ; 0.50");
    // the parameters are rounded to the nearest hundredth
    let h = GrnGenome::with_vec(Vec::new(), 1999, 1004);
    assert_eq!(h.to_string(), "{ ; 2.00 ; 1.00");
}

#[test]
fn gene_getters_and_setters_roundtrip() {
    let mut ids = IdCounter::new();
    let mut g = gene(&mut ids, REGULATORY_PROTEIN, 0, 1, 2, 3);
    g.set_prot_id(9);
    g.set_prot_enh(8);
    g.set_prot_inh(7);
    g.set_prot_type(OUTPUT_PROTEIN);
    assert_eq!(g.get_prot_id(), 9);
    assert_eq!(g.get_prot_enh(), 8);
    assert_eq!(g.get_prot_inh(), 7);
    assert_eq!(g.get_prot_type(), OUTPUT_PROTEIN);
    g.set_disabled(true);
    assert!(g.is_disbaled());
    g.enable();
    assert!(!g.is_disbaled());
    let p = g.get_proteins();
    assert_eq!(p.id, 9);
    assert_eq!(p.enhancer, 8);
    assert_eq!(p.inhibiter, 7);
    assert_eq!(p.concentration, 0);
}
