use rust_grn::fixed::{fx_exp, Ratio, CONC_ONE, DIST_ONE, EXP_ONE, UNMATCHED_DIST};
use rust_grn::grn::grn_model::GrnModel;
use rust_grn::grn::grn_protein::{GrnProtein, INPUT_PROTEIN, OUTPUT_PROTEIN, REGULATORY_PROTEIN};

fn protein(id: i32, enh: i32, inh: i32, role: i32) -> GrnProtein {
    GrnProtein {
        id,
        concentration: 0,
        enhancer: enh,
        inhibiter: inh,
        type_: role,
    }
}

#[test]
fn fixed_exponential_exact_values() {
    // e^0 is one weight unit, e^1 is Euler's number in EXP_ONE units
    assert_eq!(fx_exp(0), EXP_ONE);
    assert_eq!(fx_exp(1000), 271_828);
    // a negative exponent gives the reciprocal
    assert_eq!(fx_exp(-1000), (EXP_ONE * EXP_ONE) / 271_828);
}

#[test]
fn ratio_comparison_is_exact() {
    let a = Ratio::new(1, 3);
    let b = Ratio::new(333_333_333, 1_000_000_000);
    // 1/3 > 0.333333333
    assert!(!a.le(&b));
    assert!(b.le(&a));
    assert!(a.le(&a));
}

#[test]
fn reset_sets_uniform_concentrations() {
    let proteins = vec![
        protein(0, 0, 0, INPUT_PROTEIN),
        protein(31, 0, 0, OUTPUT_PROTEIN),
        protein(15, 0, 0, REGULATORY_PROTEIN),
    ];
    let mut model = GrnModel::new(proteins, 1000, 1000);
    model.reset();
    for p in model.get_proteins() {
        assert_eq!(p.concentration, CONC_ONE / 3);
    }
    // the step counter is untouched by reset
    assert_eq!(model.current_step, 0);
}

#[test]
fn reset_on_empty_model_is_a_no_op() {
    let mut model = GrnModel::new_default();
    model.reset();
    assert_eq!(model.get_proteins().len(), 0);
}

#[test]
fn single_protein_step_is_exact() {
    // one regulatory protein at address 0: its enhancing and inhibiting
    // signals cancel, and normalization pins it to one unit
    let proteins = vec![protein(0, 0, 0, REGULATORY_PROTEIN)];
    let mut model = GrnModel::new(proteins, 1000, 1000);
    model.update_signature();
    model.reset();
    model.evolve(1);
    assert_eq!(model.get_proteins()[0].concentration, CONC_ONE);
    assert_eq!(model.current_step, 1);
}

#[test]
fn output_protein_normalizes_to_unit() {
    // the only non-input protein ends up carrying the whole unit
    let proteins = vec![
        protein(0, 0, 0, INPUT_PROTEIN),
        protein(5, 0, 0, OUTPUT_PROTEIN),
    ];
    let mut model = GrnModel::new(proteins, 1000, 1000);
    model.update_signature();
    model.reset();
    model.evolve(1);
    assert_eq!(model.get_proteins()[1].concentration, CONC_ONE);
    // the input keeps the concentration the caller gave it
    assert_eq!(model.get_proteins()[0].concentration, CONC_ONE / 2);
}

#[test]
fn three_protein_scenario_is_deterministic() {
    // one input at address 0, one output at address 31, one regulatory at
    // address 15, every other field zero, concentrations 1/3 each
    let build = || {
        let proteins = vec![
            protein(0, 0, 0, INPUT_PROTEIN),
            protein(31, 0, 0, OUTPUT_PROTEIN),
            protein(15, 0, 0, REGULATORY_PROTEIN),
        ];
        let mut model = GrnModel::new(proteins, 1000, 1000);
        model.update_signature();
        model.reset();
        model
    };
    let mut a = build();
    let mut b = build();
    a.evolve(1);
    b.evolve(1);
    for (pa, pb) in a.get_proteins().iter().zip(b.get_proteins().iter()) {
        assert_eq!(pa.concentration, pb.concentration);
    }
    // the input is never touched by the dynamics
    assert_eq!(a.get_proteins()[0].concentration, CONC_ONE / 3);
    // the non-input proteins together carry one unit, up to one rounding
    // step per protein
    let total: u64 = a.get_proteins()[1].concentration + a.get_proteins()[2].concentration;
    assert!(total <= CONC_ONE && total + 2 >= CONC_ONE);
}

#[test]
fn stepping_is_additive() {
    let proteins = vec![
        protein(0, 3, 7, INPUT_PROTEIN),
        protein(31, 12, 4, OUTPUT_PROTEIN),
        protein(15, 20, 9, REGULATORY_PROTEIN),
        protein(8, 1, 30, REGULATORY_PROTEIN),
    ];
    let mut a = GrnModel::new(proteins.clone(), 1300, 800);
    a.update_signature();
    a.reset();
    let mut b = GrnModel::new(proteins, 1300, 800);
    b.update_signature();
    b.reset();
    a.evolve(5);
    b.evolve(2);
    b.evolve(3);
    assert_eq!(a.current_step, 5);
    assert_eq!(b.current_step, 5);
    for (pa, pb) in a.get_proteins().iter().zip(b.get_proteins().iter()) {
        assert_eq!(pa.concentration, pb.concentration);
    }
}

#[test]
fn step_keeps_unit_mass() {
    let proteins = vec![
        protein(2, 3, 7, INPUT_PROTEIN),
        protein(29, 12, 4, OUTPUT_PROTEIN),
        protein(15, 20, 9, REGULATORY_PROTEIN),
        protein(8, 1, 30, REGULATORY_PROTEIN),
        protein(23, 23, 23, REGULATORY_PROTEIN),
    ];
    let mut model = GrnModel::new(proteins, 2000, 2000);
    model.update_signature();
    model.reset();
    for _ in 0..10 {
        model.evolve(1);
        let total: u64 = model
            .get_proteins()
            .iter()
            .filter(|p| p.type_ != INPUT_PROTEIN)
            .map(|p| p.concentration)
            .sum();
        // within one rounding unit per non-input protein
        assert!(total <= CONC_ONE && total + 4 >= CONC_ONE);
    }
}

#[test]
fn driven_inputs_are_left_to_the_caller() {
    let proteins = vec![
        protein(0, 0, 0, INPUT_PROTEIN),
        protein(31, 0, 0, OUTPUT_PROTEIN),
        protein(15, 0, 0, REGULATORY_PROTEIN),
    ];
    let mut model = GrnModel::new(proteins, 1000, 1000);
    model.update_signature();
    model.reset();
    for step in 0..5u64 {
        let drive = step * 1000;
        model.proteins[0].concentration = drive;
        model.evolve(1);
        // the dynamics never touch the externally driven input
        assert_eq!(model.proteins[0].concentration, drive);
    }
    assert_eq!(model.current_step, 5);
}

#[test]
fn model_distance_exact_value() {
    // two single-protein models of the same role: distance is the weighted
    // address distance over the (larger) protein count
    let a = GrnModel::new(vec![protein(10, 0, 0, REGULATORY_PROTEIN)], 1000, 1000);
    let b = GrnModel::new(vec![protein(12, 0, 0, REGULATORY_PROTEIN)], 1000, 1000);
    let d = a.distance_to(&b, false, 6, 1, 1, 2000, 500, 2000, 500);
    // 6 * |10 - 12| = 12 in 1/256 units, over one protein
    assert_eq!(d.num, 12);
    assert_eq!(d.den, 256);
}

#[test]
fn model_distance_role_mismatch_charges_sentinel() {
    let a = GrnModel::new(vec![protein(10, 0, 0, REGULATORY_PROTEIN)], 1000, 1000);
    let b = GrnModel::new(vec![protein(10, 0, 0, OUTPUT_PROTEIN)], 1000, 1000);
    let d = a.distance_to(&b, false, 6, 1, 1, 2000, 500, 2000, 500);
    assert_eq!(d.num, UNMATCHED_DIST);
    assert_eq!(d.den, 256);
}

#[test]
fn model_distance_with_dynamics_coefficients() {
    let a = GrnModel::new(vec![protein(0, 0, 0, REGULATORY_PROTEIN)], 1000, 1000);
    let b = GrnModel::new(vec![protein(0, 0, 0, REGULATORY_PROTEIN)], 1300, 1000);
    let d = a.distance_to(&b, true, 6, 1, 1, 2000, 500, 2000, 500);
    // protein sum is zero; beta differs by 300 over a span of 1500
    // value = (300/1500) / (1 + 2) = 1/15
    assert_eq!(d.num as u128 * 15, d.den as u128);
    let _ = DIST_ONE;
}
