use adapton_lab::labdef::{
    check_lab_params, lab_params_defaults, GenerateParams, LabError, NominalStrategy,
};
use adapton_lab::rng::LabRng;

#[test]
fn defaults_values() {
    let p = lab_params_defaults();
    assert_eq!(p.sample_params.input_seeds, vec![0usize]);
    assert_eq!(p.sample_params.generate_params.size, 16);
    assert_eq!(p.sample_params.generate_params.gauge, 1);
    assert!(matches!(
        p.sample_params.generate_params.nominal_strategy,
        NominalStrategy::Regular
    ));
    assert_eq!(p.sample_params.demand, 16);
    assert!(p.sample_params.validate_output);
    assert_eq!(p.sample_params.change_batch_size, 1);
    assert!(p.sample_params.reflect_trace);
    assert!(p.sample_params.reflect_dcg);
    assert_eq!(p.change_batch_loopc, 10);
}

#[test]
fn gauge_zero_rejected() {
    let mut p = lab_params_defaults();
    p.sample_params.generate_params.gauge = 0;
    assert_eq!(check_lab_params(&p), Err(LabError::Configuration));
}

#[test]
fn batch_size_zero_rejected() {
    let mut p = lab_params_defaults();
    p.sample_params.change_batch_size = 0;
    assert_eq!(check_lab_params(&p), Err(LabError::Configuration));
}

#[test]
fn defaults_accepted() {
    let p = lab_params_defaults();
    assert_eq!(check_lab_params(&p), Ok(()));
}

#[test]
fn seed_of_zero_exact() {
    let r = LabRng::from_seeds(&vec![0usize]);
    assert_eq!(r.state, 1442695040888963407u64);
}

#[test]
fn seed_of_pair_exact() {
    let r = LabRng::from_seeds(&vec![1usize, 2usize]);
    assert_eq!(r.state, 3678437102102845813u64);
}

#[test]
fn next_values_exact() {
    let mut r = LabRng::from_seeds(&vec![0usize]);
    assert_eq!(r.next_u64(), 1876011003808476466u64);
    assert_eq!(r.next_u64(), 11166244414315200793u64);
}

#[test]
fn gen_mod_exact() {
    let mut r = LabRng::from_seeds(&vec![0usize]);
    assert_eq!(r.gen_mod(10), 6);
}

#[test]
fn copied_generator_replays() {
    let mut a = LabRng::from_seeds(&vec![7usize, 9usize]);
    let mut b = a;
    for _ in 0..5 {
        assert_eq!(a.next_u64(), b.next_u64());
    }
}

#[test]
fn distinct_seeds_distinct_streams() {
    let mut a = LabRng::from_seeds(&vec![0usize]);
    let mut b = LabRng::from_seeds(&vec![1usize]);
    assert_ne!(a.next_u64(), b.next_u64());
}

#[test]
fn generate_params_equality() {
    let a = GenerateParams { size: 3, gauge: 1, nominal_strategy: NominalStrategy::Regular };
    let b = GenerateParams { size: 3, gauge: 1, nominal_strategy: NominalStrategy::Regular };
    assert!(a == b);
}

#[test]
fn empty_seed_list_is_zero_state() {
    let r = LabRng::from_seeds(&Vec::new());
    assert_eq!(r.state, 0);
}
