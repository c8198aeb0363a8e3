use adapton_lab::catalog::{all_labs, run_lab_entry, LabEntry, LabKind};
use adapton_lab::labdef::{lab_params_defaults, LabError, LabParams};

fn entry_of(kind: LabKind) -> LabEntry {
    let labs = all_labs();
    for e in labs {
        if e.kind == kind {
            return e;
        }
    }
    panic!("kind not registered");
}

fn small_params(size: usize, gauge: usize, loopc: usize) -> LabParams {
    let mut p = lab_params_defaults();
    p.sample_params.generate_params.size = size;
    p.sample_params.generate_params.gauge = gauge;
    p.change_batch_loopc = loopc;
    p
}

#[test]
fn test_all() {
    let results = adapton_lab::main2();
    assert_eq!(results.len(), 24);
    for (i, (name, res)) in results.iter().enumerate() {
        assert!(!name.text.is_empty());
        if i < 21 {
            let r = res.as_ref().unwrap();
            assert_eq!(r.samples.len(), 11);
            for s in r.samples.iter() {
                assert_eq!(s.output_valid, Some(true));
            }
        } else {
            assert!(matches!(res, Err(LabError::UnimplementedScenario)));
        }
    }
}

#[test]
fn determinism_two_runs() {
    let p = small_params(8, 2, 5);
    let e = entry_of(LabKind::EagerMap);
    let a = run_lab_entry(&e, &p).unwrap();
    let b = run_lab_entry(&e, &p).unwrap();
    assert_eq!(a.samples.len(), b.samples.len());
    for (sa, sb) in a.samples.iter().zip(b.samples.iter()) {
        assert_eq!(sa.batch_name, sb.batch_name);
        assert_eq!(sa.output_valid, sb.output_valid);
    }
}

#[test]
fn sample_counts_and_indices() {
    let p = small_params(4, 1, 3);
    let e = entry_of(LabKind::ListReverse);
    let r = run_lab_entry(&e, &p).unwrap();
    assert_eq!(r.samples.len(), 4);
    for (i, s) in r.samples.iter().enumerate() {
        assert_eq!(s.batch_name, i);
    }
}

#[test]
fn validation_holds_at_every_step() {
    let p = small_params(6, 2, 4);
    let e = entry_of(LabKind::EagerFilter);
    let r = run_lab_entry(&e, &p).unwrap();
    for s in r.samples.iter() {
        assert_eq!(s.output_valid, Some(true));
    }
}

#[test]
fn validation_disabled_records_none() {
    let mut p = small_params(4, 1, 2);
    p.sample_params.validate_output = false;
    let e = entry_of(LabKind::EagerMap);
    let r = run_lab_entry(&e, &p).unwrap();
    for s in r.samples.iter() {
        assert!(s.output_valid.is_none());
    }
}

#[test]
fn end_to_end_one_step() {
    // One step over a four-element input with a checkpoint on every
    // element: exactly one sample, validated.
    let mut p = small_params(4, 1, 0);
    p.sample_params.input_seeds = vec![0];
    let e = entry_of(LabKind::EagerMap);
    let r = run_lab_entry(&e, &p).unwrap();
    assert_eq!(r.samples.len(), 1);
    assert_eq!(r.samples[0].batch_name, 0);
    assert_eq!(r.samples[0].output_valid, Some(true));
}

#[test]
fn unimplemented_scenario_terminates_run() {
    let p = small_params(4, 1, 3);
    let e = entry_of(LabKind::RunFilter);
    assert!(matches!(run_lab_entry(&e, &p), Err(LabError::UnimplementedScenario)));
    // Other scenarios in the same batch are unaffected.
    let e2 = entry_of(LabKind::EagerMap);
    let r = run_lab_entry(&e2, &p).unwrap();
    assert_eq!(r.samples.len(), 4);
}

#[test]
fn split_and_reverse_stubs_terminate() {
    let p = small_params(4, 1, 1);
    assert!(matches!(
        run_lab_entry(&entry_of(LabKind::RunSplit), &p),
        Err(LabError::UnimplementedScenario)
    ));
    assert!(matches!(
        run_lab_entry(&entry_of(LabKind::RunReverse), &p),
        Err(LabError::UnimplementedScenario)
    ));
}

#[test]
fn misconfigured_run_rejected() {
    let mut p = small_params(4, 1, 1);
    p.sample_params.generate_params.gauge = 0;
    assert!(matches!(
        run_lab_entry(&entry_of(LabKind::EagerMap), &p),
        Err(LabError::Configuration)
    ));
}

#[test]
fn capture_disabled_leaves_empty_metrics() {
    let mut p = small_params(4, 1, 1);
    p.sample_params.reflect_trace = false;
    p.sample_params.reflect_dcg = false;
    let r = run_lab_entry(&entry_of(LabKind::EagerMap), &p).unwrap();
    for s in r.samples.iter() {
        assert_eq!(s.dcg_sample.process_input.reflect_traces.len(), 0);
        assert_eq!(s.dcg_sample.compute_output.reflect_traces.len(), 0);
        assert!(s.dcg_sample.process_input.reflect_dcg.is_none());
        assert!(s.naive_sample.compute_output.reflect_dcg.is_none());
        assert!(s.dcg_sample.input.is_none());
        assert!(s.dcg_sample.output.is_none());
    }
}

#[test]
fn capture_enabled_snapshots_values() {
    let p = small_params(4, 1, 1);
    let r = run_lab_entry(&entry_of(LabKind::EagerMap), &p).unwrap();
    for s in r.samples.iter() {
        assert!(s.dcg_sample.input.is_some());
        assert!(s.dcg_sample.output.is_some());
    }
}

#[test]
fn empty_input_still_samples() {
    let p = small_params(0, 1, 2);
    let r = run_lab_entry(&entry_of(LabKind::EagerMap), &p).unwrap();
    assert_eq!(r.samples.len(), 3);
    for s in r.samples.iter() {
        assert_eq!(s.output_valid, Some(true));
    }
}
