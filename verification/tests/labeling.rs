use rit::paths::{eligible, file_name, join_path, label_of, parent_path, strip_root, with_png_ext};
use rit::registry::LabelRegistry;
use rit::run::{plan_file, registry_from_records, ManifestRecord, RunState};

#[test]
fn file_name_and_parent() {
    assert_eq!(file_name(b"root/cats/a.jpg"), b"a.jpg".to_vec());
    assert_eq!(file_name(b"a.jpg"), b"a.jpg".to_vec());
    assert_eq!(parent_path(b"root/cats/a.jpg"), b"root/cats".to_vec());
    assert_eq!(parent_path(b"a.jpg"), b"".to_vec());
}

#[test]
fn label_is_parent_directory_name() {
    assert_eq!(label_of(b"root/cats/a.jpg"), b"cats".to_vec());
    assert_eq!(label_of(b"cats/a.jpg"), b"cats".to_vec());
    assert_eq!(label_of(b"a.jpg"), b"".to_vec());
}

#[test]
fn strip_root_cases() {
    assert_eq!(strip_root(b"root/cats/a.jpg", b"root"), Some(b"cats/a.jpg".to_vec()));
    assert_eq!(strip_root(b"root/cats/a.jpg", b"other"), None);
    assert_eq!(strip_root(b"root", b"root"), None);
    assert_eq!(strip_root(b"cats/a.jpg", b""), Some(b"cats/a.jpg".to_vec()));
}

#[test]
fn eligibility_by_extension() {
    assert!(eligible(b"a.png"));
    assert!(eligible(b"a.JPG"));
    assert!(eligible(b"dir/b.JpEg"));
    assert!(!eligible(b"a.gif"));
    assert!(!eligible(b"a"));
    assert!(!eligible(b".png"));
    assert!(!eligible(b"dir.png/file"));
}

#[test]
fn png_extension_rewrite() {
    assert_eq!(with_png_ext(b"out/cats/a.jpg"), b"out/cats/a.png".to_vec());
    assert_eq!(with_png_ext(b"out/cats/a"), b"out/cats/a.png".to_vec());
    assert_eq!(with_png_ext(b"out/c.d/a.b.c"), b"out/c.d/a.b.png".to_vec());
    assert_eq!(with_png_ext(b"out/.bashrc"), b"out/.bashrc.png".to_vec());
}

#[test]
fn join_path_cases() {
    assert_eq!(join_path(b"out", b"cats/a.png"), b"out/cats/a.png".to_vec());
    assert_eq!(join_path(b"out/", b"a.png"), b"out/a.png".to_vec());
    assert_eq!(join_path(b"", b"a.png"), b"a.png".to_vec());
}

#[test]
fn registry_assigns_dense_indices() {
    let mut reg = LabelRegistry::new();
    assert_eq!(reg.get_or_assign(b"cats"), 0);
    assert_eq!(reg.get_or_assign(b"dogs"), 1);
    assert_eq!(reg.get_or_assign(b"cats"), 0);
    assert_eq!(reg.get_or_assign(b"birds"), 2);
    assert_eq!(reg.len(), 3);
    assert_eq!(reg.lookup(b"dogs"), Some(1));
    assert_eq!(reg.lookup(b"fish"), None);
}

#[test]
fn registry_seeding_is_first_wins_and_stable() {
    let mut reg = LabelRegistry::new();
    reg.seed_insert(b"cats", 0);
    reg.seed_insert(b"dogs", 1);
    reg.seed_insert(b"cats", 7);
    assert_eq!(reg.lookup(b"cats"), Some(0));
    assert_eq!(reg.lookup(b"dogs"), Some(1));
    assert_eq!(reg.get_or_assign(b"cats"), 0);
    assert_eq!(reg.get_or_assign(b"birds"), 2);
    assert_eq!(reg.get_or_assign(b"dogs"), 1);
}

#[test]
fn registry_unique_indices_across_schedules() {
    let schedule_a = [b"cats".as_slice(), b"dogs".as_slice(), b"cats".as_slice(), b"birds".as_slice()];
    let schedule_b = [b"birds".as_slice(), b"cats".as_slice(), b"dogs".as_slice(), b"cats".as_slice()];
    let mut reg_a = LabelRegistry::new();
    let mut reg_b = LabelRegistry::new();
    for l in schedule_a {
        reg_a.get_or_assign(l);
    }
    for l in schedule_b {
        reg_b.get_or_assign(l);
    }
    assert_eq!(reg_a.len(), 3);
    assert_eq!(reg_b.len(), 3);
    for labels in [[b"cats".as_slice(), b"dogs".as_slice()], [b"cats".as_slice(), b"birds".as_slice()], [b"dogs".as_slice(), b"birds".as_slice()]] {
        for reg in [&reg_a, &reg_b] {
            let i = reg.lookup(labels[0]).unwrap();
            let j = reg.lookup(labels[1]).unwrap();
            assert_ne!(i, j);
        }
    }
}

fn record(label: &[u8], index: usize) -> ManifestRecord {
    ManifestRecord {
        class_index: index,
        filepath: b"out/x.png".to_vec(),
        label: label.to_vec(),
        dataset: b"out".to_vec(),
    }
}

#[test]
fn manifest_seeding_via_records() {
    let records = vec![record(b"cats", 0), record(b"dogs", 1), record(b"cats", 9)];
    let reg = registry_from_records(&records);
    assert_eq!(reg.len(), 2);
    assert_eq!(reg.lookup(b"cats"), Some(0));
    assert_eq!(reg.lookup(b"dogs"), Some(1));
}

#[test]
fn indices_stay_stable_across_runs() {
    // A first run over {cats, dogs} produces a manifest; a second run over
    // the superset {cats, dogs, birds}, seeded from it, keeps every old
    // index.
    let mut first = RunState::new(LabelRegistry::new());
    first.record_success(b"out/cats/a.png".to_vec(), b"cats", b"out".to_vec());
    first.record_success(b"out/dogs/b.png".to_vec(), b"dogs", b"out".to_vec());
    let seeded = registry_from_records(&first.records);
    let mut second = RunState::new(seeded);
    second.record_success(b"out/birds/c.png".to_vec(), b"birds", b"out".to_vec());
    second.record_success(b"out/cats/a.png".to_vec(), b"cats", b"out".to_vec());
    second.record_success(b"out/dogs/b.png".to_vec(), b"dogs", b"out".to_vec());
    assert_eq!(second.registry.lookup(b"cats"), Some(0));
    assert_eq!(second.registry.lookup(b"dogs"), Some(1));
    assert_eq!(second.registry.lookup(b"birds"), Some(2));
    assert_eq!(second.records.len(), 3);
    assert_eq!(second.processed, 3);
}

#[test]
fn plan_file_mirrors_and_forces_png() {
    let plan = plan_file(b"root/cats/a.jpg", b"root", b"out", false, true, 0).unwrap();
    assert_eq!(plan.output_path, b"out/cats/a.png".to_vec());
    assert_eq!(plan.label, b"cats".to_vec());
}

#[test]
fn plan_file_preserves_format_when_asked() {
    let plan = plan_file(b"root/cats/a.jpg", b"root", b"out", true, true, 0).unwrap();
    assert_eq!(plan.output_path, b"out/cats/a.jpg".to_vec());
}

#[test]
fn plan_file_numbers_outputs_when_asked() {
    let plan = plan_file(b"root/cats/a.jpg", b"root", b"out", false, false, 5).unwrap();
    assert_eq!(plan.output_path, b"out/cats/5.png".to_vec());
    assert_eq!(plan.label, b"cats".to_vec());
}

#[test]
fn plan_file_skips_ineligible() {
    assert!(plan_file(b"root/cats/a.txt", b"root", b"out", false, true, 0).is_none());
    assert!(plan_file(b"elsewhere/cats/a.jpg", b"root", b"out", false, true, 0).is_none());
}

#[test]
fn end_to_end_plan_and_manifest() {
    let inputs: [&[u8]; 3] = [b"root/cats/a.jpg", b"root/cats/b.jpg", b"root/dogs/c.png"];
    let dataset = file_name(b"out");
    assert_eq!(dataset, b"out".to_vec());
    let mut state = RunState::new(LabelRegistry::new());
    let mut outputs: Vec<Vec<u8>> = Vec::new();
    for path in inputs {
        let plan = plan_file(path, b"root", b"out", false, true, state.processed as u64).unwrap();
        outputs.push(plan.output_path.clone());
        state.record_success(plan.output_path, &plan.label, dataset.clone());
    }
    assert_eq!(outputs[0], b"out/cats/a.png".to_vec());
    assert_eq!(outputs[1], b"out/cats/b.png".to_vec());
    assert_eq!(outputs[2], b"out/dogs/c.png".to_vec());
    assert_eq!(state.processed, 3);
    assert_eq!(state.records.len(), 3);
    assert_eq!(state.registry.lookup(b"cats"), Some(0));
    assert_eq!(state.registry.lookup(b"dogs"), Some(1));
    for rec in &state.records {
        assert_eq!(rec.dataset, b"out".to_vec());
        if rec.label == b"cats".to_vec() {
            assert_eq!(rec.class_index, 0);
        } else {
            assert_eq!(rec.label, b"dogs".to_vec());
            assert_eq!(rec.class_index, 1);
        }
    }
}
