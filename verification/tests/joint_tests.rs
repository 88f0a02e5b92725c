use virtualbow::binary64::Binary64;
use virtualbow::joint::JointMismatch;
use virtualbow::model::{BeamHandle, BowModel, Height, LayerAlignment, LimbSection, RigidHandle, Width};

fn num(x: f64) -> Binary64 {
    Binary64::from_bits(x.to_bits())
}

fn val(b: Binary64) -> f64 {
    f64::from_bits(b.to_bits())
}

#[test]
fn symmetric_example_has_no_joint_mismatch() {
    let model = BowModel::example();
    assert!(model.continuity_warnings().is_empty());
}

#[test]
fn joint_mismatches_in_order() {
    let mut model = BowModel::example();
    model.section.lower.alignment = LayerAlignment::LayerBack("Layer 1".to_owned());
    model.section.lower.width = Width::linear(num(0.05), num(0.01));
    model.section.lower.layers[0].material = "Material 2".to_owned();
    model.section.lower.layers[0].height = Height::linear(num(0.02), num(0.01));
    let w = model.continuity_warnings();
    assert_eq!(w.len(), 4);
    match &w[0] {
        JointMismatch::Alignment(LayerAlignment::SectionBack, LayerAlignment::LayerBack(n)) => assert_eq!(n, "Layer 1"),
        other => panic!("unexpected {other:?}"),
    }
    match &w[1] {
        JointMismatch::Width(u, l) => {
            assert_eq!(val(*u), 0.04);
            assert_eq!(val(*l), 0.05);
        }
        other => panic!("unexpected {other:?}"),
    }
    match &w[2] {
        JointMismatch::LayerMaterial(0, u, l) => {
            assert_eq!(u, "Material 1");
            assert_eq!(l, "Material 2");
        }
        other => panic!("unexpected {other:?}"),
    }
    match &w[3] {
        JointMismatch::LayerHeight(0, un, ln, u, l) => {
            assert_eq!(un, "Layer 1");
            assert_eq!(ln, "Layer 1");
            assert_eq!(val(*u), 0.015);
            assert_eq!(val(*l), 0.02);
        }
        other => panic!("unexpected {other:?}"),
    }
}

#[test]
fn joint_tolerance_and_layer_count() {
    let mut model = BowModel::example();
    // A difference of 1e-10 is within the tolerance; a NaN never counts.
    model.section.lower.width = Width::linear(num(0.04 + 1e-10), num(0.01));
    model.section.upper.layers[0].height = Height::linear(num(f64::NAN), num(0.01));
    assert!(model.continuity_warnings().is_empty());
    model.section.lower.layers.clear();
    let w = model.continuity_warnings();
    assert_eq!(w.len(), 1);
    assert!(matches!(w[0], JointMismatch::LayerCount(1, 0)));
    let empty = LimbSection::new(LayerAlignment::SectionBelly, Width::new(vec![]), vec![]);
    model.section.upper = empty;
    model.section.lower = LimbSection::new(LayerAlignment::SectionBelly, Width::new(vec![]), vec![]);
    assert!(model.continuity_warnings().is_empty());
}

#[test]
fn handle_lengths() {
    let rigid = RigidHandle { length_upper: num(0.3), length_lower: num(0.2), angle: num(0.0), pivot: num(0.0) };
    assert_eq!(val(rigid.total_length()), 0.3 + 0.2);
    assert_eq!(val(rigid.center_offset()), 0.5 * (0.3 - 0.2));
    let beam = BeamHandle {
        length_upper: num(0.1),
        length_lower: num(0.25),
        angle: num(0.0),
        pivot: num(0.0),
        n_elements_upper: 4,
        n_elements_lower: 4,
        section: BowModel::example().section.upper,
    };
    assert_eq!(val(beam.total_length()), 0.1 + 0.25);
    assert_eq!(val(beam.center_offset()), 0.5 * (0.1 - 0.25));
    assert!(val(beam.center_offset()) < 0.0);
}
