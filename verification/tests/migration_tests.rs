use virtualbow::binary64::Binary64;
use virtualbow::compatibility::{is_legacy_symmetric, BowModelVersion};
use virtualbow::errors::ModelError;
use virtualbow::legacy_symmetric;
use virtualbow::model::{self, BowModel, BowString, Damping, Height, LimbSide, Width};
use virtualbow::simulation::SimulationMode;
use virtualbow::version4;

fn num(x: f64) -> Binary64 {
    Binary64::from_bits(x.to_bits())
}

fn v4_model() -> version4::BowModel {
    version4::BowModel {
        comment: "v4 bow".into(),
        settings: version4::Settings {
            num_limb_elements: 20,
            num_limb_eval_points: 100,
            min_draw_resolution: 50,
            max_draw_resolution: 60,
            static_iteration_tolerance: num(1e-6),
            arrow_clamp_force: num(0.5),
            string_compression_factor: num(1e-6),
            timespan_factor: num(1.5),
            timeout_factor: num(10.0),
            min_timestep: num(1e-6),
            max_timestep: num(1e-4),
            steps_per_period: 200,
            dynamic_iteration_tolerance: num(1e-6),
        },
        handle: version4::Handle::Rigid(version4::RigidHandle { length: num(0.3), angle: num(0.1), pivot: num(0.02) }),
        draw: version4::Draw { brace_height: num(0.2), draw_length: version4::DrawLength::Amo(num(0.72)) },
        profile: version4::Profile {
            segments: vec![
                version4::ProfileSegment::Line(version4::Line { length: num(0.3) }),
                version4::ProfileSegment::Arc(version4::Arc { length: num(0.4), radius: num(1.2) }),
                version4::ProfileSegment::Spline(version4::Spline { points: vec![[num(0.0), num(0.0)], [num(0.1), num(0.05)]] }),
            ],
        },
        section: version4::Section {
            alignment: version4::LayerAlignment::LayerBelly("Core".into()),
            width: Width::linear(num(0.04), num(0.01)),
            materials: vec![version4::Material {
                name: "Wood".into(), color: "#aa8844".into(), density: num(600.0),
                youngs_modulus: num(1.1e10), shear_modulus: num(5e9), tensile_strength: num(1e8),
                compressive_strength: num(6e7), safety_margin: num(0.2),
            }],
            layers: vec![version4::Layer { name: "Core".into(), material: "Wood".into(), height: Height::linear(num(0.015), num(0.01)) }],
        },
        string: BowString { n_strands: 14, strand_density: num(0.0005), strand_stiffness: num(3500.0) },
        masses: version4::Masses { arrow: version4::ArrowMass::MassPerForce(num(0.0001)), limb_tip: num(0.005), string_center: num(0.004), string_tip: num(0.003) },
        damping: Damping { damping_ratio_limbs: num(0.05), damping_ratio_string: num(0.06) },
    }
}

#[test]
fn version4_migration_mirrors_the_half() {
    let m = BowModel::from_version4(v4_model());
    assert_eq!(m.symmetry, model::Symmetry::default());
    assert_eq!(m.comment, "v4 bow");
    assert_eq!(m.profile.upper, m.profile.lower);
    assert_eq!(m.profile.upper.len(), 3);
    assert_eq!(m.profile.upper[1], model::ProfileSegment::Arc(model::Arc::new(num(0.4), num(1.2))));
    assert_eq!(m.section.upper, m.section.lower);
    assert_eq!(m.section.upper.alignment, model::LayerAlignment::LayerBelly("Core".into()));
    assert_eq!(m.section.materials[0].name, "Wood");
    assert_eq!(m.section.materials[0].safety_margin, num(0.2));
    assert_eq!(m.section.upper.layers[0].height, Height::linear(num(0.015), num(0.01)));
    match &m.handle {
        model::Handle::Rigid(h) => {
            assert_eq!(h.length_upper, num(0.15));
            assert_eq!(h.length_lower, num(0.15));
            assert_eq!(h.total_length().to_bits(), 0.3f64.to_bits());
            assert_eq!(h.center_offset().to_bits(), 0);
            assert_eq!(h.angle, num(0.1));
            assert_eq!(h.pivot, num(0.02));
        }
        other => panic!("unexpected handle {other:?}"),
    }
    assert_eq!(m.draw.draw_length, model::DrawLength::Amo(num(0.72)));
    assert_eq!(m.draw.nock_offset, num(0.0));
    assert_eq!(m.masses.arrow, model::ArrowMass::MassPerForce(num(0.0001)));
    assert_eq!(m.masses.limb_tip_upper, num(0.005));
    assert_eq!(m.masses.limb_tip_lower, num(0.005));
    assert_eq!(m.masses.string_nock, num(0.004));
    assert_eq!(m.masses.string_tip_lower, num(0.003));
    assert_eq!(m.settings.steps_per_period, 200);
    assert_eq!(m.string.n_strands, 14);
    assert_eq!(m.validate(), Ok(()));
}

#[test]
fn version4_flexible_handle_stays_flexible() {
    let mut v4 = v4_model();
    v4.handle = version4::Handle::Flexible;
    assert_eq!(BowModel::from_version4(v4).handle, model::Handle::Flexible);
}

#[test]
fn convert_alignment_keeps_layer_names() {
    assert_eq!(version4::convert_v4_alignment(&version4::LayerAlignment::SectionCenter), model::LayerAlignment::SectionCenter);
    assert_eq!(
        version4::convert_v4_alignment(&version4::LayerAlignment::LayerCenter("Glass".into())),
        model::LayerAlignment::LayerCenter("Glass".into())
    );
}

fn legacy_model() -> legacy_symmetric::BowModel {
    legacy_symmetric::BowModel {
        comment: "recurve".into(),
        settings: legacy_symmetric::Settings {
            num_limb_elements: 30,
            num_limb_eval_points: 250,
            min_draw_resolution: 100,
            max_draw_resolution: 100,
            static_iteration_tolerance: legacy_symmetric::default_iteration_tolerance(),
            arrow_clamp_force: num(0.5),
            string_compression_factor: num(1e-6),
            timespan_factor: num(1.5),
            timeout_factor: num(10.0),
            min_timestep: num(1e-6),
            max_timestep: num(1e-4),
            steps_per_period: 250,
            dynamic_iteration_tolerance: legacy_symmetric::default_iteration_tolerance(),
        },
        dimensions: legacy_symmetric::Dimensions {
            handle_reference: "pivot".into(),
            handle_angle: num(0.0),
            handle_length: num(0.25),
            handle_offset: num(0.01),
            brace_height: num(0.19),
            draw_length: num(0.7),
        },
        profile: legacy_symmetric::Profile { segments: vec![model::ProfileSegment::Line(model::Line::new(num(0.7)))] },
        section: legacy_symmetric::Section {
            alignment: model::LayerAlignment::SectionBack,
            width: Width::constant(num(0.03)),
            materials: vec![model::Material::new("Ash", "#ddccbb", num(700.0), num(1.2e10), num(6e9))],
            layers: vec![model::Layer::new("Ash", "Ash", Height::linear(num(0.016), num(0.009)))],
        },
        string: BowString { n_strands: 12, strand_density: num(0.0005), strand_stiffness: num(3500.0) },
        masses: legacy_symmetric::Masses { arrow: num(0.025), limb_tip: num(0.002), string_center: num(0.001), string_tip: num(0.0005) },
        damping: Damping { damping_ratio_limbs: num(0.05), damping_ratio_string: num(0.05) },
    }
}

#[test]
fn legacy_migration_mirrors_the_limb() {
    let m = BowModel::from_legacy_symmetric(legacy_model());
    assert!(m.symmetry.profile && m.symmetry.width && m.symmetry.layers);
    assert_eq!(m.profile.upper, m.profile.lower);
    assert_eq!(m.section.upper, m.section.lower);
    assert_eq!(m.settings.static_iteration_tolerance, num(1e-6));
    assert_eq!(m.settings.dynamic_iteration_tolerance, num(1e-6));
    assert_eq!(
        m.handle,
        model::Handle::Rigid(model::RigidHandle { length_upper: num(0.125), length_lower: num(0.125), angle: num(0.0), pivot: num(0.01) })
    );
    assert_eq!(m.draw.draw_length, model::DrawLength::Standard(num(0.7)));
    assert_eq!(m.draw.brace_height, num(0.19));
    assert_eq!(m.masses.arrow, model::ArrowMass::Mass(num(0.025)));
    assert_eq!(m.masses.limb_tip_upper, m.masses.limb_tip_lower);
    assert_eq!(m.masses.string_nock, num(0.001));
    assert_eq!(m.validate(), Ok(()));
}

#[test]
fn get_latest_by_version() {
    let latest = BowModelVersion::Latest(BowModel::example());
    assert!(latest.is_latest());
    assert_eq!(latest.get_latest(), Ok(BowModel::example()));

    let v4 = BowModelVersion::Version4(v4_model());
    assert!(!v4.is_latest());
    assert_eq!(v4.get_latest(), Ok(BowModel::from_version4(v4_model())));

    let legacy = BowModelVersion::LegacySymmetric(legacy_model());
    assert_eq!(legacy.get_latest(), Ok(BowModel::from_legacy_symmetric(legacy_model())));

    assert_eq!(BowModelVersion::Unsupported.get_latest(), Err(ModelError::InputVersionUnsupported));
    assert_eq!(BowModelVersion::Unrecognized.get_latest(), Err(ModelError::InputVersionUnrecognized));
    assert!(!BowModelVersion::Unsupported.is_latest());
}

#[test]
fn legacy_detection() {
    assert!(is_legacy_symmetric(Some("0.10.0"), true));
    assert!(!is_legacy_symmetric(Some("0.10.0"), false));
    assert!(!is_legacy_symmetric(Some("0.11.0"), true));
    assert!(!is_legacy_symmetric(Some("0.10"), true));
    assert!(!is_legacy_symmetric(None, true));
}

#[test]
fn limb_sides() {
    assert_eq!(LimbSide::Upper.label(), "upper");
    assert_eq!(LimbSide::Lower.label(), "lower");
    assert_eq!(f64::from_bits(LimbSide::Upper.sign().to_bits()), 1.0);
    assert_eq!(f64::from_bits(LimbSide::Lower.sign().to_bits()), -1.0);
    assert_eq!(LimbSide::all(), [LimbSide::Upper, LimbSide::Lower]);
    assert_eq!(LimbSide::default(), LimbSide::Upper);
    assert_ne!(SimulationMode::Static, SimulationMode::Dynamic);
}

#[test]
fn symmetric_constructors() {
    let segments = vec![model::ProfileSegment::Line(model::Line::new(num(0.5))), model::ProfileSegment::Spiral(model::Spiral::new(num(0.2), num(1.0), num(2.0)))];
    let p = model::Profile::new(segments.clone());
    assert_eq!(p.upper, segments);
    assert_eq!(p.lower, segments);
    assert_eq!(p.for_side(LimbSide::Lower), &segments);
    let s = model::Section::new(model::LayerAlignment::SectionCenter, Width::constant(num(0.02)), vec![], vec![]);
    assert_eq!(s.upper, s.lower);
    assert_eq!(s.for_side(LimbSide::Upper).width, Width::constant(num(0.02)));
}
