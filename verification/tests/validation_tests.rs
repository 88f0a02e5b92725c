use virtualbow::binary64::Binary64;
use virtualbow::errors::ModelError;
use virtualbow::model::{
    Arc, ArrowMass, BowModel, BowString, BeamHandle, Damping, Draw, DrawLength, Handle, Height,
    Layer, LayerAlignment, LimbSection, Line, Masses, Material, ProfileSegment, RigidHandle,
    LimbSide, Settings, Spiral, Spline, Width,
};

fn num(x: f64) -> Binary64 {
    Binary64::from_bits(x.to_bits())
}

fn pts(points: &[[f64; 2]]) -> Vec<[Binary64; 2]> {
    points.iter().map(|p| [num(p[0]), num(p[1])]).collect()
}

#[test]
fn example_model_is_valid() {
    let model = BowModel::example();
    assert_eq!(model.validate(), Ok(()));
    assert_eq!(model.profile.upper, model.profile.lower);
    assert_eq!(model.section.upper, model.section.lower);
    assert_eq!(model.settings, Settings::default());
    assert!(!model.symmetry.profile && !model.symmetry.width && !model.symmetry.layers);
}

#[test]
fn default_settings_values() {
    let s = Settings::default();
    assert_eq!(s.num_limb_elements, 30);
    assert_eq!(s.num_limb_eval_points, 250);
    assert_eq!(s.min_draw_resolution, 100);
    assert_eq!(s.max_draw_resolution, 100);
    assert_eq!(s.static_iteration_tolerance, num(1e-6));
    assert_eq!(s.arrow_clamp_force, num(0.5));
    assert_eq!(s.string_compression_factor, num(1e-6));
    assert_eq!(s.timespan_factor, num(1.5));
    assert_eq!(s.timeout_factor, num(10.0));
    assert_eq!(s.min_timestep, num(1e-6));
    assert_eq!(s.max_timestep, num(1e-4));
    assert_eq!(s.steps_per_period, 250);
    assert_eq!(s.dynamic_iteration_tolerance, num(1e-6));
    assert_eq!(s.validate(), Ok(()));
}

#[test]
fn width_errors() {
    assert_eq!(Width::new(pts(&[[0.0, 1.0]])).validate(), Err(ModelError::WidthControlPointsTooFew(1)));
    assert_eq!(
        Width::new(pts(&[[0.0, 1.0], [0.5, 1.0], [0.5, 1.0], [1.0, 1.0]])).validate(),
        Err(ModelError::WidthControlPointsNotSorted(num(0.5), num(0.5)))
    );
    assert_eq!(
        Width::new(pts(&[[0.1, 1.0], [1.0, 1.0]])).validate(),
        Err(ModelError::WidthControlPointsInvalidRange(num(0.1), num(1.0)))
    );
    assert_eq!(
        Width::new(pts(&[[0.0, 1.0], [0.9, 1.0]])).validate(),
        Err(ModelError::WidthControlPointsInvalidRange(num(0.0), num(0.9)))
    );
    assert_eq!(
        Width::new(pts(&[[0.0, 1.0], [0.5, 0.0], [1.0, -1.0]])).validate(),
        Err(ModelError::WidthControlPointsInvalidValue(num(0.5), num(0.0)))
    );
    assert_eq!(Width::new(pts(&[[-0.0, 1.0], [1.0, 2.0]])).validate(), Ok(()));
}

#[test]
fn constant_and_linear_width() {
    assert_eq!(Width::constant(num(0.02)).0, pts(&[[0.0, 0.02], [1.0, 0.02]]));
    assert_eq!(Width::linear(num(0.04), num(0.01)).0, pts(&[[0.0, 0.04], [1.0, 0.01]]));
    assert_eq!(Width::constant(num(0.02)).validate(), Ok(()));
    assert!(Width::constant(num(0.0)).validate().is_err());
    assert!(Width::constant(num(f64::INFINITY)).validate().is_err());
    assert!(Width::constant(num(f64::NAN)).validate().is_err());
}

#[test]
fn height_errors() {
    let name = "Core".to_string();
    let e = |p: &[[f64; 2]]| Height::new(pts(p)).validate(&name);
    assert_eq!(e(&[[0.0, 1.0]]), Err(ModelError::LayerHeightControlPointsTooFew(name.clone(), 1)));
    assert_eq!(
        e(&[[0.0, 1.0], [0.6, 1.0], [0.4, 1.0], [1.0, 1.0]]),
        Err(ModelError::LayerHeightControlPointsNotSorted(name.clone(), num(0.6), num(0.4)))
    );
    assert_eq!(
        e(&[[-0.1, 0.0], [1.0, 1.0]]),
        Err(ModelError::LayerHeightControlPointsInvalidRange(name.clone(), num(-0.1), num(1.0)))
    );
    assert_eq!(
        e(&[[0.0, -1.0], [1.0, 1.0]]),
        Err(ModelError::LayerHeightControlPointsInvalidBoundaryValue(name.clone(), num(0.0), num(-1.0)))
    );
    assert_eq!(
        e(&[[0.0, 1.0], [1.5, 1.0]]),
        Err(ModelError::LayerHeightControlPointsInvalidRange(name.clone(), num(0.0), num(1.5)))
    );
    assert_eq!(
        e(&[[0.0, 1.0], [1.0, -2.0]]),
        Err(ModelError::LayerHeightControlPointsInvalidBoundaryValue(name.clone(), num(1.0), num(-2.0)))
    );
    assert_eq!(
        e(&[[0.0, 1.0], [0.5, 0.0], [1.0, 1.0]]),
        Err(ModelError::LayerHeightControlPointsInvalidInteriorValue(name.clone(), num(0.5), num(0.0)))
    );
    assert_eq!(
        e(&[[0.2, 1.0], [1.0, 1.0]]),
        Err(ModelError::LayerHeightControlPointsDiscontinuousBoundary(name.clone(), num(0.2), num(1.0)))
    );
    assert_eq!(
        e(&[[0.0, 1.0], [0.8, 1.0]]),
        Err(ModelError::LayerHeightControlPointsDiscontinuousBoundary(name.clone(), num(0.8), num(1.0)))
    );
    // A layer may start and end inside the limb when its height vanishes there.
    assert_eq!(e(&[[0.2, 0.0], [0.5, 0.01], [0.8, 0.0]]), Ok(()));
    assert_eq!(Height::constant(num(0.0)).validate(&name), Ok(()));
    assert_eq!(Height::linear(num(0.015), num(0.01)).0, pts(&[[0.0, 0.015], [1.0, 0.01]]));
}

#[test]
fn string_and_damping_errors() {
    let s = BowString { n_strands: 0, strand_density: num(1.0), strand_stiffness: num(1.0) };
    assert_eq!(s.validate(), Err(ModelError::StringInvalidNumberOfStrands(0)));
    let s = BowString { n_strands: 12, strand_density: num(-1.0), strand_stiffness: num(1.0) };
    assert_eq!(s.validate(), Err(ModelError::StringInvalidStrandDensity(num(-1.0))));
    let s = BowString { n_strands: 12, strand_density: num(1.0), strand_stiffness: num(f64::INFINITY) };
    assert_eq!(s.validate(), Err(ModelError::StringInvalidStrandStiffness(num(f64::INFINITY))));
    let d = Damping { damping_ratio_limbs: num(1.5), damping_ratio_string: num(0.0) };
    assert_eq!(d.validate(), Err(ModelError::DampingInvalidLimbDampingRatio(num(1.5))));
    let d = Damping { damping_ratio_limbs: num(1.0), damping_ratio_string: num(-0.1) };
    assert_eq!(d.validate(), Err(ModelError::DampingInvalidStringDampingRatio(num(-0.1))));
    let d = Damping { damping_ratio_limbs: num(0.0), damping_ratio_string: num(1.0) };
    assert_eq!(d.validate(), Ok(()));
}

#[test]
fn settings_errors() {
    let mut s = Settings::default();
    s.num_limb_eval_points = 1;
    assert_eq!(s.validate(), Err(ModelError::SettingsInvalidLimbEvalPoints(1)));
    let mut s = Settings::default();
    s.timespan_factor = num(0.5);
    assert_eq!(s.validate(), Err(ModelError::SettingsInvalidTimeSpanFactor(num(0.5))));
    let mut s = Settings::default();
    s.arrow_clamp_force = num(0.0);
    assert_eq!(s.validate(), Ok(()));
    s.steps_per_period = 0;
    assert_eq!(s.validate(), Err(ModelError::SettingsInvalidStepsPerPeriod(0)));
}

#[test]
fn handle_checks() {
    let rigid = Handle::Rigid(RigidHandle { length_upper: num(0.0), length_lower: num(-0.1), angle: num(0.0), pivot: num(0.0) });
    assert_eq!(rigid.validate(), Err(ModelError::HandleInvalidLength(num(-0.1))));
    let rigid = Handle::Rigid(RigidHandle { length_upper: num(0.1), length_lower: num(0.05), angle: num(f64::NAN), pivot: num(0.0) });
    assert!(matches!(rigid.validate(), Err(ModelError::HandleInvalidAngle(_))));
    let section = BowModel::example().section.upper.clone();
    let beam = Handle::Beam(BeamHandle {
        length_upper: num(0.1), length_lower: num(0.1), angle: num(0.0), pivot: num(0.0),
        n_elements_upper: 0, n_elements_lower: 4, section,
    });
    assert_eq!(beam.validate(), Err(ModelError::SettingsInvalidLimbElements(0)));
    assert_eq!(BeamHandle::default_n_elements(), 4);

    let flexible = Handle::Flexible.to_rigid();
    assert_eq!(flexible, RigidHandle { length_upper: num(0.0), length_lower: num(0.0), angle: num(0.0), pivot: num(0.0) });
    let beam = Handle::Beam(BeamHandle {
        length_upper: num(0.1), length_lower: num(0.2), angle: num(0.3), pivot: num(0.4),
        n_elements_upper: 4, n_elements_lower: 4, section: BowModel::example().section.lower.clone(),
    });
    assert_eq!(beam.to_rigid(), RigidHandle { length_upper: num(0.1), length_lower: num(0.2), angle: num(0.3), pivot: num(0.4) });
    assert!(beam.beam_section().is_some());
    assert!(Handle::Flexible.beam_section().is_none());
}

#[test]
fn draw_checks() {
    let draw = Draw { brace_height: num(0.2), draw_length: DrawLength::Standard(num(0.2)), nock_offset: num(0.0) };
    assert_eq!(draw.validate(), Err(ModelError::DimensionsInvalidDrawLength(num(0.2))));
    let draw = Draw { brace_height: num(0.0), draw_length: DrawLength::Standard(num(0.7)), nock_offset: num(0.0) };
    assert_eq!(draw.validate(), Err(ModelError::DimensionsInvalidBraceHeight(num(0.0))));
    let draw = Draw { brace_height: num(0.2), draw_length: DrawLength::Amo(num(0.7)), nock_offset: num(f64::INFINITY) };
    assert_eq!(draw.validate(), Err(ModelError::DimensionsInvalidBraceHeight(num(f64::INFINITY))));
    assert_eq!(DrawLength::Amo(num(0.7)).value(), num(0.7));
    assert_eq!(DrawLength::Amo(num(0.7)).from_pivot().to_bits(), (0.7 - 1.75 * 0.0254f64).to_bits());
    assert_eq!(DrawLength::Standard(num(0.7)).from_pivot().to_bits(), 0.7f64.to_bits());
    // An AMO draw length of 0.2 + 0.04445 is just above the brace height of 0.2 only after the offset.
    let draw = Draw { brace_height: num(0.2), draw_length: DrawLength::Amo(num(0.24)), nock_offset: num(0.0) };
    assert_eq!(draw.validate(), Err(ModelError::DimensionsInvalidDrawLength(num(0.24 - 1.75 * 0.0254))));
    let draw = Draw { brace_height: num(0.2), draw_length: DrawLength::Amo(num(0.25)), nock_offset: num(0.0) };
    assert_eq!(draw.validate(), Ok(()));
    assert_eq!(DrawLength::Standard(num(0.6)).value(), num(0.6));
}

#[test]
fn material_and_layer_checks() {
    let m = Material::new("Wood", "#a0b1c2", num(600.0), num(1e10), num(5e9));
    assert_eq!(m.validate(), Ok(()));
    assert_eq!(m.maximum_stresses(), (num(0.0), num(0.0)));
    let m = Material::new("", "#a0b1c2", num(600.0), num(1e10), num(5e9));
    assert_eq!(m.validate(), Err(ModelError::MaterialInvalidName(String::new())));
    let m = Material::new("Wood", "a0b1c2", num(600.0), num(1e10), num(5e9));
    assert_eq!(m.validate(), Err(ModelError::MaterialInvalidColor("Wood".into(), "a0b1c2".into())));
    let m = Material::new("Wood", "#a0b1g2", num(600.0), num(1e10), num(5e9));
    assert!(matches!(m.validate(), Err(ModelError::MaterialInvalidColor(_, _))));
    let m = Material::new("Wood", "#A0B1C2", num(0.0), num(1e10), num(5e9));
    assert_eq!(m.validate(), Err(ModelError::MaterialInvalidDensity("Wood".into(), num(0.0))));
    let mut m = Material::new("Wood", "#a0b1c2", num(600.0), num(1e10), num(5e9));
    m.safety_margin = num(1.5);
    assert_eq!(m.validate(), Err(ModelError::MaterialInvalidSafetyMargin("Wood".into(), num(1.5))));

    let layer = Layer::new("", "Wood", Height::constant(num(0.01)));
    assert_eq!(layer.validate(), Err(ModelError::LayerInvalidName(String::new())));
    let layer = Layer::new("Core", "", Height::constant(num(0.01)));
    assert_eq!(layer.validate(), Err(ModelError::LayerInvalidMaterial("Core".into(), String::new())));
    let layer = Layer::new("Core", "Wood", Height::new(pts(&[[0.0, 0.01]])));
    assert_eq!(layer.validate(), Err(ModelError::LayerHeightControlPointsTooFew("Core".into(), 1)));

    let section = LimbSection::new(LayerAlignment::LayerBack(String::new()), Width::constant(num(0.01)), vec![]);
    assert_eq!(section.validate(), Err(ModelError::ProfileAnlignemtInvalidLayerName(String::new())));
}

#[test]
fn segment_checks() {
    assert_eq!(ProfileSegment::Line(Line::new(num(0.0))).validate(3), Err(ModelError::LineSegmentInvalidLength(3, num(0.0))));
    assert_eq!(ProfileSegment::Arc(Arc::new(num(0.5), num(f64::NAN))).validate(1), Err(ModelError::ArcSegmentInvalidRadius(1, num(0.5))));
    assert_eq!(ProfileSegment::Spiral(Spiral::new(num(0.5), num(1.0), num(f64::INFINITY))).validate(2), Err(ModelError::SpiralSegmentInvalidRadius1(2, num(0.5))));
    assert_eq!(ProfileSegment::Spline(Spline::new(pts(&[[0.0, 0.0]]))).validate(0), Err(ModelError::SplineSegmentTooFewPoints(0, 1)));
    // The offending point is reported (compared by bits: NaN is unequal to itself).
    match ProfileSegment::Spline(Spline::new(pts(&[[0.0, 0.0], [0.1, f64::NAN]]))).validate(4) {
        Err(ModelError::SplineSegmentInvalidPoint(4, p)) => {
            assert_eq!(p[0].to_bits(), 0.1f64.to_bits());
            assert_eq!(p[1].to_bits(), f64::NAN.to_bits());
        }
        other => panic!("unexpected result {other:?}"),
    }
    let mut model = BowModel::example();
    model.profile.lower.push(ProfileSegment::Line(Line::new(num(-1.0))));
    assert_eq!(model.validate(), Err(ModelError::LineSegmentInvalidLength(1, num(-1.0))));
}

#[test]
fn mass_checks() {
    let mut masses = BowModel::example().masses;
    masses.arrow = ArrowMass::MassPerEnergy(num(0.0));
    assert_eq!(masses.validate(), Err(ModelError::MassesInvalidArrowMassPerEnergy(num(0.0))));
    let mut masses = BowModel::example().masses;
    masses.string_nock = num(-0.01);
    assert_eq!(masses.validate(), Err(ModelError::MassesInvalidStringCenterMass(num(-0.01))));
    let masses = Masses {
        arrow: ArrowMass::Mass(num(0.02)),
        limb_tip_upper: num(0.01), limb_tip_lower: num(0.02), string_nock: num(0.0),
        string_tip_upper: num(0.03), string_tip_lower: num(0.04),
    };
    assert_eq!(masses.limb_tip(LimbSide::Upper), num(0.01));
    assert_eq!(masses.limb_tip(LimbSide::Lower), num(0.02));
    assert_eq!(masses.string_tip(LimbSide::Upper), num(0.03));
    assert_eq!(masses.string_tip(LimbSide::Lower), num(0.04));
}

#[test]
fn model_reports_first_failing_part() {
    let mut model = BowModel::example();
    model.damping.damping_ratio_string = num(2.0);
    model.settings.num_limb_elements = 0;
    assert_eq!(model.validate(), Err(ModelError::SettingsInvalidLimbElements(0)));
    model.settings.num_limb_elements = 30;
    assert_eq!(model.validate(), Err(ModelError::DampingInvalidStringDampingRatio(num(2.0))));
}

#[test]
fn material_stresses_and_strains() {
    let mut m = Material::new("Wood", "#a0b1c2", num(600.0), num(1.2e10), num(5e9));
    m.tensile_strength = num(1.1e8);
    m.compressive_strength = num(7e7);
    m.safety_margin = num(0.3);
    assert_eq!(m.maximum_stresses(), (num(1.1e8), num(7e7)));
    let (t, c) = m.allowed_stresses();
    assert_eq!(t.to_bits(), (1.1e8 * (1.0 - 0.3f64)).to_bits());
    assert_eq!(c.to_bits(), (7e7 * (1.0 - 0.3f64)).to_bits());
    let (t, c) = m.maximum_strains();
    assert_eq!(t.to_bits(), (1.1e8 / 1.2e10f64).to_bits());
    assert_eq!(c.to_bits(), (7e7 / 1.2e10f64).to_bits());
    let (t, c) = m.allowed_strains();
    assert_eq!(t.to_bits(), (1.1e8 * (1.0 - 0.3f64) / 1.2e10).to_bits());
    assert_eq!(c.to_bits(), (7e7 * (1.0 - 0.3f64) / 1.2e10).to_bits());
}
