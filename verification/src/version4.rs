//! Bow file version 4 (VirtualBow input 0.10): a symmetric bow described by
//! one limb half, and its migration to the latest version, which mirrors the
//! half into both limbs.
use vstd::prelude::*;
use crate::binary64::Binary64;
use crate::model;
use crate::model::{
    BowModelView, BowString, Damping, HandleView, LayerView, LimbSectionView, ProfileView,
    SectionView, SegmentView, Width, Height,
};

verus! {

#[derive(Clone, Debug, PartialEq)]
pub struct Settings {
    pub num_limb_elements: usize,
    pub num_limb_eval_points: usize,
    pub min_draw_resolution: usize,
    pub max_draw_resolution: usize,
    pub static_iteration_tolerance: Binary64,
    pub arrow_clamp_force: Binary64,
    pub string_compression_factor: Binary64,
    pub timespan_factor: Binary64,
    pub timeout_factor: Binary64,
    pub min_timestep: Binary64,
    pub max_timestep: Binary64,
    pub steps_per_period: usize,
    pub dynamic_iteration_tolerance: Binary64,
}

/// A rigid handle of the whole grip length.
#[derive(Clone, Debug, PartialEq)]
pub struct RigidHandle {
    pub length: Binary64,
    pub angle: Binary64,
    pub pivot: Binary64,
}

#[derive(Clone, Debug, PartialEq)]
pub enum Handle {
    Flexible,
    Rigid(RigidHandle),
}

#[derive(Clone, Debug, PartialEq)]
pub enum DrawLength {
    Standard(Binary64),
    Amo(Binary64),
}

#[derive(Clone, Debug, PartialEq)]
pub struct Draw {
    pub brace_height: Binary64,
    pub draw_length: DrawLength,
}

#[derive(Clone, Debug, PartialEq)]
pub struct Line {
    pub length: Binary64,
}

#[derive(Clone, Debug, PartialEq)]
pub struct Arc {
    pub length: Binary64,
    pub radius: Binary64,
}

#[derive(Clone, Debug, PartialEq)]
pub struct Spiral {
    pub length: Binary64,
    pub radius_start: Binary64,
    pub radius_end: Binary64,
}

#[derive(Clone, Debug, PartialEq)]
pub struct Spline {
    pub points: Vec<[Binary64; 2]>,
}

#[derive(Clone, Debug, PartialEq)]
pub enum ProfileSegment {
    Line(Line),
    Arc(Arc),
    Spiral(Spiral),
    Spline(Spline),
}

/// The profile of the one limb half.
#[derive(Clone, Debug, PartialEq)]
pub struct Profile {
    pub segments: Vec<ProfileSegment>,
}

#[derive(Clone, Debug, PartialEq)]
pub enum LayerAlignment {
    SectionBack,
    SectionBelly,
    SectionCenter,
    LayerBack(String),
    LayerBelly(String),
    LayerCenter(String),
}

#[derive(Clone, Debug, PartialEq)]
pub struct Material {
    pub name: String,
    pub color: String,
    pub density: Binary64,
    pub youngs_modulus: Binary64,
    pub shear_modulus: Binary64,
    pub tensile_strength: Binary64,
    pub compressive_strength: Binary64,
    pub safety_margin: Binary64,
}

#[derive(Clone, Debug, PartialEq)]
pub struct Layer {
    pub name: String,
    pub material: String,
    pub height: Height,
}

/// The section of the one limb half and the materials.
#[derive(Clone, Debug, PartialEq)]
pub struct Section {
    pub alignment: LayerAlignment,
    pub width: Width,
    pub materials: Vec<Material>,
    pub layers: Vec<Layer>,
}

#[derive(Clone, Debug, PartialEq)]
pub enum ArrowMass {
    Mass(Binary64),
    MassPerForce(Binary64),
    MassPerEnergy(Binary64),
}

/// The masses of the one limb half: limb tip, string center and string tip.
#[derive(Clone, Debug, PartialEq)]
pub struct Masses {
    pub arrow: ArrowMass,
    pub limb_tip: Binary64,
    pub string_center: Binary64,
    pub string_tip: Binary64,
}

/// A bow model in version 4.
#[derive(Clone, Debug, PartialEq)]
pub struct BowModel {
    pub comment: String,
    pub settings: Settings,
    pub handle: Handle,
    pub draw: Draw,
    pub profile: Profile,
    pub section: Section,
    pub string: BowString,
    pub masses: Masses,
    pub damping: Damping,
}

// Migration to the latest version.

pub open spec fn segment_view(s: ProfileSegment) -> SegmentView {
    match s {
        ProfileSegment::Line(l) => SegmentView::Line(model::Line { length: l.length }),
        ProfileSegment::Arc(a) => SegmentView::Arc(model::Arc { length: a.length, radius: a.radius }),
        ProfileSegment::Spiral(p) => SegmentView::Spiral(
            model::Spiral { length: p.length, radius_start: p.radius_start, radius_end: p.radius_end },
        ),
        ProfileSegment::Spline(p) => SegmentView::Spline(p.points@),
    }
}

pub open spec fn alignment_of(a: LayerAlignment) -> model::LayerAlignment {
    match a {
        LayerAlignment::SectionBack => model::LayerAlignment::SectionBack,
        LayerAlignment::SectionBelly => model::LayerAlignment::SectionBelly,
        LayerAlignment::SectionCenter => model::LayerAlignment::SectionCenter,
        LayerAlignment::LayerBack(n) => model::LayerAlignment::LayerBack(n),
        LayerAlignment::LayerBelly(n) => model::LayerAlignment::LayerBelly(n),
        LayerAlignment::LayerCenter(n) => model::LayerAlignment::LayerCenter(n),
    }
}

pub open spec fn material_of(m: Material) -> model::Material {
    model::Material {
        name: m.name,
        color: m.color,
        density: m.density,
        youngs_modulus: m.youngs_modulus,
        shear_modulus: m.shear_modulus,
        tensile_strength: m.tensile_strength,
        compressive_strength: m.compressive_strength,
        safety_margin: m.safety_margin,
    }
}

pub open spec fn layer_view(l: Layer) -> LayerView {
    LayerView { name: l.name, material: l.material, height: l.height@ }
}

pub open spec fn settings_of(s: Settings) -> model::Settings {
    model::Settings {
        num_limb_elements: s.num_limb_elements,
        num_limb_eval_points: s.num_limb_eval_points,
        min_draw_resolution: s.min_draw_resolution,
        max_draw_resolution: s.max_draw_resolution,
        static_iteration_tolerance: s.static_iteration_tolerance,
        arrow_clamp_force: s.arrow_clamp_force,
        string_compression_factor: s.string_compression_factor,
        timespan_factor: s.timespan_factor,
        timeout_factor: s.timeout_factor,
        min_timestep: s.min_timestep,
        max_timestep: s.max_timestep,
        steps_per_period: s.steps_per_period,
        dynamic_iteration_tolerance: s.dynamic_iteration_tolerance,
    }
}

/// The limb section of the half, as it is given to both limbs.
pub open spec fn limb_section_view(s: Section) -> LimbSectionView {
    LimbSectionView {
        alignment: alignment_of(s.alignment),
        width: s.width@,
        layers: s.layers@.map_values(|l: Layer| layer_view(l)),
    }
}

/// The contents of the latest model that a version 4 model migrates to: the
/// profile and the limb section of the half on both limbs, the rigid handle
/// length halved into the two handle halves, a zero nock offset, the tip
/// masses on both sides and the string center mass at the nock; a version 4
/// file gives no symmetry flags, so none is set.
pub open spec fn migrated_view(m: BowModel) -> BowModelView {
    let segments = m.profile.segments@.map_values(|s: ProfileSegment| segment_view(s));
    BowModelView {
        comment: m.comment,
        settings: settings_of(m.settings),
        handle: match m.handle {
            Handle::Flexible => HandleView::Flexible,
            Handle::Rigid(h) => HandleView::Rigid(
                model::RigidHandle {
                    length_upper: h.length.halved(),
                    length_lower: h.length.halved(),
                    angle: h.angle,
                    pivot: h.pivot,
                },
            ),
        },
        draw: model::Draw {
            brace_height: m.draw.brace_height,
            draw_length: match m.draw.draw_length {
                DrawLength::Standard(v) => model::DrawLength::Standard(v),
                DrawLength::Amo(v) => model::DrawLength::Amo(v),
            },
            nock_offset: Binary64::zero_pattern(),
        },
        profile: ProfileView { upper: segments, lower: segments },
        section: SectionView {
            materials: m.section.materials@.map_values(|x: Material| material_of(x)),
            upper: limb_section_view(m.section),
            lower: limb_section_view(m.section),
        },
        string: m.string,
        masses: model::Masses {
            arrow: match m.masses.arrow {
                ArrowMass::Mass(v) => model::ArrowMass::Mass(v),
                ArrowMass::MassPerForce(v) => model::ArrowMass::MassPerForce(v),
                ArrowMass::MassPerEnergy(v) => model::ArrowMass::MassPerEnergy(v),
            },
            limb_tip_upper: m.masses.limb_tip,
            limb_tip_lower: m.masses.limb_tip,
            string_nock: m.masses.string_center,
            string_tip_upper: m.masses.string_tip,
            string_tip_lower: m.masses.string_tip,
        },
        damping: m.damping,
        symmetry: model::Symmetry::none_symmetric(),
    }
}

pub fn convert_v4_segment(s: &ProfileSegment) -> (r: model::ProfileSegment)
    ensures
        r@ == segment_view(*s),
{
    match s {
        ProfileSegment::Line(l) => model::ProfileSegment::Line(model::Line { length: l.length }),
        ProfileSegment::Arc(a) => model::ProfileSegment::Arc(
            model::Arc { length: a.length, radius: a.radius },
        ),
        ProfileSegment::Spiral(p) => model::ProfileSegment::Spiral(
            model::Spiral { length: p.length, radius_start: p.radius_start, radius_end: p.radius_end },
        ),
        ProfileSegment::Spline(p) => model::ProfileSegment::Spline(
            model::Spline { points: model::copy_points(&p.points) },
        ),
    }
}

pub fn convert_v4_alignment(a: &LayerAlignment) -> (r: model::LayerAlignment)
    ensures
        r == alignment_of(*a),
{
    match a {
        LayerAlignment::SectionBack => model::LayerAlignment::SectionBack,
        LayerAlignment::SectionBelly => model::LayerAlignment::SectionBelly,
        LayerAlignment::SectionCenter => model::LayerAlignment::SectionCenter,
        LayerAlignment::LayerBack(n) => model::LayerAlignment::LayerBack(n.clone()),
        LayerAlignment::LayerBelly(n) => model::LayerAlignment::LayerBelly(n.clone()),
        LayerAlignment::LayerCenter(n) => model::LayerAlignment::LayerCenter(n.clone()),
    }
}

pub fn convert_v4_material(m: &Material) -> (r: model::Material)
    ensures
        r == material_of(*m),
{
    model::Material {
        name: m.name.clone(),
        color: m.color.clone(),
        density: m.density,
        youngs_modulus: m.youngs_modulus,
        shear_modulus: m.shear_modulus,
        tensile_strength: m.tensile_strength,
        compressive_strength: m.compressive_strength,
        safety_margin: m.safety_margin,
    }
}

pub fn convert_v4_layer(l: &Layer) -> (r: model::Layer)
    ensures
        r@ == layer_view(*l),
{
    model::Layer { name: l.name.clone(), material: l.material.clone(), height: l.height.duplicate() }
}

fn convert_segments(segments: &Vec<ProfileSegment>) -> (r: Vec<model::ProfileSegment>)
    ensures
        model::segments_view(r@) == segments@.map_values(|s: ProfileSegment| segment_view(s)),
{
    let n = segments.len();
    let mut r: Vec<model::ProfileSegment> = Vec::new();
    let mut i: usize = 0;
    while i < n
        invariant
            n == segments@.len(),
            i <= n,
            r@.len() == i,
            forall|j: int| 0 <= j < i ==> (#[trigger] r@[j])@ == segment_view(segments@[j]),
        decreases n - i,
    {
        r.push(convert_v4_segment(&segments[i]));
        i = i + 1;
    }
    assert(model::segments_view(r@) =~= segments@.map_values(|s: ProfileSegment| segment_view(s)));
    r
}

fn convert_layers(layers: &Vec<Layer>) -> (r: Vec<model::Layer>)
    ensures
        model::layers_view(r@) == layers@.map_values(|l: Layer| layer_view(l)),
{
    let n = layers.len();
    let mut r: Vec<model::Layer> = Vec::new();
    let mut i: usize = 0;
    while i < n
        invariant
            n == layers@.len(),
            i <= n,
            r@.len() == i,
            forall|j: int| 0 <= j < i ==> (#[trigger] r@[j])@ == layer_view(layers@[j]),
        decreases n - i,
    {
        r.push(convert_v4_layer(&layers[i]));
        i = i + 1;
    }
    assert(model::layers_view(r@) =~= layers@.map_values(|l: Layer| layer_view(l)));
    r
}

fn convert_materials(materials: &Vec<Material>) -> (r: Vec<model::Material>)
    ensures
        r@ == materials@.map_values(|x: Material| material_of(x)),
{
    let n = materials.len();
    let mut r: Vec<model::Material> = Vec::new();
    let mut i: usize = 0;
    while i < n
        invariant
            n == materials@.len(),
            i <= n,
            r@.len() == i,
            forall|j: int| 0 <= j < i ==> #[trigger] r@[j] == material_of(materials@[j]),
        decreases n - i,
    {
        r.push(convert_v4_material(&materials[i]));
        i = i + 1;
    }
    assert(r@ =~= materials@.map_values(|x: Material| material_of(x)));
    r
}

impl model::BowModel {
    /// Migrates a version 4 model: the half is mirrored into both limbs.
    pub fn from_version4(m: BowModel) -> (r: model::BowModel)
        ensures
            r@ == migrated_view(m),
    {
        let segments = convert_segments(&m.profile.segments);
        let upper_section = model::LimbSection {
            alignment: convert_v4_alignment(&m.section.alignment),
            width: m.section.width.duplicate(),
            layers: convert_layers(&m.section.layers),
        };
        let lower_section = upper_section.duplicate();
        let materials = convert_materials(&m.section.materials);
        let section = model::Section { materials, upper: upper_section, lower: lower_section };
        let profile = model::Profile { upper: model::copy_segments(&segments), lower: segments };
        let handle = match &m.handle {
            Handle::Flexible => model::Handle::Flexible,
            Handle::Rigid(h) => model::Handle::Rigid(
                model::RigidHandle {
                    length_upper: h.length.half(),
                    length_lower: h.length.half(),
                    angle: h.angle,
                    pivot: h.pivot,
                },
            ),
        };
        let draw = model::Draw {
            brace_height: m.draw.brace_height,
            draw_length: match &m.draw.draw_length {
                DrawLength::Standard(v) => model::DrawLength::Standard(*v),
                DrawLength::Amo(v) => model::DrawLength::Amo(*v),
            },
            nock_offset: Binary64::zero(),
        };
        let masses = model::Masses {
            arrow: match &m.masses.arrow {
                ArrowMass::Mass(v) => model::ArrowMass::Mass(*v),
                ArrowMass::MassPerForce(v) => model::ArrowMass::MassPerForce(*v),
                ArrowMass::MassPerEnergy(v) => model::ArrowMass::MassPerEnergy(*v),
            },
            limb_tip_upper: m.masses.limb_tip,
            limb_tip_lower: m.masses.limb_tip,
            string_nock: m.masses.string_center,
            string_tip_upper: m.masses.string_tip,
            string_tip_lower: m.masses.string_tip,
        };
        let settings = model::Settings {
            num_limb_elements: m.settings.num_limb_elements,
            num_limb_eval_points: m.settings.num_limb_eval_points,
            min_draw_resolution: m.settings.min_draw_resolution,
            max_draw_resolution: m.settings.max_draw_resolution,
            static_iteration_tolerance: m.settings.static_iteration_tolerance,
            arrow_clamp_force: m.settings.arrow_clamp_force,
            string_compression_factor: m.settings.string_compression_factor,
            timespan_factor: m.settings.timespan_factor,
            timeout_factor: m.settings.timeout_factor,
            min_timestep: m.settings.min_timestep,
            max_timestep: m.settings.max_timestep,
            steps_per_period: m.settings.steps_per_period,
            dynamic_iteration_tolerance: m.settings.dynamic_iteration_tolerance,
        };
        model::BowModel {
            comment: m.comment,
            settings,
            handle,
            draw,
            profile,
            section,
            string: m.string,
            masses,
            damping: m.damping,
            symmetry: model::Symmetry::default(),
        }
    }
}


/// Migrating a version 4 model gives a symmetric bow: both limbs get the same
/// profile, the same section and the same tip masses, the nock sits at the
/// center, and a rigid handle is split into two equal halves whose binary64
/// sum (the handle's total length) is the old handle length whenever halving
/// it is exact.
pub proof fn lemma_migration_is_symmetric(m: BowModel)
    ensures
        ({
            let v = migrated_view(m);
            &&& v.profile.upper == v.profile.lower
            &&& v.section.upper == v.section.lower
            &&& v.masses.limb_tip_upper == v.masses.limb_tip_lower
            &&& v.masses.string_tip_upper == v.masses.string_tip_lower
            &&& v.draw.nock_offset == Binary64::zero_pattern()
            &&& v.handle matches HandleView::Rigid(h) ==> h.length_upper == h.length_lower
        }),
        m.handle matches Handle::Rigid(h) ==> h.length.infinite() || (h.length.finite()
            && crate::binary64::magnitude_value(h.length.magnitude()) % 2 == 0) ==> {
            &&& migrated_view(m).handle matches HandleView::Rigid(n)
            &&& n.length_upper.sum(n.length_lower) == h.length
        },
{
    if let Handle::Rigid(h) = m.handle {
        if h.length.infinite() || (h.length.finite() && crate::binary64::magnitude_value(
            h.length.magnitude(),
        ) % 2 == 0) {
            crate::arithmetic::lemma_half_sums_back(h.length);
        }
    }
}

/// What a version 4 model keeps through the migration, field by field: the
/// comment, every setting, the brace height and the draw length (of the same
/// kind), the arrow mass (of the same kind), the limb tip mass on both limb
/// tips, the string center mass at the nock, the string tip mass on both
/// string ends, string and damping as they are, the handle's angle and pivot
/// with each half half the length, and on both limbs the profile segments,
/// the width, the alignment and the layers, in order, with the materials
/// unchanged.
pub proof fn lemma_migration_keeps_the_model(m: BowModel)
    ensures
        ({
            let v = migrated_view(m);
            &&& v.comment == m.comment
            &&& v.settings.num_limb_elements == m.settings.num_limb_elements
            &&& v.settings.num_limb_eval_points == m.settings.num_limb_eval_points
            &&& v.settings.min_draw_resolution == m.settings.min_draw_resolution
            &&& v.settings.max_draw_resolution == m.settings.max_draw_resolution
            &&& v.settings.static_iteration_tolerance == m.settings.static_iteration_tolerance
            &&& v.settings.arrow_clamp_force == m.settings.arrow_clamp_force
            &&& v.settings.string_compression_factor == m.settings.string_compression_factor
            &&& v.settings.timespan_factor == m.settings.timespan_factor
            &&& v.settings.timeout_factor == m.settings.timeout_factor
            &&& v.settings.min_timestep == m.settings.min_timestep
            &&& v.settings.max_timestep == m.settings.max_timestep
            &&& v.settings.steps_per_period == m.settings.steps_per_period
            &&& v.settings.dynamic_iteration_tolerance == m.settings.dynamic_iteration_tolerance
            &&& v.draw.brace_height == m.draw.brace_height
            &&& (m.draw.draw_length matches DrawLength::Standard(x) ==> v.draw.draw_length == model::DrawLength::Standard(x))
            &&& (m.draw.draw_length matches DrawLength::Amo(x) ==> v.draw.draw_length == model::DrawLength::Amo(x))
            &&& (m.masses.arrow matches ArrowMass::Mass(x) ==> v.masses.arrow == model::ArrowMass::Mass(x))
            &&& (m.masses.arrow matches ArrowMass::MassPerForce(x) ==> v.masses.arrow == model::ArrowMass::MassPerForce(x))
            &&& (m.masses.arrow matches ArrowMass::MassPerEnergy(x) ==> v.masses.arrow == model::ArrowMass::MassPerEnergy(x))
            &&& v.masses.limb_tip_upper == m.masses.limb_tip
            &&& v.masses.limb_tip_lower == m.masses.limb_tip
            &&& v.masses.string_nock == m.masses.string_center
            &&& v.masses.string_tip_upper == m.masses.string_tip
            &&& v.masses.string_tip_lower == m.masses.string_tip
            &&& v.string == m.string
            &&& v.damping.damping_ratio_limbs == m.damping.damping_ratio_limbs
            &&& v.damping.damping_ratio_string == m.damping.damping_ratio_string
            &&& (m.handle is Flexible ==> v.handle is Flexible)
            &&& (m.handle matches Handle::Rigid(h) ==> v.handle matches HandleView::Rigid(n) && n.angle == h.angle
                && n.pivot == h.pivot && n.length_upper == h.length.halved() && n.length_lower == h.length.halved())
            &&& v.profile.upper.len() == m.profile.segments@.len()
            &&& v.profile.lower.len() == m.profile.segments@.len()
            &&& forall|i: int| 0 <= i < m.profile.segments@.len() ==> {
                let u = v.profile.upper[i];
                &&& u == v.profile.lower[i]
                &&& (#[trigger] m.profile.segments@[i] matches ProfileSegment::Line(l) ==> u == SegmentView::Line(model::Line { length: l.length }))
                &&& (m.profile.segments@[i] matches ProfileSegment::Arc(a) ==> u == SegmentView::Arc(model::Arc { length: a.length, radius: a.radius }))
                &&& (m.profile.segments@[i] matches ProfileSegment::Spiral(p) ==> u == SegmentView::Spiral(model::Spiral { length: p.length, radius_start: p.radius_start, radius_end: p.radius_end }))
                &&& (m.profile.segments@[i] matches ProfileSegment::Spline(p) ==> u == SegmentView::Spline(p.points@))
            }
            &&& v.section.materials.len() == m.section.materials@.len()
            &&& forall|i: int| 0 <= i < m.section.materials@.len() ==> {
                let x = #[trigger] m.section.materials@[i];
                &&& v.section.materials[i].name == x.name
                &&& v.section.materials[i].color == x.color
                &&& v.section.materials[i].density == x.density
                &&& v.section.materials[i].youngs_modulus == x.youngs_modulus
                &&& v.section.materials[i].shear_modulus == x.shear_modulus
                &&& v.section.materials[i].tensile_strength == x.tensile_strength
                &&& v.section.materials[i].compressive_strength == x.compressive_strength
                &&& v.section.materials[i].safety_margin == x.safety_margin
            }
            &&& v.section.upper == v.section.lower
            &&& v.section.upper.width == m.section.width@
            &&& (m.section.alignment is SectionBack ==> v.section.upper.alignment is SectionBack)
            &&& (m.section.alignment is SectionBelly ==> v.section.upper.alignment is SectionBelly)
            &&& (m.section.alignment is SectionCenter ==> v.section.upper.alignment is SectionCenter)
            &&& (m.section.alignment matches LayerAlignment::LayerBack(n) ==> v.section.upper.alignment == model::LayerAlignment::LayerBack(n))
            &&& (m.section.alignment matches LayerAlignment::LayerBelly(n) ==> v.section.upper.alignment == model::LayerAlignment::LayerBelly(n))
            &&& (m.section.alignment matches LayerAlignment::LayerCenter(n) ==> v.section.upper.alignment == model::LayerAlignment::LayerCenter(n))
            &&& v.section.upper.layers.len() == m.section.layers@.len()
            &&& forall|i: int| 0 <= i < m.section.layers@.len() ==> {
                let l = #[trigger] m.section.layers@[i];
                &&& v.section.upper.layers[i].name == l.name
                &&& v.section.upper.layers[i].material == l.material
                &&& v.section.upper.layers[i].height == l.height@
            }
        }),
{
}

} // verus!
