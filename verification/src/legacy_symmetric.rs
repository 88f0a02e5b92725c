//! The single-limb ("symmetric") schema of VirtualBow 0.10: a
//! `dimensions` block in place of handle and draw, one section and one
//! profile for one limb half, single-limb point masses. It shares the
//! version tag "0.10.0" with version 4 and migrates straight to the latest
//! version by mirroring the limb into both halves.
use vstd::prelude::*;
use crate::binary64::Binary64;
use crate::model;
use crate::model::{
    BowModelView, BowString, Damping, HandleView, LimbSectionView, ProfileView, SectionView,
    Width,
};

verus! {

/// The tolerance given to the iteration tolerances that the schema lacks,
/// 1e-6 (as in the latest default settings).
pub fn default_iteration_tolerance() -> (r: Binary64)
    ensures
        r == (Binary64 { bits: 0x3eb0_c6f7_a0b5_ed8d }),
{
    Binary64::from_bits(0x3eb0_c6f7_a0b5_ed8d)
}

#[derive(Clone, Debug, PartialEq)]
pub struct Settings {
    pub num_limb_elements: usize,
    pub num_limb_eval_points: usize,
    pub min_draw_resolution: usize,
    pub max_draw_resolution: usize,
    pub static_iteration_tolerance: Binary64,
    pub arrow_clamp_force: Binary64,
    pub string_compression_factor: Binary64,
    pub timespan_factor: Binary64,
    pub timeout_factor: Binary64,
    pub min_timestep: Binary64,
    pub max_timestep: Binary64,
    pub steps_per_period: usize,
    pub dynamic_iteration_tolerance: Binary64,
}

#[derive(Clone, Debug, PartialEq)]
pub struct Dimensions {
    pub handle_reference: String,
    pub handle_angle: Binary64,
    pub handle_length: Binary64,
    pub handle_offset: Binary64,
    pub brace_height: Binary64,
    pub draw_length: Binary64,
}

#[derive(Clone, Debug, PartialEq)]
pub struct Profile {
    pub segments: Vec<model::ProfileSegment>,
}

#[derive(Clone, Debug, PartialEq)]
pub struct Section {
    pub alignment: model::LayerAlignment,
    pub width: Width,
    pub materials: Vec<model::Material>,
    pub layers: Vec<model::Layer>,
}

/// Single-limb point masses: the arrow, the limb tip, the string center and
/// the string tip.
#[derive(Clone, Debug, PartialEq)]
pub struct Masses {
    pub arrow: Binary64,
    pub limb_tip: Binary64,
    pub string_center: Binary64,
    pub string_tip: Binary64,
}

#[derive(Clone, Debug, PartialEq)]
pub struct BowModel {
    pub comment: String,
    pub settings: Settings,
    pub dimensions: Dimensions,
    pub profile: Profile,
    pub section: Section,
    pub string: BowString,
    pub masses: Masses,
    pub damping: Damping,
}

/// The limb section, as it is given to both limbs.
pub open spec fn limb_section_view(s: Section) -> LimbSectionView {
    LimbSectionView {
        alignment: s.alignment,
        width: s.width@,
        layers: model::layers_view(s.layers@),
    }
}

/// The contents of the latest model that a legacy model migrates to: the
/// profile and section of the limb on both limbs, a rigid handle whose
/// halves are each half the handle length, with the handle angle and the
/// handle offset as pivot, a standard draw length and zero nock offset, the
/// arrow mass as an absolute mass, the tip masses on both sides and the
/// string center mass at the nock, and every symmetry flag set.
pub open spec fn migrated_view(m: BowModel) -> BowModelView {
    let segments = model::segments_view(m.profile.segments@);
    BowModelView {
        comment: m.comment,
        settings: model::Settings {
            num_limb_elements: m.settings.num_limb_elements,
            num_limb_eval_points: m.settings.num_limb_eval_points,
            min_draw_resolution: m.settings.min_draw_resolution,
            max_draw_resolution: m.settings.max_draw_resolution,
            static_iteration_tolerance: m.settings.static_iteration_tolerance,
            arrow_clamp_force: m.settings.arrow_clamp_force,
            string_compression_factor: m.settings.string_compression_factor,
            timespan_factor: m.settings.timespan_factor,
            timeout_factor: m.settings.timeout_factor,
            min_timestep: m.settings.min_timestep,
            max_timestep: m.settings.max_timestep,
            steps_per_period: m.settings.steps_per_period,
            dynamic_iteration_tolerance: m.settings.dynamic_iteration_tolerance,
        },
        handle: HandleView::Rigid(
            model::RigidHandle {
                length_upper: m.dimensions.handle_length.halved(),
                length_lower: m.dimensions.handle_length.halved(),
                angle: m.dimensions.handle_angle,
                pivot: m.dimensions.handle_offset,
            },
        ),
        draw: model::Draw {
            brace_height: m.dimensions.brace_height,
            draw_length: model::DrawLength::Standard(m.dimensions.draw_length),
            nock_offset: Binary64::zero_pattern(),
        },
        profile: ProfileView { upper: segments, lower: segments },
        section: SectionView {
            materials: m.section.materials@,
            upper: limb_section_view(m.section),
            lower: limb_section_view(m.section),
        },
        string: m.string,
        masses: model::Masses {
            arrow: model::ArrowMass::Mass(m.masses.arrow),
            limb_tip_upper: m.masses.limb_tip,
            limb_tip_lower: m.masses.limb_tip,
            string_nock: m.masses.string_center,
            string_tip_upper: m.masses.string_tip,
            string_tip_lower: m.masses.string_tip,
        },
        damping: m.damping,
        symmetry: model::Symmetry::all_symmetric(),
    }
}

impl model::BowModel {
    /// Migrates a legacy single-limb model: the limb is mirrored into both
    /// halves.
    pub fn from_legacy_symmetric(m: BowModel) -> (r: model::BowModel)
        ensures
            r@ == migrated_view(m),
    {
        let BowModel { comment, settings, dimensions, profile, section, string, masses, damping } =
            m;
        let limb_section = model::LimbSection {
            alignment: section.alignment,
            width: section.width,
            layers: section.layers,
        };
        let handle_half = dimensions.handle_length.half();
        model::BowModel {
            comment,
            settings: model::Settings {
                num_limb_elements: settings.num_limb_elements,
                num_limb_eval_points: settings.num_limb_eval_points,
                min_draw_resolution: settings.min_draw_resolution,
                max_draw_resolution: settings.max_draw_resolution,
                static_iteration_tolerance: settings.static_iteration_tolerance,
                arrow_clamp_force: settings.arrow_clamp_force,
                string_compression_factor: settings.string_compression_factor,
                timespan_factor: settings.timespan_factor,
                timeout_factor: settings.timeout_factor,
                min_timestep: settings.min_timestep,
                max_timestep: settings.max_timestep,
                steps_per_period: settings.steps_per_period,
                dynamic_iteration_tolerance: settings.dynamic_iteration_tolerance,
            },
            handle: model::Handle::Rigid(
                model::RigidHandle {
                    length_upper: handle_half,
                    length_lower: handle_half,
                    angle: dimensions.handle_angle,
                    pivot: dimensions.handle_offset,
                },
            ),
            draw: model::Draw {
                brace_height: dimensions.brace_height,
                draw_length: model::DrawLength::Standard(dimensions.draw_length),
                nock_offset: Binary64::zero(),
            },
            profile: model::Profile {
                upper: model::copy_segments(&profile.segments),
                lower: profile.segments,
            },
            section: model::Section {
                materials: section.materials,
                upper: limb_section.duplicate(),
                lower: limb_section,
            },
            string,
            masses: model::Masses {
                arrow: model::ArrowMass::Mass(masses.arrow),
                limb_tip_upper: masses.limb_tip,
                limb_tip_lower: masses.limb_tip,
                string_nock: masses.string_center,
                string_tip_upper: masses.string_tip,
                string_tip_lower: masses.string_tip,
            },
            damping,
            symmetry: model::Symmetry { profile: true, width: true, layers: true },
        }
    }
}


/// Migrating a legacy single-limb model gives a symmetric bow: the limb is
/// mirrored into both halves (same profile, same section, same tip masses),
/// profile, width and layers are flagged symmetric, the nock sits at the
/// center, and the handle is split into two equal
/// halves whose binary64 sum (the handle's total length) is the old handle
/// length whenever halving it is exact.
pub proof fn lemma_migration_is_symmetric(m: BowModel)
    ensures
        ({
            let v = migrated_view(m);
            &&& v.profile.upper == v.profile.lower
            &&& v.section.upper == v.section.lower
            &&& v.masses.limb_tip_upper == v.masses.limb_tip_lower
            &&& v.masses.string_tip_upper == v.masses.string_tip_lower
            &&& v.draw.nock_offset == Binary64::zero_pattern()
            &&& v.symmetry == (model::Symmetry { profile: true, width: true, layers: true })
            &&& v.handle matches HandleView::Rigid(h) && h.length_upper == h.length_lower
        }),
        m.dimensions.handle_length.infinite() || (m.dimensions.handle_length.finite()
            && crate::binary64::magnitude_value(m.dimensions.handle_length.magnitude()) % 2 == 0)
            ==> {
            &&& migrated_view(m).handle matches HandleView::Rigid(n)
            &&& n.length_upper.sum(n.length_lower) == m.dimensions.handle_length
        },
{
    let l = m.dimensions.handle_length;
    if l.infinite() || (l.finite() && crate::binary64::magnitude_value(l.magnitude()) % 2 == 0) {
        crate::arithmetic::lemma_half_sums_back(l);
    }
}

/// What a legacy model keeps through the migration, field by field: the
/// comment, every setting, the handle angle and offset as angle and pivot
/// of a rigid handle whose halves are each half the handle length, the brace
/// height, the draw length as a standard draw length, the arrow mass as an
/// absolute mass, the limb tip mass on both limb tips, the string center
/// mass at the nock, the string tip mass on both string ends, string and
/// damping as they are, and on both limbs the profile segments, the width,
/// the alignment and the layers, with the materials unchanged.
pub proof fn lemma_migration_keeps_the_model(m: BowModel)
    ensures
        ({
            let v = migrated_view(m);
            &&& v.comment == m.comment
            &&& v.settings.num_limb_elements == m.settings.num_limb_elements
            &&& v.settings.num_limb_eval_points == m.settings.num_limb_eval_points
            &&& v.settings.min_draw_resolution == m.settings.min_draw_resolution
            &&& v.settings.max_draw_resolution == m.settings.max_draw_resolution
            &&& v.settings.static_iteration_tolerance == m.settings.static_iteration_tolerance
            &&& v.settings.arrow_clamp_force == m.settings.arrow_clamp_force
            &&& v.settings.string_compression_factor == m.settings.string_compression_factor
            &&& v.settings.timespan_factor == m.settings.timespan_factor
            &&& v.settings.timeout_factor == m.settings.timeout_factor
            &&& v.settings.min_timestep == m.settings.min_timestep
            &&& v.settings.max_timestep == m.settings.max_timestep
            &&& v.settings.steps_per_period == m.settings.steps_per_period
            &&& v.settings.dynamic_iteration_tolerance == m.settings.dynamic_iteration_tolerance
            &&& v.handle matches HandleView::Rigid(n) && n.angle == m.dimensions.handle_angle
                && n.pivot == m.dimensions.handle_offset
                && n.length_upper == m.dimensions.handle_length.halved()
                && n.length_lower == m.dimensions.handle_length.halved()
            &&& v.draw.brace_height == m.dimensions.brace_height
            &&& v.draw.draw_length == model::DrawLength::Standard(m.dimensions.draw_length)
            &&& v.masses.arrow == model::ArrowMass::Mass(m.masses.arrow)
            &&& v.masses.limb_tip_upper == m.masses.limb_tip
            &&& v.masses.limb_tip_lower == m.masses.limb_tip
            &&& v.masses.string_nock == m.masses.string_center
            &&& v.masses.string_tip_upper == m.masses.string_tip
            &&& v.masses.string_tip_lower == m.masses.string_tip
            &&& v.string == m.string
            &&& v.damping.damping_ratio_limbs == m.damping.damping_ratio_limbs
            &&& v.damping.damping_ratio_string == m.damping.damping_ratio_string
            &&& v.profile.upper.len() == m.profile.segments@.len()
            &&& v.profile.lower.len() == m.profile.segments@.len()
            &&& forall|i: int| 0 <= i < m.profile.segments@.len() ==> v.profile.upper[i]
                == (#[trigger] m.profile.segments@[i])@ && v.profile.lower[i] == m.profile.segments@[i]@
            &&& v.section.materials == m.section.materials@
            &&& v.section.upper == v.section.lower
            &&& v.section.upper.alignment == m.section.alignment
            &&& v.section.upper.width == m.section.width@
            &&& v.section.upper.layers.len() == m.section.layers@.len()
            &&& forall|i: int| 0 <= i < m.section.layers@.len() ==> v.section.upper.layers[i]
                == (#[trigger] m.section.layers@[i])@
        }),
{
}

} // verus!
