//! What makes each part of a bow model valid, stated field by field.
//!
//! Each validation reports the first violation it finds; the laws here say,
//! independently of the order of the checks, which values a valid part has,
//! and for the masses and the materials which value an error reports.
use vstd::prelude::*;
use crate::binary64::Binary64;
use crate::errors::ModelError;
use crate::model::{
    ArrowMass, BowString, Damping, Draw, Handle, Layer, LayerAlignment, LimbSection, Masses,
    Material, Profile, ProfileSegment, Section, Settings, valid_height_points, valid_width_points,
    lemma_height_validation_ok, lemma_width_validation_ok,
};
use crate::validation::{is_hex_color, is_valid_name, lemma_first_error_ok_all};

verus! {

/// The value of an arrow mass, whatever its kind.
pub open spec fn arrow_value(a: ArrowMass) -> Binary64 {
    match a {
        ArrowMass::Mass(v) => v,
        ArrowMass::MassPerForce(v) => v,
        ArrowMass::MassPerEnergy(v) => v,
    }
}

/// Masses are valid exactly when the arrow mass is finite and above zero and
/// each of the five point masses (both limb tips, the nock, both string
/// ends) is finite and zero or above. An error names a failing value: a
/// limb tip error carries a limb tip mass that is negative or not finite, a
/// string tip error such a string tip mass. With a valid arrow and upper
/// limb tip, a bad lower limb tip is what is reported.
pub proof fn lemma_masses_valid(m: Masses)
    ensures
        m.validation() is Ok <==> {
            &&& arrow_value(m.arrow).positive_finite()
            &&& m.limb_tip_upper.nonneg_finite()
            &&& m.limb_tip_lower.nonneg_finite()
            &&& m.string_nock.nonneg_finite()
            &&& m.string_tip_upper.nonneg_finite()
            &&& m.string_tip_lower.nonneg_finite()
        },
        m.validation() matches Err(e) ==> match e {
            ModelError::MassesInvalidArrowMass(v) => m.arrow == ArrowMass::Mass(v)
                && !v.positive_finite(),
            ModelError::MassesInvalidArrowMassPerForce(v) => m.arrow == ArrowMass::MassPerForce(v)
                && !v.positive_finite(),
            ModelError::MassesInvalidArrowMassPerEnergy(v) => m.arrow == ArrowMass::MassPerEnergy(v)
                && !v.positive_finite(),
            ModelError::MassesInvalidLimbTipMass(v) => !v.nonneg_finite() && (v == m.limb_tip_upper
                || v == m.limb_tip_lower),
            ModelError::MassesInvalidStringCenterMass(v) => !v.nonneg_finite() && v == m.string_nock,
            ModelError::MassesInvalidStringTipMass(v) => !v.nonneg_finite() && (v
                == m.string_tip_upper || v == m.string_tip_lower),
            _ => false,
        },
        arrow_value(m.arrow).positive_finite() && m.limb_tip_upper.nonneg_finite()
            && !m.limb_tip_lower.nonneg_finite() ==> m.validation() == Err::<(), ModelError>(
            ModelError::MassesInvalidLimbTipMass(m.limb_tip_lower),
        ),
{
}

/// A material is valid exactly when its name is not empty, its color is
/// written `#RRGGBB`, density, Young's modulus and shear modulus are finite
/// and above zero, both strengths are finite and zero or above, and the
/// safety margin is finite from 0 to 1. An error names the material and a
/// failing value; with a valid name, color and density, a Young's modulus
/// that is not finite and above zero is what is reported.
pub proof fn lemma_material_valid(m: Material)
    ensures
        m.validation() is Ok <==> {
            &&& is_valid_name(m.name@)
            &&& is_hex_color(m.color@)
            &&& m.density.positive_finite()
            &&& m.youngs_modulus.positive_finite()
            &&& m.shear_modulus.positive_finite()
            &&& m.tensile_strength.nonneg_finite()
            &&& m.compressive_strength.nonneg_finite()
            &&& m.safety_margin.finite_within(Binary64::zero_pattern(), Binary64::one_pattern())
        },
        m.validation() matches Err(e) ==> match e {
            ModelError::MaterialInvalidName(n) => n == m.name && !is_valid_name(n@),
            ModelError::MaterialInvalidColor(n, c) => n == m.name && c == m.color && !is_hex_color(
                c@,
            ),
            ModelError::MaterialInvalidDensity(n, v) => n == m.name && v == m.density
                && !v.positive_finite(),
            ModelError::MaterialInvalidYoungsModulus(n, v) => n == m.name && v == m.youngs_modulus
                && !v.positive_finite(),
            ModelError::MaterialInvalidShearModulus(n, v) => n == m.name && v == m.shear_modulus
                && !v.positive_finite(),
            ModelError::MaterialInvalidTensileStrength(n, v) => n == m.name && v
                == m.tensile_strength && !v.nonneg_finite(),
            ModelError::MaterialInvalidCompressiveStrength(n, v) => n == m.name && v
                == m.compressive_strength && !v.nonneg_finite(),
            ModelError::MaterialInvalidSafetyMargin(n, v) => n == m.name && v == m.safety_margin
                && !v.finite_within(Binary64::zero_pattern(), Binary64::one_pattern()),
            _ => false,
        },
        is_valid_name(m.name@) && is_hex_color(m.color@) && m.density.positive_finite()
            && !m.youngs_modulus.positive_finite() ==> m.validation() == Err::<(), ModelError>(
            ModelError::MaterialInvalidYoungsModulus(m.name, m.youngs_modulus),
        ),
{
}

/// The string is valid exactly when it has strands and its strand density
/// and stiffness are finite and above zero.
pub proof fn lemma_string_valid(s: BowString)
    ensures
        s.validation() is Ok <==> s.n_strands > 0 && s.strand_density.positive_finite()
            && s.strand_stiffness.positive_finite(),
{
}

/// The damping is valid exactly when both ratios are finite from 0 to 1.
pub proof fn lemma_damping_valid(d: Damping)
    ensures
        d.validation() is Ok <==> d.damping_ratio_limbs.finite_within(
            Binary64::zero_pattern(),
            Binary64::one_pattern(),
        ) && d.damping_ratio_string.finite_within(Binary64::zero_pattern(), Binary64::one_pattern()),
{
}

/// The draw is valid exactly when the brace height is finite and above
/// zero, the draw length measured from the pivot is finite and above the
/// brace height, and the nock offset is finite.
pub proof fn lemma_draw_valid(d: Draw)
    ensures
        d.validation() is Ok <==> {
            &&& d.brace_height.positive_finite()
            &&& d.draw_length.measured_from_pivot().finite()
            &&& d.brace_height.less_than(d.draw_length.measured_from_pivot())
            &&& d.nock_offset.finite()
        },
{
}

/// The settings are valid exactly when every count is above zero (at least
/// two evaluation points), both tolerances, the compression factor and both
/// time steps are finite and above zero, the clamp force is finite and zero
/// or above, and the time span and time out factors are finite and at least
/// 1.
pub proof fn lemma_settings_valid(s: Settings)
    ensures
        s.validation() is Ok <==> {
            &&& s.num_limb_elements > 0
            &&& s.num_limb_eval_points >= 2
            &&& s.min_draw_resolution > 0
            &&& s.max_draw_resolution > 0
            &&& s.steps_per_period > 0
            &&& s.static_iteration_tolerance.positive_finite()
            &&& s.dynamic_iteration_tolerance.positive_finite()
            &&& s.string_compression_factor.positive_finite()
            &&& s.min_timestep.positive_finite()
            &&& s.max_timestep.positive_finite()
            &&& s.arrow_clamp_force.nonneg_finite()
            &&& s.timespan_factor.finite() && Binary64::one_pattern().at_most(s.timespan_factor)
            &&& s.timeout_factor.finite() && Binary64::one_pattern().at_most(s.timeout_factor)
        },
{
}

/// A profile segment is valid exactly when its length is finite and above
/// zero and its radii are finite (lines, arcs, spirals), or when it has at
/// least two points, all with finite coordinates (splines); where it stands
/// in the profile does not matter.
pub proof fn lemma_segment_valid(s: ProfileSegment, index: usize)
    ensures
        s.validation(index) is Ok <==> match s {
            ProfileSegment::Line(l) => l.length.positive_finite(),
            ProfileSegment::Arc(a) => a.length.positive_finite() && a.radius.finite(),
            ProfileSegment::Spiral(p) => p.length.positive_finite() && p.radius_start.finite()
                && p.radius_end.finite(),
            ProfileSegment::Spline(p) => p.points@.len() >= 2 && forall|i: int|
                0 <= i < p.points@.len() ==> (#[trigger] p.points@[i])[0].finite()
                    && p.points@[i][1].finite(),
        },
{
    if let ProfileSegment::Spline(p) = s {
        let pts = p.points@;
        let bad = |i: int| crate::model::bad_spline_point(pts[i]);
        crate::validation::lemma_first_index_found(bad, 0, pts.len() as int);
        if s.validation(index) is Ok {
            crate::validation::lemma_first_index_none_all(bad, 0, pts.len() as int);
            assert forall|i: int| 0 <= i < pts.len() implies (#[trigger] pts[i])[0].finite()
                && pts[i][1].finite() by {
                assert(!bad(i));
            }
        }
        if pts.len() >= 2 && forall|i: int| 0 <= i < pts.len() ==> (#[trigger] pts[i])[0].finite()
            && pts[i][1].finite() {
            assert forall|j: int| 0 <= j < pts.len() implies !#[trigger] bad(j) by {
                assert(pts[j][0].finite() && pts[j][1].finite());
            }
            crate::validation::lemma_first_index_none(bad, 0, pts.len() as int);
        }
    }
}

/// A layer is valid exactly when its name and its material name are not
/// empty and its height distribution is valid.
pub proof fn lemma_layer_valid(l: Layer)
    ensures
        l.validation() is Ok <==> is_valid_name(l.name@) && is_valid_name(l.material@)
            && valid_height_points(l.height@),
{
    lemma_height_validation_ok(l.height@, l.name);
}

/// A limb section is valid exactly when a layer named by its alignment has a
/// non-empty name, its width is valid and every one of its layers is.
pub proof fn lemma_limb_section_valid(s: LimbSection)
    ensures
        s.validation() is Ok <==> {
            &&& match s.alignment {
                LayerAlignment::LayerBack(n) | LayerAlignment::LayerBelly(n)
                | LayerAlignment::LayerCenter(n) => is_valid_name(n@),
                _ => true,
            }
            &&& valid_width_points(s.width@)
            &&& forall|i: int| 0 <= i < s.layers@.len() ==> (#[trigger] s.layers@[i]).validation() is Ok
        },
{
    lemma_width_validation_ok(s.width@);
    let c = |i: int| s.layers@[i].validation();
    lemma_first_error_ok_all(s.layers@.len() as int, c);
    if crate::validation::first_error(s.layers@.len() as int, c) is Ok {
        assert forall|i: int| 0 <= i < s.layers@.len() as int implies (s.layers@[i]).validation() is Ok by {
            assert(c(i) is Ok);
        }
    }
    if forall|i: int| 0 <= i < s.layers@.len() as int ==> (#[trigger] s.layers@[i]).validation() is Ok {
        assert forall|j: int| 0 <= j < s.layers@.len() as int implies #[trigger] c(j) is Ok by {
            assert((s.layers@[j]).validation() is Ok);
        }
    }
}

/// A section is valid exactly when every material and both limb sections
/// are.
pub proof fn lemma_section_valid(s: Section)
    ensures
        s.validation() is Ok <==> {
            &&& forall|i: int| 0 <= i < s.materials@.len() ==> (#[trigger] s.materials@[i]).validation() is Ok
            &&& s.upper.validation() is Ok
            &&& s.lower.validation() is Ok
        },
{
    let c = |i: int| s.materials@[i].validation();
    lemma_first_error_ok_all(s.materials@.len() as int, c);
    if crate::validation::first_error(s.materials@.len() as int, c) is Ok {
        assert forall|i: int| 0 <= i < s.materials@.len() as int implies (s.materials@[i]).validation() is Ok by {
            assert(c(i) is Ok);
        }
    }
    if forall|i: int| 0 <= i < s.materials@.len() as int ==> (#[trigger] s.materials@[i]).validation() is Ok {
        assert forall|j: int| 0 <= j < s.materials@.len() as int implies #[trigger] c(j) is Ok by {
            assert((s.materials@[j]).validation() is Ok);
        }
    }
}

/// A profile is valid exactly when every segment of both limbs is.
pub proof fn lemma_profile_valid(p: Profile)
    ensures
        p.validation() is Ok <==> {
            &&& forall|i: int| 0 <= i < p.upper@.len() ==> (#[trigger] p.upper@[i]).validation(i as usize) is Ok
            &&& forall|i: int| 0 <= i < p.lower@.len() ==> (#[trigger] p.lower@[i]).validation(i as usize) is Ok
        },
{
    {
    let c = |i: int| p.upper@[i].validation(i as usize);
    lemma_first_error_ok_all(p.upper@.len() as int, c);
    if crate::validation::first_error(p.upper@.len() as int, c) is Ok {
        assert forall|i: int| 0 <= i < p.upper@.len() as int implies (p.upper@[i]).validation(i as usize) is Ok by {
            assert(c(i) is Ok);
        }
    }
    if forall|i: int| 0 <= i < p.upper@.len() as int ==> (#[trigger] p.upper@[i]).validation(i as usize) is Ok {
        assert forall|j: int| 0 <= j < p.upper@.len() as int implies #[trigger] c(j) is Ok by {
            assert((p.upper@[j]).validation(j as usize) is Ok);
        }
    }
    }
    {
    let d = |i: int| p.lower@[i].validation(i as usize);
    lemma_first_error_ok_all(p.lower@.len() as int, d);
    if crate::validation::first_error(p.lower@.len() as int, d) is Ok {
        assert forall|i: int| 0 <= i < p.lower@.len() as int implies (p.lower@[i]).validation(i as usize) is Ok by {
            assert(d(i) is Ok);
        }
    }
    if forall|i: int| 0 <= i < p.lower@.len() as int ==> (#[trigger] p.lower@[i]).validation(i as usize) is Ok {
        assert forall|j: int| 0 <= j < p.lower@.len() as int implies #[trigger] d(j) is Ok by {
            assert((p.lower@[j]).validation(j as usize) is Ok);
        }
    }
    }
}

/// A handle is valid exactly when it is flexible; or rigid with finite
/// lengths zero or above and a finite angle and pivot; or a beam with finite
/// lengths above zero, a finite angle and pivot, elements on both halves and
/// a valid section.
pub proof fn lemma_handle_valid(h: Handle)
    ensures
        h.validation() is Ok <==> match h {
            Handle::Flexible => true,
            Handle::Rigid(r) => r.length_upper.nonneg_finite() && r.length_lower.nonneg_finite()
                && r.angle.finite() && r.pivot.finite(),
            Handle::Beam(b) => b.length_upper.positive_finite() && b.length_lower.positive_finite()
                && b.angle.finite() && b.pivot.finite() && b.n_elements_upper > 0
                && b.n_elements_lower > 0 && b.section.validation() is Ok,
        },
{
}

} // verus!
