//! The errors that validating or converting a bow model can give.
use vstd::prelude::*;
use crate::binary64::Binary64;

verus! {

/// Why a bow model was rejected. Real-valued payloads are the offending
/// numbers, names are those of the material or layer concerned, indices are
/// those of the profile segment concerned.
#[derive(Clone, Debug, PartialEq)]
pub enum ModelError {
    InputVersionUnsupported,
    InputVersionUnrecognized,

    SettingsInvalidLimbElements(usize),
    SettingsInvalidLimbEvalPoints(usize),
    SettingsInvalidMinDrawResolution(usize),
    SettingsInvalidMaxDrawResolution(usize),
    SettingsInvalidStaticTolerance(Binary64),
    SettingsInvalidArrowClampForce(Binary64),
    SettingsInvalidStringCompressionFactor(Binary64),
    SettingsInvalidTimeSpanFactor(Binary64),
    SettingsInvalidTimeOutFactor(Binary64),
    SettingsInvalidMinTimeStep(Binary64),
    SettingsInvalidMaxTimeStep(Binary64),
    SettingsInvalidStepsPerPeriod(usize),
    SettingsInvalidDynamicTolerance(Binary64),

    HandleInvalidLength(Binary64),
    HandleInvalidAngle(Binary64),
    HandleInvalidPivot(Binary64),

    DimensionsInvalidBraceHeight(Binary64),
    DimensionsInvalidDrawLength(Binary64),

    MaterialInvalidName(String),
    MaterialInvalidColor(String, String),
    MaterialInvalidDensity(String, Binary64),
    MaterialInvalidYoungsModulus(String, Binary64),
    MaterialInvalidShearModulus(String, Binary64),
    MaterialInvalidTensileStrength(String, Binary64),
    MaterialInvalidCompressiveStrength(String, Binary64),
    MaterialInvalidSafetyMargin(String, Binary64),

    LayerInvalidName(String),
    LayerInvalidMaterial(String, String),
    ProfileAnlignemtInvalidLayerName(String),

    WidthControlPointsTooFew(usize),
    WidthControlPointsNotSorted(Binary64, Binary64),
    WidthControlPointsInvalidRange(Binary64, Binary64),
    WidthControlPointsInvalidValue(Binary64, Binary64),

    LayerHeightControlPointsTooFew(String, usize),
    LayerHeightControlPointsNotSorted(String, Binary64, Binary64),
    LayerHeightControlPointsInvalidRange(String, Binary64, Binary64),
    LayerHeightControlPointsInvalidBoundaryValue(String, Binary64, Binary64),
    LayerHeightControlPointsInvalidInteriorValue(String, Binary64, Binary64),
    LayerHeightControlPointsDiscontinuousBoundary(String, Binary64, Binary64),

    StringInvalidNumberOfStrands(usize),
    StringInvalidStrandDensity(Binary64),
    StringInvalidStrandStiffness(Binary64),

    MassesInvalidArrowMass(Binary64),
    MassesInvalidArrowMassPerForce(Binary64),
    MassesInvalidArrowMassPerEnergy(Binary64),
    MassesInvalidLimbTipMass(Binary64),
    MassesInvalidStringCenterMass(Binary64),
    MassesInvalidStringTipMass(Binary64),

    DampingInvalidLimbDampingRatio(Binary64),
    DampingInvalidStringDampingRatio(Binary64),

    LineSegmentInvalidLength(usize, Binary64),
    ArcSegmentInvalidLength(usize, Binary64),
    ArcSegmentInvalidRadius(usize, Binary64),
    SpiralSegmentInvalidLength(usize, Binary64),
    SpiralSegmentInvalidRadius0(usize, Binary64),
    SpiralSegmentInvalidRadius1(usize, Binary64),
    SplineSegmentTooFewPoints(usize, usize),
    SplineSegmentInvalidPoint(usize, [Binary64; 2]),
}

} // verus!
