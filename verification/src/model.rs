//! The bow model (file format version 5, VirtualBow input 0.11): a full,
//! possibly asymmetric bow with independent upper and lower limb halves.
use vstd::prelude::*;
use crate::binary64::{Binary64, lemma_key_order, lemma_positive_pattern};
use crate::errors::ModelError;
use crate::validation::{
    first_error, first_index, lemma_first_error_agree, lemma_first_error_at, lemma_first_error_ok, lemma_first_index_none,
    lemma_first_index_some, lemma_first_index_none_all, then, validate_count_at_least, validate_count_positive, validate_hex_color,
    validate_name, is_hex_color, is_valid_name,
};

verus! {

/// Width distribution along a limb: control points `[position, width]`,
/// position relative to the limb length.
#[derive(Clone, Debug, PartialEq)]
pub struct Width(pub Vec<[Binary64; 2]>);

/// Height distribution of a layer along a limb: control points
/// `[position, height]`, position relative to the limb length.
#[derive(Clone, Debug, PartialEq)]
pub struct Height(pub Vec<[Binary64; 2]>);

#[derive(Clone, Debug, PartialEq)]
pub struct BowString {
    pub n_strands: usize,
    pub strand_density: Binary64,
    pub strand_stiffness: Binary64,
}

#[derive(Clone, Debug, PartialEq)]
pub struct Damping {
    pub damping_ratio_limbs: Binary64,
    pub damping_ratio_string: Binary64,
}

/// The window of control points `i`, `i + 1` does not strictly increase in
/// position (IEEE `<=`, so a NaN position never counts as descending).
pub open spec fn descends_at(points: Seq<[Binary64; 2]>, i: int) -> bool {
    points[i + 1][0].at_most(points[i][0])
}

/// The first window of control points that does not strictly increase.
pub open spec fn first_descent(points: Seq<[Binary64; 2]>) -> Option<int> {
    first_index(|i: int| descends_at(points, i), 0, points.len() - 1)
}

/// Finds the first window of control points that does not strictly increase
/// in position.
fn find_descent(points: &Vec<[Binary64; 2]>) -> (r: Option<usize>)
    requires
        points@.len() >= 1,
    ensures
        r matches Some(i) ==> first_descent(points@) == Some(i as int) && i + 1 < points@.len(),
        r is None ==> first_descent(points@) == None::<int>,
{
    let n = points.len();
    let mut i: usize = 0;
    while i + 1 < n
        invariant
            n == points@.len(),
            n >= 1,
            i + 1 <= n,
            forall|j: int| 0 <= j < i ==> !#[trigger] descends_at(points@, j),
        decreases n - i,
    {
        if points[i + 1][0].le(&points[i][0]) {
            proof {
                lemma_first_index_some(|j: int| descends_at(points@, j), 0, i as int, n - 1);
            }
            return Some(i);
        }
        i = i + 1;
    }
    proof {
        lemma_first_index_none(|j: int| descends_at(points@, j), 0, n - 1);
    }
    None
}

/// A width control point is invalid when a coordinate is not finite or the
/// width is not above zero.
pub open spec fn bad_width_point(p: [Binary64; 2]) -> bool {
    !p[0].finite() || !p[1].finite() || p[1].at_most(Binary64::zero_pattern())
}

/// What validating a width with control points `p` gives: at least two control points,
/// strictly increasing positions, positions exactly from 0 to 1, and only
/// finite points with widths above zero; the first violation is reported.
pub open spec fn width_points_validation(p: Seq<[Binary64; 2]>) -> Result<(), ModelError> {
    if p.len() < 2 {
        Err(ModelError::WidthControlPointsTooFew(p.len() as usize))
    } else {
        match first_descent(p) {
            Some(i) => Err(ModelError::WidthControlPointsNotSorted(p[i][0], p[i + 1][0])),
            None => {
                let first = p[0];
                let last = p[p.len() - 1];
                if !first[0].equal_to(Binary64::zero_pattern()) || !last[0].equal_to(
                    Binary64::one_pattern(),
                ) {
                    Err(ModelError::WidthControlPointsInvalidRange(first[0], last[0]))
                } else {
                    match first_index(|i: int| bad_width_point(p[i]), 0, p.len() as int) {
                        Some(i) => Err(
                            ModelError::WidthControlPointsInvalidValue(p[i][0], p[i][1]),
                        ),
                        None => Ok(()),
                    }
                }
            },
        }
    }
}

impl Width {
    pub fn new(points: Vec<[Binary64; 2]>) -> (r: Width)
        ensures
            r.0@ == points@,
    {
        Width(points)
    }

    /// A constant width `w` from position 0 to position 1.
    pub fn constant(w: Binary64) -> (r: Width)
        ensures
            r.0@ == seq![[Binary64::zero_pattern(), w], [Binary64::one_pattern(), w]],
    {
        Width::new(vec![[Binary64::zero(), w], [Binary64::one(), w]])
    }

    /// A width going linearly from `w0` at position 0 to `w1` at position 1.
    pub fn linear(w0: Binary64, w1: Binary64) -> (r: Width)
        ensures
            r.0@ == seq![[Binary64::zero_pattern(), w0], [Binary64::one_pattern(), w1]],
    {
        Width::new(vec![[Binary64::zero(), w0], [Binary64::one(), w1]])
    }

    /// What validating the width gives.
    pub open spec fn validation(self) -> Result<(), ModelError> {
        width_points_validation(self.0@)
    }

    pub fn validate(&self) -> (r: Result<(), ModelError>)
        ensures
            r == self.validation(),
    {
        let points = &self.0;
        let n = points.len();
        if let Err(len) = validate_count_at_least(n, 2) {
            return Err(ModelError::WidthControlPointsTooFew(len));
        }
        if let Some(i) = find_descent(points) {
            return Err(ModelError::WidthControlPointsNotSorted(points[i][0], points[i + 1][0]));
        }
        let first = points[0];
        let last = points[n - 1];
        if first[0].validate_equals(Binary64::zero()).is_err() {
            return Err(ModelError::WidthControlPointsInvalidRange(first[0], last[0]));
        }
        if last[0].validate_equals(Binary64::one()).is_err() {
            return Err(ModelError::WidthControlPointsInvalidRange(first[0], last[0]));
        }
        let mut i: usize = 0;
        while i < n
            invariant
                points@ == self.0@,
                n == points@.len(),
                n >= 2,
                i <= n,
                first == points@[0],
                last == points@[n - 1],
                first_descent(points@) == None::<int>,
                first[0].equal_to(Binary64::zero_pattern()),
                last[0].equal_to(Binary64::one_pattern()),
                forall|j: int| 0 <= j < i ==> !#[trigger] bad_width_point(points@[j]),
            decreases n - i,
        {
            let a = points[i];
            if !a[0].is_finite() || !a[1].is_finite() || a[1].le(&Binary64::zero()) {
                proof {
                    lemma_first_index_some(|j: int| bad_width_point(self.0@[j]), 0, i as int, n as int);
                }
                return Err(ModelError::WidthControlPointsInvalidValue(a[0], a[1]));
            }
            i = i + 1;
        }
        proof {
            lemma_first_index_none(|j: int| bad_width_point(self.0@[j]), 0, n as int);
        }
        Ok(())
    }
}

/// What validating the height of layer `name` with control points `p` gives: at least two
/// control points, strictly increasing positions, boundary points in the
/// range 0 to 1 with heights zero or above, interior heights above zero,
/// and a boundary point off position 0 (or 1) must have height zero; the
/// first violation is reported.
pub open spec fn height_points_validation(p: Seq<[Binary64; 2]>, name: String) -> Result<(), ModelError> {
    let zero = Binary64::zero_pattern();
    let one = Binary64::one_pattern();
    if p.len() < 2 {
        Err(ModelError::LayerHeightControlPointsTooFew(name, p.len() as usize))
    } else {
        match first_descent(p) {
            Some(i) => Err(
                ModelError::LayerHeightControlPointsNotSorted(name, p[i][0], p[i + 1][0]),
            ),
            None => {
                let first = p[0];
                let last = p[p.len() - 1];
                if !first[0].finite_within(zero, one) {
                    Err(ModelError::LayerHeightControlPointsInvalidRange(name, first[0], last[0]))
                } else if !first[1].nonneg_finite() {
                    Err(
                        ModelError::LayerHeightControlPointsInvalidBoundaryValue(
                            name,
                            first[0],
                            first[1],
                        ),
                    )
                } else if !last[0].finite_within(zero, one) {
                    Err(ModelError::LayerHeightControlPointsInvalidRange(name, first[0], last[0]))
                } else if !last[1].nonneg_finite() {
                    Err(
                        ModelError::LayerHeightControlPointsInvalidBoundaryValue(
                            name,
                            last[0],
                            last[1],
                        ),
                    )
                } else {
                    match first_index(
                        |i: int| !p[i][1].positive_finite(),
                        1,
                        p.len() - 1,
                    ) {
                        Some(i) => Err(
                            ModelError::LayerHeightControlPointsInvalidInteriorValue(
                                name,
                                p[i][0],
                                p[i][1],
                            ),
                        ),
                        None => {
                            if zero.less_than(first[0]) && !first[1].equal_to(zero) {
                                Err(
                                    ModelError::LayerHeightControlPointsDiscontinuousBoundary(
                                        name,
                                        first[0],
                                        first[1],
                                    ),
                                )
                            } else if last[0].less_than(one) && !last[1].equal_to(zero) {
                                Err(
                                    ModelError::LayerHeightControlPointsDiscontinuousBoundary(
                                        name,
                                        last[0],
                                        last[1],
                                    ),
                                )
                            } else {
                                Ok(())
                            }
                        },
                    }
                }
            },
        }
    }
}

impl Height {
    pub fn new(points: Vec<[Binary64; 2]>) -> (r: Height)
        ensures
            r.0@ == points@,
    {
        Height(points)
    }

    /// A constant height `h` from position 0 to position 1.
    pub fn constant(h: Binary64) -> (r: Height)
        ensures
            r.0@ == seq![[Binary64::zero_pattern(), h], [Binary64::one_pattern(), h]],
    {
        Height::new(vec![[Binary64::zero(), h], [Binary64::one(), h]])
    }

    /// A height going linearly from `h0` at position 0 to `h1` at position 1.
    pub fn linear(h0: Binary64, h1: Binary64) -> (r: Height)
        ensures
            r.0@ == seq![[Binary64::zero_pattern(), h0], [Binary64::one_pattern(), h1]],
    {
        Height::new(vec![[Binary64::zero(), h0], [Binary64::one(), h1]])
    }

    /// What validating the height of layer `name` gives.
    pub open spec fn validation(self, name: String) -> Result<(), ModelError> {
        height_points_validation(self.0@, name)
    }

    pub fn validate(&self, name: &String) -> (r: Result<(), ModelError>)
        ensures
            r == self.validation(*name),
    {
        let points = &self.0;
        let n = points.len();
        if let Err(len) = validate_count_at_least(n, 2) {
            return Err(ModelError::LayerHeightControlPointsTooFew(name.clone(), len));
        }
        if let Some(i) = find_descent(points) {
            return Err(
                ModelError::LayerHeightControlPointsNotSorted(
                    name.clone(),
                    points[i][0],
                    points[i + 1][0],
                ),
            );
        }
        let first = points[0];
        let last = points[n - 1];
        if first[0].validate_range_inclusive(Binary64::zero(), Binary64::one()).is_err() {
            return Err(
                ModelError::LayerHeightControlPointsInvalidRange(name.clone(), first[0], last[0]),
            );
        }
        if first[1].validate_nonneg().is_err() {
            return Err(
                ModelError::LayerHeightControlPointsInvalidBoundaryValue(
                    name.clone(),
                    first[0],
                    first[1],
                ),
            );
        }
        if last[0].validate_range_inclusive(Binary64::zero(), Binary64::one()).is_err() {
            return Err(
                ModelError::LayerHeightControlPointsInvalidRange(name.clone(), first[0], last[0]),
            );
        }
        if last[1].validate_nonneg().is_err() {
            return Err(
                ModelError::LayerHeightControlPointsInvalidBoundaryValue(
                    name.clone(),
                    last[0],
                    last[1],
                ),
            );
        }
        let mut i: usize = 1;
        while i < n - 1
            invariant
                points@ == self.0@,
                n == points@.len(),
                n >= 2,
                1 <= i <= n - 1,
                first == points@[0],
                last == points@[n - 1],
                first_descent(points@) == None::<int>,
                first[0].finite_within(Binary64::zero_pattern(), Binary64::one_pattern()),
                first[1].nonneg_finite(),
                last[0].finite_within(Binary64::zero_pattern(), Binary64::one_pattern()),
                last[1].nonneg_finite(),
                forall|j: int| 1 <= j < i ==> (#[trigger] points@[j])[1].positive_finite(),
            decreases n - i,
        {
            let point = points[i];
            if point[1].validate_positive().is_err() {
                proof {
                    lemma_first_index_some(
                        |j: int| !self.0@[j][1].positive_finite(),
                        1,
                        i as int,
                        n - 1,
                    );
                }
                return Err(
                    ModelError::LayerHeightControlPointsInvalidInteriorValue(
                        name.clone(),
                        point[0],
                        point[1],
                    ),
                );
            }
            i = i + 1;
        }
        proof {
            lemma_first_index_none(|j: int| !self.0@[j][1].positive_finite(), 1, n - 1);
        }
        if first[0].gt(&Binary64::zero()) && !first[1].equals(&Binary64::zero()) {
            return Err(
                ModelError::LayerHeightControlPointsDiscontinuousBoundary(
                    name.clone(),
                    first[0],
                    first[1],
                ),
            );
        }
        if last[0].lt(&Binary64::one()) && !last[1].equals(&Binary64::zero()) {
            return Err(
                ModelError::LayerHeightControlPointsDiscontinuousBoundary(
                    name.clone(),
                    last[0],
                    last[1],
                ),
            );
        }
        Ok(())
    }
}

impl BowString {
    /// What validating the string gives: strands counted above zero, strand
    /// density and stiffness finite and above zero.
    pub open spec fn validation(self) -> Result<(), ModelError> {
        if self.n_strands == 0 {
            Err(ModelError::StringInvalidNumberOfStrands(self.n_strands))
        } else if !self.strand_density.positive_finite() {
            Err(ModelError::StringInvalidStrandDensity(self.strand_density))
        } else if !self.strand_stiffness.positive_finite() {
            Err(ModelError::StringInvalidStrandStiffness(self.strand_stiffness))
        } else {
            Ok(())
        }
    }

    pub fn validate(&self) -> (r: Result<(), ModelError>)
        ensures
            r == self.validation(),
    {
        if let Err(n) = validate_count_positive(self.n_strands) {
            return Err(ModelError::StringInvalidNumberOfStrands(n));
        }
        if let Err(v) = self.strand_density.validate_positive() {
            return Err(ModelError::StringInvalidStrandDensity(v));
        }
        if let Err(v) = self.strand_stiffness.validate_positive() {
            return Err(ModelError::StringInvalidStrandStiffness(v));
        }
        Ok(())
    }
}

impl Damping {
    /// What validating the damping gives: both ratios finite and in the
    /// closed range from 0 to 1.
    pub open spec fn validation(self) -> Result<(), ModelError> {
        let zero = Binary64::zero_pattern();
        let one = Binary64::one_pattern();
        if !self.damping_ratio_limbs.finite_within(zero, one) {
            Err(ModelError::DampingInvalidLimbDampingRatio(self.damping_ratio_limbs))
        } else if !self.damping_ratio_string.finite_within(zero, one) {
            Err(ModelError::DampingInvalidStringDampingRatio(self.damping_ratio_string))
        } else {
            Ok(())
        }
    }

    pub fn validate(&self) -> (r: Result<(), ModelError>)
        ensures
            r == self.validation(),
    {
        if let Err(v) = self.damping_ratio_limbs.validate_range_inclusive(
            Binary64::zero(),
            Binary64::one(),
        ) {
            return Err(ModelError::DampingInvalidLimbDampingRatio(v));
        }
        if let Err(v) = self.damping_ratio_string.validate_range_inclusive(
            Binary64::zero(),
            Binary64::one(),
        ) {
            return Err(ModelError::DampingInvalidStringDampingRatio(v));
        }
        Ok(())
    }
}


#[derive(Clone, Debug, PartialEq)]
pub struct Line {
    pub length: Binary64,
}

#[derive(Clone, Debug, PartialEq)]
pub struct Arc {
    pub length: Binary64,
    pub radius: Binary64,
}

#[derive(Clone, Debug, PartialEq)]
pub struct Spiral {
    pub length: Binary64,
    pub radius_start: Binary64,
    pub radius_end: Binary64,
}

#[derive(Clone, Debug, PartialEq)]
pub struct Spline {
    pub points: Vec<[Binary64; 2]>,
}

/// One segment of a limb's profile curve.
#[derive(Clone, Debug, PartialEq)]
pub enum ProfileSegment {
    Line(Line),
    Arc(Arc),
    Spiral(Spiral),
    Spline(Spline),
}

impl Line {
    pub fn new(length: Binary64) -> (r: Line)
        ensures
            r.length == length,
    {
        Line { length }
    }

    /// What validating the segment at `index` gives: a finite length above zero.
    pub open spec fn validation(self, index: usize) -> Result<(), ModelError> {
        if !self.length.positive_finite() {
            Err(ModelError::LineSegmentInvalidLength(index, self.length))
        } else {
            Ok(())
        }
    }

    pub fn validate(&self, index: usize) -> (r: Result<(), ModelError>)
        ensures
            r == self.validation(index),
    {
        if self.length.validate_positive().is_err() {
            return Err(ModelError::LineSegmentInvalidLength(index, self.length));
        }
        Ok(())
    }
}

impl Arc {
    pub fn new(length: Binary64, radius: Binary64) -> (r: Arc)
        ensures
            r.length == length,
            r.radius == radius,
    {
        Arc { length, radius }
    }

    /// What validating the segment at `index` gives: a finite length above
    /// zero and a finite radius (the radius error carries the length).
    pub open spec fn validation(self, index: usize) -> Result<(), ModelError> {
        if !self.length.positive_finite() {
            Err(ModelError::ArcSegmentInvalidLength(index, self.length))
        } else if !self.radius.finite() {
            Err(ModelError::ArcSegmentInvalidRadius(index, self.length))
        } else {
            Ok(())
        }
    }

    pub fn validate(&self, index: usize) -> (r: Result<(), ModelError>)
        ensures
            r == self.validation(index),
    {
        if self.length.validate_positive().is_err() {
            return Err(ModelError::ArcSegmentInvalidLength(index, self.length));
        }
        if self.radius.validate_finite().is_err() {
            return Err(ModelError::ArcSegmentInvalidRadius(index, self.length));
        }
        Ok(())
    }
}

impl Spiral {
    pub fn new(length: Binary64, radius0: Binary64, radius1: Binary64) -> (r: Spiral)
        ensures
            r.length == length,
            r.radius_start == radius0,
            r.radius_end == radius1,
    {
        Spiral { length, radius_start: radius0, radius_end: radius1 }
    }

    /// What validating the segment at `index` gives: a finite length above
    /// zero and finite radii (the radius errors carry the length).
    pub open spec fn validation(self, index: usize) -> Result<(), ModelError> {
        if !self.length.positive_finite() {
            Err(ModelError::SpiralSegmentInvalidLength(index, self.length))
        } else if !self.radius_start.finite() {
            Err(ModelError::SpiralSegmentInvalidRadius0(index, self.length))
        } else if !self.radius_end.finite() {
            Err(ModelError::SpiralSegmentInvalidRadius1(index, self.length))
        } else {
            Ok(())
        }
    }

    pub fn validate(&self, index: usize) -> (r: Result<(), ModelError>)
        ensures
            r == self.validation(index),
    {
        if self.length.validate_positive().is_err() {
            return Err(ModelError::SpiralSegmentInvalidLength(index, self.length));
        }
        if self.radius_start.validate_finite().is_err() {
            return Err(ModelError::SpiralSegmentInvalidRadius0(index, self.length));
        }
        if self.radius_end.validate_finite().is_err() {
            return Err(ModelError::SpiralSegmentInvalidRadius1(index, self.length));
        }
        Ok(())
    }
}

/// A spline point with a coordinate that is not finite.
pub open spec fn bad_spline_point(p: [Binary64; 2]) -> bool {
    !p[0].finite() || !p[1].finite()
}

impl Spline {
    pub fn new(points: Vec<[Binary64; 2]>) -> (r: Spline)
        ensures
            r.points@ == points@,
    {
        Spline { points }
    }

    /// What validating the segment at `index` gives: at least two points,
    /// all with finite coordinates.
    pub open spec fn validation(self, index: usize) -> Result<(), ModelError> {
        let p = self.points@;
        if p.len() < 2 {
            Err(ModelError::SplineSegmentTooFewPoints(index, p.len() as usize))
        } else {
            match first_index(|i: int| bad_spline_point(p[i]), 0, p.len() as int) {
                Some(i) => Err(ModelError::SplineSegmentInvalidPoint(index, p[i])),
                None => Ok(()),
            }
        }
    }

    pub fn validate(&self, index: usize) -> (r: Result<(), ModelError>)
        ensures
            r == self.validation(index),
    {
        let points = &self.points;
        let n = points.len();
        if validate_count_at_least(n, 2).is_err() {
            return Err(ModelError::SplineSegmentTooFewPoints(index, n));
        }
        let mut i: usize = 0;
        while i < n
            invariant
                points@ == self.points@,
                n == points@.len(),
                n >= 2,
                i <= n,
                forall|j: int| 0 <= j < i ==> !#[trigger] bad_spline_point(points@[j]),
            decreases n - i,
        {
            let point = points[i];
            if point[0].validate_finite().is_err() || point[1].validate_finite().is_err() {
                proof {
                    lemma_first_index_some(|j: int| bad_spline_point(self.points@[j]), 0, i as int, n as int);
                }
                return Err(ModelError::SplineSegmentInvalidPoint(index, point));
            }
            i = i + 1;
        }
        proof {
            lemma_first_index_none(|j: int| bad_spline_point(self.points@[j]), 0, n as int);
        }
        Ok(())
    }
}

impl ProfileSegment {
    /// What validating the segment at `index` gives.
    pub open spec fn validation(self, index: usize) -> Result<(), ModelError> {
        match self {
            ProfileSegment::Line(s) => s.validation(index),
            ProfileSegment::Arc(s) => s.validation(index),
            ProfileSegment::Spiral(s) => s.validation(index),
            ProfileSegment::Spline(s) => s.validation(index),
        }
    }

    pub fn validate(&self, index: usize) -> (r: Result<(), ModelError>)
        ensures
            r == self.validation(index),
    {
        match self {
            ProfileSegment::Line(s) => s.validate(index),
            ProfileSegment::Arc(s) => s.validate(index),
            ProfileSegment::Spiral(s) => s.validate(index),
            ProfileSegment::Spline(s) => s.validate(index),
        }
    }
}

/// What validating a list of segments gives: the error of the first invalid
/// segment, each checked with its own index.
pub open spec fn segments_validation(segments: Seq<ProfileSegment>) -> Result<(), ModelError> {
    first_error(segments.len() as int, |i: int| segments[i].validation(i as usize))
}

fn validate_segments(segments: &Vec<ProfileSegment>) -> (r: Result<(), ModelError>)
    ensures
        r == segments_validation(segments@),
{
    let n = segments.len();
    let mut i: usize = 0;
    while i < n
        invariant
            n == segments@.len(),
            i <= n,
            forall|j: int| 0 <= j < i ==> (#[trigger] segments@[j]).validation(j as usize) is Ok,
        decreases n - i,
    {
        let r = segments[i].validate(i);
        if r.is_err() {
            proof {
                lemma_first_error_at(n as int, |j: int| segments@[j].validation(j as usize), i as int);
            }
            return r;
        }
        i = i + 1;
    }
    proof {
        lemma_first_error_ok(n as int, |j: int| segments@[j].validation(j as usize));
    }
    Ok(())
}

/// The profile of the full bow: independent segment lists of the upper and
/// lower limb.
#[derive(Clone, Debug, PartialEq)]
pub struct Profile {
    pub upper: Vec<ProfileSegment>,
    pub lower: Vec<ProfileSegment>,
}

impl Profile {
    /// What validating the profile gives: the upper segments are checked,
    /// then the lower ones.
    pub open spec fn validation(self) -> Result<(), ModelError> {
        then(segments_validation(self.upper@), segments_validation(self.lower@))
    }

    pub fn validate(&self) -> (r: Result<(), ModelError>)
        ensures
            r == self.validation(),
    {
        let r = validate_segments(&self.upper);
        if r.is_err() {
            return r;
        }
        validate_segments(&self.lower)
    }
}


#[derive(Clone, Debug, PartialEq)]
pub struct Material {
    pub name: String,
    pub color: String,
    pub density: Binary64,
    pub youngs_modulus: Binary64,
    pub shear_modulus: Binary64,
    pub tensile_strength: Binary64,
    pub compressive_strength: Binary64,
    pub safety_margin: Binary64,
}

impl Material {
    /// A material with unknown strengths (zero) and no safety margin.
    #[allow(non_snake_case)]
    pub fn new(name: &str, color: &str, rho: Binary64, E: Binary64, G: Binary64) -> (r: Material)
        ensures
            r.name@ == name@,
            r.color@ == color@,
            r.density == rho,
            r.youngs_modulus == E,
            r.shear_modulus == G,
            r.tensile_strength == Binary64::zero_pattern(),
            r.compressive_strength == Binary64::zero_pattern(),
            r.safety_margin == Binary64::zero_pattern(),
    {
        Material {
            name: name.to_owned(),
            color: color.to_owned(),
            density: rho,
            youngs_modulus: E,
            shear_modulus: G,
            tensile_strength: Binary64::zero(),
            compressive_strength: Binary64::zero(),
            safety_margin: Binary64::zero(),
        }
    }

    /// Stresses (tension, compression) at which the material fails.
    pub fn maximum_stresses(&self) -> (r: (Binary64, Binary64))
        ensures
            r == (self.tensile_strength, self.compressive_strength),
    {
        (self.tensile_strength, self.compressive_strength)
    }

    /// The factor that the safety margin leaves of a stress: `1 - margin`.
    pub open spec fn margin_factor(self) -> Binary64 {
        Binary64::one_pattern().difference(self.safety_margin)
    }

    /// Stresses (tension, compression) allowed by the safety margin: the
    /// maximum stresses times `1 - margin`.
    pub fn allowed_stresses(&self) -> (r: (Binary64, Binary64))
        ensures
            r == (
                self.tensile_strength.product(self.margin_factor()),
                self.compressive_strength.product(self.margin_factor()),
            ),
    {
        let (tension, compression) = self.maximum_stresses();
        let factor = Binary64::one().minus(&self.safety_margin);
        (tension.times(&factor), compression.times(&factor))
    }

    /// Strains (tension, compression) at which the material fails: the
    /// maximum stresses divided by Young's modulus.
    pub fn maximum_strains(&self) -> (r: (Binary64, Binary64))
        ensures
            r == (
                self.tensile_strength.quotient(self.youngs_modulus),
                self.compressive_strength.quotient(self.youngs_modulus),
            ),
    {
        let (tension, compression) = self.maximum_stresses();
        (tension.divided_by(&self.youngs_modulus), compression.divided_by(&self.youngs_modulus))
    }

    /// Strains (tension, compression) allowed by the safety margin: the
    /// allowed stresses divided by Young's modulus.
    pub fn allowed_strains(&self) -> (r: (Binary64, Binary64))
        ensures
            r == (
                self.tensile_strength.product(self.margin_factor()).quotient(self.youngs_modulus),
                self.compressive_strength.product(self.margin_factor()).quotient(
                    self.youngs_modulus,
                ),
            ),
    {
        let (tension, compression) = self.allowed_stresses();
        (tension.divided_by(&self.youngs_modulus), compression.divided_by(&self.youngs_modulus))
    }

    /// What validating the material gives: a non-empty name, a `#RRGGBB`
    /// color, finite density and moduli above zero, finite strengths zero or
    /// above (zero meaning unknown), a safety margin from 0 to 1.
    pub open spec fn validation(self) -> Result<(), ModelError> {
        let zero = Binary64::zero_pattern();
        let one = Binary64::one_pattern();
        if !is_valid_name(self.name@) {
            Err(ModelError::MaterialInvalidName(self.name))
        } else if !is_hex_color(self.color@) {
            Err(ModelError::MaterialInvalidColor(self.name, self.color))
        } else if !self.density.positive_finite() {
            Err(ModelError::MaterialInvalidDensity(self.name, self.density))
        } else if !self.youngs_modulus.positive_finite() {
            Err(ModelError::MaterialInvalidYoungsModulus(self.name, self.youngs_modulus))
        } else if !self.shear_modulus.positive_finite() {
            Err(ModelError::MaterialInvalidShearModulus(self.name, self.shear_modulus))
        } else if !self.tensile_strength.nonneg_finite() {
            Err(ModelError::MaterialInvalidTensileStrength(self.name, self.tensile_strength))
        } else if !self.compressive_strength.nonneg_finite() {
            Err(ModelError::MaterialInvalidCompressiveStrength(self.name, self.compressive_strength))
        } else if !self.safety_margin.finite_within(zero, one) {
            Err(ModelError::MaterialInvalidSafetyMargin(self.name, self.safety_margin))
        } else {
            Ok(())
        }
    }

    pub fn validate(&self) -> (r: Result<(), ModelError>)
        ensures
            r == self.validation(),
    {
        if let Err(name) = validate_name(&self.name) {
            return Err(ModelError::MaterialInvalidName(name));
        }
        if let Err(color) = validate_hex_color(&self.color) {
            return Err(ModelError::MaterialInvalidColor(self.name.clone(), color));
        }
        if let Err(v) = self.density.validate_positive() {
            return Err(ModelError::MaterialInvalidDensity(self.name.clone(), v));
        }
        if let Err(v) = self.youngs_modulus.validate_positive() {
            return Err(ModelError::MaterialInvalidYoungsModulus(self.name.clone(), v));
        }
        if let Err(v) = self.shear_modulus.validate_positive() {
            return Err(ModelError::MaterialInvalidShearModulus(self.name.clone(), v));
        }
        if let Err(v) = self.tensile_strength.validate_nonneg() {
            return Err(ModelError::MaterialInvalidTensileStrength(self.name.clone(), v));
        }
        if let Err(v) = self.compressive_strength.validate_nonneg() {
            return Err(ModelError::MaterialInvalidCompressiveStrength(self.name.clone(), v));
        }
        if let Err(v) = self.safety_margin.validate_range_inclusive(Binary64::zero(), Binary64::one()) {
            return Err(ModelError::MaterialInvalidSafetyMargin(self.name.clone(), v));
        }
        Ok(())
    }
}

#[derive(Clone, Debug, PartialEq)]
pub struct Layer {
    pub name: String,
    pub material: String,
    pub height: Height,
}

impl Layer {
    pub fn new(name: &str, material: &str, height: Height) -> (r: Layer)
        ensures
            r.name@ == name@,
            r.material@ == material@,
            r.height == height,
    {
        Layer { name: name.to_owned(), material: material.to_owned(), height }
    }

    /// What validating the layer gives: a non-empty name, a non-empty
    /// material name, then the height distribution.
    pub open spec fn validation(self) -> Result<(), ModelError> {
        if !is_valid_name(self.name@) {
            Err(ModelError::LayerInvalidName(self.name))
        } else if !is_valid_name(self.material@) {
            Err(ModelError::LayerInvalidMaterial(self.name, self.material))
        } else {
            self.height.validation(self.name)
        }
    }

    pub fn validate(&self) -> (r: Result<(), ModelError>)
        ensures
            r == self.validation(),
    {
        if let Err(name) = validate_name(&self.name) {
            return Err(ModelError::LayerInvalidName(name));
        }
        if let Err(material) = validate_name(&self.material) {
            return Err(ModelError::LayerInvalidMaterial(self.name.clone(), material));
        }
        self.height.validate(&self.name)
    }
}

/// How the cross-sections are aligned with the profile curve: with the
/// back, belly or center of the whole section, or of a named layer.
#[derive(Clone, Debug, PartialEq)]
pub enum LayerAlignment {
    SectionBack,
    SectionBelly,
    SectionCenter,
    LayerBack(String),
    LayerBelly(String),
    LayerCenter(String),
}

/// What validating a list of layers gives: the error of the first invalid
/// layer.
pub open spec fn layers_validation(layers: Seq<Layer>) -> Result<(), ModelError> {
    first_error(layers.len() as int, |i: int| layers[i].validation())
}

fn validate_layers(layers: &Vec<Layer>) -> (r: Result<(), ModelError>)
    ensures
        r == layers_validation(layers@),
{
    let n = layers.len();
    let mut i: usize = 0;
    while i < n
        invariant
            n == layers@.len(),
            i <= n,
            forall|j: int| 0 <= j < i ==> (#[trigger] layers@[j]).validation() is Ok,
        decreases n - i,
    {
        let r = layers[i].validate();
        if r.is_err() {
            proof {
                lemma_first_error_at(n as int, |j: int| layers@[j].validation(), i as int);
            }
            return r;
        }
        i = i + 1;
    }
    proof {
        lemma_first_error_ok(n as int, |j: int| layers@[j].validation());
    }
    Ok(())
}

/// A single limb's cross-section.
#[derive(Clone, Debug, PartialEq)]
pub struct LimbSection {
    pub alignment: LayerAlignment,
    pub width: Width,
    pub layers: Vec<Layer>,
}

impl LimbSection {
    pub fn new(alignment: LayerAlignment, width: Width, layers: Vec<Layer>) -> (r: LimbSection)
        ensures
            r.alignment == alignment,
            r.width == width,
            r.layers@ == layers@,
    {
        LimbSection { alignment, width, layers }
    }

    /// What validating the section gives: a layer named by the alignment
    /// must have a non-empty name; then the width; then each layer.
    pub open spec fn validation(self) -> Result<(), ModelError> {
        let alignment_check = match self.alignment {
            LayerAlignment::LayerBack(name) | LayerAlignment::LayerBelly(name)
            | LayerAlignment::LayerCenter(name) => if is_valid_name(name@) {
                Ok(())
            } else {
                Err(ModelError::ProfileAnlignemtInvalidLayerName(name))
            },
            _ => Ok(()),
        };
        then(alignment_check, then(self.width.validation(), layers_validation(self.layers@)))
    }

    pub fn validate(&self) -> (r: Result<(), ModelError>)
        ensures
            r == self.validation(),
    {
        match &self.alignment {
            LayerAlignment::LayerBack(name) | LayerAlignment::LayerBelly(name)
            | LayerAlignment::LayerCenter(name) => {
                if let Err(name) = validate_name(name) {
                    return Err(ModelError::ProfileAnlignemtInvalidLayerName(name));
                }
            },
            _ => {},
        }
        let r = self.width.validate();
        if r.is_err() {
            return r;
        }
        validate_layers(&self.layers)
    }
}

/// What validating a list of materials gives: the error of the first invalid
/// material.
pub open spec fn materials_validation(materials: Seq<Material>) -> Result<(), ModelError> {
    first_error(materials.len() as int, |i: int| materials[i].validation())
}

fn validate_materials(materials: &Vec<Material>) -> (r: Result<(), ModelError>)
    ensures
        r == materials_validation(materials@),
{
    let n = materials.len();
    let mut i: usize = 0;
    while i < n
        invariant
            n == materials@.len(),
            i <= n,
            forall|j: int| 0 <= j < i ==> (#[trigger] materials@[j]).validation() is Ok,
        decreases n - i,
    {
        let r = materials[i].validate();
        if r.is_err() {
            proof {
                lemma_first_error_at(n as int, |j: int| materials@[j].validation(), i as int);
            }
            return r;
        }
        i = i + 1;
    }
    proof {
        lemma_first_error_ok(n as int, |j: int| materials@[j].validation());
    }
    Ok(())
}

/// Section data of the bow: the upper and lower limb sections and the
/// materials they share.
#[derive(Clone, Debug, PartialEq)]
pub struct Section {
    pub materials: Vec<Material>,
    pub upper: LimbSection,
    pub lower: LimbSection,
}

impl Section {
    /// What validating the section gives: each material, then the upper and
    /// the lower limb section.
    pub open spec fn validation(self) -> Result<(), ModelError> {
        then(
            materials_validation(self.materials@),
            then(self.upper.validation(), self.lower.validation()),
        )
    }

    pub fn validate(&self) -> (r: Result<(), ModelError>)
        ensures
            r == self.validation(),
    {
        let r = validate_materials(&self.materials);
        if r.is_err() {
            return r;
        }
        let r = self.upper.validate();
        if r.is_err() {
            return r;
        }
        self.lower.validate()
    }
}


/// Numerical settings of the simulation.
#[derive(Clone, Debug, PartialEq)]
pub struct Settings {
    pub num_limb_elements: usize,
    pub num_limb_eval_points: usize,
    pub min_draw_resolution: usize,
    pub max_draw_resolution: usize,
    pub static_iteration_tolerance: Binary64,
    pub arrow_clamp_force: Binary64,
    pub string_compression_factor: Binary64,
    pub timespan_factor: Binary64,
    pub timeout_factor: Binary64,
    pub min_timestep: Binary64,
    pub max_timestep: Binary64,
    pub steps_per_period: usize,
    pub dynamic_iteration_tolerance: Binary64,
}

impl Settings {
    /// What validating the settings gives: element, eval point (at least
    /// two), resolution and step counts above zero; tolerances, compression
    /// factor and time steps finite and above zero; clamp force finite and
    /// zero or above; time span and time out factors finite and at least 1.
    pub open spec fn validation(self) -> Result<(), ModelError> {
        let one = Binary64::one_pattern();
        if self.num_limb_elements == 0 {
            Err(ModelError::SettingsInvalidLimbElements(self.num_limb_elements))
        } else if self.num_limb_eval_points < 2 {
            Err(ModelError::SettingsInvalidLimbEvalPoints(self.num_limb_eval_points))
        } else if self.min_draw_resolution == 0 {
            Err(ModelError::SettingsInvalidMinDrawResolution(self.min_draw_resolution))
        } else if self.max_draw_resolution == 0 {
            Err(ModelError::SettingsInvalidMaxDrawResolution(self.max_draw_resolution))
        } else if !self.static_iteration_tolerance.positive_finite() {
            Err(ModelError::SettingsInvalidStaticTolerance(self.static_iteration_tolerance))
        } else if !self.arrow_clamp_force.nonneg_finite() {
            Err(ModelError::SettingsInvalidArrowClampForce(self.arrow_clamp_force))
        } else if !self.string_compression_factor.positive_finite() {
            Err(ModelError::SettingsInvalidStringCompressionFactor(self.string_compression_factor))
        } else if !(self.timespan_factor.finite() && one.at_most(self.timespan_factor)) {
            Err(ModelError::SettingsInvalidTimeSpanFactor(self.timespan_factor))
        } else if !(self.timeout_factor.finite() && one.at_most(self.timeout_factor)) {
            Err(ModelError::SettingsInvalidTimeOutFactor(self.timeout_factor))
        } else if !self.min_timestep.positive_finite() {
            Err(ModelError::SettingsInvalidMinTimeStep(self.min_timestep))
        } else if !self.max_timestep.positive_finite() {
            Err(ModelError::SettingsInvalidMaxTimeStep(self.max_timestep))
        } else if self.steps_per_period == 0 {
            Err(ModelError::SettingsInvalidStepsPerPeriod(self.steps_per_period))
        } else if !self.dynamic_iteration_tolerance.positive_finite() {
            Err(ModelError::SettingsInvalidDynamicTolerance(self.dynamic_iteration_tolerance))
        } else {
            Ok(())
        }
    }

    pub fn validate(&self) -> (r: Result<(), ModelError>)
        ensures
            r == self.validation(),
    {
        if let Err(v) = validate_count_positive(self.num_limb_elements) {
            return Err(ModelError::SettingsInvalidLimbElements(v));
        }
        if let Err(v) = validate_count_at_least(self.num_limb_eval_points, 2) {
            return Err(ModelError::SettingsInvalidLimbEvalPoints(v));
        }
        if let Err(v) = validate_count_positive(self.min_draw_resolution) {
            return Err(ModelError::SettingsInvalidMinDrawResolution(v));
        }
        if let Err(v) = validate_count_positive(self.max_draw_resolution) {
            return Err(ModelError::SettingsInvalidMaxDrawResolution(v));
        }
        if let Err(v) = self.static_iteration_tolerance.validate_positive() {
            return Err(ModelError::SettingsInvalidStaticTolerance(v));
        }
        if let Err(v) = self.arrow_clamp_force.validate_nonneg() {
            return Err(ModelError::SettingsInvalidArrowClampForce(v));
        }
        if let Err(v) = self.string_compression_factor.validate_positive() {
            return Err(ModelError::SettingsInvalidStringCompressionFactor(v));
        }
        if let Err(v) = self.timespan_factor.validate_at_least(Binary64::one()) {
            return Err(ModelError::SettingsInvalidTimeSpanFactor(v));
        }
        if let Err(v) = self.timeout_factor.validate_at_least(Binary64::one()) {
            return Err(ModelError::SettingsInvalidTimeOutFactor(v));
        }
        if let Err(v) = self.min_timestep.validate_positive() {
            return Err(ModelError::SettingsInvalidMinTimeStep(v));
        }
        if let Err(v) = self.max_timestep.validate_positive() {
            return Err(ModelError::SettingsInvalidMaxTimeStep(v));
        }
        if let Err(v) = validate_count_positive(self.steps_per_period) {
            return Err(ModelError::SettingsInvalidStepsPerPeriod(v));
        }
        if let Err(v) = self.dynamic_iteration_tolerance.validate_positive() {
            return Err(ModelError::SettingsInvalidDynamicTolerance(v));
        }
        Ok(())
    }
}

/// The default settings: 30 limb elements, 250 eval points, draw resolution
/// 100, tolerances 1e-6, clamp force 0.5, compression factor 1e-6, time span
/// factor 1.5, time out factor 10, time steps from 1e-6 to 1e-4, 250 steps
/// per period.
pub open spec fn default_settings() -> Settings {
    Settings {
        num_limb_elements: 30,
        num_limb_eval_points: 250,
        min_draw_resolution: 100,
        max_draw_resolution: 100,
        static_iteration_tolerance: Binary64 { bits: 0x3eb0_c6f7_a0b5_ed8d },
        arrow_clamp_force: Binary64 { bits: 0x3fe0_0000_0000_0000 },
        string_compression_factor: Binary64 { bits: 0x3eb0_c6f7_a0b5_ed8d },
        timespan_factor: Binary64 { bits: 0x3ff8_0000_0000_0000 },
        timeout_factor: Binary64 { bits: 0x4024_0000_0000_0000 },
        min_timestep: Binary64 { bits: 0x3eb0_c6f7_a0b5_ed8d },
        max_timestep: Binary64 { bits: 0x3f1a_36e2_eb1c_432d },
        steps_per_period: 250,
        dynamic_iteration_tolerance: Binary64 { bits: 0x3eb0_c6f7_a0b5_ed8d },
    }
}

impl Default for Settings {
    fn default() -> (r: Settings)
        ensures
            r == default_settings(),
    {
        Settings {
            num_limb_elements: 30,
            num_limb_eval_points: 250,
            min_draw_resolution: 100,
            max_draw_resolution: 100,
            static_iteration_tolerance: Binary64::from_bits(0x3eb0_c6f7_a0b5_ed8d),
            arrow_clamp_force: Binary64::from_bits(0x3fe0_0000_0000_0000),
            string_compression_factor: Binary64::from_bits(0x3eb0_c6f7_a0b5_ed8d),
            timespan_factor: Binary64::from_bits(0x3ff8_0000_0000_0000),
            timeout_factor: Binary64::from_bits(0x4024_0000_0000_0000),
            min_timestep: Binary64::from_bits(0x3eb0_c6f7_a0b5_ed8d),
            max_timestep: Binary64::from_bits(0x3f1a_36e2_eb1c_432d),
            steps_per_period: 250,
            dynamic_iteration_tolerance: Binary64::from_bits(0x3eb0_c6f7_a0b5_ed8d),
        }
    }
}

/// The draw length, measured from the pivot point of the handle or,
/// according to the AMO standard, with an offset of 1.75 inches.
#[derive(Clone, Debug, PartialEq)]
pub enum DrawLength {
    Standard(Binary64),
    Amo(Binary64),
}

impl DrawLength {
    /// The enclosed value, whatever the variant.
    pub open spec fn enclosed(self) -> Binary64 {
        match self {
            DrawLength::Standard(v) => v,
            DrawLength::Amo(v) => v,
        }
    }

    /// The enclosed value, whatever the variant.
    pub fn value(&self) -> (r: Binary64)
        ensures
            r == self.enclosed(),
    {
        match self {
            DrawLength::Standard(v) => *v,
            DrawLength::Amo(v) => *v,
        }
    }

    /// The offset of the AMO standard, 1.75 inches in metres: the binary64
    /// product of 1.75 and 0.0254.
    pub open spec fn amo_offset() -> Binary64 {
        Binary64 { bits: AMO_OFFSET_BITS }
    }

    /// The draw length as measured from the pivot point: a standard draw
    /// length already is; an AMO one is 1.75 inches less.
    pub open spec fn measured_from_pivot(self) -> Binary64 {
        match self {
            DrawLength::Standard(v) => v,
            DrawLength::Amo(v) => v.difference(DrawLength::amo_offset()),
        }
    }

    /// The draw length as measured from the pivot point of the handle.
    pub fn from_pivot(&self) -> (r: Binary64)
        ensures
            r == self.measured_from_pivot(),
    {
        match self {
            DrawLength::Standard(v) => *v,
            DrawLength::Amo(v) => v.minus(&Binary64::from_bits(AMO_OFFSET_BITS)),
        }
    }
}

/// The bit pattern of the AMO offset, 1.75 * 0.0254 = 0.04445 metres rounded
/// to binary64.
pub const AMO_OFFSET_BITS: u64 = 0x3fa6_c226_809d_4951;

#[derive(Clone, Debug, PartialEq)]
pub struct Draw {
    pub brace_height: Binary64,
    pub draw_length: DrawLength,
    /// Signed offset of the nocking point along the bow's longitudinal axis,
    /// from the handle pivot (positive toward the upper limb); zero for a
    /// symmetric bow.
    pub nock_offset: Binary64,
}

impl Draw {
    /// What validating the draw gives: a finite brace height above zero, a
    /// finite draw length from the pivot above the brace height, a finite nock
    /// offset (whose error is the brace height error).
    pub open spec fn validation(self) -> Result<(), ModelError> {
        let from_pivot = self.draw_length.measured_from_pivot();
        if !self.brace_height.positive_finite() {
            Err(ModelError::DimensionsInvalidBraceHeight(self.brace_height))
        } else if !(from_pivot.finite() && self.brace_height.less_than(from_pivot)) {
            Err(ModelError::DimensionsInvalidDrawLength(from_pivot))
        } else if !self.nock_offset.finite() {
            Err(ModelError::DimensionsInvalidBraceHeight(self.nock_offset))
        } else {
            Ok(())
        }
    }

    pub fn validate(&self) -> (r: Result<(), ModelError>)
        ensures
            r == self.validation(),
    {
        if let Err(v) = self.brace_height.validate_positive() {
            return Err(ModelError::DimensionsInvalidBraceHeight(v));
        }
        if let Err(v) = self.draw_length.from_pivot().validate_larger_than(self.brace_height) {
            return Err(ModelError::DimensionsInvalidDrawLength(v));
        }
        if let Err(v) = self.nock_offset.validate_finite() {
            return Err(ModelError::DimensionsInvalidBraceHeight(v));
        }
        Ok(())
    }
}

/// A rigid handle between the limbs: the two halves of its length, extending
/// from the pivot toward the upper and the lower limb, its angle and the
/// position of its pivot.
#[derive(Clone, Debug, PartialEq)]
pub struct RigidHandle {
    pub length_upper: Binary64,
    pub length_lower: Binary64,
    pub angle: Binary64,
    pub pivot: Binary64,
}

/// A flexible grip meshed with beam elements: the geometry of a rigid handle,
/// the number of elements of each half and the grip's cross-section.
#[derive(Clone, Debug, PartialEq)]
pub struct BeamHandle {
    pub length_upper: Binary64,
    pub length_lower: Binary64,
    pub angle: Binary64,
    pub pivot: Binary64,
    pub n_elements_upper: usize,
    pub n_elements_lower: usize,
    pub section: LimbSection,
}

impl RigidHandle {
    /// The total length of the handle, the sum of its two halves.
    pub fn total_length(&self) -> (r: Binary64)
        ensures
            r == self.length_upper.sum(self.length_lower),
    {
        self.length_upper.plus(&self.length_lower)
    }

    /// The signed offset of the handle's geometric centre from the pivot
    /// point, half the difference of the upper and the lower length: positive
    /// only when the centre sits above the pivot (the upper half is longer),
    /// negative only when it sits below.
    pub fn center_offset(&self) -> (r: Binary64)
        ensures
            r == self.length_upper.difference(self.length_lower).halved(),
            self.length_upper.finite() && self.length_lower.finite() ==> {
                &&& Binary64::zero_pattern().less_than(r) ==> self.length_lower.less_than(
                    self.length_upper,
                )
                &&& r.less_than(Binary64::zero_pattern()) ==> self.length_upper.less_than(
                    self.length_lower,
                )
            },
    {
        let d = self.length_upper.minus(&self.length_lower);
        proof {
            crate::rounding::lemma_round_zero();
            vstd::arithmetic::power2::lemma_pow2_pos(2098);
        }
        d.half()
    }
}

impl BeamHandle {
    /// The total length of the grip, the sum of its two halves.
    pub fn total_length(&self) -> (r: Binary64)
        ensures
            r == self.length_upper.sum(self.length_lower),
    {
        self.length_upper.plus(&self.length_lower)
    }

    /// The signed offset of the grip's geometric centre from the pivot point,
    /// half the difference of the upper and the lower length: positive only
    /// when the upper half is longer, negative only when the lower one is.
    pub fn center_offset(&self) -> (r: Binary64)
        ensures
            r == self.length_upper.difference(self.length_lower).halved(),
            self.length_upper.finite() && self.length_lower.finite() ==> {
                &&& Binary64::zero_pattern().less_than(r) ==> self.length_lower.less_than(
                    self.length_upper,
                )
                &&& r.less_than(Binary64::zero_pattern()) ==> self.length_upper.less_than(
                    self.length_lower,
                )
            },
    {
        let d = self.length_upper.minus(&self.length_lower);
        proof {
            crate::rounding::lemma_round_zero();
            vstd::arithmetic::power2::lemma_pow2_pos(2098);
        }
        d.half()
    }

    /// The number of elements of a grip half when a file gives none.
    pub fn default_n_elements() -> (r: usize)
        ensures
            r == 4,
    {
        4
    }
}

#[derive(Clone, Debug, PartialEq)]
pub enum Handle {
    Flexible,
    Rigid(RigidHandle),
    Beam(BeamHandle),
}

impl Handle {
    /// What validating the handle gives: a rigid handle needs finite lengths
    /// zero or above and a finite angle and pivot; a beam handle needs finite
    /// lengths above zero, a finite angle and pivot, element counts above
    /// zero (reported as limb element errors) and a valid section.
    pub open spec fn validation(self) -> Result<(), ModelError> {
        match self {
            Handle::Flexible => Ok(()),
            Handle::Rigid(h) => {
                if !h.length_upper.nonneg_finite() {
                    Err(ModelError::HandleInvalidLength(h.length_upper))
                } else if !h.length_lower.nonneg_finite() {
                    Err(ModelError::HandleInvalidLength(h.length_lower))
                } else if !h.angle.finite() {
                    Err(ModelError::HandleInvalidAngle(h.angle))
                } else if !h.pivot.finite() {
                    Err(ModelError::HandleInvalidPivot(h.pivot))
                } else {
                    Ok(())
                }
            },
            Handle::Beam(h) => {
                if !h.length_upper.positive_finite() {
                    Err(ModelError::HandleInvalidLength(h.length_upper))
                } else if !h.length_lower.positive_finite() {
                    Err(ModelError::HandleInvalidLength(h.length_lower))
                } else if !h.angle.finite() {
                    Err(ModelError::HandleInvalidAngle(h.angle))
                } else if !h.pivot.finite() {
                    Err(ModelError::HandleInvalidPivot(h.pivot))
                } else if h.n_elements_upper == 0 {
                    Err(ModelError::SettingsInvalidLimbElements(h.n_elements_upper))
                } else if h.n_elements_lower == 0 {
                    Err(ModelError::SettingsInvalidLimbElements(h.n_elements_lower))
                } else {
                    h.section.validation()
                }
            },
        }
    }

    pub fn validate(&self) -> (r: Result<(), ModelError>)
        ensures
            r == self.validation(),
    {
        match self {
            Handle::Flexible => {},
            Handle::Rigid(h) => {
                if let Err(v) = h.length_upper.validate_nonneg() {
                    return Err(ModelError::HandleInvalidLength(v));
                }
                if let Err(v) = h.length_lower.validate_nonneg() {
                    return Err(ModelError::HandleInvalidLength(v));
                }
                if let Err(v) = h.angle.validate_finite() {
                    return Err(ModelError::HandleInvalidAngle(v));
                }
                if let Err(v) = h.pivot.validate_finite() {
                    return Err(ModelError::HandleInvalidPivot(v));
                }
            },
            Handle::Beam(h) => {
                if let Err(v) = h.length_upper.validate_positive() {
                    return Err(ModelError::HandleInvalidLength(v));
                }
                if let Err(v) = h.length_lower.validate_positive() {
                    return Err(ModelError::HandleInvalidLength(v));
                }
                if let Err(v) = h.angle.validate_finite() {
                    return Err(ModelError::HandleInvalidAngle(v));
                }
                if let Err(v) = h.pivot.validate_finite() {
                    return Err(ModelError::HandleInvalidPivot(v));
                }
                if let Err(v) = validate_count_positive(h.n_elements_upper) {
                    return Err(ModelError::SettingsInvalidLimbElements(v));
                }
                if let Err(v) = validate_count_positive(h.n_elements_lower) {
                    return Err(ModelError::SettingsInvalidLimbElements(v));
                }
                return h.section.validate();
            },
        }
        Ok(())
    }

    /// The equivalent rigid handle: a rigid handle as it is; a flexible
    /// handle is a rigid one of length, angle and pivot zero; a beam handle
    /// keeps its lengths, angle and pivot.
    pub fn to_rigid(&self) -> (r: RigidHandle)
        ensures
            r == (match *self {
                Handle::Rigid(h) => h,
                Handle::Flexible => RigidHandle {
                    length_upper: Binary64::zero_pattern(),
                    length_lower: Binary64::zero_pattern(),
                    angle: Binary64::zero_pattern(),
                    pivot: Binary64::zero_pattern(),
                },
                Handle::Beam(b) => RigidHandle {
                    length_upper: b.length_upper,
                    length_lower: b.length_lower,
                    angle: b.angle,
                    pivot: b.pivot,
                },
            }),
    {
        match self {
            Handle::Rigid(h) => RigidHandle {
                length_upper: h.length_upper,
                length_lower: h.length_lower,
                angle: h.angle,
                pivot: h.pivot,
            },
            Handle::Flexible => RigidHandle {
                length_upper: Binary64::zero(),
                length_lower: Binary64::zero(),
                angle: Binary64::zero(),
                pivot: Binary64::zero(),
            },
            Handle::Beam(b) => RigidHandle {
                length_upper: b.length_upper,
                length_lower: b.length_lower,
                angle: b.angle,
                pivot: b.pivot,
            },
        }
    }

    /// The grip cross-section of a beam handle; none for the other handles.
    pub fn beam_section(&self) -> (r: Option<&LimbSection>)
        ensures
            r == (match *self {
                Handle::Beam(b) => Some(&b.section),
                _ => None::<&LimbSection>,
            }),
    {
        match self {
            Handle::Beam(b) => Some(&b.section),
            _ => None,
        }
    }
}

/// The mass of the arrow: absolute, or relative to the final draw force or
/// to the final drawing work.
#[derive(Clone, Debug, PartialEq)]
pub enum ArrowMass {
    Mass(Binary64),
    MassPerForce(Binary64),
    MassPerEnergy(Binary64),
}

/// Identifier of one of the two limbs.
#[derive(Clone, Copy, Debug, PartialEq, Eq, Hash)]
pub enum LimbSide {
    Upper,
    Lower,
}

impl LimbSide {
    /// Both sides, upper first.
    pub fn all() -> (r: [LimbSide; 2])
        ensures
            r@ == seq![LimbSide::Upper, LimbSide::Lower],
    {
        [LimbSide::Upper, LimbSide::Lower]
    }

    /// +1 for the upper limb, -1 for the lower limb.
    pub fn sign(self) -> (r: Binary64)
        ensures
            r == (match self {
                LimbSide::Upper => Binary64::one_pattern(),
                LimbSide::Lower => Binary64::minus_one_pattern(),
            }),
    {
        match self {
            LimbSide::Upper => Binary64::one(),
            LimbSide::Lower => Binary64::minus_one(),
        }
    }

    /// The side's name.
    pub fn label(self) -> (r: &'static str)
        ensures
            r@ == (match self {
                LimbSide::Upper => "upper"@,
                LimbSide::Lower => "lower"@,
            }),
    {
        match self {
            LimbSide::Upper => "upper",
            LimbSide::Lower => "lower",
        }
    }
}

impl Default for LimbSide {
    fn default() -> (r: LimbSide)
        ensures
            r == LimbSide::Upper,
    {
        LimbSide::Upper
    }
}

/// The point masses on the bow: the arrow, the limb tips, the nocking point
/// of the string and the string ends.
#[derive(Clone, Debug, PartialEq)]
pub struct Masses {
    pub arrow: ArrowMass,
    pub limb_tip_upper: Binary64,
    pub limb_tip_lower: Binary64,
    pub string_nock: Binary64,
    pub string_tip_upper: Binary64,
    pub string_tip_lower: Binary64,
}

impl Masses {
    /// What validating the masses gives: an arrow mass (of any kind) finite
    /// and above zero, the other masses finite and zero or above.
    pub open spec fn validation(self) -> Result<(), ModelError> {
        let arrow_check = match self.arrow {
            ArrowMass::Mass(m) => if m.positive_finite() {
                Ok(())
            } else {
                Err(ModelError::MassesInvalidArrowMass(m))
            },
            ArrowMass::MassPerForce(m) => if m.positive_finite() {
                Ok(())
            } else {
                Err(ModelError::MassesInvalidArrowMassPerForce(m))
            },
            ArrowMass::MassPerEnergy(m) => if m.positive_finite() {
                Ok(())
            } else {
                Err(ModelError::MassesInvalidArrowMassPerEnergy(m))
            },
        };
        let rest = if !self.limb_tip_upper.nonneg_finite() {
            Err(ModelError::MassesInvalidLimbTipMass(self.limb_tip_upper))
        } else if !self.limb_tip_lower.nonneg_finite() {
            Err(ModelError::MassesInvalidLimbTipMass(self.limb_tip_lower))
        } else if !self.string_nock.nonneg_finite() {
            Err(ModelError::MassesInvalidStringCenterMass(self.string_nock))
        } else if !self.string_tip_upper.nonneg_finite() {
            Err(ModelError::MassesInvalidStringTipMass(self.string_tip_upper))
        } else if !self.string_tip_lower.nonneg_finite() {
            Err(ModelError::MassesInvalidStringTipMass(self.string_tip_lower))
        } else {
            Ok(())
        };
        then(arrow_check, rest)
    }

    pub fn validate(&self) -> (r: Result<(), ModelError>)
        ensures
            r == self.validation(),
    {
        match &self.arrow {
            ArrowMass::Mass(m) => {
                if let Err(v) = m.validate_positive() {
                    return Err(ModelError::MassesInvalidArrowMass(v));
                }
            },
            ArrowMass::MassPerForce(m) => {
                if let Err(v) = m.validate_positive() {
                    return Err(ModelError::MassesInvalidArrowMassPerForce(v));
                }
            },
            ArrowMass::MassPerEnergy(m) => {
                if let Err(v) = m.validate_positive() {
                    return Err(ModelError::MassesInvalidArrowMassPerEnergy(v));
                }
            },
        }
        if let Err(v) = self.limb_tip_upper.validate_nonneg() {
            return Err(ModelError::MassesInvalidLimbTipMass(v));
        }
        if let Err(v) = self.limb_tip_lower.validate_nonneg() {
            return Err(ModelError::MassesInvalidLimbTipMass(v));
        }
        if let Err(v) = self.string_nock.validate_nonneg() {
            return Err(ModelError::MassesInvalidStringCenterMass(v));
        }
        if let Err(v) = self.string_tip_upper.validate_nonneg() {
            return Err(ModelError::MassesInvalidStringTipMass(v));
        }
        if let Err(v) = self.string_tip_lower.validate_nonneg() {
            return Err(ModelError::MassesInvalidStringTipMass(v));
        }
        Ok(())
    }

    /// The limb tip mass of the given side.
    pub fn limb_tip(&self, side: LimbSide) -> (r: Binary64)
        ensures
            r == (match side {
                LimbSide::Upper => self.limb_tip_upper,
                LimbSide::Lower => self.limb_tip_lower,
            }),
    {
        match side {
            LimbSide::Upper => self.limb_tip_upper,
            LimbSide::Lower => self.limb_tip_lower,
        }
    }

    /// The string tip mass of the given side.
    pub fn string_tip(&self, side: LimbSide) -> (r: Binary64)
        ensures
            r == (match side {
                LimbSide::Upper => self.string_tip_upper,
                LimbSide::Lower => self.string_tip_lower,
            }),
    {
        match side {
            LimbSide::Upper => self.string_tip_upper,
            LimbSide::Lower => self.string_tip_lower,
        }
    }
}

impl Profile {
    /// The segments of the given side.
    pub fn for_side(&self, side: LimbSide) -> (r: &Vec<ProfileSegment>)
        ensures
            r == (match side {
                LimbSide::Upper => &self.upper,
                LimbSide::Lower => &self.lower,
            }),
    {
        match side {
            LimbSide::Upper => &self.upper,
            LimbSide::Lower => &self.lower,
        }
    }
}

impl Section {
    /// The limb section of the given side.
    pub fn for_side(&self, side: LimbSide) -> (r: &LimbSection)
        ensures
            r == (match side {
                LimbSide::Upper => &self.upper,
                LimbSide::Lower => &self.lower,
            }),
    {
        match side {
            LimbSide::Upper => &self.upper,
            LimbSide::Lower => &self.lower,
        }
    }
}

/// Which parts of a bow the editor presents as symmetric (the same on both
/// limbs): the profile, the width, the layers.
#[derive(Clone, Copy, Debug, PartialEq, Eq)]
pub struct Symmetry {
    pub profile: bool,
    pub width: bool,
    pub layers: bool,
}

impl Symmetry {
    /// Every part marked symmetric.
    pub open spec fn all_symmetric() -> Symmetry {
        Symmetry { profile: true, width: true, layers: true }
    }

    /// No part marked symmetric.
    pub open spec fn none_symmetric() -> Symmetry {
        Symmetry { profile: false, width: false, layers: false }
    }
}

impl Default for Symmetry {
    /// No part marked symmetric, as for a file that gives no symmetry flags.
    fn default() -> (r: Symmetry)
        ensures
            r == Symmetry::none_symmetric(),
    {
        Symmetry { profile: false, width: false, layers: false }
    }
}

/// A bow model in the latest file format.
#[derive(Clone, Debug, PartialEq)]
pub struct BowModel {
    pub comment: String,
    pub settings: Settings,
    pub handle: Handle,
    pub draw: Draw,
    pub profile: Profile,
    pub section: Section,
    pub string: BowString,
    pub masses: Masses,
    pub damping: Damping,
    pub symmetry: Symmetry,
}

impl BowModel {
    /// What validating the model gives: settings, handle, draw, profile,
    /// section, string, masses and damping are checked in this order and the
    /// first error is reported.
    pub open spec fn validation(self) -> Result<(), ModelError> {
        then(
            self.settings.validation(),
            then(
                self.handle.validation(),
                then(
                    self.draw.validation(),
                    then(
                        self.profile.validation(),
                        then(
                            self.section.validation(),
                            then(
                                self.string.validation(),
                                then(self.masses.validation(), self.damping.validation()),
                            ),
                        ),
                    ),
                ),
            ),
        )
    }

    pub fn validate(&self) -> (r: Result<(), ModelError>)
        ensures
            r == self.validation(),
            r is Ok <==> {
                &&& self.settings.validation() is Ok
                &&& self.handle.validation() is Ok
                &&& self.draw.validation() is Ok
                &&& self.profile.validation() is Ok
                &&& self.section.validation() is Ok
                &&& self.string.validation() is Ok
                &&& self.masses.validation() is Ok
                &&& self.damping.validation() is Ok
            },
    {
        let r = self.settings.validate();
        if r.is_err() {
            return r;
        }
        let r = self.handle.validate();
        if r.is_err() {
            return r;
        }
        let r = self.draw.validate();
        if r.is_err() {
            return r;
        }
        let r = self.profile.validate();
        if r.is_err() {
            return r;
        }
        let r = self.section.validate();
        if r.is_err() {
            return r;
        }
        let r = self.string.validate();
        if r.is_err() {
            return r;
        }
        let r = self.masses.validate();
        if r.is_err() {
            return r;
        }
        self.damping.validate()
    }
}


// Views: the contents of the model values, with each vector seen as the
// sequence of the views of its items.

impl View for Width {
    type V = Seq<[Binary64; 2]>;

    open spec fn view(&self) -> Seq<[Binary64; 2]> {
        self.0@
    }
}

impl View for Height {
    type V = Seq<[Binary64; 2]>;

    open spec fn view(&self) -> Seq<[Binary64; 2]> {
        self.0@
    }
}

/// The contents of a profile segment.
pub enum SegmentView {
    Line(Line),
    Arc(Arc),
    Spiral(Spiral),
    Spline(Seq<[Binary64; 2]>),
}

impl View for ProfileSegment {
    type V = SegmentView;

    open spec fn view(&self) -> SegmentView {
        match *self {
            ProfileSegment::Line(s) => SegmentView::Line(s),
            ProfileSegment::Arc(s) => SegmentView::Arc(s),
            ProfileSegment::Spiral(s) => SegmentView::Spiral(s),
            ProfileSegment::Spline(s) => SegmentView::Spline(s.points@),
        }
    }
}

/// The contents of a list of segments.
pub open spec fn segments_view(segments: Seq<ProfileSegment>) -> Seq<SegmentView> {
    segments.map_values(|s: ProfileSegment| s@)
}

/// The contents of a layer.
pub struct LayerView {
    pub name: String,
    pub material: String,
    pub height: Seq<[Binary64; 2]>,
}

impl View for Layer {
    type V = LayerView;

    open spec fn view(&self) -> LayerView {
        LayerView { name: self.name, material: self.material, height: self.height@ }
    }
}

/// The contents of a list of layers.
pub open spec fn layers_view(layers: Seq<Layer>) -> Seq<LayerView> {
    layers.map_values(|l: Layer| l@)
}

/// The contents of a limb section.
pub struct LimbSectionView {
    pub alignment: LayerAlignment,
    pub width: Seq<[Binary64; 2]>,
    pub layers: Seq<LayerView>,
}

impl View for LimbSection {
    type V = LimbSectionView;

    open spec fn view(&self) -> LimbSectionView {
        LimbSectionView {
            alignment: self.alignment,
            width: self.width@,
            layers: layers_view(self.layers@),
        }
    }
}

/// The contents of the section data.
pub struct SectionView {
    pub materials: Seq<Material>,
    pub upper: LimbSectionView,
    pub lower: LimbSectionView,
}

impl View for Section {
    type V = SectionView;

    open spec fn view(&self) -> SectionView {
        SectionView { materials: self.materials@, upper: self.upper@, lower: self.lower@ }
    }
}

/// The contents of a profile.
pub struct ProfileView {
    pub upper: Seq<SegmentView>,
    pub lower: Seq<SegmentView>,
}

impl View for Profile {
    type V = ProfileView;

    open spec fn view(&self) -> ProfileView {
        ProfileView { upper: segments_view(self.upper@), lower: segments_view(self.lower@) }
    }
}

/// The contents of a beam handle.
pub struct BeamHandleView {
    pub length_upper: Binary64,
    pub length_lower: Binary64,
    pub angle: Binary64,
    pub pivot: Binary64,
    pub n_elements_upper: usize,
    pub n_elements_lower: usize,
    pub section: LimbSectionView,
}

/// The contents of a handle.
pub enum HandleView {
    Flexible,
    Rigid(RigidHandle),
    Beam(BeamHandleView),
}

impl View for Handle {
    type V = HandleView;

    open spec fn view(&self) -> HandleView {
        match *self {
            Handle::Flexible => HandleView::Flexible,
            Handle::Rigid(h) => HandleView::Rigid(h),
            Handle::Beam(b) => HandleView::Beam(
                BeamHandleView {
                    length_upper: b.length_upper,
                    length_lower: b.length_lower,
                    angle: b.angle,
                    pivot: b.pivot,
                    n_elements_upper: b.n_elements_upper,
                    n_elements_lower: b.n_elements_lower,
                    section: b.section@,
                },
            ),
        }
    }
}

/// The contents of a bow model.
pub struct BowModelView {
    pub comment: String,
    pub settings: Settings,
    pub handle: HandleView,
    pub draw: Draw,
    pub profile: ProfileView,
    pub section: SectionView,
    pub string: BowString,
    pub masses: Masses,
    pub damping: Damping,
    pub symmetry: Symmetry,
}

impl View for BowModel {
    type V = BowModelView;

    open spec fn view(&self) -> BowModelView {
        BowModelView {
            comment: self.comment,
            settings: self.settings,
            handle: self.handle@,
            draw: self.draw,
            profile: self.profile@,
            section: self.section@,
            string: self.string,
            masses: self.masses,
            damping: self.damping,
            symmetry: self.symmetry,
        }
    }
}

// Copies with the same contents.

/// A copy of a list of control points.
pub fn copy_points(points: &Vec<[Binary64; 2]>) -> (r: Vec<[Binary64; 2]>)
    ensures
        r@ == points@,
{
    let n = points.len();
    let mut r: Vec<[Binary64; 2]> = Vec::new();
    let mut i: usize = 0;
    while i < n
        invariant
            n == points@.len(),
            i <= n,
            r@ == points@.subrange(0, i as int),
        decreases n - i,
    {
        r.push(points[i]);
        i = i + 1;
    }
    r
}

impl Width {
    /// A copy with the same control points.
    pub fn duplicate(&self) -> (r: Width)
        ensures
            r@ == self@,
    {
        Width(copy_points(&self.0))
    }
}

impl Height {
    /// A copy with the same control points.
    pub fn duplicate(&self) -> (r: Height)
        ensures
            r@ == self@,
    {
        Height(copy_points(&self.0))
    }
}

impl ProfileSegment {
    /// A copy with the same contents.
    pub fn duplicate(&self) -> (r: ProfileSegment)
        ensures
            r@ == self@,
    {
        match self {
            ProfileSegment::Line(s) => ProfileSegment::Line(Line { length: s.length }),
            ProfileSegment::Arc(s) => ProfileSegment::Arc(Arc { length: s.length, radius: s.radius }),
            ProfileSegment::Spiral(s) => ProfileSegment::Spiral(
                Spiral { length: s.length, radius_start: s.radius_start, radius_end: s.radius_end },
            ),
            ProfileSegment::Spline(s) => ProfileSegment::Spline(Spline { points: copy_points(&s.points) }),
        }
    }
}

/// A copy of a list of segments.
pub fn copy_segments(segments: &Vec<ProfileSegment>) -> (r: Vec<ProfileSegment>)
    ensures
        segments_view(r@) == segments_view(segments@),
{
    let n = segments.len();
    let mut r: Vec<ProfileSegment> = Vec::new();
    let mut i: usize = 0;
    while i < n
        invariant
            n == segments@.len(),
            i <= n,
            r@.len() == i,
            forall|j: int| 0 <= j < i ==> (#[trigger] r@[j])@ == segments@[j]@,
        decreases n - i,
    {
        r.push(segments[i].duplicate());
        i = i + 1;
    }
    assert(segments_view(r@) =~= segments_view(segments@));
    r
}

impl LayerAlignment {
    /// A copy with the same contents.
    pub fn duplicate(&self) -> (r: LayerAlignment)
        ensures
            r == *self,
    {
        match self {
            LayerAlignment::SectionBack => LayerAlignment::SectionBack,
            LayerAlignment::SectionBelly => LayerAlignment::SectionBelly,
            LayerAlignment::SectionCenter => LayerAlignment::SectionCenter,
            LayerAlignment::LayerBack(n) => LayerAlignment::LayerBack(n.clone()),
            LayerAlignment::LayerBelly(n) => LayerAlignment::LayerBelly(n.clone()),
            LayerAlignment::LayerCenter(n) => LayerAlignment::LayerCenter(n.clone()),
        }
    }
}

impl Layer {
    /// A copy with the same contents.
    pub fn duplicate(&self) -> (r: Layer)
        ensures
            r@ == self@,
    {
        Layer { name: self.name.clone(), material: self.material.clone(), height: self.height.duplicate() }
    }
}

/// A copy of a list of layers.
pub fn copy_layers(layers: &Vec<Layer>) -> (r: Vec<Layer>)
    ensures
        layers_view(r@) == layers_view(layers@),
{
    let n = layers.len();
    let mut r: Vec<Layer> = Vec::new();
    let mut i: usize = 0;
    while i < n
        invariant
            n == layers@.len(),
            i <= n,
            r@.len() == i,
            forall|j: int| 0 <= j < i ==> (#[trigger] r@[j])@ == layers@[j]@,
        decreases n - i,
    {
        r.push(layers[i].duplicate());
        i = i + 1;
    }
    assert(layers_view(r@) =~= layers_view(layers@));
    r
}

impl LimbSection {
    /// A copy with the same contents.
    pub fn duplicate(&self) -> (r: LimbSection)
        ensures
            r@ == self@,
    {
        LimbSection {
            alignment: self.alignment.duplicate(),
            width: self.width.duplicate(),
            layers: copy_layers(&self.layers),
        }
    }
}

impl Profile {
    /// A symmetric profile: the given segments on both limbs.
    pub fn new(segments: Vec<ProfileSegment>) -> (r: Profile)
        ensures
            r@.upper == segments_view(segments@),
            r@.lower == segments_view(segments@),
    {
        Profile { upper: copy_segments(&segments), lower: segments }
    }
}

impl Section {
    /// A symmetric section: the same limb section on both limbs.
    pub fn new(alignment: LayerAlignment, width: Width, materials: Vec<Material>, layers: Vec<Layer>) -> (r: Section)
        ensures
            r.materials@ == materials@,
            r@.upper == (LimbSectionView { alignment, width: width@, layers: layers_view(layers@) }),
            r@.lower == r@.upper,
    {
        let limb = LimbSection { alignment, width, layers };
        Section { materials, upper: limb.duplicate(), lower: limb }
    }
}


impl BowModel {
    /// A simple example bow: flexible handle, brace height 0.2, standard draw
    /// length 0.7, both limbs a single line of length 0.8 with a linear width
    /// from 0.04 to 0.01 and one layer of linear height from 0.015 to 0.01
    /// (material density 675, Young's modulus 12e9, shear modulus 6e9), a
    /// string of 12 strands (density 0.0005, stiffness 3500), an arrow of
    /// 0.025, no further masses, damping ratios 0.05 and default settings.
    pub fn example() -> (r: BowModel)
        ensures
            r.validation() is Ok,
            r.comment@ == Seq::<char>::empty(),
            r.settings == default_settings(),
            r.handle == Handle::Flexible,
            r.draw == (Draw {
                brace_height: Binary64 { bits: 0x3fc9_9999_9999_999a },
                draw_length: DrawLength::Standard(Binary64 { bits: 0x3fe6_6666_6666_6666 }),
                nock_offset: Binary64::zero_pattern(),
            }),
            r@.profile.upper == seq![SegmentView::Line(Line { length: Binary64 { bits: 0x3fe9_9999_9999_999a } })],
            r@.profile.lower == r@.profile.upper,
            r@.section.upper.alignment == LayerAlignment::SectionBack,
            r@.section.upper.width == seq![
                [Binary64::zero_pattern(), Binary64 { bits: 0x3fa4_7ae1_47ae_147b }],
                [Binary64::one_pattern(), Binary64 { bits: 0x3f84_7ae1_47ae_147b }],
            ],
            r@.section.upper.layers.len() == 1,
            r@.section.upper.layers[0].name@ == "Layer 1"@,
            r@.section.upper.layers[0].material@ == "Material 1"@,
            r@.section.upper.layers[0].height == seq![
                [Binary64::zero_pattern(), Binary64 { bits: 0x3f8e_b851_eb85_1eb8 }],
                [Binary64::one_pattern(), Binary64 { bits: 0x3f84_7ae1_47ae_147b }],
            ],
            r@.section.lower == r@.section.upper,
            r.section.materials@.len() == 1,
            r.section.materials@[0].name@ == "Material 1"@,
            r.section.materials@[0].color@ == "#d0b391"@,
            r.section.materials@[0].density == (Binary64 { bits: 0x4085_1800_0000_0000 }),
            r.section.materials@[0].youngs_modulus == (Binary64 { bits: 0x4206_5a0b_c000_0000 }),
            r.section.materials@[0].shear_modulus == (Binary64 { bits: 0x41f6_5a0b_c000_0000 }),
            r.section.materials@[0].tensile_strength == Binary64::zero_pattern(),
            r.section.materials@[0].compressive_strength == Binary64::zero_pattern(),
            r.section.materials@[0].safety_margin == Binary64::zero_pattern(),
            r.string == (BowString {
                n_strands: 12,
                strand_density: Binary64 { bits: 0x3f40_624d_d2f1_a9fc },
                strand_stiffness: Binary64 { bits: 0x40ab_5800_0000_0000 },
            }),
            r.masses == (Masses {
                arrow: ArrowMass::Mass(Binary64 { bits: 0x3f99_9999_9999_999a }),
                limb_tip_upper: Binary64::zero_pattern(),
                limb_tip_lower: Binary64::zero_pattern(),
                string_nock: Binary64::zero_pattern(),
                string_tip_upper: Binary64::zero_pattern(),
                string_tip_lower: Binary64::zero_pattern(),
            }),
            r.damping == (Damping {
                damping_ratio_limbs: Binary64 { bits: 0x3fa9_9999_9999_999a },
                damping_ratio_string: Binary64 { bits: 0x3fa9_9999_9999_999a },
            }),
            r.symmetry == Symmetry::none_symmetric(),
    {
        let limb = LimbSection {
            alignment: LayerAlignment::SectionBack,
            width: Width::linear(
                Binary64::from_bits(0x3fa4_7ae1_47ae_147b),
                Binary64::from_bits(0x3f84_7ae1_47ae_147b),
            ),
            layers: vec![
                Layer {
                    name: "Layer 1".to_owned(),
                    material: "Material 1".to_owned(),
                    height: Height::linear(
                        Binary64::from_bits(0x3f8e_b851_eb85_1eb8),
                        Binary64::from_bits(0x3f84_7ae1_47ae_147b),
                    ),
                },
            ],
        };
        let material = Material {
            name: "Material 1".to_owned(),
            color: "#d0b391".to_owned(),
            density: Binary64::from_bits(0x4085_1800_0000_0000),
            youngs_modulus: Binary64::from_bits(0x4206_5a0b_c000_0000),
            shear_modulus: Binary64::from_bits(0x41f6_5a0b_c000_0000),
            tensile_strength: Binary64::zero(),
            compressive_strength: Binary64::zero(),
            safety_margin: Binary64::zero(),
        };
        let upper_limb = limb.duplicate();
        let section = Section { materials: vec![material], upper: upper_limb, lower: limb };
        let segment = ProfileSegment::Line(Line::new(Binary64::from_bits(0x3fe9_9999_9999_999a)));
        let profile = Profile { upper: vec![segment.duplicate()], lower: vec![segment] };
        let r = BowModel {
            comment: String::new(),
            settings: Settings::default(),
            handle: Handle::Flexible,
            draw: Draw {
                brace_height: Binary64::from_bits(0x3fc9_9999_9999_999a),
                draw_length: DrawLength::Standard(Binary64::from_bits(0x3fe6_6666_6666_6666)),
                nock_offset: Binary64::zero(),
            },
            section,
            profile,
            string: BowString {
                n_strands: 12,
                strand_density: Binary64::from_bits(0x3f40_624d_d2f1_a9fc),
                strand_stiffness: Binary64::from_bits(0x40ab_5800_0000_0000),
            },
            masses: Masses {
                arrow: ArrowMass::Mass(Binary64::from_bits(0x3f99_9999_9999_999a)),
                limb_tip_upper: Binary64::zero(),
                limb_tip_lower: Binary64::zero(),
                string_nock: Binary64::zero(),
                string_tip_upper: Binary64::zero(),
                string_tip_lower: Binary64::zero(),
            },
            damping: Damping {
                damping_ratio_limbs: Binary64::from_bits(0x3fa9_9999_9999_999a),
                damping_ratio_string: Binary64::from_bits(0x3fa9_9999_9999_999a),
            },
            symmetry: Symmetry::default(),
        };
        assert(r@.profile.upper =~= seq![SegmentView::Line(Line { length: Binary64 { bits: 0x3fe9_9999_9999_999a } })]);
        assert(r@.profile.lower =~= r@.profile.upper);
        proof {
            let st = default_settings();
            lemma_positive_pattern(st.static_iteration_tolerance);
            lemma_positive_pattern(st.arrow_clamp_force);
            lemma_positive_pattern(st.timespan_factor);
            lemma_positive_pattern(st.timeout_factor);
            lemma_positive_pattern(st.max_timestep);
            lemma_key_order(Binary64::one_pattern(), st.timespan_factor);
            lemma_key_order(Binary64::one_pattern(), st.timeout_factor);
            lemma_positive_pattern(r.draw.brace_height);
            lemma_positive_pattern(r.draw.draw_length.measured_from_pivot());
            lemma_key_order(r.draw.brace_height, r.draw.draw_length.measured_from_pivot());
        }
        proof {
            let zero = Binary64::zero_pattern();
            let one = Binary64::one_pattern();
            crate::binary64::lemma_magnitude_value_zero(0);
            lemma_key_order(zero, one);
            lemma_key_order(zero, zero);
            // The profile: one line of positive length on each limb.
            lemma_positive_pattern(Binary64 { bits: 0x3fe9_9999_9999_999a });
            assert(r.profile.upper@[0].validation(0) is Ok);
            assert(r.profile.lower@[0].validation(0) is Ok);
            lemma_first_error_ok(1, |i: int| r.profile.upper@[i].validation(i as usize));
            lemma_first_error_ok(1, |i: int| r.profile.lower@[i].validation(i as usize));
            // The material.
            reveal_strlit("Material 1");
            reveal_strlit("Layer 1");
            reveal_strlit("#d0b391");
            let mat = r.section.materials@[0];
            lemma_positive_pattern(mat.density);
            lemma_positive_pattern(mat.youngs_modulus);
            lemma_positive_pattern(mat.shear_modulus);
            assert(is_hex_color(mat.color@));
            assert(mat.validation() is Ok);
            lemma_first_error_ok(1, |i: int| r.section.materials@[i].validation());
            // The limb sections: a linear width and one layer of linear height.
            let w0 = Binary64 { bits: 0x3fa4_7ae1_47ae_147b };
            let w1 = Binary64 { bits: 0x3f84_7ae1_47ae_147b };
            let h0 = Binary64 { bits: 0x3f8e_b851_eb85_1eb8 };
            lemma_positive_pattern(w0);
            lemma_positive_pattern(w1);
            lemma_positive_pattern(h0);
            lemma_linear_width_validation(w0, w1);
            let layer = r.section.lower.layers@[0];
            lemma_linear_height_validation(h0, w1, layer.name);
            assert(layer.validation() is Ok);
            lemma_first_error_ok(1, |i: int| r.section.lower.layers@[i].validation());
            assert(r.section.lower.validation() is Ok);
            lemma_limb_section_validation_view(r.section.upper, r.section.lower);
            // String, masses and damping.
            lemma_positive_pattern(r.string.strand_density);
            lemma_positive_pattern(r.string.strand_stiffness);
            lemma_positive_pattern(Binary64 { bits: 0x3f99_9999_9999_999a });
            let d = Binary64 { bits: 0x3fa9_9999_9999_999a };
            lemma_positive_pattern(d);
            lemma_key_order(zero, d);
            lemma_key_order(d, one);
        }
        r
    }
}


/// A constant width distribution (the one `Width::constant` builds) is valid
/// exactly when the width is finite and above zero.
pub proof fn lemma_constant_width_validation(w: Binary64)
    ensures
        width_points_validation(seq![[Binary64::zero_pattern(), w], [Binary64::one_pattern(), w]])
            is Ok <==> w.positive_finite(),
{
    let zero = Binary64::zero_pattern();
    let one = Binary64::one_pattern();
    let p = seq![[zero, w], [one, w]];
    crate::binary64::lemma_key_order(one, zero);
    reveal_with_fuel(first_index, 3);
    assert(!descends_at(p, 0));
    assert(first_descent(p) == None::<int>);
}

/// A linear width distribution (the one `Width::linear` builds) is valid
/// exactly when both end widths are finite and above zero.
pub proof fn lemma_linear_width_validation(w0: Binary64, w1: Binary64)
    ensures
        width_points_validation(seq![[Binary64::zero_pattern(), w0], [Binary64::one_pattern(), w1]])
            is Ok <==> w0.positive_finite() && w1.positive_finite(),
{
    let zero = Binary64::zero_pattern();
    let one = Binary64::one_pattern();
    let p = seq![[zero, w0], [one, w1]];
    crate::binary64::lemma_key_order(one, zero);
    reveal_with_fuel(first_index, 3);
    assert(!descends_at(p, 0));
    assert(first_descent(p) == None::<int>);
}

/// A linear height distribution (the one `Height::linear` builds) is valid
/// exactly when both end heights are finite and zero or above.
pub proof fn lemma_linear_height_validation(h0: Binary64, h1: Binary64, name: String)
    ensures
        height_points_validation(seq![[Binary64::zero_pattern(), h0], [Binary64::one_pattern(), h1]], name)
            is Ok <==> h0.nonneg_finite() && h1.nonneg_finite(),
{
    let zero = Binary64::zero_pattern();
    let one = Binary64::one_pattern();
    let p = seq![[zero, h0], [one, h1]];
    crate::binary64::lemma_key_order(one, zero);
    crate::binary64::lemma_key_order(zero, one);
    crate::binary64::lemma_key_order(zero, zero);
    crate::binary64::lemma_key_order(one, one);
    reveal_with_fuel(first_index, 3);
    assert(!descends_at(p, 0));
    assert(first_descent(p) == None::<int>);
}

/// Validating a limb section depends on its contents only.
proof fn lemma_limb_section_validation_view(a: LimbSection, b: LimbSection)
    requires
        a@ == b@,
    ensures
        a.validation() == b.validation(),
{
    let n = a.layers@.len();
    assert(layers_view(a.layers@).len() == layers_view(b.layers@).len());
    assert forall|j: int| 0 <= j < n implies #[trigger] a.layers@[j].validation() == b.layers@[j].validation() by {
        assert(layers_view(a.layers@)[j] == layers_view(b.layers@)[j]);
    }
    lemma_first_error_agree(n as int, |i: int| a.layers@[i].validation(), |i: int| b.layers@[i].validation());
}

/// The positions of control points `i` and `i + 1` strictly increase.
pub open spec fn increases_at(points: Seq<[Binary64; 2]>, i: int) -> bool {
    points[i][0].less_than(points[i + 1][0])
}

/// The control points of a valid width: at least two, positions strictly
/// increasing from exactly 0 to exactly 1, every point finite with a width
/// above zero.
pub open spec fn valid_width_points(p: Seq<[Binary64; 2]>) -> bool {
    &&& p.len() >= 2
    &&& forall|i: int| 0 <= i < p.len() - 1 ==> #[trigger] increases_at(p, i)
    &&& p[0][0].equal_to(Binary64::zero_pattern())
    &&& p[p.len() - 1][0].equal_to(Binary64::one_pattern())
    &&& forall|i: int| 0 <= i < p.len() ==> (#[trigger] p[i])[0].finite() && p[i][1].positive_finite()
}

/// A width validates exactly when its control points are those of a valid
/// width.
pub proof fn lemma_width_validation_ok(p: Seq<[Binary64; 2]>)
    ensures
        width_points_validation(p) is Ok <==> valid_width_points(p),
{
    let n = p.len() as int;
    let descends = |i: int| descends_at(p, i);
    let bad = |i: int| bad_width_point(p[i]);
    if width_points_validation(p) is Ok {
        lemma_first_index_none_all(descends, 0, n - 1);
        lemma_first_index_none_all(bad, 0, n);
        assert forall|i: int| 0 <= i < n implies (#[trigger] p[i])[0].finite() && p[i][1].positive_finite() by {
            assert(!bad(i));
        }
        assert forall|i: int| 0 <= i < n - 1 implies #[trigger] increases_at(p, i) by {
            assert(!descends(i));
            assert(p[i][0].finite() && p[i + 1][0].finite());
        }
    }
    if valid_width_points(p) {
        assert forall|j: int| 0 <= j < n - 1 implies !#[trigger] descends(j) by {
            assert(increases_at(p, j));
            assert(p[j][0].finite() && p[j + 1][0].finite());
        }
        lemma_first_index_none(descends, 0, n - 1);
        assert forall|j: int| 0 <= j < n implies !#[trigger] bad(j) by {
            assert(p[j][0].finite() && p[j][1].positive_finite());
        }
        lemma_first_index_none(bad, 0, n);
    }
}

/// The control points of a valid height: at least two; no position at or
/// below the one before it (IEEE `<=`, so a NaN position is never out of
/// order); first and last position finite from 0 to 1, with heights finite
/// and zero or above; interior heights finite and above zero; a height of
/// zero at a first position above 0 and at a last position below 1.
pub open spec fn valid_height_points(p: Seq<[Binary64; 2]>) -> bool {
    let zero = Binary64::zero_pattern();
    let one = Binary64::one_pattern();
    let first = p[0];
    let last = p[p.len() - 1];
    &&& p.len() >= 2
    &&& forall|i: int| 0 <= i < p.len() - 1 ==> !#[trigger] descends_at(p, i)
    &&& first[0].finite_within(zero, one)
    &&& first[1].nonneg_finite()
    &&& last[0].finite_within(zero, one)
    &&& last[1].nonneg_finite()
    &&& forall|i: int| 1 <= i < p.len() - 1 ==> (#[trigger] p[i])[1].positive_finite()
    &&& zero.less_than(first[0]) ==> first[1].equal_to(zero)
    &&& last[0].less_than(one) ==> last[1].equal_to(zero)
}

/// A height validates, under any layer name, exactly when its control
/// points are those of a valid height.
pub proof fn lemma_height_validation_ok(p: Seq<[Binary64; 2]>, name: String)
    ensures
        height_points_validation(p, name) is Ok <==> valid_height_points(p),
{
    let n = p.len() as int;
    let descends = |i: int| descends_at(p, i);
    let thin = |i: int| !p[i][1].positive_finite();
    if height_points_validation(p, name) is Ok {
        lemma_first_index_none_all(descends, 0, n - 1);
        lemma_first_index_none_all(thin, 1, n - 1);
        assert forall|i: int| 0 <= i < n - 1 implies !#[trigger] descends_at(p, i) by {
            assert(!descends(i));
        }
        assert forall|i: int| 1 <= i < n - 1 implies (#[trigger] p[i])[1].positive_finite() by {
            assert(!thin(i));
        }
    }
    if valid_height_points(p) {
        assert forall|j: int| 0 <= j < n - 1 implies !#[trigger] descends(j) by {
            assert(!descends_at(p, j));
        }
        lemma_first_index_none(descends, 0, n - 1);
        assert forall|j: int| 1 <= j < n - 1 implies !#[trigger] thin(j) by {
            assert(p[j][1].positive_finite());
        }
        lemma_first_index_none(thin, 1, n - 1);
    }
}

/// A constant height distribution (the one `Height::constant` builds) is
/// valid exactly when the height is finite and zero or above.
pub proof fn lemma_constant_height_validation(h: Binary64, name: String)
    ensures
        height_points_validation(seq![[Binary64::zero_pattern(), h], [Binary64::one_pattern(), h]], name)
            is Ok <==> h.nonneg_finite(),
{
    let zero = Binary64::zero_pattern();
    let one = Binary64::one_pattern();
    let p = seq![[zero, h], [one, h]];
    crate::binary64::lemma_key_order(one, zero);
    crate::binary64::lemma_key_order(zero, one);
    crate::binary64::lemma_key_order(zero, zero);
    crate::binary64::lemma_key_order(one, one);
    reveal_with_fuel(first_index, 3);
    assert(!descends_at(p, 0));
    assert(first_descent(p) == None::<int>);
}

} // verus!
