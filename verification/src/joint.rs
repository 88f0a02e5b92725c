//! Continuity checks at the joint of the upper and the lower limb.
//!
//! The two-limb model clamps the roots of both limbs to the handle. On a bow
//! with a continuous limb (such as a yumi) the cross-sections at the start of
//! the upper and of the lower limb are the same physical section, so a
//! mismatch there makes a fictitious kink in geometry or material. The checks
//! here are not fatal: they list the mismatches, and an empty list means none.
use vstd::prelude::*;
use crate::binary64::{Binary64, lemma_positive_pattern};
use crate::rounding::{lemma_round_zero, round_significand};
use crate::model::{BowModel, Layer, LayerAlignment, LimbSection, layers_view};

verus! {

/// Widths and heights whose difference is at most this (1e-9) count as equal.
pub const JOINT_TOLERANCE_BITS: u64 = 0x3e11_2e0b_e826_d695;

/// The tolerance, 1e-9.
pub open spec fn joint_tolerance() -> Binary64 {
    Binary64 { bits: JOINT_TOLERANCE_BITS }
}

/// A mismatch between the upper and the lower limb at the joint.
#[derive(Clone, Debug)]
pub enum JointMismatch {
    /// The alignments differ: upper, lower.
    Alignment(LayerAlignment, LayerAlignment),
    /// The widths at the limb start differ: upper, lower.
    Width(Binary64, Binary64),
    /// The numbers of layers differ: upper, lower.
    LayerCount(usize, usize),
    /// The materials of a layer differ: layer index, upper, lower.
    LayerMaterial(usize, String, String),
    /// The heights of a layer at the limb start differ: layer index, upper
    /// and lower layer name, upper and lower height.
    LayerHeight(usize, String, String, Binary64, Binary64),
}

/// The alignments are the same: same variant, same layer name.
pub open spec fn same_alignment(a: LayerAlignment, b: LayerAlignment) -> bool {
    match (a, b) {
        (LayerAlignment::SectionBack, LayerAlignment::SectionBack) => true,
        (LayerAlignment::SectionBelly, LayerAlignment::SectionBelly) => true,
        (LayerAlignment::SectionCenter, LayerAlignment::SectionCenter) => true,
        (LayerAlignment::LayerBack(x), LayerAlignment::LayerBack(y)) => x@ == y@,
        (LayerAlignment::LayerBelly(x), LayerAlignment::LayerBelly(y)) => x@ == y@,
        (LayerAlignment::LayerCenter(x), LayerAlignment::LayerCenter(y)) => x@ == y@,
        _ => false,
    }
}

/// The value of the first control point, if there is one.
pub open spec fn start_value(points: Seq<[Binary64; 2]>) -> Option<Binary64> {
    if points.len() > 0 {
        Some(points[0][1])
    } else {
        None
    }
}

/// Two values differ by more than the tolerance: the magnitude of their
/// binary64 difference is above it. For finite values that is their exact
/// distance, rounded as binary64 rounds it, above the tolerance; an infinity
/// differs from everything but an infinity of the same sign; a NaN differs
/// from nothing.
pub open spec fn differ_beyond_tolerance(a: Binary64, b: Binary64) -> bool {
    if a.nan() || b.nan() {
        false
    } else if a.infinite() || b.infinite() {
        !(a.infinite() && b.infinite() && a.negative() == b.negative())
    } else {
        joint_tolerance().scaled() < round_significand(
            distance(a.scaled(), b.scaled()),
        )
    }
}

/// The distance of two integers.
pub open spec fn distance(x: int, y: int) -> nat {
    if x < y {
        (y - x) as nat
    } else {
        (x - y) as nat
    }
}

/// The mismatch of the alignments, if any.
pub open spec fn alignment_mismatches(u: LimbSection, l: LimbSection) -> Seq<JointMismatch> {
    if same_alignment(u.alignment, l.alignment) {
        seq![]
    } else {
        seq![JointMismatch::Alignment(u.alignment, l.alignment)]
    }
}

/// The mismatch of the widths at the limb start, if both limbs have one.
pub open spec fn width_mismatches(u: LimbSection, l: LimbSection) -> Seq<JointMismatch> {
    match (start_value(u.width@), start_value(l.width@)) {
        (Some(uw), Some(lw)) => if differ_beyond_tolerance(uw, lw) {
            seq![JointMismatch::Width(uw, lw)]
        } else {
            seq![]
        },
        _ => seq![],
    }
}

/// The mismatch of the numbers of layers, if any.
pub open spec fn count_mismatches(u: LimbSection, l: LimbSection) -> Seq<JointMismatch> {
    if u.layers@.len() == l.layers@.len() {
        seq![]
    } else {
        seq![JointMismatch::LayerCount(u.layers@.len() as usize, l.layers@.len() as usize)]
    }
}

/// The mismatches of layer `i`: its material, then its height at the limb
/// start if both layers have one.
pub open spec fn layer_mismatches(i: int, ul: Layer, ll: Layer) -> Seq<JointMismatch> {
    let material: Seq<JointMismatch> = if ul.material@ == ll.material@ {
        seq![]
    } else {
        seq![JointMismatch::LayerMaterial(i as usize, ul.material, ll.material)]
    };
    let height: Seq<JointMismatch> = match (start_value(ul.height@), start_value(ll.height@)) {
        (Some(uh), Some(lh)) => if differ_beyond_tolerance(uh, lh) {
            seq![JointMismatch::LayerHeight(i as usize, ul.name, ll.name, uh, lh)]
        } else {
            seq![]
        },
        _ => seq![],
    };
    material + height
}

/// The mismatches of the first `n` pairs of layers, in order.
pub open spec fn layers_mismatches(us: Seq<Layer>, ls: Seq<Layer>, n: int) -> Seq<JointMismatch>
    decreases n,
{
    if n <= 0 {
        seq![]
    } else {
        layers_mismatches(us, ls, n - 1) + layer_mismatches(n - 1, us[n - 1], ls[n - 1])
    }
}

/// All mismatches at the joint, in order: alignment, width, layer count, then
/// material and height of each layer that both limbs have.
pub open spec fn joint_mismatches(u: LimbSection, l: LimbSection) -> Seq<JointMismatch> {
    let n = if u.layers@.len() < l.layers@.len() {
        u.layers@.len()
    } else {
        l.layers@.len()
    };
    alignment_mismatches(u, l) + width_mismatches(u, l) + count_mismatches(u, l)
        + layers_mismatches(u.layers@, l.layers@, n as int)
}

/// Whether two alignments are the same.
pub fn alignments_match(a: &LayerAlignment, b: &LayerAlignment) -> (r: bool)
    ensures
        r == same_alignment(*a, *b),
{
    match (a, b) {
        (LayerAlignment::SectionBack, LayerAlignment::SectionBack) => true,
        (LayerAlignment::SectionBelly, LayerAlignment::SectionBelly) => true,
        (LayerAlignment::SectionCenter, LayerAlignment::SectionCenter) => true,
        (LayerAlignment::LayerBack(x), LayerAlignment::LayerBack(y)) => *x == *y,
        (LayerAlignment::LayerBelly(x), LayerAlignment::LayerBelly(y)) => *x == *y,
        (LayerAlignment::LayerCenter(x), LayerAlignment::LayerCenter(y)) => *x == *y,
        _ => false,
    }
}

/// The value of the first control point, if there is one.
fn first_value(points: &Vec<[Binary64; 2]>) -> (r: Option<Binary64>)
    ensures
        r == start_value(points@),
{
    if points.len() > 0 {
        Some(points[0][1])
    } else {
        None
    }
}

/// Whether two values differ by more than the tolerance.
pub fn beyond_tolerance(a: Binary64, b: Binary64) -> (r: bool)
    ensures
        r == joint_tolerance().less_than(a.difference(b).absolute()),
        r == differ_beyond_tolerance(a, b),
{
    let tol = Binary64::from_bits(JOINT_TOLERANCE_BITS);
    let d = a.minus(&b);
    let r = d.abs().gt(&tol);
    proof {
        lemma_positive_pattern(tol);
        crate::rounding::lemma_finite_below_overflow(tol.bits as nat);
        vstd::arithmetic::power2::lemma_pow2_pos(2098);
        let y = b.negated();
        assert(y.magnitude() == b.magnitude() && y.negative() != b.negative());
        if a.nan() || b.nan() {
            let x: u64 = if a.nan() { a.bits } else { y.bits };
            assert(x | 0x0008_0000_0000_0000u64 >= x) by (bit_vector);
            assert((x | 0x0008_0000_0000_0000u64 >= 0x8000_0000_0000_0000u64) == (x
                >= 0x8000_0000_0000_0000u64)) by (bit_vector);
            assert(d.nan());
        } else if a.infinite() || b.infinite() {
        } else {
            assert(a.scaled() + y.scaled() == a.scaled() - b.scaled());
        }
    }
    r
}

impl BowModel {
    /// The mismatches between the upper and the lower limb section at the
    /// joint; empty when there are none.
    pub fn continuity_warnings(&self) -> (r: Vec<JointMismatch>)
        ensures
            r@ == joint_mismatches(self.section.upper, self.section.lower),
    {
        let u = &self.section.upper;
        let l = &self.section.lower;
        let mut w: Vec<JointMismatch> = Vec::new();
        if !alignments_match(&u.alignment, &l.alignment) {
            w.push(JointMismatch::Alignment(u.alignment.duplicate(), l.alignment.duplicate()));
        }
        if let (Some(uw), Some(lw)) = (first_value(&u.width.0), first_value(&l.width.0)) {
            if beyond_tolerance(uw, lw) {
                w.push(JointMismatch::Width(uw, lw));
            }
        }
        if u.layers.len() != l.layers.len() {
            w.push(JointMismatch::LayerCount(u.layers.len(), l.layers.len()));
        }
        let ghost head = alignment_mismatches(*u, *l) + width_mismatches(*u, *l) + count_mismatches(
            *u,
            *l,
        );
        assert(w@ == head);
        let n = if u.layers.len() < l.layers.len() {
            u.layers.len()
        } else {
            l.layers.len()
        };
        let mut i: usize = 0;
        while i < n
            invariant
                i <= n,
                n <= u.layers@.len(),
                n <= l.layers@.len(),
                w@ == head + layers_mismatches(u.layers@, l.layers@, i as int),
            decreases n - i,
        {
            let ul = &u.layers[i];
            let ll = &l.layers[i];
            if ul.material != ll.material {
                w.push(JointMismatch::LayerMaterial(i, ul.material.clone(), ll.material.clone()));
            }
            if let (Some(uh), Some(lh)) = (first_value(&ul.height.0), first_value(&ll.height.0)) {
                if beyond_tolerance(uh, lh) {
                    w.push(JointMismatch::LayerHeight(i, ul.name.clone(), ll.name.clone(), uh, lh));
                }
            }
            assert(w@ == head + layers_mismatches(u.layers@, l.layers@, i as int) + layer_mismatches(
                i as int,
                *ul,
                *ll,
            ));
            i = i + 1;
        }
        w
    }
}

/// No value differs from itself beyond the tolerance.
pub proof fn lemma_no_difference_with_itself(x: Binary64)
    ensures
        !differ_beyond_tolerance(x, x),
{
    lemma_positive_pattern(joint_tolerance());
    lemma_round_zero();
}

/// The tolerance check is symmetric: `a` differs from `b` beyond the
/// tolerance exactly when `b` differs from `a`.
pub proof fn lemma_tolerance_symmetric(a: Binary64, b: Binary64)
    ensures
        differ_beyond_tolerance(a, b) == differ_beyond_tolerance(b, a),
{
}

/// Finite values that differ beyond the tolerance are not equal, and every
/// pair of finite values whose rounded distance is above the tolerance is
/// reported, whichever of the two is the larger.
pub proof fn lemma_tolerance_by_distance(a: Binary64, b: Binary64)
    requires
        a.finite(),
        b.finite(),
    ensures
        differ_beyond_tolerance(a, b) ==> a.scaled() != b.scaled(),
        joint_tolerance().scaled() < round_significand(
            distance(a.scaled(), b.scaled()),
        ) ==> differ_beyond_tolerance(a, b) && differ_beyond_tolerance(b, a),
{
    lemma_positive_pattern(joint_tolerance());
    lemma_round_zero();
}

/// The mismatches of layers with the same contents are none.
proof fn lemma_same_layers_match(us: Seq<Layer>, ls: Seq<Layer>, n: int)
    requires
        0 <= n <= us.len(),
        n <= ls.len(),
        forall|j: int| 0 <= j < n ==> (#[trigger] us[j])@ == ls[j]@,
    ensures
        layers_mismatches(us, ls, n) == Seq::<JointMismatch>::empty(),
    decreases n,
{
    if n > 0 {
        lemma_same_layers_match(us, ls, n - 1);
        let ul = us[n - 1];
        let ll = ls[n - 1];
        assert(ul@ == ll@);
        if ul.height@.len() > 0 {
            lemma_no_difference_with_itself(ul.height@[0][1]);
        }
        assert(layer_mismatches(n - 1, ul, ll) =~= Seq::<JointMismatch>::empty());
        assert(layers_mismatches(us, ls, n) =~= Seq::<JointMismatch>::empty());
    }
}

/// Limb sections with the same contents (such as those of a symmetric
/// section) show no mismatch at the joint.
pub proof fn lemma_same_sections_match(u: LimbSection, l: LimbSection)
    requires
        u@ == l@,
    ensures
        joint_mismatches(u, l) == Seq::<JointMismatch>::empty(),
{
    let n = u.layers@.len();
    assert(layers_view(u.layers@).len() == layers_view(l.layers@).len());
    assert forall|j: int| 0 <= j < n implies (#[trigger] u.layers@[j])@ == l.layers@[j]@ by {
        assert(layers_view(u.layers@)[j] == layers_view(l.layers@)[j]);
    }
    lemma_same_layers_match(u.layers@, l.layers@, n as int);
    if u.width@.len() > 0 {
        lemma_no_difference_with_itself(u.width@[0][1]);
    }
    assert(joint_mismatches(u, l) =~= Seq::<JointMismatch>::empty());
}

} // verus!
