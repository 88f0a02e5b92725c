//! Geometry information about the limbs for the result viewer, and the
//! joining of a flexible grip's outline to its limb's.
use vstd::prelude::*;
use crate::binary64::Binary64;

verus! {

/// Geometry of one limb along its length: arc length, width, height and
/// layer bounds (for the result viewer), relative position and layer heights
/// (for the model editor), and the profile curve's evaluation and control
/// points `(x, y, phi)` with the curvature at the evaluation points.
pub struct LimbInfo {
    pub length: Vec<Binary64>,
    pub width: Vec<Binary64>,
    pub height: Vec<Binary64>,
    pub bounds: Vec<Vec<Binary64>>,
    pub ratio: Vec<Binary64>,
    pub heights: Vec<Vec<Binary64>>,
    pub position_eval: Vec<[Binary64; 3]>,
    pub position_control: Vec<[Binary64; 3]>,
    pub curvature_eval: Vec<Binary64>,
}

/// The geometry of a grip half meshed with beam elements, in the same form
/// as that of a limb: arc length along the grip from the pivot, width,
/// height, layer bounds, relative position, layer heights, world-frame
/// evaluation points, its end points and the curvature (zero for a straight
/// grip).
pub struct GripEvalInfo {
    pub length: Vec<Binary64>,
    pub width: Vec<Binary64>,
    pub height: Vec<Binary64>,
    pub bounds: Vec<Vec<Binary64>>,
    pub ratio: Vec<Binary64>,
    pub heights: Vec<Vec<Binary64>>,
    pub position_eval: Vec<[Binary64; 3]>,
    pub position_control: Vec<[Binary64; 3]>,
    pub curvature_eval: Vec<Binary64>,
}

/// The contents of a list of rows.
pub open spec fn rows_view(rows: Seq<Vec<Binary64>>) -> Seq<Seq<Binary64>> {
    rows.map_values(|r: Vec<Binary64>| r@)
}

/// Each arc length moved along by `offset` (binary64 sums).
pub open spec fn shifted(lengths: Seq<Binary64>, offset: Binary64) -> Seq<Binary64> {
    lengths.map_values(|s: Binary64| s.sum(offset))
}

/// The arc length at the end of the grip: its last arc length, or zero for
/// an empty grip.
pub open spec fn grip_length(g: GripEvalInfo) -> Binary64 {
    if g.length@.len() > 0 {
        g.length@.last()
    } else {
        Binary64::zero_pattern()
    }
}

/// `a` followed by `b`.
fn concat_values(a: &Vec<Binary64>, b: &Vec<Binary64>) -> (r: Vec<Binary64>)
    ensures
        r@ == a@ + b@,
{
    let mut r: Vec<Binary64> = Vec::new();
    let mut i: usize = 0;
    while i < a.len()
        invariant
            i <= a@.len(),
            r@ == a@.subrange(0, i as int),
        decreases a@.len() - i,
    {
        r.push(a[i]);
        i = i + 1;
    }
    let mut j: usize = 0;
    while j < b.len()
        invariant
            j <= b@.len(),
            r@ == a@ + b@.subrange(0, j as int),
        decreases b@.len() - j,
    {
        r.push(b[j]);
        j = j + 1;
    }
    r
}

/// `a` followed by `b`.
fn concat_points(a: &Vec<[Binary64; 3]>, b: &Vec<[Binary64; 3]>) -> (r: Vec<[Binary64; 3]>)
    ensures
        r@ == a@ + b@,
{
    let mut r: Vec<[Binary64; 3]> = Vec::new();
    let mut i: usize = 0;
    while i < a.len()
        invariant
            i <= a@.len(),
            r@ == a@.subrange(0, i as int),
        decreases a@.len() - i,
    {
        r.push(a[i]);
        i = i + 1;
    }
    let mut j: usize = 0;
    while j < b.len()
        invariant
            j <= b@.len(),
            r@ == a@ + b@.subrange(0, j as int),
        decreases b@.len() - j,
    {
        r.push(b[j]);
        j = j + 1;
    }
    r
}

/// A copy of a row.
fn copy_row(a: &Vec<Binary64>) -> (r: Vec<Binary64>)
    ensures
        r@ == a@,
{
    let empty: Vec<Binary64> = Vec::new();
    let r = concat_values(a, &empty);
    assert(a@ + empty@ =~= a@);
    r
}

/// The rows of `a` followed by those of `b`.
fn concat_rows(a: &Vec<Vec<Binary64>>, b: &Vec<Vec<Binary64>>) -> (r: Vec<Vec<Binary64>>)
    ensures
        rows_view(r@) == rows_view(a@) + rows_view(b@),
{
    let mut r: Vec<Vec<Binary64>> = Vec::new();
    let mut i: usize = 0;
    while i < a.len()
        invariant
            i <= a@.len(),
            rows_view(r@) == rows_view(a@.subrange(0, i as int)),
        decreases a@.len() - i,
    {
        let ghost before = r@;
        r.push(copy_row(&a[i]));
        proof {
            assert(rows_view(r@) =~= rows_view(before).push(a@[i as int]@));
            assert(rows_view(a@.subrange(0, i + 1)) =~= rows_view(a@.subrange(0, i as int)).push(
                a@[i as int]@,
            ));
        }
        i = i + 1;
    }
    proof {
        assert(a@.subrange(0, a@.len() as int) == a@);
    }
    let mut j: usize = 0;
    while j < b.len()
        invariant
            j <= b@.len(),
            rows_view(r@) == rows_view(a@) + rows_view(b@.subrange(0, j as int)),
        decreases b@.len() - j,
    {
        let ghost before = r@;
        r.push(copy_row(&b[j]));
        proof {
            assert(rows_view(r@) =~= rows_view(before).push(b@[j as int]@));
            assert(rows_view(b@.subrange(0, j + 1)) =~= rows_view(b@.subrange(0, j as int)).push(
                b@[j as int]@,
            ));
        }
        j = j + 1;
    }
    proof {
        assert(b@.subrange(0, b@.len() as int) == b@);
    }
    r
}

/// The arc lengths moved along by `offset`.
fn shift_lengths(lengths: &Vec<Binary64>, offset: Binary64) -> (r: Vec<Binary64>)
    ensures
        r@ == shifted(lengths@, offset),
{
    let mut r: Vec<Binary64> = Vec::new();
    let mut i: usize = 0;
    while i < lengths.len()
        invariant
            i <= lengths@.len(),
            r@ == shifted(lengths@.subrange(0, i as int), offset),
        decreases lengths@.len() - i,
    {
        r.push(lengths[i].plus(&offset));
        proof {
            assert(lengths@.subrange(0, i + 1) == lengths@.subrange(0, i as int).push(
                lengths@[i as int],
            ));
        }
        i = i + 1;
    }
    proof {
        assert(lengths@.subrange(0, lengths@.len() as int) == lengths@);
    }
    r
}

/// Puts a flexible grip's geometry in front of its limb's, so that the result
/// viewer draws one outline through grip and limb. Without a grip the limb's
/// geometry stays as it is. The grip's arc lengths are kept and the limb's
/// are moved along by the grip's length, so that arc length keeps growing;
/// every other list is the grip's followed by the limb's.
pub fn prepend_grip_to_limb_info(grip: &Option<GripEvalInfo>, limb: LimbInfo) -> (r: LimbInfo)
    ensures
        grip is None ==> r == limb,
        grip matches Some(g) ==> {
            &&& r.length@ == g.length@ + shifted(limb.length@, grip_length(*g))
            &&& r.width@ == g.width@ + limb.width@
            &&& r.height@ == g.height@ + limb.height@
            &&& rows_view(r.bounds@) == rows_view(g.bounds@) + rows_view(limb.bounds@)
            &&& r.ratio@ == g.ratio@ + limb.ratio@
            &&& rows_view(r.heights@) == rows_view(g.heights@) + rows_view(limb.heights@)
            &&& r.position_eval@ == g.position_eval@ + limb.position_eval@
            &&& r.position_control@ == g.position_control@ + limb.position_control@
            &&& r.curvature_eval@ == g.curvature_eval@ + limb.curvature_eval@
        },
{
    let g = match grip {
        Some(g) => g,
        None => return limb,
    };
    let l_grip = if g.length.len() > 0 {
        g.length[g.length.len() - 1]
    } else {
        Binary64::zero()
    };
    LimbInfo {
        length: concat_values(&g.length, &shift_lengths(&limb.length, l_grip)),
        width: concat_values(&g.width, &limb.width),
        height: concat_values(&g.height, &limb.height),
        bounds: concat_rows(&g.bounds, &limb.bounds),
        ratio: concat_values(&g.ratio, &limb.ratio),
        heights: concat_rows(&g.heights, &limb.heights),
        position_eval: concat_points(&g.position_eval, &limb.position_eval),
        position_control: concat_points(&g.position_control, &limb.position_control),
        curvature_eval: concat_values(&g.curvature_eval, &limb.curvature_eval),
    }
}

} // verus!
