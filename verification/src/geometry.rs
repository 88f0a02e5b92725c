//! The draw positions of the bow geometry.
//!
//! The geometry of a bow places the string along the y-axis of the world
//! frame, relative to the pivot point of the handle. Where the pivot point
//! lies comes from the cross-section and the handle angle; from it follow the
//! reference points of brace height and draw length, the string positions at
//! brace and at full draw, and the power stroke between them.
use vstd::prelude::*;
use crate::binary64::Binary64;
use crate::model::{Draw, DrawLength, AMO_OFFSET_BITS};

verus! {

/// The draw positions of a bow, along the y-axis of the world frame.
#[derive(Clone, Copy, Debug, PartialEq)]
pub struct DrawInfo {
    /// The position of the pivot point.
    pub pivot_point: Binary64,
    /// Where the brace height is measured from.
    pub brace_ref: Binary64,
    /// Where the draw length is measured from: the pivot point, or 1.75
    /// inches behind it for an AMO draw length.
    pub draw_ref: Binary64,
    /// The string position at brace height.
    pub brace_pos: Binary64,
    /// The string position at full draw.
    pub draw_pos: Binary64,
    /// The distance between the two string positions.
    pub power_stroke: Binary64,
    /// Signed offset of the nock point from the bow's geometric center along
    /// the bow's longitudinal axis; positive toward the upper limb.
    pub nock_offset: Binary64,
}

impl DrawInfo {
    /// The draw positions for a pivot point at `pivot_point`: brace height
    /// and draw length are measured back from their reference points, the
    /// power stroke is the difference of the two positions.
    pub fn from_pivot_point(pivot_point: Binary64, draw: &Draw) -> (r: DrawInfo)
        ensures
            r.pivot_point == pivot_point,
            r.brace_ref == pivot_point,
            r.draw_ref == (match draw.draw_length {
                DrawLength::Standard(_) => pivot_point,
                DrawLength::Amo(_) => pivot_point.sum(DrawLength::amo_offset()),
            }),
            r.brace_pos == r.brace_ref.difference(draw.brace_height),
            r.draw_pos == r.draw_ref.difference(draw.draw_length.enclosed()),
            r.power_stroke == r.brace_pos.difference(r.draw_pos),
            r.nock_offset == draw.nock_offset,
    {
        let brace_ref = pivot_point;
        let draw_ref = match draw.draw_length {
            DrawLength::Standard(_) => pivot_point,
            DrawLength::Amo(_) => pivot_point.plus(&Binary64::from_bits(AMO_OFFSET_BITS)),
        };
        let brace_pos = brace_ref.minus(&draw.brace_height);
        let draw_pos = draw_ref.minus(&draw.draw_length.value());
        let power_stroke = brace_pos.minus(&draw_pos);
        DrawInfo {
            pivot_point,
            brace_ref,
            draw_ref,
            brace_pos,
            draw_pos,
            power_stroke,
            nock_offset: draw.nock_offset,
        }
    }
}

} // verus!
