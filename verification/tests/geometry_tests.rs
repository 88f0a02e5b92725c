use virtualbow::binary64::Binary64;
use virtualbow::geometry::DrawInfo;
use virtualbow::model::{Draw, DrawLength};
use virtualbow::output::{prepend_grip_to_limb_info, GripEvalInfo, LimbInfo};

fn num(x: f64) -> Binary64 {
    Binary64::from_bits(x.to_bits())
}

fn val(b: Binary64) -> f64 {
    f64::from_bits(b.to_bits())
}

#[test]
fn draw_positions_for_a_standard_draw_length() {
    let draw = Draw { brace_height: num(0.2), draw_length: DrawLength::Standard(num(0.7)), nock_offset: num(0.01) };
    let pivot_point = 0.013 * 0.99f64 - 0.004;
    let info = DrawInfo::from_pivot_point(num(pivot_point), &draw);
    assert_eq!(val(info.pivot_point), pivot_point);
    assert_eq!(val(info.brace_ref), pivot_point);
    assert_eq!(val(info.draw_ref), pivot_point);
    assert_eq!(val(info.brace_pos), pivot_point - 0.2);
    assert_eq!(val(info.draw_pos), pivot_point - 0.7);
    assert_eq!(val(info.power_stroke), (pivot_point - 0.2) - (pivot_point - 0.7));
    assert_eq!(val(info.nock_offset), 0.01);
}

#[test]
fn draw_positions_for_an_amo_draw_length() {
    let draw = Draw { brace_height: num(0.19), draw_length: DrawLength::Amo(num(0.72)), nock_offset: num(0.0) };
    let pivot_point = -0.0125;
    let info = DrawInfo::from_pivot_point(num(pivot_point), &draw);
    let draw_ref = pivot_point + 1.75 * 0.0254;
    assert_eq!(val(info.draw_ref), draw_ref);
    assert_eq!(val(info.brace_pos), pivot_point - 0.19);
    assert_eq!(val(info.draw_pos), draw_ref - 0.72);
    assert_eq!(val(info.power_stroke), (pivot_point - 0.19) - (draw_ref - 0.72));
}

fn nums(xs: &[f64]) -> Vec<Binary64> {
    xs.iter().map(|x| num(*x)).collect()
}

fn vals(xs: &[Binary64]) -> Vec<f64> {
    xs.iter().map(|x| val(*x)).collect()
}

fn limb_info() -> LimbInfo {
    LimbInfo {
        length: nums(&[0.0, 0.35, 0.7]),
        width: nums(&[0.04, 0.03, 0.01]),
        height: nums(&[0.015, 0.012, 0.01]),
        bounds: vec![nums(&[0.0, 0.015]), nums(&[0.0, 0.012]), nums(&[0.0, 0.01])],
        ratio: nums(&[0.0, 0.5, 1.0]),
        heights: vec![nums(&[0.015]), nums(&[0.012]), nums(&[0.01])],
        position_eval: vec![[num(0.1), num(0.0), num(0.0)], [num(0.45), num(0.0), num(0.0)], [num(0.8), num(0.0), num(0.0)]],
        position_control: vec![[num(0.1), num(0.0), num(0.0)], [num(0.8), num(0.0), num(0.0)]],
        curvature_eval: nums(&[0.0, 0.0, 0.0]),
    }
}

#[test]
fn grip_goes_in_front_of_the_limb() {
    let grip = GripEvalInfo {
        length: nums(&[0.0, 0.05, 0.1]),
        width: nums(&[0.03, 0.03, 0.03]),
        height: nums(&[0.02, 0.02, 0.02]),
        bounds: vec![nums(&[0.0, 0.02]); 3],
        ratio: nums(&[0.0, 0.5, 1.0]),
        heights: vec![nums(&[0.02]); 3],
        position_eval: vec![[num(0.0), num(0.0), num(0.0)], [num(0.05), num(0.0), num(0.0)], [num(0.1), num(0.0), num(0.0)]],
        position_control: vec![[num(0.0), num(0.0), num(0.0)], [num(0.1), num(0.0), num(0.0)]],
        curvature_eval: nums(&[0.0, 0.0, 0.0]),
    };
    let r = prepend_grip_to_limb_info(&Some(grip), limb_info());
    assert_eq!(vals(&r.length), vec![0.0, 0.05, 0.1, 0.1, 0.35 + 0.1, 0.7 + 0.1]);
    assert_eq!(vals(&r.width), vec![0.03, 0.03, 0.03, 0.04, 0.03, 0.01]);
    assert_eq!(vals(&r.height), vec![0.02, 0.02, 0.02, 0.015, 0.012, 0.01]);
    assert_eq!(r.bounds.len(), 6);
    assert_eq!(vals(&r.bounds[3]), vec![0.0, 0.015]);
    assert_eq!(vals(&r.ratio), vec![0.0, 0.5, 1.0, 0.0, 0.5, 1.0]);
    assert_eq!(vals(&r.heights[0]), vec![0.02]);
    assert_eq!(vals(&r.heights[5]), vec![0.01]);
    assert_eq!(r.position_eval.len(), 6);
    assert_eq!(val(r.position_eval[3][0]), 0.1);
    assert_eq!(r.position_control.len(), 4);
    assert_eq!(r.curvature_eval.len(), 6);
}

#[test]
fn no_grip_leaves_the_limb() {
    let r = prepend_grip_to_limb_info(&None, limb_info());
    assert_eq!(vals(&r.length), vec![0.0, 0.35, 0.7]);
    assert_eq!(r.bounds.len(), 3);
    assert_eq!(r.position_control.len(), 2);
}
