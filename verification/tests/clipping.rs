use fourd::clipping::{
    clip_step_2d, clip_step_3d, compute_outcode_2d, compute_outcode_3d, compute_outcode_4d,
    AxisTest, ClipEdge, ClipStep, Endpoint,
};

const IN: AxisTest = AxisTest { below_min: false, above_max: false };
const LOW: AxisTest = AxisTest { below_min: true, above_max: false };
const HIGH: AxisTest = AxisTest { below_min: false, above_max: true };
const BOTH: AxisTest = AxisTest { below_min: true, above_max: true };

#[test]
fn outcode_bits() {
    assert_eq!(compute_outcode_2d(IN, IN), 0);
    assert_eq!(compute_outcode_2d(LOW, IN), 1);
    assert_eq!(compute_outcode_2d(HIGH, LOW), 6);
    assert_eq!(compute_outcode_2d(IN, HIGH), 8);
    // Below the minimum is tested first.
    assert_eq!(compute_outcode_2d(BOTH, BOTH), 5);
    assert_eq!(compute_outcode_3d(IN, IN, LOW), 16);
    assert_eq!(compute_outcode_3d(LOW, HIGH, HIGH), 41);
    assert_eq!(compute_outcode_4d(IN, IN, IN, LOW), 64);
    assert_eq!(compute_outcode_4d(HIGH, IN, IN, HIGH), 130);
}

#[test]
fn clip_step_decisions() {
    assert_eq!(clip_step_2d(0, 0), ClipStep::Accept);
    assert_eq!(clip_step_2d(1, 5), ClipStep::Reject);
    assert_eq!(clip_step_2d(0, 8), ClipStep::Clip(Endpoint::Second, ClipEdge::Top));
    assert_eq!(clip_step_2d(6, 0), ClipStep::Clip(Endpoint::First, ClipEdge::Bottom));
    assert_eq!(clip_step_2d(2, 1), ClipStep::Clip(Endpoint::First, ClipEdge::Right));
    assert_eq!(clip_step_2d(1, 2), ClipStep::Clip(Endpoint::First, ClipEdge::Left));
    assert_eq!(clip_step_2d(9, 6), ClipStep::Clip(Endpoint::First, ClipEdge::Top));
}

#[test]
fn clipped_edge_separates_the_endpoints() {
    for o0 in 0..16i16 {
        for o1 in 0..16i16 {
            if let ClipStep::Clip(e, edge) = clip_step_2d(o0, o1) {
                let bit = match edge {
                    ClipEdge::Top => 8,
                    ClipEdge::Bottom => 4,
                    ClipEdge::Right => 2,
                    ClipEdge::Left => 1,
                    ClipEdge::Forward | ClipEdge::Back => panic!("no depth faces in the plane"),
                };
                let (out, other) = if e == Endpoint::First { (o0, o1) } else { (o1, o0) };
                assert!(out & bit != 0 && other & bit == 0);
            }
        }
    }
}

#[test]
fn clip_step_3d_decisions() {
    assert_eq!(clip_step_3d(0, 0), ClipStep::Accept);
    assert_eq!(clip_step_3d(16, 16), ClipStep::Reject);
    assert_eq!(clip_step_3d(16, 32), ClipStep::Clip(Endpoint::First, ClipEdge::Back));
    assert_eq!(clip_step_3d(0, 41), ClipStep::Clip(Endpoint::Second, ClipEdge::Top));
    assert_eq!(clip_step_3d(0, 2), ClipStep::Clip(Endpoint::Second, ClipEdge::Right));
    assert_eq!(clip_step_3d(32, 0), ClipStep::Clip(Endpoint::First, ClipEdge::Forward));
}

#[test]
fn clipped_face_separates_the_endpoints() {
    for o0 in 0..64i16 {
        for o1 in 0..64i16 {
            if let ClipStep::Clip(e, face) = clip_step_3d(o0, o1) {
                let bit = match face {
                    ClipEdge::Top => 8,
                    ClipEdge::Bottom => 4,
                    ClipEdge::Right => 2,
                    ClipEdge::Left => 1,
                    ClipEdge::Forward => 32,
                    ClipEdge::Back => 16,
                };
                let (out, other) = if e == Endpoint::First { (o0, o1) } else { (o1, o0) };
                assert!(out & bit != 0 && other & bit == 0);
            }
        }
    }
}
