//! Cohen–Sutherland line clipping: region outcodes and the decision taken
//! at each step.  The caller compares coordinates with the window bounds and
//! computes intersection points; this module decides from the outcodes.

use vstd::prelude::*;

verus! {

pub const INSIDE: i16 = 0;
pub const LEFT: i16 = 1;
pub const RIGHT: i16 = 2;
pub const BOTTOM: i16 = 4;
pub const TOP: i16 = 8;
pub const BACK: i16 = 16;
pub const FORWARD: i16 = 32;
pub const EARTH: i16 = 64;
pub const SKY: i16 = 128;

/// How a coordinate compares with the window's bounds on one axis.
#[derive(Clone, Copy, Debug)]
pub struct AxisTest {
    /// The coordinate is below the axis minimum.
    pub below_min: bool,
    /// The coordinate is above the axis maximum.
    pub above_max: bool,
}

/// The outcode bits of one axis: `low` when below the minimum, else `high`
/// when above the maximum, else none.
pub open spec fn axis_bits(t: AxisTest, low: int, high: int) -> int {
    if t.below_min {
        low
    } else if t.above_max {
        high
    } else {
        0
    }
}

/// The outcode of a point in the plane.
pub open spec fn outcode_2d(x: AxisTest, y: AxisTest) -> int {
    axis_bits(x, LEFT as int, RIGHT as int) + axis_bits(y, BOTTOM as int, TOP as int)
}

/// The outcode of a point in space.
pub open spec fn outcode_3d(x: AxisTest, y: AxisTest, z: AxisTest) -> int {
    outcode_2d(x, y) + axis_bits(z, BACK as int, FORWARD as int)
}

/// The outcode of a point in four dimensions.
pub open spec fn outcode_4d(x: AxisTest, y: AxisTest, z: AxisTest, u: AxisTest) -> int {
    outcode_3d(x, y, z) + axis_bits(u, EARTH as int, SKY as int)
}

/// Setting a bit above every bit of `c` adds it.
proof fn lemma_or_high_bit(c: i16, bit: i16)
    by (bit_vector)
    requires
        0 <= c < bit,
        bit == 1 || bit == 2 || bit == 4 || bit == 8 || bit == 16 || bit == 32 || bit == 64 || bit
            == 128,
    ensures
        c | bit == c + bit,
{
}

/// Adds the outcode bits of one axis to `code`, whose bits are all below
/// `low`: `low` if the point is below the minimum, else `high` if above the
/// maximum.
fn add_axis_bits(code: i16, t: AxisTest, low: i16, high: i16) -> (r: i16)
    requires
        0 <= code < low,
        low == 1 || low == 4 || low == 16 || low == 64,
        high == 2 * low,
    ensures
        r == code + axis_bits(t, low as int, high as int),
{
    let mut code = code;
    if t.below_min {
        proof {
            lemma_or_high_bit(code, low);
        }
        code = code | low;
    } else if t.above_max {
        proof {
            lemma_or_high_bit(code, high);
        }
        code = code | high;
    }
    code
}

/// The region outcode of a point in the plane: `LEFT` if left of the
/// window, else `RIGHT` if right of it; `BOTTOM` if below, else `TOP` if
/// above; `INSIDE` (0) when within.
pub fn compute_outcode_2d(x: AxisTest, y: AxisTest) -> (code: i16)
    ensures
        code == outcode_2d(x, y),
        0 <= code < 16,
{
    let code = add_axis_bits(INSIDE, x, LEFT, RIGHT);
    add_axis_bits(code, y, BOTTOM, TOP)
}

/// The region outcode of a point in space: the plane's bits, then `BACK`
/// if behind the window, else `FORWARD` if in front of it.
pub fn compute_outcode_3d(x: AxisTest, y: AxisTest, z: AxisTest) -> (code: i16)
    ensures
        code == outcode_3d(x, y, z),
        0 <= code < 64,
{
    let code = compute_outcode_2d(x, y);
    add_axis_bits(code, z, BACK, FORWARD)
}

/// The region outcode of a point in four dimensions: the space's bits,
/// then `EARTH` if below the fourth-axis minimum, else `SKY` if above its
/// maximum.
pub fn compute_outcode_4d(x: AxisTest, y: AxisTest, z: AxisTest, u: AxisTest) -> (code: i16)
    ensures
        code == outcode_4d(x, y, z, u),
        0 <= code < 256,
{
    let code = compute_outcode_3d(x, y, z);
    add_axis_bits(code, u, EARTH, SKY)
}

/// One endpoint of a line segment.
#[derive(Clone, Copy, Debug, PartialEq, Eq)]
pub enum Endpoint {
    First,
    Second,
}

/// A window edge (or, in three dimensions, a face of the clip volume) that
/// a line is clipped against.
#[derive(Clone, Copy, Debug, PartialEq, Eq)]
pub enum ClipEdge {
    Top,
    Bottom,
    Right,
    Left,
    Forward,
    Back,
}

/// What one step of the Cohen–Sutherland loop does.
#[derive(Clone, Copy, Debug, PartialEq, Eq)]
pub enum ClipStep {
    /// Both endpoints are inside: keep the segment as it stands.
    Accept,
    /// Both endpoints lie outside the same edge: drop the segment.
    Reject,
    /// Move the given endpoint to the segment's intersection with the given
    /// edge, and recompute its outcode.
    Clip(Endpoint, ClipEdge),
}

/// The outcode bit of a window edge.
pub open spec fn edge_bit(e: ClipEdge) -> i16 {
    match e {
        ClipEdge::Top => TOP,
        ClipEdge::Bottom => BOTTOM,
        ClipEdge::Right => RIGHT,
        ClipEdge::Left => LEFT,
        ClipEdge::Forward => FORWARD,
        ClipEdge::Back => BACK,
    }
}

/// The face to clip a point with outcode `out` against in three
/// dimensions: top, bottom, right, left, forward, then back.
pub open spec fn face_to_clip(out: i16) -> ClipEdge {
    if out & TOP != 0 {
        ClipEdge::Top
    } else if out & BOTTOM != 0 {
        ClipEdge::Bottom
    } else if out & RIGHT != 0 {
        ClipEdge::Right
    } else if out & LEFT != 0 {
        ClipEdge::Left
    } else if out & FORWARD != 0 {
        ClipEdge::Forward
    } else {
        ClipEdge::Back
    }
}

/// The edge to clip a point with outcode `out` against: top first, then
/// bottom, right, and left.
pub open spec fn edge_to_clip(out: i16) -> ClipEdge {
    if out & TOP != 0 {
        ClipEdge::Top
    } else if out & BOTTOM != 0 {
        ClipEdge::Bottom
    } else if out & RIGHT != 0 {
        ClipEdge::Right
    } else {
        ClipEdge::Left
    }
}

/// Facts on 4-bit outcodes.
proof fn lemma_outcodes_2d(o0: i16, o1: i16)
    by (bit_vector)
    requires
        0 <= o0 < 16,
        0 <= o1 < 16,
    ensures
        (o0 | o1 == 0) == (o0 == 0 && o1 == 0),
        (o0 & o1 > 0) == (o0 & o1 != 0),
        o0 != 0 && o0 & 8 == 0 && o0 & 4 == 0 && o0 & 2 == 0 ==> o0 & 1 != 0,
        o1 != 0 && o1 & 8 == 0 && o1 & 4 == 0 && o1 & 2 == 0 ==> o1 & 1 != 0,
        o0 & o1 == 0 ==> (o0 & 8 != 0 ==> o1 & 8 == 0) && (o0 & 4 != 0 ==> o1 & 4 == 0) && (o0
            & 2 != 0 ==> o1 & 2 == 0) && (o0 & 1 != 0 ==> o1 & 1 == 0),
        o0 & o1 == 0 ==> (o1 & 8 != 0 ==> o0 & 8 == 0) && (o1 & 4 != 0 ==> o0 & 4 == 0) && (o1
            & 2 != 0 ==> o0 & 2 == 0) && (o1 & 1 != 0 ==> o0 & 1 == 0),
{
}

/// One step of Cohen–Sutherland clipping of a segment in the plane, from
/// its endpoints' outcodes.  Both inside: accept.  Both outside one edge:
/// reject.  Otherwise clip an outside endpoint (the first if it is outside)
/// against the first edge, in the order top, bottom, right, left, that it
/// lies beyond.  The clipped endpoint lies beyond that edge and the other
/// does not, so the segment crosses it: the intersection's denominator is
/// non-zero.
pub fn clip_step_2d(outcode_0: i16, outcode_1: i16) -> (step: ClipStep)
    requires
        0 <= outcode_0 < 16,
        0 <= outcode_1 < 16,
    ensures
        (step == ClipStep::Accept) == (outcode_0 == 0 && outcode_1 == 0),
        (step == ClipStep::Reject) == (!(outcode_0 == 0 && outcode_1 == 0) && outcode_0 & outcode_1
            != 0),
        match step {
            ClipStep::Clip(e, edge) => {
                let (out, other) = if e == Endpoint::First {
                    (outcode_0, outcode_1)
                } else {
                    (outcode_1, outcode_0)
                };
                &&& (e == Endpoint::First) == (outcode_0 != 0)
                &&& edge == edge_to_clip(out)
                &&& out & edge_bit(edge) != 0
                &&& other & edge_bit(edge) == 0
            },
            _ => true,
        },
{
    proof {
        lemma_outcodes_2d(outcode_0, outcode_1);
    }
    if outcode_0 | outcode_1 == 0 {
        ClipStep::Accept
    } else if outcode_0 & outcode_1 > 0 {
        ClipStep::Reject
    } else {
        let outcode_out = if outcode_0 > 0 {
            outcode_0
        } else {
            outcode_1
        };
        let edge = if outcode_out & TOP > 0 {
            ClipEdge::Top
        } else if outcode_out & BOTTOM > 0 {
            ClipEdge::Bottom
        } else if outcode_out & RIGHT > 0 {
            ClipEdge::Right
        } else {
            ClipEdge::Left
        };
        let endpoint = if outcode_out == outcode_0 {
            Endpoint::First
        } else {
            Endpoint::Second
        };
        proof {
            assert(outcode_out & TOP > 0 <==> outcode_out & TOP != 0) by (bit_vector)
                requires
                    0 <= outcode_out < 16,
            ;
            assert(outcode_out & BOTTOM > 0 <==> outcode_out & BOTTOM != 0) by (bit_vector)
                requires
                    0 <= outcode_out < 16,
            ;
            assert(outcode_out & RIGHT > 0 <==> outcode_out & RIGHT != 0) by (bit_vector)
                requires
                    0 <= outcode_out < 16,
            ;
        }
        ClipStep::Clip(endpoint, edge)
    }
}

/// Facts on 6-bit outcodes.
proof fn lemma_outcodes_3d(o0: i16, o1: i16)
    by (bit_vector)
    requires
        0 <= o0 < 64,
        0 <= o1 < 64,
    ensures
        (o0 | o1 == 0) == (o0 == 0 && o1 == 0),
        (o0 & o1 > 0) == (o0 & o1 != 0),
        o0 != 0 && o0 & 8 == 0 && o0 & 4 == 0 && o0 & 2 == 0 && o0 & 1 == 0 && o0 & 32 == 0 ==> o0
            & 16 != 0,
        o1 != 0 && o1 & 8 == 0 && o1 & 4 == 0 && o1 & 2 == 0 && o1 & 1 == 0 && o1 & 32 == 0 ==> o1
            & 16 != 0,
        o0 & o1 == 0 ==> (o0 & 8 != 0 ==> o1 & 8 == 0) && (o0 & 4 != 0 ==> o1 & 4 == 0) && (o0
            & 2 != 0 ==> o1 & 2 == 0) && (o0 & 1 != 0 ==> o1 & 1 == 0) && (o0 & 32 != 0 ==> o1
            & 32 == 0) && (o0 & 16 != 0 ==> o1 & 16 == 0),
        o0 & o1 == 0 ==> (o1 & 8 != 0 ==> o0 & 8 == 0) && (o1 & 4 != 0 ==> o0 & 4 == 0) && (o1
            & 2 != 0 ==> o0 & 2 == 0) && (o1 & 1 != 0 ==> o0 & 1 == 0) && (o1 & 32 != 0 ==> o0
            & 32 == 0) && (o1 & 16 != 0 ==> o0 & 16 == 0),
        (o0 & 8 > 0) == (o0 & 8 != 0),
        (o0 & 4 > 0) == (o0 & 4 != 0),
        (o0 & 2 > 0) == (o0 & 2 != 0),
        (o0 & 1 > 0) == (o0 & 1 != 0),
        (o0 & 32 > 0) == (o0 & 32 != 0),
        (o1 & 8 > 0) == (o1 & 8 != 0),
        (o1 & 4 > 0) == (o1 & 4 != 0),
        (o1 & 2 > 0) == (o1 & 2 != 0),
        (o1 & 1 > 0) == (o1 & 1 != 0),
        (o1 & 32 > 0) == (o1 & 32 != 0),
{
}

/// One step of Cohen–Sutherland clipping of a segment against the cube
/// `[-1, 1]³`, from its endpoints' outcodes.  Both inside: accept.  Both
/// beyond one face: reject.  Otherwise clip an outside endpoint (the first
/// if it is outside) against the first face, in the order top, bottom,
/// right, left, forward, back, that it lies beyond.  The clipped endpoint
/// lies beyond that face and the other does not, so the segment crosses it.
pub fn clip_step_3d(outcode_0: i16, outcode_1: i16) -> (step: ClipStep)
    requires
        0 <= outcode_0 < 64,
        0 <= outcode_1 < 64,
    ensures
        (step == ClipStep::Accept) == (outcode_0 == 0 && outcode_1 == 0),
        (step == ClipStep::Reject) == (!(outcode_0 == 0 && outcode_1 == 0) && outcode_0 & outcode_1
            != 0),
        match step {
            ClipStep::Clip(e, face) => {
                let (out, other) = if e == Endpoint::First {
                    (outcode_0, outcode_1)
                } else {
                    (outcode_1, outcode_0)
                };
                &&& (e == Endpoint::First) == (outcode_0 != 0)
                &&& face == face_to_clip(out)
                &&& out & edge_bit(face) != 0
                &&& other & edge_bit(face) == 0
            },
            _ => true,
        },
{
    proof {
        lemma_outcodes_3d(outcode_0, outcode_1);
    }
    if outcode_0 | outcode_1 == 0 {
        ClipStep::Accept
    } else if outcode_0 & outcode_1 > 0 {
        ClipStep::Reject
    } else {
        let outcode_out = if outcode_0 > 0 {
            outcode_0
        } else {
            outcode_1
        };
        let face = if outcode_out & TOP > 0 {
            ClipEdge::Top
        } else if outcode_out & BOTTOM > 0 {
            ClipEdge::Bottom
        } else if outcode_out & RIGHT > 0 {
            ClipEdge::Right
        } else if outcode_out & LEFT > 0 {
            ClipEdge::Left
        } else if outcode_out & FORWARD > 0 {
            ClipEdge::Forward
        } else {
            ClipEdge::Back
        };
        let endpoint = if outcode_out == outcode_0 {
            Endpoint::First
        } else {
            Endpoint::Second
        };
        ClipStep::Clip(endpoint, face)
    }
}

/// Whether bit `b` (a power of two) is set in the number `c`.
pub open spec fn has_bit(c: int, b: int) -> bool {
    (c / b) % 2 == 1
}

/// Law: each bit of a region outcode says one thing about one coordinate,
/// and no other bit is set.  `LEFT`: the first coordinate is below its
/// minimum; `RIGHT`: not below it but above its maximum; `BOTTOM` and `TOP`
/// likewise for the second, `BACK` and `FORWARD` for the third, `EARTH`
/// and `SKY` for the fourth.  So a point's outcode in space keeps its
/// outcode in the plane in the low bits, whatever the third coordinate.
pub proof fn lemma_outcode_bits(x: AxisTest, y: AxisTest, z: AxisTest, u: AxisTest)
    ensures
        0 <= outcode_2d(x, y) < 16,
        0 <= outcode_3d(x, y, z) < 64,
        0 <= outcode_4d(x, y, z, u) < 256,
        forall|c: int|
            #![trigger has_bit(c, LEFT as int)]
            c == outcode_2d(x, y) || c == outcode_3d(x, y, z) || c == outcode_4d(x, y, z, u) ==> {
                &&& has_bit(c, LEFT as int) == x.below_min
                &&& has_bit(c, RIGHT as int) == (!x.below_min && x.above_max)
                &&& has_bit(c, BOTTOM as int) == y.below_min
                &&& has_bit(c, TOP as int) == (!y.below_min && y.above_max)
            },
        forall|c: int|
            #![trigger has_bit(c, BACK as int)]
            c == outcode_3d(x, y, z) || c == outcode_4d(x, y, z, u) ==> {
                &&& has_bit(c, BACK as int) == z.below_min
                &&& has_bit(c, FORWARD as int) == (!z.below_min && z.above_max)
            },
        has_bit(outcode_4d(x, y, z, u), EARTH as int) == u.below_min,
        has_bit(outcode_4d(x, y, z, u), SKY as int) == (!u.below_min && u.above_max),
        outcode_3d(x, y, z) % 16 == outcode_2d(x, y),
        outcode_4d(x, y, z, u) % 64 == outcode_3d(x, y, z),
{
}

/// Law: clipping in space picks its face as clipping in the plane picks its
/// edge whenever the point lies outside the window's rectangle (top,
/// bottom, right, left first); only a point beside the rectangle but in
/// front of or behind the volume is clipped against the front or back face,
/// and always against a face it lies beyond.
pub proof fn lemma_clip_face_order(out: i16)
    requires
        0 < out < 64,
    ensures
        out % 16 != 0 ==> face_to_clip(out) == edge_to_clip(out),
        out == BACK ==> face_to_clip(out) == ClipEdge::Back,
        out % 16 == 0 && out != BACK ==> face_to_clip(out) == ClipEdge::Forward,
        out & edge_bit(face_to_clip(out)) != 0,
{
    assert(out % 16 != 0 ==> (out & 8 != 0 || out & 4 != 0 || out & 2 != 0 || out & 1 != 0)) by (bit_vector)
        requires
            0 < out < 64,
    ;
    assert(out % 16 == 0 ==> (out == 16 || out == 32 || out == 48)) by (bit_vector)
        requires
            0 < out < 64,
    ;
    assert(out == 16 ==> (out & 8 == 0 && out & 4 == 0 && out & 2 == 0 && out & 1 == 0 && out & 32 == 0 && out & 16 != 0)) by (bit_vector);
    assert(out == 32 ==> (out & 8 == 0 && out & 4 == 0 && out & 2 == 0 && out & 1 == 0 && out & 32 != 0)) by (bit_vector);
    assert(out == 48 ==> (out & 8 == 0 && out & 4 == 0 && out & 2 == 0 && out & 1 == 0 && out & 32 != 0)) by (bit_vector);
}

} // verus!
