//! Axis-aligned bounding boxes and their overlap test.

use vstd::prelude::*;

use crate::consts::{MOVE_STEP_MAX, POS_LIMIT};

verus! {

/// Whether two axis-aligned boxes, each given by its center and half
/// extents, overlap on both axes. Touching edges count as an overlap.
pub open spec fn boxes_overlap(
    ax: int,
    ay: int,
    a_half_w: int,
    a_half_h: int,
    bx: int,
    by: int,
    b_half_w: int,
    b_half_h: int,
) -> bool {
    &&& ax - a_half_w <= bx + b_half_w
    &&& bx - b_half_w <= ax + a_half_w
    &&& ay - a_half_h <= by + b_half_h
    &&& by - b_half_h <= ay + a_half_h
}

/// Axis-aligned bounding-box intersection test on centers and half extents.
pub fn aabb_overlap(
    ax: i64,
    ay: i64,
    a_half_w: i64,
    a_half_h: i64,
    bx: i64,
    by: i64,
    b_half_w: i64,
    b_half_h: i64,
) -> (r: bool)
    requires
        -POS_LIMIT - MOVE_STEP_MAX <= ax <= POS_LIMIT + MOVE_STEP_MAX,
        -POS_LIMIT - MOVE_STEP_MAX <= ay <= POS_LIMIT + MOVE_STEP_MAX,
        -POS_LIMIT - MOVE_STEP_MAX <= bx <= POS_LIMIT + MOVE_STEP_MAX,
        -POS_LIMIT - MOVE_STEP_MAX <= by <= POS_LIMIT + MOVE_STEP_MAX,
        0 <= a_half_w <= POS_LIMIT,
        0 <= a_half_h <= POS_LIMIT,
        0 <= b_half_w <= POS_LIMIT,
        0 <= b_half_h <= POS_LIMIT,
    ensures
        r == boxes_overlap(
            ax as int,
            ay as int,
            a_half_w as int,
            a_half_h as int,
            bx as int,
            by as int,
            b_half_w as int,
            b_half_h as int,
        ),
{
    ax - a_half_w <= bx + b_half_w && bx - b_half_w <= ax + a_half_w && ay - a_half_h <= by
        + b_half_h && by - b_half_h <= ay + a_half_h
}

} // verus!
