//! The bird: vertical velocity, 2D position, gravity, jump impulses, and the
//! sprite animation frame.

use vstd::prelude::*;

use crate::consts::{
    ANIMATION_FRAME_MS, FALL_SPEED_MVEL_PER_MS, JUMP_GUARD_MARGIN, JUMP_VELOCITY, MAX_FRAME_MS,
    MOVE_SPEED, MOVE_STEP_MAX, POS_LIMIT, TERMINAL_VELOCITY,
};

verus! {

/// The bird. Exactly one exists while a session is running: created with
/// zero velocity at the origin on entering `Playing`, destroyed on leaving
/// it. Position is in millionths of a pixel, velocity in thousandths of a
/// velocity unit.
#[derive(Clone, Copy, Debug, PartialEq, Eq, Structural)]
pub struct Bird {
    pub x: i64,
    pub y: i64,
    pub velocity: i64,
}

/// Mathematical image of a [`Bird`].
pub struct BirdView {
    pub x: int,
    pub y: int,
    pub velocity: int,
}

impl View for Bird {
    type V = BirdView;

    open spec fn view(&self) -> BirdView {
        BirdView { x: self.x as int, y: self.y as int, velocity: self.velocity as int }
    }
}

impl Default for Bird {
    /// A newly spawned bird: at the origin, at rest.
    fn default() -> (b: Bird)
        ensures
            b@ == (BirdView { x: 0, y: 0, velocity: 0 }),
    {
        Bird { x: 0, y: 0, velocity: 0 }
    }
}

/// A bird whose velocity the physics functions can have produced: between
/// terminal velocity and the jump impulse.
pub open spec fn bird_vel_wf(b: BirdView) -> bool {
    TERMINAL_VELOCITY <= b.velocity <= JUMP_VELOCITY
}

/// Velocity after one frame of gravity: it falls with the elapsed time and
/// is clamped at terminal velocity.
pub open spec fn fall_spec(v: int, dt_ms: int) -> int {
    let v1 = v - FALL_SPEED_MVEL_PER_MS * dt_ms;
    if v1 < TERMINAL_VELOCITY {
        TERMINAL_VELOCITY as int
    } else {
        v1
    }
}

/// How far the bird moves vertically in one frame, in millionths of a pixel.
pub open spec fn move_delta(v: int, dt_ms: int) -> int {
    v * MOVE_SPEED * dt_ms
}

/// Whether a jump is allowed: the position plus a safety margin must still
/// be below the window height, which keeps the bird from leaving through
/// the top edge. If the window height is unavailable the jump is skipped.
pub open spec fn jump_allowed(y: int, window_height: Option<i64>) -> bool {
    match window_height {
        Some(h) => y + JUMP_GUARD_MARGIN < h,
        None => false,
    }
}

/// Applies one frame of gravity to the bird's velocity; the velocity never
/// drops below the terminal-velocity constant.
pub fn fall(bird: &mut Bird, dt_ms: i64)
    requires
        0 <= dt_ms <= MAX_FRAME_MS,
        bird_vel_wf(old(bird)@),
    ensures
        final(bird)@ == (BirdView { velocity: fall_spec(old(bird)@.velocity, dt_ms as int), ..old(bird)@ }),
        final(bird).velocity >= TERMINAL_VELOCITY,
        bird_vel_wf(final(bird)@),
{
    let v1 = bird.velocity - FALL_SPEED_MVEL_PER_MS * dt_ms;
    bird.velocity = if v1 < TERMINAL_VELOCITY {
        TERMINAL_VELOCITY
    } else {
        v1
    };
}

/// Integrates the bird's position: the vertical component advances by
/// velocity times the speed scale times the elapsed time.
pub fn move_bird(bird: &mut Bird, dt_ms: i64)
    requires
        0 <= dt_ms <= MAX_FRAME_MS,
        bird_vel_wf(old(bird)@),
        -POS_LIMIT <= old(bird).y <= POS_LIMIT,
    ensures
        final(bird)@ == (BirdView { y: old(bird)@.y + move_delta(old(bird)@.velocity, dt_ms as int), ..old(bird)@ }),
        -POS_LIMIT - MOVE_STEP_MAX <= final(bird).y <= POS_LIMIT + MOVE_STEP_MAX,
        bird_vel_wf(final(bird)@),
{
    let v = bird.velocity;
    proof {
        assert(-MOVE_STEP_MAX <= v * MOVE_SPEED * dt_ms <= MOVE_STEP_MAX) by (nonlinear_arith)
            requires
                TERMINAL_VELOCITY <= v <= JUMP_VELOCITY,
                0 <= dt_ms <= MAX_FRAME_MS,
        ;
    }
    bird.y = bird.y + v * MOVE_SPEED * dt_ms;
}

/// Applies the jump impulse: if the bird is far enough below the top edge,
/// its velocity is overwritten (not added to) with the jump constant. With
/// no window height available, nothing happens.
pub fn jump(bird: &mut Bird, window_height: Option<i64>)
    requires
        -POS_LIMIT - MOVE_STEP_MAX <= old(bird).y <= POS_LIMIT + MOVE_STEP_MAX,
    ensures
        final(bird)@ == (BirdView {
            velocity: if jump_allowed(old(bird)@.y, window_height) {
                JUMP_VELOCITY as int
            } else {
                old(bird)@.velocity
            },
            ..old(bird)@
        }),
{
    match window_height {
        Some(h) => {
            if bird.y + JUMP_GUARD_MARGIN < h {
                bird.velocity = JUMP_VELOCITY;
            }
        },
        None => {},
    }
}

/// Selects the bird sprite's animation frame: the strip has 4 frames and
/// advances at the fixed animation rate, so the frame is the elapsed time
/// divided by the frame duration, modulo 4.
pub fn animate_bird(elapsed_ms: i64) -> (frame: usize)
    requires
        elapsed_ms >= 0,
    ensures
        frame == (elapsed_ms as int / ANIMATION_FRAME_MS as int) % 4,
        frame < 4,
{
    ((elapsed_ms / ANIMATION_FRAME_MS) % 4) as usize
}

} // verus!
