//! End-to-end tests of the simulation core on concrete values.

use flappy_core::bird::{animate_bird, fall, jump, move_bird, Bird};
use flappy_core::consts::{
    GROUND_WIDTH, PIPE_SPAWN_INTERVAL_MS, PIPE_SPAWN_X, TERMINAL_VELOCITY,
};
use flappy_core::geom::aabb_overlap;
use flappy_core::pipes::{check_passed_pipe, check_pipe_collision, despawn_pipe, spawn_pipe, Pipe};
use flappy_core::state::{GameState, PlayState, Score};
use flappy_core::timer::PipeSpawnTimer;
use flappy_core::world::{step_frame, GroundTile, World};

fn playing_world() -> World {
    let mut w = World::new();
    // An activating input in the menu starts a session.
    step_frame(&mut w, 0, true, None, 0);
    assert_eq!(w.game_state, GameState::Playing);
    assert_eq!(w.play_state, PlayState::Normal);
    w
}

fn pipe_at(x: i64, y: i64, scoring: bool) -> Pipe {
    Pipe { x, y, is_bottom: scoring, scoring, scrolls: true }
}

#[test]
fn menu_waits_for_input() {
    let mut w = World::new();
    let s = step_frame(&mut w, 100, false, None, 0);
    assert_eq!(w.game_state, GameState::Menu);
    assert!(w.bird.is_none());
    assert!(!s.flap && !s.hit && !s.point);
}

#[test]
fn entering_playing_spawns_bird_at_origin() {
    let w = playing_world();
    let b = w.bird.unwrap();
    assert_eq!((b.x, b.y, b.velocity), (0, 0, 0));
    assert_eq!(w.score, Score(0));
    assert_eq!(w.timer.elapsed_ms, 0);
    assert!(w.pipes.is_empty());
}

// Scenario: from rest with no input, after N frames at fixed dt the
// velocity is max(terminal, -gravity * N * dt) and the position follows.
#[test]
fn free_fall_velocity_and_position() {
    let mut w = playing_world();
    let dt: i64 = 100;
    let mut expected_y: i64 = 0;
    for n in 1..=4i64 {
        step_frame(&mut w, dt, false, None, 0);
        let b = w.bird.unwrap();
        let expected_v = (-5 * n * dt).max(TERMINAL_VELOCITY);
        assert_eq!(b.velocity, expected_v);
        expected_y += expected_v * 200 * dt;
        assert_eq!(b.y, expected_y);
    }
    // After 4 frames the clamp holds exactly: -5 * 4 * 100 == -2000.
    assert_eq!(w.bird.unwrap().velocity, TERMINAL_VELOCITY);
}

#[test]
fn fall_clamps_at_terminal_velocity() {
    let mut b = Bird { x: 0, y: 0, velocity: 0 };
    fall(&mut b, 1000);
    assert_eq!(b.velocity, TERMINAL_VELOCITY);
    let mut b2 = Bird { x: 0, y: 0, velocity: -1999 };
    fall(&mut b2, 1);
    assert_eq!(b2.velocity, TERMINAL_VELOCITY);
    let mut b3 = Bird { x: 0, y: 0, velocity: 1500 };
    fall(&mut b3, 100);
    assert_eq!(b3.velocity, 1000);
}

#[test]
fn move_bird_integrates_position() {
    let mut b = Bird { x: 0, y: 1_000_000, velocity: -2000 };
    move_bird(&mut b, 16);
    // -2000 * 200 * 16 = -6_400_000: 6.4 pixels down.
    assert_eq!(b.y, 1_000_000 - 6_400_000);
    assert_eq!(b.velocity, -2000);
}

#[test]
fn jump_overwrites_velocity_below_guard() {
    let mut b = Bird { x: 0, y: 0, velocity: -2000 };
    jump(&mut b, Some(512_000_000));
    assert_eq!(b.velocity, 1500);
}

#[test]
fn jump_skipped_at_top_edge_or_without_window() {
    // 212 + 300 pixels is not below the 512-pixel window height.
    let mut b = Bird { x: 0, y: 212_000_000, velocity: -500 };
    jump(&mut b, Some(512_000_000));
    assert_eq!(b.velocity, -500);
    let mut b2 = Bird { x: 0, y: 211_999_999, velocity: -500 };
    jump(&mut b2, Some(512_000_000));
    assert_eq!(b2.velocity, 1500);
    // Window height unavailable: the jump is silently skipped.
    let mut b3 = Bird { x: 0, y: 0, velocity: -500 };
    jump(&mut b3, None);
    assert_eq!(b3.velocity, -500);
}

#[test]
fn animation_frame_cycles() {
    assert_eq!(animate_bird(0), 0);
    assert_eq!(animate_bird(249), 0);
    assert_eq!(animate_bird(250), 1);
    assert_eq!(animate_bird(625), 2);
    assert_eq!(animate_bird(999), 3);
    assert_eq!(animate_bird(1000), 0);
}

// Scenario: the spawn timer fires after exactly 1.2 s of accumulated
// elapsed time, and the pair appears at the fixed spawn offset with the
// drawn vertical offset placed symmetrically around the gap.
#[test]
fn spawn_fires_after_exact_interval() {
    let mut timer = PipeSpawnTimer::new();
    let mut pipes: Vec<Pipe> = Vec::new();
    assert!(!spawn_pipe(&mut timer, &mut pipes, 600));
    assert!(pipes.is_empty());
    assert!(spawn_pipe(&mut timer, &mut pipes, 600));
    assert_eq!(timer.elapsed_ms, 0);
    assert_eq!(pipes.len(), 2);
    let (bottom, top) = (pipes[0], pipes[1]);
    assert_eq!(bottom.x, PIPE_SPAWN_X);
    assert_eq!(top.x, PIPE_SPAWN_X);
    // The drawn offset lies in [-50, 50) pixels; the bottom member sits
    // half a pipe height under it.
    assert!(bottom.y >= -210_000_000 && bottom.y < -110_000_000);
    // Centers are one pipe height plus the fixed gap apart.
    assert_eq!(top.y - bottom.y, 420_000_000);
    assert!(bottom.is_bottom && bottom.scoring && bottom.scrolls);
    assert!(!top.is_bottom && !top.scoring && top.scrolls);
}

#[test]
fn spawn_timer_interval_is_1200_ms() {
    assert_eq!(PIPE_SPAWN_INTERVAL_MS, 1200);
    let mut timer = PipeSpawnTimer::new();
    let mut pipes: Vec<Pipe> = Vec::new();
    assert!(!spawn_pipe(&mut timer, &mut pipes, 1199));
    assert!(spawn_pipe(&mut timer, &mut pipes, 1));
}

#[test]
fn spawn_through_frame_step() {
    let mut w = playing_world();
    for _ in 0..2 {
        // Hold the bird up at rest before each step: 0.4 s of free fall
        // would otherwise drop it past the death threshold, ending the
        // session and destroying the fresh pipes with it.
        w.bird = Some(Bird { x: 0, y: 100_000_000, velocity: 0 });
        step_frame(&mut w, 400, false, None, 25_000_000);
        assert!(w.pipes.is_empty());
    }
    w.bird = Some(Bird { x: 0, y: 100_000_000, velocity: 0 });
    step_frame(&mut w, 400, false, None, 25_000_000);
    assert_eq!(w.pipes.len(), 2);
    // Spawned at +180 pixels, then scrolled by 125 px/s * 0.4 s = 50 px
    // within the same frame.
    assert_eq!(w.pipes[0].x, PIPE_SPAWN_X - 50_000_000);
    assert_eq!(w.pipes[0].y, 25_000_000 - 160_000_000);
    assert_eq!(w.pipes[1].y, 25_000_000 + 260_000_000);
    assert_eq!(w.timer.elapsed_ms, 0);
}

// Scenario: a 34x24 bird box at the origin and a 52x320 pipe box centered
// at (20, 10) pixels overlap on both axes, and that frame enters HitPipe.
#[test]
fn overlapping_boxes_hit() {
    assert!(aabb_overlap(0, 0, 17_000_000, 12_000_000, 20_000_000, 10_000_000, 26_000_000,
        160_000_000));
    let mut w = playing_world();
    w.pipes = vec![pipe_at(20_000_000, 10_000_000, false)];
    let s = step_frame(&mut w, 0, false, None, 0);
    assert_eq!(w.game_state, GameState::Playing);
    assert_eq!(w.play_state, PlayState::HitPipe);
    assert!(s.hit && !s.flap && !s.point);
}

#[test]
fn touching_edges_count_as_overlap() {
    // Bird right edge at 17 px, pipe left edge at 17 px: touching hits.
    assert!(aabb_overlap(0, 0, 17_000_000, 12_000_000, 43_000_000, 0, 26_000_000, 160_000_000));
    assert!(!aabb_overlap(0, 0, 17_000_000, 12_000_000, 43_000_001, 0, 26_000_000, 160_000_000));
    let pipes = vec![pipe_at(43_000_001, 0, false)];
    let bird = Bird { x: 0, y: 0, velocity: 0 };
    assert!(!check_pipe_collision(&pipes, &bird));
}

#[test]
fn hit_pipe_suspends_gameplay_but_not_gravity() {
    let mut w = playing_world();
    w.pipes = vec![pipe_at(0, 0, false)];
    step_frame(&mut w, 0, false, None, 0);
    assert_eq!(w.play_state, PlayState::HitPipe);
    let y_before = w.bird.unwrap().y;
    let s = step_frame(&mut w, 100, true, None, 0);
    // Still falling, but no flap, no scroll, no spawn while HitPipe.
    assert!(w.bird.unwrap().y < y_before);
    assert!(!s.flap && !s.hit && !s.point);
    assert_eq!(w.pipes[0].x, 0);
    assert_eq!(w.timer.elapsed_ms, 0);
    assert_eq!(w.play_state, PlayState::HitPipe);
}

#[test]
fn score_increments_once_per_pair() {
    let mut pipes = vec![pipe_at(-44_000_000, 0, true)];
    let mut score = Score(0);
    let bird = Bird { x: 0, y: 0, velocity: 0 };
    check_passed_pipe(&mut pipes, &mut score, &bird);
    assert_eq!(score, Score(1));
    assert!(!pipes[0].scoring);
    // The same pair can never be counted again.
    check_passed_pipe(&mut pipes, &mut score, &bird);
    assert_eq!(score, Score(1));
}

#[test]
fn score_counts_at_most_one_pipe_per_frame() {
    let mut pipes = vec![pipe_at(-50_000_000, 0, true), pipe_at(-60_000_000, 0, true)];
    let mut score = Score(0);
    let bird = Bird { x: 0, y: 0, velocity: 0 };
    check_passed_pipe(&mut pipes, &mut score, &bird);
    assert_eq!(score, Score(1));
    assert!(!pipes[0].scoring && pipes[1].scoring);
}

#[test]
fn pipe_not_yet_passed_does_not_score() {
    // Right edge of the pipe at -17 px equals the bird's left edge: the
    // strict test does not score yet.
    let mut pipes = vec![pipe_at(-43_000_000, 0, true)];
    let mut score = Score(0);
    let bird = Bird { x: 0, y: 0, velocity: 0 };
    check_passed_pipe(&mut pipes, &mut score, &bird);
    assert_eq!(score, Score(0));
    assert!(pipes[0].scoring);
}

#[test]
fn point_sound_on_score_through_frame_step() {
    let mut w = playing_world();
    w.pipes = vec![pipe_at(-60_000_000, 300_000_000, true)];
    let s = step_frame(&mut w, 0, false, None, 0);
    assert_eq!(w.score, Score(1));
    assert!(s.point && !s.hit);
}

#[test]
fn scoring_happens_as_pipe_scrolls_past() {
    let mut w = playing_world();
    // Right edge 4 px short of the bird's left edge; 300 px above, so no
    // collision on the way.
    w.pipes = vec![pipe_at(-30_000_000, 300_000_000, true)];
    let s1 = step_frame(&mut w, 100, false, None, 0);
    assert_eq!(w.score, Score(0));
    assert!(!s1.point);
    // Checked before the scroll: still 0.5 px short of a pass.
    let s2 = step_frame(&mut w, 100, false, None, 0);
    assert_eq!(w.score, Score(0));
    assert!(!s2.point);
    let s3 = step_frame(&mut w, 100, false, None, 0);
    assert_eq!(w.score, Score(1));
    assert!(s3.point);
    assert!(!w.pipes[0].scoring);
}

#[test]
fn despawn_is_idempotent() {
    let mut pipes = vec![pipe_at(-180_000_001, 0, false), pipe_at(0, 0, true)];
    despawn_pipe(&mut pipes);
    assert_eq!(pipes.len(), 1);
    assert_eq!(pipes[0].x, 0);
    despawn_pipe(&mut pipes);
    assert_eq!(pipes.len(), 1);
    assert_eq!(pipes[0].x, 0);
}

#[test]
fn pipe_at_threshold_survives_cull() {
    let mut pipes = vec![pipe_at(-180_000_000, 0, false)];
    despawn_pipe(&mut pipes);
    assert_eq!(pipes.len(), 1);
}

#[test]
fn scroll_moves_pipes_and_ground() {
    let mut w = playing_world();
    w.pipes = vec![pipe_at(100_000_000, 300_000_000, true)];
    step_frame(&mut w, 100, false, None, 0);
    // 125 px/s * 0.1 s = 12.5 px.
    assert_eq!(w.pipes[0].x, 100_000_000 - 12_500_000);
    assert_eq!(w.grounds[0].x, -12_500_000);
    assert_eq!(w.grounds[1].x, GROUND_WIDTH - 12_500_000);
}

#[test]
fn ground_recycles_without_being_destroyed() {
    let mut w = playing_world();
    w.grounds = vec![GroundTile { x: -336_000_000 }, GroundTile { x: 0 }];
    step_frame(&mut w, 100, false, None, 0);
    // The first tile crossed minus one width and advanced by two widths.
    assert_eq!(w.grounds.len(), 2);
    assert_eq!(w.grounds[0].x, -336_000_000 - 12_500_000 + 2 * GROUND_WIDTH);
    assert_eq!(w.grounds[1].x, -12_500_000);
}

#[test]
fn flap_sound_and_jump_on_input() {
    let mut w = playing_world();
    let s = step_frame(&mut w, 16, true, Some(512_000_000), 0);
    assert!(s.flap);
    assert_eq!(w.bird.unwrap().velocity, 1500);
}

// Scenario: with the score at 3, a frame that leaves Playing resets the
// score and the spawn timer to zero before the next session.
#[test]
fn leaving_playing_resets_session_state() {
    let mut w = playing_world();
    w.score = Score(3);
    w.timer = PipeSpawnTimer { elapsed_ms: 500 };
    w.pipes = vec![pipe_at(50_000_000, 300_000_000, true)];
    w.bird = Some(Bird { x: 0, y: -126_000_000, velocity: 0 });
    let s = step_frame(&mut w, 0, false, None, 0);
    assert_eq!(w.game_state, GameState::GameOver);
    assert_eq!(w.score, Score(0));
    assert_eq!(w.timer.elapsed_ms, 0);
    assert!(w.bird.is_none());
    assert!(w.pipes.is_empty());
    assert!(s.hit);
    // Back to the menu and into the next session, still zeroed.
    step_frame(&mut w, 0, true, None, 0);
    assert_eq!(w.game_state, GameState::Menu);
    step_frame(&mut w, 0, true, None, 0);
    assert_eq!(w.game_state, GameState::Playing);
    assert_eq!(w.score, Score(0));
    assert_eq!(w.timer.elapsed_ms, 0);
}

#[test]
fn death_only_below_threshold() {
    let mut w = playing_world();
    w.bird = Some(Bird { x: 0, y: -124_000_000, velocity: 0 });
    step_frame(&mut w, 0, false, None, 0);
    assert_eq!(w.game_state, GameState::Playing);
    w.bird = Some(Bird { x: 0, y: -125_000_001, velocity: 0 });
    step_frame(&mut w, 0, false, None, 0);
    assert_eq!(w.game_state, GameState::GameOver);
}

#[test]
fn game_over_waits_for_input() {
    let mut w = playing_world();
    w.bird = Some(Bird { x: 0, y: -200_000_000, velocity: 0 });
    step_frame(&mut w, 0, false, None, 0);
    assert_eq!(w.game_state, GameState::GameOver);
    step_frame(&mut w, 100, false, None, 0);
    assert_eq!(w.game_state, GameState::GameOver);
    step_frame(&mut w, 100, true, None, 0);
    assert_eq!(w.game_state, GameState::Menu);
}
