//! The session context and the frame step: one deterministic tick per
//! rendered frame, with the two state machines gating which passes run and
//! state transitions taking effect atomically at the end of the frame.

use vstd::prelude::*;

use crate::bird::{
    bird_vel_wf, fall, fall_spec, jump, jump_allowed, move_bird, move_delta, Bird, BirdView,
};
use crate::consts::{
    DEATH_Y, GROUND_WIDTH, JUMP_VELOCITY, MAX_FRAME_MS, MOVE_STEP_MAX, PIPE_CULL_X,
    PIPE_OFFSET_MAX, PIPE_OFFSET_MIN, PIPE_SPAWN_X, PIPE_X_LOW, POS_LIMIT,
    SCROLL_SPEED_UPX_PER_MS, SCROLL_STEP_MAX,
};
use crate::pipes::{
    any_collision, bird_hits_pipe, check_passed_pipe, check_pipe_collision, cull_seq,
    despawn_pipe, flagged_count, has_scorable, lemma_cull_preserves, lemma_flagged_count_cull,
    lemma_flagged_count_push, lemma_flagged_count_scroll, lemma_score_once, pair_seq, pipe_views,
    push_pipe_pair, score_pipes_spec, scroll_pipes, scroll_seq, Pipe, PipeView,
};
use crate::state::{reset_score, GameState, PlayState, Score};
use crate::timer::{reset_timer, timer_fires, timer_wf, PipeSpawnTimer};

verus! {

/// One ground tile. Exactly two exist, tiled end to end and recycled for
/// the process lifetime; both scroll with the scenery.
#[derive(Clone, Copy, Debug, PartialEq, Eq, Structural)]
pub struct GroundTile {
    pub x: i64,
}

/// The images of the ground tiles: their positions.
pub open spec fn ground_views(grounds: Seq<GroundTile>) -> Seq<int> {
    grounds.map_values(|g: GroundTile| g.x as int)
}

/// A ground tile position after the recycling pass: a tile that fell below
/// minus one tile width is advanced by two tile widths, producing an
/// endless ground without ever destroying a tile.
pub open spec fn recycle_ground(x: int) -> int {
    if x < -GROUND_WIDTH {
        x + 2 * GROUND_WIDTH
    } else {
        x
    }
}

/// All ground tiles after one frame of scrolling.
pub open spec fn scroll_grounds_seq(grounds: Seq<int>, dt_ms: int) -> Seq<int> {
    grounds.map_values(|x: int| x - SCROLL_SPEED_UPX_PER_MS * dt_ms)
}

/// All ground tiles after the recycling pass.
pub open spec fn recycle_seq(grounds: Seq<int>) -> Seq<int> {
    grounds.map_values(|x: int| recycle_ground(x))
}

/// The net effect of one frame on the ground tiles: scroll, then recycle.
pub open spec fn grounds_step(grounds: Seq<int>, dt_ms: int) -> Seq<int> {
    recycle_seq(scroll_grounds_seq(grounds, dt_ms))
}

/// Scroll pass for the ground: every tile moves left with the elapsed time.
pub fn scroll_grounds(grounds: &mut Vec<GroundTile>, dt_ms: i64)
    requires
        0 <= dt_ms <= MAX_FRAME_MS,
        forall|i: int| 0 <= i < old(grounds)@.len() ==> -POS_LIMIT <= (#[trigger] old(
            grounds,
        )@[i]).x <= POS_LIMIT,
    ensures
        ground_views(final(grounds)@) == scroll_grounds_seq(ground_views(old(grounds)@),
            dt_ms as int),
{
    let ghost ov = ground_views(old(grounds)@);
    let mut i: usize = 0;
    while i < grounds.len()
        invariant
            i <= grounds@.len(),
            grounds@.len() == old(grounds)@.len(),
            ov == ground_views(old(grounds)@),
            0 <= dt_ms <= MAX_FRAME_MS,
            forall|k: int| i <= k < grounds@.len() ==> grounds@[k] == old(grounds)@[k],
            forall|k: int|
                0 <= k < i ==> (#[trigger] grounds@[k]).x == ov[k] - SCROLL_SPEED_UPX_PER_MS
                    * dt_ms,
            forall|k: int| 0 <= k < old(grounds)@.len() ==> -POS_LIMIT <= (#[trigger] old(
                grounds,
            )@[k]).x <= POS_LIMIT,
        decreases grounds@.len() - i,
    {
        let g = grounds[i];
        grounds.set(i, GroundTile { x: g.x - SCROLL_SPEED_UPX_PER_MS * dt_ms });
        i += 1;
    }
    proof {
        assert(ground_views(grounds@) =~= scroll_grounds_seq(ov, dt_ms as int));
    }
}

/// Recycling pass: advances any tile that has scrolled past minus one tile
/// width by two tile widths; no ground entity is ever destroyed.
pub fn reuse_ground(grounds: &mut Vec<GroundTile>)
    requires
        forall|i: int| 0 <= i < old(grounds)@.len() ==> (#[trigger] old(grounds)@[i]).x
            >= -POS_LIMIT - SCROLL_STEP_MAX,
    ensures
        ground_views(final(grounds)@) == recycle_seq(ground_views(old(grounds)@)),
{
    let ghost ov = ground_views(old(grounds)@);
    let mut i: usize = 0;
    while i < grounds.len()
        invariant
            i <= grounds@.len(),
            grounds@.len() == old(grounds)@.len(),
            ov == ground_views(old(grounds)@),
            forall|k: int| i <= k < grounds@.len() ==> grounds@[k] == old(grounds)@[k],
            forall|k: int| 0 <= k < i ==> (#[trigger] grounds@[k]).x == recycle_ground(ov[k]),
            forall|k: int| 0 <= k < old(grounds)@.len() ==> (#[trigger] old(grounds)@[k]).x
                >= -POS_LIMIT - SCROLL_STEP_MAX,
        decreases grounds@.len() - i,
    {
        let g = grounds[i];
        if g.x < -GROUND_WIDTH {
            grounds.set(i, GroundTile { x: g.x + 2 * GROUND_WIDTH });
        }
        i += 1;
    }
    proof {
        assert(ground_views(grounds@) =~= recycle_seq(ov));
    }
}

/// The discrete sound-effect requests one frame emits: flap on every
/// activating input while playing normally, point whenever the score
/// changed, hit on entering `HitPipe` and on leaving `Playing`.
#[derive(Clone, Copy, Debug, PartialEq, Eq, Structural)]
pub struct SoundRequests {
    pub flap: bool,
    pub hit: bool,
    pub point: bool,
}

/// A frame that emits no sounds.
pub open spec fn no_sounds() -> SoundRequests {
    SoundRequests { flap: false, hit: false, point: false }
}

/// The whole mutable session context: both state machines, score, spawn
/// timer, the bird (exactly one while playing), the active pipes and the
/// two ground tiles.
pub struct World {
    pub game_state: GameState,
    pub play_state: PlayState,
    pub score: Score,
    pub timer: PipeSpawnTimer,
    pub bird: Option<Bird>,
    pub pipes: Vec<Pipe>,
    pub grounds: Vec<GroundTile>,
}

/// Mathematical image of a [`World`].
#[verifier::ext_equal]
pub struct WorldView {
    pub game_state: GameState,
    pub play_state: PlayState,
    pub score: int,
    pub timer_ms: int,
    pub bird: Option<BirdView>,
    pub pipes: Seq<PipeView>,
    pub grounds: Seq<int>,
}

impl View for World {
    type V = WorldView;

    open spec fn view(&self) -> WorldView {
        WorldView {
            game_state: self.game_state,
            play_state: self.play_state,
            score: self.score.0 as int,
            timer_ms: self.timer.elapsed_ms as int,
            bird: match self.bird {
                Some(b) => Some(b@),
                None => None,
            },
            pipes: pipe_views(self.pipes@),
            grounds: ground_views(self.grounds@),
        }
    }
}

/// What the frame step keeps true of every pipe: it sits between one
/// frame of scroll below the culling threshold and the spawn offset, it
/// scrolls, only a pair's bottom member can be a scoring trigger, and its
/// vertical position is within the exact-arithmetic range.
pub open spec fn pipe_wf(p: PipeView) -> bool {
    &&& PIPE_X_LOW <= p.x <= PIPE_SPAWN_X
    &&& -POS_LIMIT <= p.y <= POS_LIMIT
    &&& p.scrolls
    &&& (p.scoring ==> p.is_bottom)
}

/// Well-formedness of the session context; established by [`World::new`]
/// and preserved by every frame. It carries the invariants: at most one
/// bird, and exactly while playing; pipes only while playing; `HitPipe`
/// only while playing; score and spawn timer zeroed outside a session;
/// the bird's velocity between terminal velocity and the jump impulse and
/// its horizontal position at the origin; the timer accumulator below the
/// interval; and exactly two ground tiles, never past one tile width.
pub open spec fn wf(w: WorldView) -> bool {
    &&& w.grounds.len() == 2
    &&& (forall|i: int| 0 <= i < w.grounds.len() ==> #[trigger] w.grounds[i] <= GROUND_WIDTH)
    &&& (w.bird is Some <==> w.game_state == GameState::Playing)
    &&& (w.game_state != GameState::Playing ==> w.pipes.len() == 0)
    &&& (w.play_state == PlayState::HitPipe ==> w.game_state == GameState::Playing)
    &&& (w.game_state != GameState::Playing ==> w.score == 0 && w.timer_ms == 0)
    &&& (match w.bird {
        Some(b) => bird_vel_wf(b) && b.x == 0,
        None => true,
    })
    &&& timer_wf(w.timer_ms)
    &&& w.score >= 0
    &&& (forall|i: int| 0 <= i < w.pipes.len() ==> pipe_wf(#[trigger] w.pipes[i]))
}

impl World {
    /// The initial world: in the menu, nothing spawned, score and timer at
    /// zero, the two ground tiles laid end to end from the origin.
    pub fn new() -> (w: World)
        ensures
            w@.game_state == GameState::Menu,
            w@.play_state == PlayState::Normal,
            w@.score == 0,
            w@.timer_ms == 0,
            w@.bird is None,
            w@.pipes.len() == 0,
            w@.grounds =~= seq![0int, GROUND_WIDTH as int],
            wf(w@),
    {
        let mut grounds: Vec<GroundTile> = Vec::new();
        grounds.push(GroundTile { x: 0 });
        grounds.push(GroundTile { x: GROUND_WIDTH });
        let w = World {
            game_state: GameState::Menu,
            play_state: PlayState::Normal,
            score: Score(0),
            timer: PipeSpawnTimer::new(),
            bird: None,
            pipes: Vec::new(),
            grounds,
        };
        proof {
            assert(w@.grounds =~= seq![0int, GROUND_WIDTH as int]);
            assert(w@.pipes =~= Seq::<PipeView>::empty());
        }
        w
    }
}

/// The world on entering `Playing`: the bird spawns at the origin at rest,
/// the score display starts at zero, the sub-state is (re-)initialized to
/// `Normal`, and no pipes exist yet. The ground persists.
pub open spec fn enter_playing_spec(w: WorldView) -> WorldView {
    WorldView {
        game_state: GameState::Playing,
        play_state: PlayState::Normal,
        score: 0,
        timer_ms: 0,
        bird: Some(BirdView { x: 0, y: 0, velocity: 0 }),
        pipes: Seq::empty(),
        grounds: w.grounds,
    }
}

/// The world right after leaving `Playing`: the session-scoped entities
/// (bird and pipes) are destroyed together, score and spawn timer are
/// reset, and the sub-state returns to `Normal`. Only the ground survives.
pub open spec fn end_session_spec(grounds: Seq<int>) -> WorldView {
    WorldView {
        game_state: GameState::GameOver,
        play_state: PlayState::Normal,
        score: 0,
        timer_ms: 0,
        bird: None,
        pipes: Seq::empty(),
        grounds,
    }
}

/// The bird at this frame's positions: one frame of gravity, the position
/// integrated with the updated velocity, then the jump impulse if an
/// activating input occurred and the top-edge guard allows it.
pub open spec fn integrated_bird(b: BirdView, dt_ms: int, input: bool, window_height: Option<
    i64,
>) -> BirdView {
    let v1 = fall_spec(b.velocity, dt_ms);
    let y1 = b.y + move_delta(v1, dt_ms);
    let v2 = if input && jump_allowed(y1, window_height) {
        JUMP_VELOCITY as int
    } else {
        v1
    };
    BirdView { x: b.x, y: y1, velocity: v2 }
}

/// One frame while `Playing`. Physics and the death check run
/// unconditionally; the gameplay passes (jump, scoring, collision, spawn,
/// despawn, scroll, ground recycling) run only while the sub-state is
/// `Normal`. Transitions requested during the frame take effect at its
/// end.
pub open spec fn playing_step_spec(
    w: WorldView,
    dt_ms: int,
    input: bool,
    window_height: Option<i64>,
    offset: int,
) -> (WorldView, SoundRequests)
    recommends
        w.game_state == GameState::Playing,
        w.bird is Some,
{
    match w.bird {
        None => (w, no_sounds()),
        Some(b0) => {
            let v1 = fall_spec(b0.velocity, dt_ms);
            let y1 = b0.y + move_delta(v1, dt_ms);
            let dead = y1 < DEATH_Y;
            if w.play_state == PlayState::Normal {
                let bird1 = integrated_bird(b0, dt_ms, input, window_height);
                let scored = has_scorable(w.pipes, bird1);
                let pipes1 = score_pipes_spec(w.pipes, bird1);
                let hit = any_collision(pipes1, bird1);
                let fired = timer_fires(w.timer_ms, dt_ms);
                let t1: int = if fired {
                    0
                } else {
                    w.timer_ms + dt_ms
                };
                let pipes2 = if fired {
                    pipes1 + pair_seq(offset)
                } else {
                    pipes1
                };
                let pipes3 = cull_seq(pipes2);
                let pipes4 = scroll_seq(pipes3, dt_ms);
                let g1 = grounds_step(w.grounds, dt_ms);
                let sounds = SoundRequests { flap: input, hit: hit || dead, point: scored };
                if dead {
                    (end_session_spec(g1), sounds)
                } else {
                    (
                        WorldView {
                            game_state: GameState::Playing,
                            play_state: if hit {
                                PlayState::HitPipe
                            } else {
                                PlayState::Normal
                            },
                            score: w.score + if scored {
                                1int
                            } else {
                                0
                            },
                            timer_ms: t1,
                            bird: Some(bird1),
                            pipes: pipes4,
                            grounds: g1,
                        },
                        sounds,
                    )
                }
            } else {
                let bird1 = BirdView { x: b0.x, y: y1, velocity: v1 };
                if dead {
                    (
                        end_session_spec(w.grounds),
                        SoundRequests { flap: false, hit: true, point: false },
                    )
                } else {
                    (WorldView { bird: Some(bird1), ..w }, no_sounds())
                }
            }
        },
    }
}

/// One whole frame, from any state. In `Menu` an activating input starts a
/// session; in `GameOver` it returns to the menu; while `Playing` the
/// frame runs as [`playing_step_spec`] says.
pub open spec fn step_spec(
    w: WorldView,
    dt_ms: int,
    input: bool,
    window_height: Option<i64>,
    offset: int,
) -> (WorldView, SoundRequests) {
    if w.game_state == GameState::Menu {
        (
            if input {
                enter_playing_spec(w)
            } else {
                w
            },
            no_sounds(),
        )
    } else if w.game_state == GameState::GameOver {
        (
            if input {
                WorldView { game_state: GameState::Menu, ..w }
            } else {
                w
            },
            no_sounds(),
        )
    } else {
        playing_step_spec(w, dt_ms, input, window_height, offset)
    }
}

/// Session entry: spawns the bird at the origin at rest, zeroes the score,
/// resets the spawn timer and the sub-state. Pipes from a previous session
/// are already gone; the ground persists.
pub fn enter_playing(w: &mut World)
    ensures
        final(w)@ =~= enter_playing_spec(old(w)@),
{
    w.game_state = GameState::Playing;
    w.play_state = PlayState::Normal;
    w.score = Score(0);
    w.timer = PipeSpawnTimer { elapsed_ms: 0 };
    w.bird = Some(Bird { x: 0, y: 0, velocity: 0 });
    w.pipes = Vec::new();
    proof {
        assert(pipe_views(w.pipes@) =~= Seq::<PipeView>::empty());
    }
}

/// Session teardown on leaving `Playing`: destroys the session-scoped
/// entities (bird and pipes) together, resets score and spawn timer, and
/// returns the sub-state to `Normal`. The ground persists.
pub fn leave_playing(w: &mut World)
    ensures
        final(w)@ =~= end_session_spec(old(w)@.grounds),
{
    w.game_state = GameState::GameOver;
    w.play_state = PlayState::Normal;
    reset_score(&mut w.score);
    reset_timer(&mut w.timer);
    w.bird = None;
    w.pipes = Vec::new();
    proof {
        assert(pipe_views(w.pipes@) =~= Seq::<PipeView>::empty());
    }
}

/// One whole frame of the simulation, in the fixed deterministic order:
/// physics and the death check unconditionally while playing; then, gated
/// by `Playing` and `Normal`: the input-reactive jump, scoring, collision,
/// spawn, despawn, scroll and ground recycling. Transitions requested
/// during the frame take effect at its end. The vertical offset for a
/// possible spawn is injected by the caller, drawn from the fixed
/// symmetric range. Returns the frame's sound-effect requests.
pub fn step_frame(
    w: &mut World,
    dt_ms: i64,
    input: bool,
    window_height: Option<i64>,
    offset: i64,
) -> (sounds: SoundRequests)
    requires
        wf(old(w)@),
        0 <= dt_ms <= MAX_FRAME_MS,
        PIPE_OFFSET_MIN <= offset < PIPE_OFFSET_MAX,
        old(w)@.score < usize::MAX,
        (match old(w)@.bird {
            Some(b) => -POS_LIMIT <= b.y <= POS_LIMIT,
            None => true,
        }),
        forall|i: int| 0 <= i < old(w)@.grounds.len() ==> #[trigger] old(w)@.grounds[i]
            >= -POS_LIMIT,
    ensures
        final(w)@ == step_spec(old(w)@, dt_ms as int, input, window_height, offset as int).0,
        sounds == step_spec(old(w)@, dt_ms as int, input, window_height, offset as int).1,
        wf(final(w)@),
{
    let ghost w0 = old(w)@;
    proof {
        lemma_step_preserves_wf(w0, dt_ms as int, input, window_height, offset as int);
    }
    if w.game_state == GameState::Menu {
        if input {
            enter_playing(w);
        }
        proof {
            assert(w@ =~= step_spec(w0, dt_ms as int, input, window_height, offset as int).0);
        }
        SoundRequests { flap: false, hit: false, point: false }
    } else if w.game_state == GameState::GameOver {
        if input {
            w.game_state = GameState::Menu;
        }
        proof {
            assert(w@ =~= step_spec(w0, dt_ms as int, input, window_height, offset as int).0);
        }
        SoundRequests { flap: false, hit: false, point: false }
    } else {
        let mut sounds = SoundRequests { flap: false, hit: false, point: false };
        let mut b = w.bird.unwrap();
        fall(&mut b, dt_ms);
        move_bird(&mut b, dt_ms);
        let dead = b.y < DEATH_Y;
        if w.play_state == PlayState::Normal {
            if input {
                jump(&mut b, window_height);
                sounds.flap = true;
            }
            let ghost bird1 = integrated_bird(w0.bird->Some_0, dt_ms as int, input,
                window_height);
            proof {
                assert(b@ == bird1);
                assert forall|i: int| 0 <= i < w.pipes@.len() implies -POS_LIMIT
                    <= (#[trigger] w.pipes@[i]).x <= POS_LIMIT by {
                    assert(pipe_wf(w0.pipes[i]));
                    assert(w0.pipes[i] == w.pipes@[i]@);
                }
            }
            let score_before = w.score.0;
            check_passed_pipe(&mut w.pipes, &mut w.score, &b);
            let scored = w.score.0 > score_before;
            if scored {
                sounds.point = true;
            }
            let ghost pipes1 = score_pipes_spec(w0.pipes, bird1);
            proof {
                lemma_score_once(w0.pipes, bird1);
                assert forall|i: int| 0 <= i < w.pipes@.len() implies -POS_LIMIT
                    <= (#[trigger] w.pipes@[i]).x <= POS_LIMIT && -POS_LIMIT <= w.pipes@[i].y
                    <= POS_LIMIT by {
                    assert(w.pipes@[i]@ == pipes1[i]);
                    assert(pipes1[i].x == w0.pipes[i].x && pipes1[i].y == w0.pipes[i].y);
                    assert(pipe_wf(w0.pipes[i]));
                }
            }
            let hit = check_pipe_collision(&w.pipes, &b);
            if hit {
                sounds.hit = true;
            }
            let fired = w.timer.tick(dt_ms);
            if fired {
                push_pipe_pair(&mut w.pipes, offset);
            }
            let ghost pipes2 = if fired {
                pipes1 + pair_seq(offset as int)
            } else {
                pipes1
            };
            despawn_pipe(&mut w.pipes);
            let ghost pipes3 = cull_seq(pipes2);
            proof {
                assert forall|i: int| 0 <= i < pipes2.len() implies (#[trigger] pipes2[i]).x
                    <= PIPE_SPAWN_X by {
                    if i < pipes1.len() {
                        assert(pipes2[i] == pipes1[i]);
                        assert(pipes1[i].x == w0.pipes[i].x);
                        assert(pipe_wf(w0.pipes[i]));
                    } else {
                        assert(pipes2[i] == pair_seq(offset as int)[i - pipes1.len()]);
                    }
                }
                lemma_cull_preserves(pipes2, |p: PipeView| p.x <= PIPE_SPAWN_X);
                assert forall|i: int| 0 <= i < w.pipes@.len() implies -POS_LIMIT
                    <= (#[trigger] w.pipes@[i]).x <= POS_LIMIT by {
                    assert(w.pipes@[i]@ == pipes3[i]);
                    assert(pipes3[i].x <= PIPE_SPAWN_X);
                    assert(pipes3[i].x >= PIPE_CULL_X);
                }
            }
            scroll_pipes(&mut w.pipes, dt_ms);
            proof {
                assert forall|i: int| 0 <= i < w.grounds@.len() implies -POS_LIMIT
                    <= (#[trigger] w.grounds@[i]).x <= POS_LIMIT by {
                    assert(w0.grounds[i] == w.grounds@[i].x as int);
                    assert(w0.grounds[i] <= GROUND_WIDTH);
                }
            }
            scroll_grounds(&mut w.grounds, dt_ms);
            proof {
                assert(0 <= SCROLL_SPEED_UPX_PER_MS * dt_ms <= SCROLL_STEP_MAX);
                assert forall|i: int| 0 <= i < w.grounds@.len() implies (
                #[trigger] w.grounds@[i]).x >= -POS_LIMIT - SCROLL_STEP_MAX by {
                    assert(w.grounds@[i].x as int == scroll_grounds_seq(w0.grounds,
                        dt_ms as int)[i]);
                    assert(w0.grounds[i] >= -POS_LIMIT);
                }
            }
            reuse_ground(&mut w.grounds);
            if dead {
                sounds.hit = true;
                leave_playing(w);
            } else {
                w.bird = Some(b);
                w.play_state = if hit {
                    PlayState::HitPipe
                } else {
                    PlayState::Normal
                };
            }
            proof {
                assert(w@ =~= step_spec(w0, dt_ms as int, input, window_height,
                    offset as int).0);
                assert(sounds == step_spec(w0, dt_ms as int, input, window_height,
                    offset as int).1);
            }
            sounds
        } else {
            if dead {
                sounds.hit = true;
                leave_playing(w);
            } else {
                w.bird = Some(b);
            }
            proof {
                assert(w@ =~= step_spec(w0, dt_ms as int, input, window_height,
                    offset as int).0);
                assert(sounds == step_spec(w0, dt_ms as int, input, window_height,
                    offset as int).1);
            }
            sounds
        }
    }
}

/// Law: every frame preserves the invariants of [`wf`] — at most one bird
/// and exactly while playing, pipes only while playing, `HitPipe` only
/// while playing, score and timer zeroed outside a session.
pub proof fn lemma_step_preserves_wf(
    w: WorldView,
    dt_ms: int,
    input: bool,
    window_height: Option<i64>,
    offset: int,
)
    requires
        wf(w),
        0 <= dt_ms <= MAX_FRAME_MS,
        PIPE_OFFSET_MIN <= offset < PIPE_OFFSET_MAX,
    ensures
        wf(step_spec(w, dt_ms, input, window_height, offset).0),
{
    let w1 = step_spec(w, dt_ms, input, window_height, offset).0;
    if w.game_state == GameState::Playing {
        let b0 = w.bird->Some_0;
        let v1 = fall_spec(b0.velocity, dt_ms);
        let y1 = b0.y + move_delta(v1, dt_ms);
        assert(0 <= SCROLL_SPEED_UPX_PER_MS * dt_ms <= SCROLL_STEP_MAX);
        if w.play_state == PlayState::Normal {
            let bird1 = integrated_bird(b0, dt_ms, input, window_height);
            assert(bird_vel_wf(bird1));
            let pipes1 = score_pipes_spec(w.pipes, bird1);
            assert(forall|i: int| 0 <= i < pipes1.len() ==> pipe_wf(#[trigger] pipes1[i]));
            let pipes2 = if timer_fires(w.timer_ms, dt_ms) {
                pipes1 + pair_seq(offset)
            } else {
                pipes1
            };
            assert(pipe_wf(pair_seq(offset)[0]));
            assert(pipe_wf(pair_seq(offset)[1]));
            assert(forall|i: int| 0 <= i < pipes2.len() ==> pipe_wf(#[trigger] pipes2[i]));
            lemma_cull_preserves(pipes2, |p: PipeView| pipe_wf(p));
            let pipes3 = cull_seq(pipes2);
            let pipes4 = scroll_seq(pipes3, dt_ms);
            assert forall|i: int| 0 <= i < pipes4.len() implies pipe_wf(#[trigger] pipes4[i]) by {
                assert(pipe_wf(pipes3[i]) && pipes3[i].x >= PIPE_CULL_X);
            }
            let g1 = grounds_step(w.grounds, dt_ms);
            assert(forall|i: int| 0 <= i < g1.len() ==> #[trigger] g1[i] <= GROUND_WIDTH);
        }
    }
}

/// The scoring pass changes only scoring flags, so whether the bird
/// overlaps some pipe is the same before and after it.
proof fn lemma_collision_unchanged_by_scoring(pipes: Seq<PipeView>, bird: BirdView)
    ensures
        any_collision(score_pipes_spec(pipes, bird), bird) == any_collision(pipes, bird),
{
    let sc = score_pipes_spec(pipes, bird);
    lemma_score_once(pipes, bird);
    assert forall|i: int| 0 <= i < pipes.len() implies (bird_hits_pipe(bird, #[trigger] sc[i])
        == bird_hits_pipe(bird, pipes[i])) by {
        assert(sc[i].x == pipes[i].x && sc[i].y == pipes[i].y);
    }
    if any_collision(sc, bird) {
        let i = choose|i: int| 0 <= i < sc.len() && bird_hits_pipe(bird, #[trigger] sc[i]);
        assert(bird_hits_pipe(bird, pipes[i]));
    }
    if any_collision(pipes, bird) {
        let i = choose|i: int| 0 <= i < pipes.len() && bird_hits_pipe(bird, #[trigger] pipes[i]);
        assert(bird_hits_pipe(bird, sc[i]));
    }
}

/// Law: the sub-state reaches `HitPipe` only on a frame where the bird's
/// box, at that frame's integrated position, overlaps some active pipe's
/// box; and once `HitPipe`, it never reverts to `Normal` while the game
/// stays in `Playing` — the only way out is the session ending.
pub proof fn lemma_hit_transitions(
    w: WorldView,
    dt_ms: int,
    input: bool,
    window_height: Option<i64>,
    offset: int,
)
    requires
        wf(w),
    ensures
        ({
            let w1 = step_spec(w, dt_ms, input, window_height, offset).0;
            &&& ((w.play_state == PlayState::Normal && w1.play_state == PlayState::HitPipe)
                ==> (w.game_state == GameState::Playing && any_collision(w.pipes,
                integrated_bird(w.bird->Some_0, dt_ms, input, window_height))))
            &&& ((w.play_state == PlayState::HitPipe && w1.game_state == GameState::Playing)
                ==> w1.play_state == PlayState::HitPipe)
        }),
{
    if w.game_state == GameState::Playing && w.play_state == PlayState::Normal {
        let bird1 = integrated_bird(w.bird->Some_0, dt_ms, input, window_height);
        lemma_collision_unchanged_by_scoring(w.pipes, bird1);
    }
}

/// Law: the score counts the pairs the bird has passed, each exactly
/// once. Over one frame that stays in the session, the score plus the
/// number of pairs still awaiting their point is conserved, rising by one
/// exactly when a new pair spawns — so every point corresponds to one
/// flag taken away, and a pair that has scored can never score again. The
/// one hypothesis: no pipe still awaiting its point has crossed the
/// culling threshold (the pass threshold lies well right of the culling
/// threshold, so a pair is always scored long before it could be culled).
pub proof fn lemma_frame_score_conservation(
    w: WorldView,
    dt_ms: int,
    input: bool,
    window_height: Option<i64>,
    offset: int,
)
    requires
        wf(w),
        w.game_state == GameState::Playing,
        w.play_state == PlayState::Normal,
        forall|i: int| 0 <= i < w.pipes.len() ==> ((#[trigger] w.pipes[i]).scoring
            ==> w.pipes[i].x >= PIPE_CULL_X),
    ensures
        ({
            let w1 = step_spec(w, dt_ms, input, window_height, offset).0;
            w1.game_state == GameState::Playing ==> w1.score + flagged_count(w1.pipes) == w.score
                + flagged_count(w.pipes) + (if timer_fires(w.timer_ms, dt_ms) {
                1int
            } else {
                0
            })
        }),
{
    let bird1 = integrated_bird(w.bird->Some_0, dt_ms, input, window_height);
    let pipes1 = score_pipes_spec(w.pipes, bird1);
    lemma_score_once(w.pipes, bird1);
    let fired = timer_fires(w.timer_ms, dt_ms);
    let pipes2 = if fired {
        pipes1 + pair_seq(offset)
    } else {
        pipes1
    };
    if fired {
        assert(pipes2 =~= pipes1.push(pair_seq(offset)[0]).push(pair_seq(offset)[1]));
        lemma_flagged_count_push(pipes1, pair_seq(offset)[0]);
        lemma_flagged_count_push(pipes1.push(pair_seq(offset)[0]), pair_seq(offset)[1]);
    }
    assert forall|i: int| 0 <= i < pipes2.len() implies ((#[trigger] pipes2[i]).scoring
        ==> pipes2[i].x >= PIPE_CULL_X) by {
        if i < pipes1.len() {
            assert(pipes1[i].scoring ==> w.pipes[i].scoring);
            assert(pipes1[i].x == w.pipes[i].x);
        } else {
            assert(pipes2[i] == pair_seq(offset)[i - pipes1.len()]);
        }
    }
    lemma_flagged_count_cull(pipes2);
    lemma_flagged_count_scroll(cull_seq(pipes2), dt_ms);
}

/// Law: the game leaves `Playing` for `GameOver` exactly on a frame where
/// the bird's integrated vertical position is below the death threshold;
/// `Menu` goes to `Playing`, and `GameOver` back to `Menu`, exactly on a
/// frame with an activating input.
pub proof fn lemma_game_transitions(
    w: WorldView,
    dt_ms: int,
    input: bool,
    window_height: Option<i64>,
    offset: int,
)
    requires
        wf(w),
    ensures
        ({
            let w1 = step_spec(w, dt_ms, input, window_height, offset).0;
            &&& (w.game_state == GameState::Menu ==> w1.game_state == (if input {
                GameState::Playing
            } else {
                GameState::Menu
            }))
            &&& (w.game_state == GameState::GameOver ==> w1.game_state == (if input {
                GameState::Menu
            } else {
                GameState::GameOver
            }))
            &&& (w.game_state == GameState::Playing ==> w1.game_state == (if (
            w.bird->Some_0).y + move_delta(fall_spec((w.bird->Some_0).velocity, dt_ms), dt_ms)
                < DEATH_Y {
                GameState::GameOver
            } else {
                GameState::Playing
            }))
        }),
{
}

} // verus!
