//! Pipes: procedural spawning in pairs with a randomized vertical offset,
//! scoring when the bird passes a pair, axis-aligned collision with the
//! bird, culling once off screen, and scrolling.

use vstd::prelude::*;

use crate::bird::{Bird, BirdView};
use crate::consts::{
    BIRD_HALF_H, BIRD_HALF_W, GAP_HEIGHT, MAX_FRAME_MS, MOVE_STEP_MAX, PIPE_CULL_X, PIPE_HALF_H,
    PIPE_HALF_W, PIPE_OFFSET_MAX, PIPE_OFFSET_MIN, PIPE_SPAWN_X, POS_LIMIT, SCROLL_SPEED_UPX_PER_MS,
    SCROLL_STEP_MAX,
};
use crate::geom::{aabb_overlap, boxes_overlap};
use crate::state::Score;
use crate::timer::{timer_fires, timer_wf, PipeSpawnTimer};

verus! {

/// One pipe entity. Pipes are always created in pairs sharing one
/// x-coordinate; `is_bottom` marks the lower member, `scoring` marks the
/// member that has not yet been scored (set only on the lower member), and
/// `scrolls` marks the pipe as scrolling scenery. Positions are the center
/// of the pipe's bounding box, in millionths of a pixel.
#[derive(Clone, Copy, Debug, PartialEq, Eq, Structural)]
pub struct Pipe {
    pub x: i64,
    pub y: i64,
    pub is_bottom: bool,
    pub scoring: bool,
    pub scrolls: bool,
}

/// Mathematical image of a [`Pipe`].
pub struct PipeView {
    pub x: int,
    pub y: int,
    pub is_bottom: bool,
    pub scoring: bool,
    pub scrolls: bool,
}

impl View for Pipe {
    type V = PipeView;

    open spec fn view(&self) -> PipeView {
        PipeView {
            x: self.x as int,
            y: self.y as int,
            is_bottom: self.is_bottom,
            scoring: self.scoring,
            scrolls: self.scrolls,
        }
    }
}

/// The images of a whole vector of pipes.
pub open spec fn pipe_views(pipes: Seq<Pipe>) -> Seq<PipeView> {
    pipes.map_values(|p: Pipe| p@)
}

/// The lower member of a freshly spawned pair: centered half a pipe height
/// below the drawn offset, flagged as the pair's scoring trigger.
pub open spec fn bottom_pipe_spec(offset: int) -> PipeView {
    PipeView {
        x: PIPE_SPAWN_X as int,
        y: offset - PIPE_HALF_H,
        is_bottom: true,
        scoring: true,
        scrolls: true,
    }
}

/// The upper member of a freshly spawned pair: centered half a pipe height
/// plus the fixed gap above the drawn offset.
pub open spec fn top_pipe_spec(offset: int) -> PipeView {
    PipeView {
        x: PIPE_SPAWN_X as int,
        y: offset + PIPE_HALF_H + GAP_HEIGHT,
        is_bottom: false,
        scoring: false,
        scrolls: true,
    }
}

/// What one spawn event appends: the bottom member, then the top member.
pub open spec fn pair_seq(offset: int) -> Seq<PipeView> {
    seq![bottom_pipe_spec(offset), top_pipe_spec(offset)]
}

/// Law: every spawned pair shares one x-coordinate, and the clearance
/// between the top member's lower edge and the bottom member's upper edge
/// is exactly the fixed gap height.
pub proof fn lemma_pair_geometry(offset: int)
    ensures
        pair_seq(offset)[0].x == pair_seq(offset)[1].x,
        (pair_seq(offset)[1].y - PIPE_HALF_H) - (pair_seq(offset)[0].y + PIPE_HALF_H)
            == GAP_HEIGHT,
        pair_seq(offset)[0].is_bottom && pair_seq(offset)[0].scoring,
        !pair_seq(offset)[1].is_bottom && !pair_seq(offset)[1].scoring,
{
}

/// Whether the pipe's right edge has moved left of the bird's left edge.
pub open spec fn passes(bird: BirdView, p: PipeView) -> bool {
    p.x + PIPE_HALF_W < bird.x - BIRD_HALF_W
}

/// Whether the pipe at index `i` is still flagged for scoring and has been
/// passed by the bird.
pub open spec fn scorable_at(pipes: Seq<PipeView>, bird: BirdView, i: int) -> bool {
    &&& 0 <= i < pipes.len()
    &&& pipes[i].scoring
    &&& passes(bird, pipes[i])
}

/// Whether some pipe scores this frame.
pub open spec fn has_scorable(pipes: Seq<PipeView>, bird: BirdView) -> bool {
    exists|i: int| scorable_at(pipes, bird, i)
}

/// Whether index `i` is the first pipe that scores this frame.
pub open spec fn is_first_scorable(pipes: Seq<PipeView>, bird: BirdView, i: int) -> bool {
    &&& scorable_at(pipes, bird, i)
    &&& forall|j: int| 0 <= j < i ==> !scorable_at(pipes, bird, j)
}

/// The pipes after one scoring pass: the first pipe found flagged and
/// passed loses its flag (so it can never score again); everything else,
/// positions included, is unchanged. At most one pipe scores per frame.
pub open spec fn score_pipes_spec(pipes: Seq<PipeView>, bird: BirdView) -> Seq<PipeView> {
    Seq::new(
        pipes.len(),
        |i: int|
            if is_first_scorable(pipes, bird, i) {
                PipeView { scoring: false, ..pipes[i] }
            } else {
                pipes[i]
            },
    )
}

/// How many pipes are still flagged as scoring triggers.
pub open spec fn flagged_count(pipes: Seq<PipeView>) -> int
    decreases pipes.len(),
{
    if pipes.len() == 0 {
        0
    } else {
        flagged_count(pipes.drop_last()) + if pipes.last().scoring {
            1int
        } else {
            0
        }
    }
}

proof fn lemma_flagged_count_update(s: Seq<PipeView>, i: int, p: PipeView)
    requires
        0 <= i < s.len(),
    ensures
        flagged_count(s.update(i, p)) == flagged_count(s) - (if s[i].scoring {
            1int
        } else {
            0
        }) + (if p.scoring {
            1int
        } else {
            0
        }),
    decreases s.len(),
{
    let su = s.update(i, p);
    if i == s.len() - 1 {
        assert(su.drop_last() =~= s.drop_last());
        assert(su.last() == p);
    } else {
        assert(su.drop_last() =~= s.drop_last().update(i, p));
        assert(su.last() == s.last());
        lemma_flagged_count_update(s.drop_last(), i, p);
    }
}

proof fn lemma_exists_first(pipes: Seq<PipeView>, bird: BirdView, i: int)
    requires
        scorable_at(pipes, bird, i),
    ensures
        exists|k: int| is_first_scorable(pipes, bird, k),
    decreases i,
{
    if forall|j: int| 0 <= j < i ==> !scorable_at(pipes, bird, j) {
        assert(is_first_scorable(pipes, bird, i));
    } else {
        let j = choose|j: int| 0 <= j < i && scorable_at(pipes, bird, j);
        lemma_exists_first(pipes, bird, j);
    }
}

/// Law: the score is the count of scoring flags taken away, each taken
/// exactly once. One scoring pass removes exactly one flag when some pipe
/// has been passed and none otherwise, never sets a flag on a pipe that
/// has already scored, and moves nothing.
pub proof fn lemma_score_once(pipes: Seq<PipeView>, bird: BirdView)
    ensures
        score_pipes_spec(pipes, bird).len() == pipes.len(),
        flagged_count(score_pipes_spec(pipes, bird)) + (if has_scorable(pipes, bird) {
            1int
        } else {
            0
        }) == flagged_count(pipes),
        forall|i: int|
            0 <= i < pipes.len() ==> ((#[trigger] score_pipes_spec(pipes, bird)[i]).scoring
                ==> pipes[i].scoring),
        forall|i: int|
            0 <= i < pipes.len() ==> (#[trigger] score_pipes_spec(pipes, bird)[i]).x == pipes[i].x
                && score_pipes_spec(pipes, bird)[i].y == pipes[i].y,
{
    let sc = score_pipes_spec(pipes, bird);
    if has_scorable(pipes, bird) {
        let w = choose|i: int| scorable_at(pipes, bird, i);
        lemma_exists_first(pipes, bird, w);
        let i0 = choose|k: int| is_first_scorable(pipes, bird, k);
        assert(is_first_scorable(pipes, bird, i0));
        assert forall|k: int| 0 <= k < pipes.len() && k != i0 implies !is_first_scorable(
            pipes,
            bird,
            k,
        ) by {
            if k > i0 {
                assert(scorable_at(pipes, bird, i0));
            }
        }
        assert(sc =~= pipes.update(i0, PipeView { scoring: false, ..pipes[i0] }));
        lemma_flagged_count_update(pipes, i0, PipeView { scoring: false, ..pipes[i0] });
    } else {
        assert forall|k: int| 0 <= k < pipes.len() implies !is_first_scorable(pipes, bird, k) by {
            assert(!scorable_at(pipes, bird, k));
        }
        assert(sc =~= pipes);
    }
}

/// Appending a pipe adds its flag to the count.
pub proof fn lemma_flagged_count_push(s: Seq<PipeView>, p: PipeView)
    ensures
        flagged_count(s.push(p)) == flagged_count(s) + (if p.scoring {
            1int
        } else {
            0
        }),
{
    assert(s.push(p).drop_last() =~= s);
    assert(s.push(p).last() == p);
}

/// Scrolling changes no scoring flag, so it keeps the count.
pub proof fn lemma_flagged_count_scroll(s: Seq<PipeView>, dt_ms: int)
    ensures
        flagged_count(scroll_seq(s, dt_ms)) == flagged_count(s),
    decreases s.len(),
{
    if s.len() > 0 {
        lemma_flagged_count_scroll(s.drop_last(), dt_ms);
        assert(scroll_seq(s, dt_ms).drop_last() =~= scroll_seq(s.drop_last(), dt_ms));
        assert(scroll_seq(s, dt_ms).last() == scroll_pipe(s.last(), dt_ms));
    }
}

/// When no pipe still flagged for scoring has crossed the culling
/// threshold, the despawn pass destroys only already-scored pipes and
/// keeps the count of flags.
pub proof fn lemma_flagged_count_cull(s: Seq<PipeView>)
    requires
        forall|i: int| 0 <= i < s.len() ==> ((#[trigger] s[i]).scoring ==> s[i].x >= PIPE_CULL_X),
    ensures
        flagged_count(cull_seq(s)) == flagged_count(s),
    decreases s.len(),
{
    if s.len() > 0 {
        assert(forall|i: int|
            0 <= i < s.drop_last().len() ==> ((#[trigger] s.drop_last()[i]).scoring
                ==> s.drop_last()[i].x >= PIPE_CULL_X));
        lemma_flagged_count_cull(s.drop_last());
        if s.last().x < PIPE_CULL_X {
            assert(!s.last().scoring);
        } else {
            lemma_flagged_count_push(cull_seq(s.drop_last()), s.last());
        }
    }
}

/// Scoring pass: for each pipe still flagged as a scoring trigger, tests
/// whether its right edge has moved left of the bird's left edge; the first
/// such pipe is unflagged and the score incremented by one, and the scan
/// stops — at most one scoring event per frame.
pub fn check_passed_pipe(pipes: &mut Vec<Pipe>, score: &mut Score, bird: &Bird)
    requires
        old(score).0 < usize::MAX,
        -POS_LIMIT <= bird.x <= POS_LIMIT,
        forall|i: int|
            0 <= i < old(pipes)@.len() ==> -POS_LIMIT <= (#[trigger] old(pipes)@[i]).x
                <= POS_LIMIT,
    ensures
        pipe_views(final(pipes)@) == score_pipes_spec(pipe_views(old(pipes)@), bird@),
        final(score).0 == old(score).0 + (if has_scorable(pipe_views(old(pipes)@), bird@) {
            1int
        } else {
            0
        }),
{
    let ghost ov = pipe_views(old(pipes)@);
    let mut i: usize = 0;
    while i < pipes.len()
        invariant
            i <= pipes@.len(),
            pipes@ == old(pipes)@,
            score == old(score),
            ov == pipe_views(old(pipes)@),
            old(score).0 < usize::MAX,
            -POS_LIMIT <= bird.x <= POS_LIMIT,
            forall|k: int| 0 <= k < pipes@.len() ==> -POS_LIMIT <= (#[trigger] pipes@[k]).x
                <= POS_LIMIT,
            forall|j: int| 0 <= j < i ==> !scorable_at(ov, bird@, j),
        decreases pipes@.len() - i,
    {
        let p = pipes[i];
        if p.scoring && p.x + PIPE_HALF_W < bird.x - BIRD_HALF_W {
            pipes.set(i, Pipe { scoring: false, ..p });
            score.0 = score.0 + 1;
            proof {
                assert(scorable_at(ov, bird@, i as int));
                assert(is_first_scorable(ov, bird@, i as int));
                assert forall|k: int| 0 <= k < ov.len() implies pipe_views(pipes@)[k]
                    == score_pipes_spec(ov, bird@)[k] by {
                    if k < i {
                        assert(!scorable_at(ov, bird@, k));
                    } else if k > i {
                        assert(scorable_at(ov, bird@, i as int));
                        assert(!is_first_scorable(ov, bird@, k));
                    }
                }
                assert(pipe_views(pipes@) =~= score_pipes_spec(ov, bird@));
            }
            return ;
        }
        proof {
            assert(!scorable_at(ov, bird@, i as int));
        }
        i += 1;
    }
    proof {
        assert forall|k: int| 0 <= k < ov.len() implies pipe_views(pipes@)[k] == score_pipes_spec(
            ov,
            bird@,
        )[k] by {
            assert(!scorable_at(ov, bird@, k));
        }
        assert(pipe_views(pipes@) =~= score_pipes_spec(ov, bird@));
        assert(!has_scorable(ov, bird@)) by {
            assert forall|k: int| !scorable_at(ov, bird@, k) by {}
        }
    }
}

/// Whether the bird's bounding box overlaps the pipe's bounding box.
pub open spec fn bird_hits_pipe(bird: BirdView, p: PipeView) -> bool {
    boxes_overlap(bird.x, bird.y, BIRD_HALF_W as int, BIRD_HALF_H as int, p.x, p.y,
        PIPE_HALF_W as int, PIPE_HALF_H as int)
}

/// Whether the bird overlaps some pipe.
pub open spec fn any_collision(pipes: Seq<PipeView>, bird: BirdView) -> bool {
    exists|i: int| 0 <= i < pipes.len() && bird_hits_pipe(bird, #[trigger] pipes[i])
}

/// Collision pass: tests the bird's box against every active pipe's box.
pub fn check_pipe_collision(pipes: &Vec<Pipe>, bird: &Bird) -> (hit: bool)
    requires
        -POS_LIMIT - MOVE_STEP_MAX <= bird.x <= POS_LIMIT + MOVE_STEP_MAX,
        -POS_LIMIT - MOVE_STEP_MAX <= bird.y <= POS_LIMIT + MOVE_STEP_MAX,
        forall|i: int|
            0 <= i < pipes@.len() ==> -POS_LIMIT <= (#[trigger] pipes@[i]).x <= POS_LIMIT
                && -POS_LIMIT <= pipes@[i].y <= POS_LIMIT,
    ensures
        hit == any_collision(pipe_views(pipes@), bird@),
{
    let mut i: usize = 0;
    while i < pipes.len()
        invariant
            i <= pipes@.len(),
            -POS_LIMIT - MOVE_STEP_MAX <= bird.x <= POS_LIMIT + MOVE_STEP_MAX,
            -POS_LIMIT - MOVE_STEP_MAX <= bird.y <= POS_LIMIT + MOVE_STEP_MAX,
            forall|k: int|
                0 <= k < pipes@.len() ==> -POS_LIMIT <= (#[trigger] pipes@[k]).x <= POS_LIMIT
                    && -POS_LIMIT <= pipes@[k].y <= POS_LIMIT,
            forall|j: int| 0 <= j < i ==> !bird_hits_pipe(bird@, #[trigger] pipe_views(pipes@)[j]),
        decreases pipes@.len() - i,
    {
        let p = pipes[i];
        if aabb_overlap(bird.x, bird.y, BIRD_HALF_W, BIRD_HALF_H, p.x, p.y, PIPE_HALF_W,
            PIPE_HALF_H) {
            proof {
                assert(bird_hits_pipe(bird@, pipe_views(pipes@)[i as int]));
            }
            return true;
        }
        i += 1;
    }
    false
}

/// The pipes that survive the despawn pass: exactly those whose position
/// has not crossed the off-screen-left threshold, in their original order.
pub open spec fn cull_seq(pipes: Seq<PipeView>) -> Seq<PipeView>
    decreases pipes.len(),
{
    if pipes.len() == 0 {
        Seq::empty()
    } else {
        let rest = cull_seq(pipes.drop_last());
        if pipes.last().x < PIPE_CULL_X {
            rest
        } else {
            rest.push(pipes.last())
        }
    }
}

/// Every pipe that survives the despawn pass satisfies whatever held of
/// all pipes before it, and sits at or right of the culling threshold.
pub proof fn lemma_cull_preserves(s: Seq<PipeView>, p: spec_fn(PipeView) -> bool)
    requires
        forall|i: int| 0 <= i < s.len() ==> p(#[trigger] s[i]),
    ensures
        cull_seq(s).len() <= s.len(),
        forall|i: int|
            0 <= i < cull_seq(s).len() ==> p(#[trigger] cull_seq(s)[i]) && cull_seq(s)[i].x
                >= PIPE_CULL_X,
    decreases s.len(),
{
    if s.len() > 0 {
        assert(forall|i: int| 0 <= i < s.drop_last().len() ==> p(#[trigger] s.drop_last()[i]));
        lemma_cull_preserves(s.drop_last(), p);
        assert(p(s.last()));
    }
}

proof fn lemma_cull_fixed(s: Seq<PipeView>)
    requires
        forall|i: int| 0 <= i < s.len() ==> (#[trigger] s[i]).x >= PIPE_CULL_X,
    ensures
        cull_seq(s) == s,
    decreases s.len(),
{
    if s.len() == 0 {
        assert(cull_seq(s) =~= s);
    } else {
        assert(forall|i: int|
            0 <= i < s.drop_last().len() ==> (#[trigger] s.drop_last()[i]).x >= PIPE_CULL_X);
        lemma_cull_fixed(s.drop_last());
        assert(s.last().x >= PIPE_CULL_X);
        assert(cull_seq(s) == s.drop_last().push(s.last()));
        assert(s.drop_last().push(s.last()) =~= s);
    }
}

/// Law: the despawn pass is idempotent. Once every pipe past the culling
/// threshold is destroyed, running the pass again changes nothing.
pub proof fn lemma_cull_idempotent(s: Seq<PipeView>)
    ensures
        cull_seq(cull_seq(s)) == cull_seq(s),
{
    lemma_cull_preserves(s, |p: PipeView| true);
    lemma_cull_fixed(cull_seq(s));
}

/// Despawn pass: destroys every pipe whose position has crossed the fixed
/// off-screen-left threshold, permanently.
pub fn despawn_pipe(pipes: &mut Vec<Pipe>)
    ensures
        pipe_views(final(pipes)@) == cull_seq(pipe_views(old(pipes)@)),
        forall|i: int|
            0 <= i < final(pipes)@.len() ==> (#[trigger] final(pipes)@[i]).x >= PIPE_CULL_X,
{
    let ghost ov = pipe_views(old(pipes)@);
    let mut kept: Vec<Pipe> = Vec::new();
    let mut i: usize = 0;
    while i < pipes.len()
        invariant
            i <= pipes@.len(),
            pipes@ == old(pipes)@,
            ov == pipe_views(old(pipes)@),
            pipe_views(kept@) == cull_seq(ov.take(i as int)),
            forall|k: int| 0 <= k < kept@.len() ==> (#[trigger] kept@[k]).x >= PIPE_CULL_X,
        decreases pipes@.len() - i,
    {
        let p = pipes[i];
        proof {
            assert(ov.take(i + 1).drop_last() =~= ov.take(i as int));
            assert(ov.take(i + 1).last() == p@);
        }
        if p.x >= PIPE_CULL_X {
            kept.push(p);
            proof {
                assert(pipe_views(kept@) =~= cull_seq(ov.take(i as int)).push(p@));
            }
        }
        i += 1;
    }
    proof {
        assert(ov.take(pipes@.len() as int) =~= ov);
    }
    *pipes = kept;
}

/// A pipe after one frame of scrolling: scrolling scenery moves left with
/// the elapsed time, anything else stays.
pub open spec fn scroll_pipe(p: PipeView, dt_ms: int) -> PipeView {
    if p.scrolls {
        PipeView { x: p.x - SCROLL_SPEED_UPX_PER_MS * dt_ms, ..p }
    } else {
        p
    }
}

/// All pipes after one frame of scrolling.
pub open spec fn scroll_seq(pipes: Seq<PipeView>, dt_ms: int) -> Seq<PipeView> {
    pipes.map_values(|p: PipeView| scroll_pipe(p, dt_ms))
}

/// Scroll pass: every scrolling pipe's horizontal position decreases by
/// the scroll speed times the elapsed time.
pub fn scroll_pipes(pipes: &mut Vec<Pipe>, dt_ms: i64)
    requires
        0 <= dt_ms <= MAX_FRAME_MS,
        forall|i: int|
            0 <= i < old(pipes)@.len() ==> -POS_LIMIT <= (#[trigger] old(pipes)@[i]).x
                <= POS_LIMIT,
    ensures
        pipe_views(final(pipes)@) == scroll_seq(pipe_views(old(pipes)@), dt_ms as int),
{
    let ghost ov = pipe_views(old(pipes)@);
    let mut i: usize = 0;
    while i < pipes.len()
        invariant
            i <= pipes@.len(),
            pipes@.len() == old(pipes)@.len(),
            ov == pipe_views(old(pipes)@),
            0 <= dt_ms <= MAX_FRAME_MS,
            forall|k: int| i <= k < pipes@.len() ==> pipes@[k] == old(pipes)@[k],
            forall|k: int|
                0 <= k < i ==> (#[trigger] pipes@[k])@ == scroll_pipe(ov[k], dt_ms as int),
            forall|k: int|
                0 <= k < old(pipes)@.len() ==> -POS_LIMIT <= (#[trigger] old(pipes)@[k]).x
                    <= POS_LIMIT,
        decreases pipes@.len() - i,
    {
        let p = pipes[i];
        if p.scrolls {
            pipes.set(i, Pipe { x: p.x - SCROLL_SPEED_UPX_PER_MS * dt_ms, ..p });
        }
        i += 1;
    }
    proof {
        assert(pipe_views(pipes@) =~= scroll_seq(ov, dt_ms as int));
    }
}

/// Relies on rand::rng and rand::RngExt::random_range: sampling a
/// half-open integer range returns a value within it (and the range here
/// is never empty, so the call cannot panic).
#[verifier::external_body]
fn draw_pipe_offset() -> (r: i64)
    ensures
        PIPE_OFFSET_MIN <= r < PIPE_OFFSET_MAX,
{
    rand::RngExt::random_range(&mut rand::rng(), PIPE_OFFSET_MIN..PIPE_OFFSET_MAX)
}

/// Appends one freshly spawned pipe pair at the fixed spawn offset, placed
/// around the given vertical offset.
pub fn push_pipe_pair(pipes: &mut Vec<Pipe>, offset: i64)
    requires
        PIPE_OFFSET_MIN <= offset < PIPE_OFFSET_MAX,
    ensures
        pipe_views(final(pipes)@) == pipe_views(old(pipes)@) + pair_seq(offset as int),
{
    let ghost ov = pipe_views(old(pipes)@);
    pipes.push(
        Pipe { x: PIPE_SPAWN_X, y: offset - PIPE_HALF_H, is_bottom: true, scoring: true, scrolls: true },
    );
    pipes.push(
        Pipe {
            x: PIPE_SPAWN_X,
            y: offset + PIPE_HALF_H + GAP_HEIGHT,
            is_bottom: false,
            scoring: false,
            scrolls: true,
        },
    );
    proof {
        assert(pipe_views(pipes@) =~= ov + pair_seq(offset as int));
    }
}

/// Spawn pass: advances the spawn timer by the elapsed time; when it
/// reaches the fixed interval it fires, resets, and a pipe pair is created
/// with a vertical offset drawn uniformly from the fixed symmetric range.
pub fn spawn_pipe(timer: &mut PipeSpawnTimer, pipes: &mut Vec<Pipe>, dt_ms: i64) -> (fired: bool)
    requires
        0 <= dt_ms <= MAX_FRAME_MS,
        timer_wf(old(timer).elapsed_ms as int),
    ensures
        fired == timer_fires(old(timer).elapsed_ms as int, dt_ms as int),
        final(timer).elapsed_ms == if fired {
            0int
        } else {
            old(timer).elapsed_ms + dt_ms
        },
        timer_wf(final(timer).elapsed_ms as int),
        !fired ==> final(pipes)@ == old(pipes)@,
        fired ==> exists|off: int|
            PIPE_OFFSET_MIN <= off < PIPE_OFFSET_MAX && pipe_views(final(pipes)@) == pipe_views(
                old(pipes)@,
            ) + pair_seq(off),
{
    let fired = timer.tick(dt_ms);
    if fired {
        let off = draw_pipe_offset();
        push_pipe_pair(pipes, off);
        proof {
            assert(PIPE_OFFSET_MIN <= off && off < PIPE_OFFSET_MAX);
            assert(pipe_views(pipes@) == pipe_views(old(pipes)@) + pair_seq(off as int));
        }
    }
    fired
}

} // verus!
