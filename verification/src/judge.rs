use vstd::prelude::*;
use crate::config::Config;
use crate::pipe::Pipe;

verus! {

/// Does the body's fixed horizontal span overlap this obstacle?
pub open spec fn spec_h_overlap(cfg: Config, p: Pipe) -> bool {
    cfg.player_x + cfg.bird_width >= p.x_offset && cfg.player_x <= p.x_offset + cfg.pipe_width
}

/// Is the body's vertical span strictly inside the obstacle's gap?
pub open spec fn spec_in_gap(cfg: Config, y: int, p: Pipe) -> bool {
    !(y <= p.hole_y || y + cfg.bird_height >= p.hole_y + cfg.hole_height)
}

/// Has the body's bottom edge reached the top of the ground band?
pub open spec fn spec_ground_hit(cfg: Config, y: int) -> bool {
    y + cfg.bird_height >= cfg.playable_height()
}

/// Outcome of evaluating the obstacles front to back: the evaluation breaks
/// on the first obstacle the body collides with, while an obstacle whose gap
/// the body is safely inside scores once unless it was the obstacle scored
/// last. Returns the new last-scored id, the score increment, and whether a
/// collision ended the pass; increments gathered before a collision stand.
pub open spec fn judge_pipes(cfg: Config, y: int, pipes: Seq<Pipe>, last: Option<u32>) -> (
    Option<u32>,
    nat,
    bool,
)
    decreases pipes.len(),
{
    if pipes.len() == 0 {
        (last, 0nat, false)
    } else {
        let p = pipes[0];
        if spec_h_overlap(cfg, p) {
            if !spec_in_gap(cfg, y, p) {
                (last, 0nat, true)
            } else {
                if last == Some(p.id) {
                    judge_pipes(cfg, y, pipes.drop_first(), last)
                } else {
                    let rest = judge_pipes(cfg, y, pipes.drop_first(), Some(p.id));
                    (rest.0, (1 + rest.1) as nat, rest.2)
                }
            }
        } else {
            judge_pipes(cfg, y, pipes.drop_first(), last)
        }
    }
}

/// Machine-limit headroom for the judge's comparisons.
pub open spec fn judge_bounds_ok(cfg: Config, y: int, pipes: Seq<Pipe>) -> bool {
    &&& y + cfg.bird_height <= i32::MAX
    &&& forall|i: int|
        0 <= i < pipes.len() ==> (#[trigger] pipes[i]).x_offset + cfg.pipe_width <= i32::MAX
    &&& forall|i: int|
        0 <= i < pipes.len() ==> (#[trigger] pipes[i]).hole_y + cfg.hole_height <= i32::MAX
}

/// What one tick's obstacle evaluation decided.
#[derive(Clone, Copy, Debug)]
pub struct Judgement {
    /// Id of the most recently scored obstacle after the pass.
    pub last_scored_id: Option<u32>,
    /// How many obstacles were scored this pass.
    pub score_delta: usize,
    /// Whether the body collided with an obstacle.
    pub collided: bool,
}

/// Evaluates the obstacles front to back against the body's fixed horizontal
/// span and its vertical position, exactly as `judge_pipes` states.
pub fn judge(cfg: &Config, body_y: i32, pipes: &Vec<Pipe>, last_scored_id: Option<u32>) -> (j:
    Judgement)
    requires
        cfg.valid(),
        judge_bounds_ok(*cfg, body_y as int, pipes@),
    ensures
        ({
            let r = judge_pipes(*cfg, body_y as int, pipes@, last_scored_id);
            &&& j.last_scored_id == r.0
            &&& j.score_delta == r.1
            &&& j.collided == r.2
            &&& j.score_delta <= pipes@.len()
        }),
{
    let ghost whole = judge_pipes(*cfg, body_y as int, pipes@, last_scored_id);
    let mut i: usize = 0;
    let mut delta: usize = 0;
    let mut last = last_scored_id;
    let mut collided = false;
    proof {
        assert(pipes@.skip(0) =~= pipes@);
    }
    while i < pipes.len()
        invariant_except_break
            cfg.valid(),
            judge_bounds_ok(*cfg, body_y as int, pipes@),
            i <= pipes@.len(),
            delta <= i,
            !collided,
            ({
                let rest = judge_pipes(*cfg, body_y as int, pipes@.skip(i as int), last);
                whole == (rest.0, (delta + rest.1) as nat, rest.2)
            }),
        ensures
            delta <= pipes@.len(),
            whole == (last, delta as nat, collided),
        decreases pipes@.len() - i,
    {
        let p = pipes[i];
        proof {
            assert(pipes@.skip(i as int)[0] == pipes@[i as int]);
            assert(pipes@.skip(i as int).drop_first() =~= pipes@.skip(i as int + 1));
        }
        let overlap = cfg.player_x + cfg.bird_width >= p.x_offset && cfg.player_x <= p.x_offset
            + cfg.pipe_width;
        if overlap {
            let outside_gap = body_y <= p.hole_y || body_y + cfg.bird_height >= p.hole_y
                + cfg.hole_height;
            if outside_gap {
                proof {
                    let rest = judge_pipes(*cfg, body_y as int, pipes@.skip(i as int), last);
                    assert(rest == (last, 0nat, true));
                }
                collided = true;
                break ;
            }
            let already = match last {
                Option::Some(s) => s == p.id,
                Option::None => false,
            };
            if !already {
                delta = delta + 1;
                last = Some(p.id);
            }
        }
        i = i + 1;
    }
    Judgement { last_scored_id: last, score_delta: delta, collided }
}

/// Scoring is idempotent per obstacle: while the body overlaps one obstacle
/// and sits inside its gap, a pass scores it exactly once when it was not the
/// obstacle scored last, and makes it the obstacle scored last.
pub proof fn lemma_pass_scores_once(cfg: Config, y: int, p: Pipe, last: Option<u32>)
    requires
        spec_h_overlap(cfg, p),
        spec_in_gap(cfg, y, p),
        last != Some(p.id),
    ensures
        judge_pipes(cfg, y, seq![p], last) == (Some(p.id), 1nat, false),
{
    reveal_with_fuel(judge_pipes, 2);
    assert(seq![p].drop_first() =~= Seq::<Pipe>::empty());
}

/// ... and on every later pass of the same overlap it scores nothing more.
pub proof fn lemma_no_double_score(cfg: Config, y: int, p: Pipe)
    requires
        spec_h_overlap(cfg, p),
        spec_in_gap(cfg, y, p),
    ensures
        judge_pipes(cfg, y, seq![p], Some(p.id)) == (Some(p.id), 0nat, false),
{
    reveal_with_fuel(judge_pipes, 2);
    assert(seq![p].drop_first() =~= Seq::<Pipe>::empty());
}

/// The judged last-scored id is either the one handed in or the id of one of
/// the obstacles on the lane.
pub proof fn lemma_judge_last_from(cfg: Config, y: int, pipes: Seq<Pipe>, last: Option<u32>)
    ensures
        ({
            let r = judge_pipes(cfg, y, pipes, last);
            r.0 == last || exists|i: int| 0 <= i < pipes.len() && Some((#[trigger] pipes[i]).id)
                == r.0
        }),
    decreases pipes.len(),
{
    if pipes.len() > 0 {
        let p = pipes[0];
        if spec_h_overlap(cfg, p) && spec_in_gap(cfg, y, p) && last != Some(p.id) {
            lemma_judge_last_from(cfg, y, pipes.drop_first(), Some(p.id));
            let r = judge_pipes(cfg, y, pipes, last);
            if r.0 == Some(p.id) {
                assert(0 <= 0 < pipes.len() && Some(pipes[0].id) == r.0);
            } else {
                let rest = judge_pipes(cfg, y, pipes.drop_first(), Some(p.id));
                if rest.0 != Some(p.id) {
                    let j = choose|j: int|
                        0 <= j < pipes.drop_first().len() && Some(
                            (#[trigger] pipes.drop_first()[j]).id,
                        ) == rest.0;
                    assert(pipes.drop_first()[j] == pipes[j + 1]);
                    assert(Some(pipes[j + 1].id) == r.0);
                }
            }
        } else if spec_h_overlap(cfg, p) && !spec_in_gap(cfg, y, p) {
        } else {
            lemma_judge_last_from(cfg, y, pipes.drop_first(), last);
            let r = judge_pipes(cfg, y, pipes, last);
            if r.0 != last {
                let j = choose|j: int|
                    0 <= j < pipes.drop_first().len() && Some(
                        (#[trigger] pipes.drop_first()[j]).id,
                    ) == r.0;
                assert(pipes.drop_first()[j] == pipes[j + 1]);
                assert(Some(pipes[j + 1].id) == r.0);
            }
        }
    }
}

} // verus!
