use vstd::prelude::*;
use crate::config::Config;
use crate::pipe::Pipe;
use crate::rng::{rng_from_seed, rng_gen_range};

verus! {

/// Is this gap position inside the legal band: at least `padding` below the
/// top of the screen, and the gap plus `padding` still above the ground band?
pub open spec fn hole_ok(cfg: Config, hole_y: int) -> bool {
    cfg.padding <= hole_y <= cfg.max_hole_y()
}

/// One scroll step of a whole lane: every obstacle moves left by `speed`.
pub open spec fn advanced_seq(s: Seq<Pipe>, speed: int) -> Seq<Pipe> {
    s.map(|i: int, p: Pipe| Pipe { x_offset: (p.x_offset - speed) as i32, ..p })
}

/// What one fill-up spawn guarantees: the obstacles already present stay
/// untouched as a prefix, the lane is filled up to 3, each new obstacle sits
/// exactly one spacing right of its predecessor (the first at `initial_x` when
/// the lane was empty), carries the next counter ids in order, and has its gap
/// inside the legal band. The gap positions themselves are sampled and free.
pub open spec fn spawn_fill_ok(
    cfg: Config,
    before: Seq<Pipe>,
    initial_x: int,
    next0: u32,
    after: Seq<Pipe>,
    next1: u32,
) -> bool {
    &&& after.len() == 3
    &&& forall|i: int| 0 <= i < before.len() ==> #[trigger] after[i] == before[i]
    &&& forall|i: int|
        before.len() <= i < 3 ==> (#[trigger] after[i]).id == next0 + (i - before.len())
    &&& forall|i: int| before.len() <= i < 3 ==> hole_ok(cfg, (#[trigger] after[i]).hole_y as int)
    &&& (before.len() == 0 ==> after[0].x_offset == initial_x)
    &&& forall|i: int|
        (if before.len() == 0 { 1int } else { before.len() as int }) <= i < 3
            ==> (#[trigger] after[i]).x_offset == after[i - 1].x_offset + cfg.pipe_spacing
    &&& next1 == next0 + (3 - before.len())
}

/// One retirement step: the frontmost obstacle leaves once its trailing edge
/// has scrolled to or past the left boundary; nothing else is ever removed.
pub open spec fn retire_step(cfg: Config, s: Seq<Pipe>) -> Seq<Pipe> {
    if s.len() > 0 && s[0].x_offset + cfg.pipe_width <= 0 {
        s.drop_first()
    } else {
        s
    }
}

/// The scrolling obstacle lane: an ordered sequence of obstacles (front-most
/// first), a counter handing out ids, and its own seeded random source for
/// gap placement.
pub struct ObstacleTrack {
    pub pipes: Vec<Pipe>,
    pub next_id: u32,
    pub rng: rand::rngs::StdRng,
}

impl ObstacleTrack {
    /// Structure the track maintains: at most 3 live obstacles; ids strictly
    /// increasing front to back and all below the counter; every gap inside
    /// the legal band; consecutive obstacles exactly one spacing apart.
    pub open spec fn wf(self, cfg: Config) -> bool {
        &&& self.pipes@.len() <= 3
        &&& forall|i: int| 0 <= i < self.pipes@.len() ==> (#[trigger] self.pipes@[i]).id < self.next_id
        &&& forall|i: int|
            1 <= i < self.pipes@.len() ==> self.pipes@[i - 1].id < (#[trigger] self.pipes@[i]).id
        &&& forall|i: int|
            0 <= i < self.pipes@.len() ==> hole_ok(cfg, (#[trigger] self.pipes@[i]).hole_y as int)
        &&& forall|i: int|
            1 <= i < self.pipes@.len()
                ==> (#[trigger] self.pipes@[i]).x_offset == self.pipes@[i - 1].x_offset
                + cfg.pipe_spacing
    }

    /// A fresh, empty lane; ids start at 0.
    pub fn new(seed: u64) -> (t: ObstacleTrack)
        ensures
            t.pipes@.len() == 0,
            t.next_id == 0,
    {
        ObstacleTrack { pipes: Vec::new(), next_id: 0, rng: rng_from_seed(seed) }
    }

    /// Scrolls every obstacle left by `speed`.
    pub fn advance(&mut self, cfg: &Config)
        requires
            cfg.valid(),
            old(self).wf(*cfg),
            forall|i: int|
                0 <= i < old(self).pipes@.len()
                    ==> (#[trigger] old(self).pipes@[i]).x_offset >= i32::MIN + cfg.speed,
        ensures
            final(self).pipes@ == advanced_seq(old(self).pipes@, cfg.speed as int),
            final(self).next_id == old(self).next_id,
            final(self).rng == old(self).rng,
            final(self).wf(*cfg),
    {
        let ghost goal = advanced_seq(self.pipes@, cfg.speed as int);
        let mut out: Vec<Pipe> = Vec::new();
        let mut k: usize = 0;
        while k < self.pipes.len()
            invariant
                cfg.valid(),
                k <= self.pipes@.len(),
                goal == advanced_seq(self.pipes@, cfg.speed as int),
                out@ == goal.take(k as int),
                forall|i: int|
                    0 <= i < self.pipes@.len()
                        ==> (#[trigger] self.pipes@[i]).x_offset >= i32::MIN + cfg.speed,
            decreases self.pipes@.len() - k,
        {
            let p = self.pipes[k];
            out.push(Pipe { x_offset: p.x_offset - cfg.speed, ..p });
            proof {
                assert(out@ =~= goal.take(k + 1 as int));
            }
            k = k + 1;
        }
        proof {
            assert(out@ =~= goal);
        }
        self.pipes = out;
        proof {
            assert(self.wf(*cfg)) by {
                assert forall|i: int| 1 <= i < self.pipes@.len() implies (
                    #[trigger] self.pipes@[i]).x_offset == self.pipes@[i - 1].x_offset
                    + cfg.pipe_spacing by {
                    assert(old(self).pipes@[i].x_offset == old(self).pipes@[i - 1].x_offset
                        + cfg.pipe_spacing);
                }
            }
        }
    }

    /// Creates obstacles until the lane holds 3, each one spacing right of the
    /// last (the first at `initial_x` when the lane was empty), with the gap's
    /// top edge drawn uniformly from the inclusive range
    /// `[padding, max_hole_y]`.
    pub fn spawn_if_needed(&mut self, cfg: &Config, initial_x: i32)
        requires
            cfg.valid(),
            old(self).wf(*cfg),
            old(self).next_id <= u32::MAX - 3,
            initial_x <= i32::MAX - 3 * cfg.pipe_spacing,
            old(self).pipes@.len() > 0
                ==> old(self).pipes@.last().x_offset <= i32::MAX - 3 * cfg.pipe_spacing,
        ensures
            final(self).wf(*cfg),
            spawn_fill_ok(
                *cfg,
                old(self).pipes@,
                initial_x as int,
                old(self).next_id,
                final(self).pipes@,
                final(self).next_id,
            ),
            old(self).pipes@.len() == 3 ==> *final(self) == *old(self),
    {
        let lo = cfg.padding;
        let hi = cfg.screen_height - cfg.ground_height - cfg.hole_height - cfg.padding + 1;
        while self.pipes.len() < 3
            invariant
                cfg.valid(),
                self.wf(*cfg),
                lo == cfg.padding,
                hi == cfg.max_hole_y() + 1,
                old(self).next_id <= u32::MAX - 3,
                initial_x <= i32::MAX - 3 * cfg.pipe_spacing,
                old(self).pipes@.len() <= self.pipes@.len() <= 3,
                self.next_id == old(self).next_id + self.pipes@.len() - old(self).pipes@.len(),
                forall|i: int|
                    0 <= i < old(self).pipes@.len()
                        ==> #[trigger] self.pipes@[i] == old(self).pipes@[i],
                forall|i: int|
                    old(self).pipes@.len() <= i < self.pipes@.len()
                        ==> (#[trigger] self.pipes@[i]).id == old(self).next_id + (i - old(
                        self,
                    ).pipes@.len()),
                old(self).pipes@.len() == 0 && self.pipes@.len() > 0
                    ==> self.pipes@[0].x_offset == initial_x,
                forall|i: int|
                    (if old(self).pipes@.len() == 0 {
                        1int
                    } else {
                        old(self).pipes@.len() as int
                    }) <= i < self.pipes@.len()
                        ==> (#[trigger] self.pipes@[i]).x_offset == self.pipes@[i - 1].x_offset
                        + cfg.pipe_spacing,
                old(self).pipes@.len() == 3 ==> *self == *old(self),
                self.pipes@.len() == old(self).pipes@.len() && self.pipes@.len() > 0
                    ==> self.pipes@.last().x_offset <= i32::MAX - 3 * cfg.pipe_spacing,
                self.pipes@.len() == old(self).pipes@.len() + 1
                    ==> self.pipes@.last().x_offset <= i32::MAX - 2 * cfg.pipe_spacing,
                self.pipes@.len() == old(self).pipes@.len() + 2
                    ==> self.pipes@.last().x_offset <= i32::MAX - cfg.pipe_spacing,
            decreases 3 - self.pipes@.len(),
        {
            let x: i32 = if self.pipes.len() == 0 {
                initial_x
            } else {
                self.pipes[self.pipes.len() - 1].x_offset + cfg.pipe_spacing
            };
            let hole = rng_gen_range(&mut self.rng, lo, hi);
            let id = self.next_id;
            self.next_id = id + 1;
            self.pipes.push(Pipe { id, x_offset: x, hole_y: hole });
        }
    }

    /// Removes the frontmost obstacle once its trailing edge has scrolled to
    /// or past the left boundary; only the front is ever checked, so
    /// obstacles retire strictly in spawn order.
    pub fn retire_offscreen(&mut self, cfg: &Config)
        requires
            cfg.valid(),
            old(self).wf(*cfg),
            old(self).pipes@.len() > 0
                ==> old(self).pipes@[0].x_offset <= i32::MAX - cfg.pipe_width,
        ensures
            final(self).pipes@ == retire_step(*cfg, old(self).pipes@),
            final(self).next_id == old(self).next_id,
            final(self).rng == old(self).rng,
            final(self).wf(*cfg),
    {
        if self.pipes.len() > 0 {
            let front = self.pipes[0];
            if front.x_offset + cfg.pipe_width <= 0 {
                self.pipes.remove(0);
                proof {
                    assert(self.pipes@ =~= retire_step(*cfg, old(self).pipes@));
                }
            }
        }
    }
}

/// The lane never holds more than 3 live obstacles, and consecutive
/// obstacles' `x_offset` differ by exactly one spacing.
pub proof fn lemma_track_capacity_and_spacing(t: ObstacleTrack, cfg: Config)
    requires
        t.wf(cfg),
    ensures
        t.pipes@.len() <= 3,
        forall|i: int|
            1 <= i < t.pipes@.len() ==> (#[trigger] t.pipes@[i]).x_offset == t.pipes@[i
                - 1].x_offset + cfg.pipe_spacing,
{
}

/// Every gap a well-formed lane holds keeps `padding` from the top of the
/// screen and from the ground band.
pub proof fn lemma_gaps_in_band(t: ObstacleTrack, cfg: Config)
    requires
        t.wf(cfg),
    ensures
        forall|i: int|
            0 <= i < t.pipes@.len()
                ==> cfg.padding <= (#[trigger] t.pipes@[i]).hole_y && t.pipes@[i].hole_y
                + cfg.hole_height <= cfg.playable_height() - cfg.padding,
{
}

/// Every obstacle of a well-formed lane sits between the front one and two
/// spacings right of it.
pub proof fn lemma_x_span(t: ObstacleTrack, cfg: Config)
    requires
        t.wf(cfg),
        cfg.valid(),
        t.pipes@.len() > 0,
    ensures
        forall|i: int|
            0 <= i < t.pipes@.len() ==> t.pipes@[0].x_offset <= (
            #[trigger] t.pipes@[i]).x_offset <= t.pipes@[0].x_offset + 2 * cfg.pipe_spacing,
{
    assert forall|i: int|
        0 <= i < t.pipes@.len() implies t.pipes@[0].x_offset <= (
    #[trigger] t.pipes@[i]).x_offset <= t.pipes@[0].x_offset + 2 * cfg.pipe_spacing by {
        if i == 1 {
            assert(t.pipes@[1].x_offset == t.pipes@[0].x_offset + cfg.pipe_spacing);
        }
        if i == 2 {
            assert(t.pipes@[1].x_offset == t.pipes@[0].x_offset + cfg.pipe_spacing);
            assert(t.pipes@[2].x_offset == t.pipes@[1].x_offset + cfg.pipe_spacing);
        }
    }
}

} // verus!
