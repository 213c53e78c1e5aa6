use vstd::prelude::*;
use crate::config::Config;
use crate::judge::{
    judge, judge_bounds_ok, judge_pipes, lemma_judge_last_from, spec_ground_hit,
};
use crate::pipe::Pipe;
use crate::player::{Player, GRAVITY};
use crate::track::{
    advanced_seq, lemma_x_span, retire_step, spawn_fill_ok, ObstacleTrack,
};

verus! {

/// A discrete input the surrounding shell feeds into the simulation.
#[derive(Clone, Copy, PartialEq, Eq, Structural, Debug)]
pub enum InputEvent {
    /// The primary action: confirm on the title screen, jump while running.
    Primary,
    /// A request to stop the owning loop; the core only records it.
    Quit,
}

/// The discrete game-phase state machine. It only ever moves forward:
/// `BeforeStart` to `Running` to `GameOver`; a new run takes a fresh
/// simulation instance.
#[derive(Clone, Copy, PartialEq, Eq, Structural, Debug)]
pub enum GameState {
    BeforeStart,
    Running,
    GameOver,
}

/// How many primary actions the first `i` queued events hold.
pub open spec fn count_primaries_to(s: Seq<InputEvent>, i: int) -> nat
    decreases i,
{
    if i <= 0 {
        0nat
    } else {
        count_primaries_to(s, i - 1) + (if s[i - 1] == InputEvent::Primary {
            1nat
        } else {
            0nat
        })
    }
}

/// How many primary actions the queue holds.
pub open spec fn count_primaries(s: Seq<InputEvent>) -> nat {
    count_primaries_to(s, s.len() as int)
}

/// Does the first `i` queued events hold a quit request?
pub open spec fn has_quit_to(s: Seq<InputEvent>, i: int) -> bool
    decreases i,
{
    if i <= 0 {
        false
    } else {
        has_quit_to(s, i - 1) || s[i - 1] == InputEvent::Quit
    }
}

/// Does the queue hold a quit request?
pub open spec fn has_quit(s: Seq<InputEvent>) -> bool {
    has_quit_to(s, s.len() as int)
}

/// `n` jumps applied to the body, one per queued primary action, in order.
pub open spec fn apply_jumps(p: Player, n: nat) -> Player
    decreases n,
{
    if n == 0 {
        p
    } else {
        apply_jumps(p, (n - 1) as nat).jumped()
    }
}

/// The body snapped to rest exactly on top of the ground band.
pub open spec fn ground_clamped(cfg: Config, p: Player) -> Player {
    Player { y: (cfg.playable_height() - cfg.bird_height) as i32, ..p }
}

/// The fixed-tick driver: owns the body, the obstacle lane, the score, the
/// queued inputs and the game phase, and advances them exactly once per frame.
pub struct SimulationClock {
    pub config: Config,
    pub player: Player,
    pub track: ObstacleTrack,
    pub phase: GameState,
    pub score: u32,
    pub last_scored_id: Option<u32>,
    pub pending: Vec<InputEvent>,
    pub quit: bool,
}

/// Relation between the state at the start of a running tick (after any
/// start-of-run velocity nudge) and the state after it: the `n` queued jumps
/// and one tick of body motion are applied; the lane advances, fills up to 3
/// (its new gap positions sampled, hence free) and retires the front obstacle
/// if it left the screen; the ground is checked first and is terminal;
/// otherwise the obstacle pass of `judge_pipes` against the stepped lane
/// decides collision and scoring.
pub open spec fn running_stepped(pre: SimulationClock, post: SimulationClock, n: nat) -> bool {
    let c = pre.config;
    let p2 = apply_jumps(pre.player, n).updated();
    &&& post.config == c
    &&& (exists|mid: Seq<Pipe>|
        #[trigger] spawn_fill_ok(
            c,
            advanced_seq(pre.track.pipes@, c.speed as int),
            2 * c.screen_width,
            pre.track.next_id,
            mid,
            post.track.next_id,
        ) && post.track.pipes@ == retire_step(c, mid))
    &&& if spec_ground_hit(c, p2.y as int) {
        &&& post.player == ground_clamped(c, p2).died()
        &&& post.phase == GameState::GameOver
        &&& post.score == pre.score
        &&& post.last_scored_id == pre.last_scored_id
    } else {
        let r = judge_pipes(c, p2.y as int, post.track.pipes@, pre.last_scored_id);
        &&& post.last_scored_id == r.0
        &&& post.score == pre.score + r.1
        &&& post.phase == (if r.2 {
            GameState::GameOver
        } else {
            GameState::Running
        })
        &&& post.player == (if r.2 {
            p2.died()
        } else {
            p2
        })
    }
}

/// A running tick that meets the ground or an obstacle always ends in
/// `GameOver` with a dead body; one that meets neither keeps the run going.
/// (`tick` itself ensures that `GameOver` is never left again.)
pub proof fn lemma_collision_ends_run(pre: SimulationClock, post: SimulationClock, n: nat)
    requires
        running_stepped(pre, post, n),
    ensures
        ({
            let c = pre.config;
            let p2 = apply_jumps(pre.player, n).updated();
            let r = judge_pipes(c, p2.y as int, post.track.pipes@, pre.last_scored_id);
            &&& (spec_ground_hit(c, p2.y as int) || r.2) ==> post.phase == GameState::GameOver
                && !post.player.is_alive
            &&& (!spec_ground_hit(c, p2.y as int) && !r.2) ==> post.phase == GameState::Running
        }),
{
}

impl SimulationClock {
    /// Everything the simulation maintains between ticks: a valid
    /// configuration, a well-formed body and lane, lane positions near the
    /// screen, a last-scored id the counter has already passed, and a body
    /// that is alive exactly until the run is over.
    pub open spec fn wf(self) -> bool {
        &&& self.config.valid()
        &&& self.player.wf()
        &&& self.track.wf(self.config)
        &&& (self.track.pipes@.len() > 0 ==> -(self.config.pipe_width + self.config.speed)
            <= self.track.pipes@[0].x_offset <= 2 * self.config.screen_width
            + self.config.pipe_spacing)
        &&& (self.last_scored_id matches Some(s) ==> s < self.track.next_id)
        &&& (self.player.is_alive <==> self.phase != GameState::GameOver)
    }

    /// Machine-limit headroom one tick needs: the position, the score, the id
    /// counter and the input queue are all far from their numeric limits.
    pub open spec fn tick_headroom(self) -> bool {
        &&& -1_000_000_000 <= self.player.y <= 1_000_000_000
        &&& self.pending@.len() <= 1_000_000
        &&& self.score <= u32::MAX - 3
        &&& self.track.next_id <= u32::MAX - 3
    }

    /// Does the next tick have the numeric headroom it needs? The owning loop
    /// checks this before each `tick`.
    pub fn can_tick(&self) -> (b: bool)
        ensures
            b == self.tick_headroom(),
    {
        -1_000_000_000 <= self.player.y && self.player.y <= 1_000_000_000
            && self.pending.len() <= 1_000_000 && self.score <= u32::MAX - 3
            && self.track.next_id <= u32::MAX - 3
    }

    /// A fresh simulation on the title screen: the body at rest at the height
    /// the shell chose (typically centered in the playable band), the lane
    /// empty until the first running tick, the given seed owning all
    /// randomness so runs are reproducible.
    pub fn new(config: Config, start_y: i32, seed: u64) -> (s: SimulationClock)
        requires
            config.valid(),
            -1_000_000_000 <= start_y <= 1_000_000_000,
        ensures
            s.wf(),
            s.tick_headroom(),
            s.config == config,
            s.phase == GameState::BeforeStart,
            s.player == (Player { y: start_y, velocity: 0, angle: 0, is_alive: true }),
            s.track.pipes@.len() == 0,
            s.track.next_id == 0,
            s.score == 0,
            s.last_scored_id is None,
            s.pending@.len() == 0,
            !s.quit,
    {
        SimulationClock {
            config,
            player: Player::new(start_y),
            track: ObstacleTrack::new(seed),
            phase: GameState::BeforeStart,
            score: 0,
            last_scored_id: None,
            pending: Vec::new(),
            quit: false,
        }
    }

    /// Queues one discrete input event for the next tick.
    pub fn submit_input(&mut self, event: InputEvent)
        ensures
            final(self).pending@ == old(self).pending@.push(event),
            final(self).config == old(self).config,
            final(self).player == old(self).player,
            final(self).track == old(self).track,
            final(self).phase == old(self).phase,
            final(self).score == old(self).score,
            final(self).last_scored_id == old(self).last_scored_id,
            final(self).quit == old(self).quit,
    {
        self.pending.push(event);
    }

    pub fn current_phase(&self) -> (g: GameState)
        ensures
            g == self.phase,
    {
        self.phase
    }

    pub fn current_score(&self) -> (n: u32)
        ensures
            n == self.score,
    {
        self.score
    }

    pub fn body(&self) -> (p: &Player)
        ensures
            *p == self.player,
    {
        &self.player
    }

    /// The obstacles, front-most first, for drawing.
    pub fn obstacles(&self) -> (v: &Vec<Pipe>)
        ensures
            v@ == self.track.pipes@,
    {
        &self.track.pipes
    }

    pub fn quit_requested(&self) -> (b: bool)
        ensures
            b == self.quit,
    {
        self.quit
    }

    /// Advances the simulation by exactly one frame: drains the queued
    /// inputs, applies the phase machine, the body physics, the lane step and
    /// the collision judge, in that order.
    pub fn tick(&mut self)
        requires
            old(self).wf(),
            old(self).tick_headroom(),
        ensures
            final(self).wf(),
            final(self).config == old(self).config,
            final(self).pending@.len() == 0,
            final(self).quit == (old(self).quit || has_quit(old(self).pending@)),
            final(self).score >= old(self).score,
            !old(self).player.is_alive ==> !final(self).player.is_alive,
            old(self).phase == GameState::GameOver ==> final(self).phase == GameState::GameOver,
            old(self).phase == GameState::Running ==> final(self).phase != GameState::BeforeStart,
            (old(self).phase == GameState::BeforeStart && count_primaries(old(self).pending@)
                == 0) ==> {
                &&& final(self).phase == GameState::BeforeStart
                &&& final(self).player == old(self).player
                &&& final(self).track == old(self).track
                &&& final(self).score == old(self).score
                &&& final(self).last_scored_id == old(self).last_scored_id
            },
            old(self).phase == GameState::GameOver ==> ({
                let c = old(self).config;
                let p2 = old(self).player.updated();
                &&& final(self).player == (if spec_ground_hit(c, p2.y as int) {
                    ground_clamped(c, p2).died()
                } else {
                    p2
                })
                &&& final(self).track == old(self).track
                &&& final(self).score == old(self).score
                &&& final(self).last_scored_id == old(self).last_scored_id
            }),
            old(self).phase == GameState::Running ==> running_stepped(
                *old(self),
                *final(self),
                count_primaries(old(self).pending@),
            ),
            (old(self).phase == GameState::BeforeStart && count_primaries(old(self).pending@)
                > 0) ==> running_stepped(
                SimulationClock {
                    player: Player { velocity: GRAVITY, ..old(self).player },
                    ..*old(self)
                },
                *final(self),
                count_primaries(old(self).pending@),
            ),
    {
        let ghost pre = *self;
        let mut n: usize = 0;
        let mut saw_quit = false;
        let mut i: usize = 0;
        while i < self.pending.len()
            invariant
                *self == pre,
                i <= pre.pending@.len(),
                pre.pending@.len() <= 1_000_000,
                n == count_primaries_to(pre.pending@, i as int),
                n <= i,
                saw_quit == has_quit_to(pre.pending@, i as int),
            decreases pre.pending@.len() - i,
        {
            match self.pending[i] {
                InputEvent::Primary => {
                    n = n + 1;
                },
                InputEvent::Quit => {
                    saw_quit = true;
                },
            }
            i = i + 1;
        }
        self.pending = Vec::new();
        if saw_quit {
            self.quit = true;
        }
        match self.phase {
            GameState::BeforeStart => {
                if n > 0 {
                    self.phase = GameState::Running;
                    self.player.velocity = GRAVITY;
                    let ghost nudged = *self;
                    self.running_step(n);
                    proof {
                        let pre2 = SimulationClock {
                            player: Player { velocity: GRAVITY, ..pre.player },
                            ..pre
                        };
                        assert(nudged.config == pre2.config);
                        assert(nudged.player == pre2.player);
                        assert(nudged.track == pre2.track);
                        assert(running_stepped(nudged, *self, n as nat));
                        assert(running_stepped(pre2, *self, n as nat));
                    }
                }
            },
            GameState::Running => {
                self.running_step(n);
            },
            GameState::GameOver => {
                self.settle_step();
            },
        }
    }

    /// One tick of the settling fall after the run has ended: the body keeps
    /// receiving motion ticks and comes to rest on the ground band; nothing
    /// else moves and nothing scores.
    fn settle_step(&mut self)
        requires
            old(self).wf(),
            old(self).phase == GameState::GameOver,
            -1_000_000_000 <= old(self).player.y <= 1_000_000_000,
        ensures
            final(self).wf(),
            final(self).config == old(self).config,
            final(self).pending == old(self).pending,
            final(self).quit == old(self).quit,
            final(self).phase == GameState::GameOver,
            final(self).track == old(self).track,
            final(self).score == old(self).score,
            final(self).last_scored_id == old(self).last_scored_id,
            !final(self).player.is_alive,
            ({
                let c = old(self).config;
                let p2 = old(self).player.updated();
                final(self).player == (if spec_ground_hit(c, p2.y as int) {
                    ground_clamped(c, p2).died()
                } else {
                    p2
                })
            }),
    {
        self.player.update();
        let ground_top = self.config.screen_height - self.config.ground_height;
        if self.player.y + self.config.bird_height >= ground_top {
            self.player.y = ground_top - self.config.bird_height;
            self.player.die();
        }
    }

    /// One running tick after the inputs were counted: `n` jumps, one body
    /// update, the lane step, then the collision judge with the ground
    /// checked first.
    fn running_step(&mut self, n: usize)
        requires
            old(self).wf(),
            old(self).phase == GameState::Running,
            -1_000_000_000 <= old(self).player.y <= 1_000_000_000,
            n <= 1_000_000,
            old(self).score <= u32::MAX - 3,
            old(self).track.next_id <= u32::MAX - 3,
        ensures
            final(self).wf(),
            final(self).config == old(self).config,
            final(self).pending == old(self).pending,
            final(self).quit == old(self).quit,
            final(self).phase != GameState::BeforeStart,
            running_stepped(*old(self), *final(self), n as nat),
    {
        let ghost pre = *self;
        let mut k: usize = 0;
        while k < n
            invariant
                self.config == pre.config,
                self.track == pre.track,
                self.phase == pre.phase,
                self.score == pre.score,
                self.last_scored_id == pre.last_scored_id,
                self.pending == pre.pending,
                self.quit == pre.quit,
                k <= n,
                n <= 1_000_000,
                -1_000_000_000 <= pre.player.y <= 1_000_000_000,
                self.player == apply_jumps(pre.player, k as nat),
                self.player.wf(),
                self.player.is_alive == pre.player.is_alive,
                pre.player.y - 12 * k <= self.player.y <= pre.player.y,
            decreases n - k,
        {
            self.player.jump();
            k = k + 1;
        }
        self.player.update();
        let ghost p2 = self.player;
        proof {
            assert(p2 == apply_jumps(pre.player, n as nat).updated());
            if self.track.pipes@.len() > 0 {
                lemma_x_span(self.track, self.config);
            }
        }
        self.track.advance(&self.config);
        let ghost adv = self.track.pipes@;
        proof {
            if adv.len() > 0 {
                lemma_x_span(self.track, self.config);
                assert(adv[0] == (Pipe {
                    x_offset: (pre.track.pipes@[0].x_offset - self.config.speed) as i32,
                    ..pre.track.pipes@[0]
                }));
                assert(adv.last() == adv[adv.len() - 1]);
            }
        }
        let initial_x = 2 * self.config.screen_width;
        self.track.spawn_if_needed(&self.config, initial_x);
        let ghost mid = self.track.pipes@;
        proof {
            if adv.len() > 0 {
                assert(mid[0] == adv[0]);
            }
            assert(mid.len() == 3);
            assert(mid[1].x_offset == mid[0].x_offset + self.config.pipe_spacing);
        }
        self.track.retire_offscreen(&self.config);
        proof {
            // the lane keeps its position bounds across the step
            let c = self.config;
            assert(self.track.pipes@.len() > 0);
            if mid[0].x_offset + c.pipe_width <= 0 {
                assert(self.track.pipes@ == mid.drop_first());
                assert(self.track.pipes@[0] == mid[1]);
                assert(adv.len() > 0);
            } else {
                assert(self.track.pipes@ == mid);
            }
            assert(-(c.pipe_width + c.speed) <= self.track.pipes@[0].x_offset <= 2
                * c.screen_width + c.pipe_spacing);
            lemma_x_span(self.track, c);
            // headroom for the judge's comparisons
            assert(judge_bounds_ok(c, p2.y as int, self.track.pipes@));
        }
        let ground_top = self.config.screen_height - self.config.ground_height;
        if self.player.y + self.config.bird_height >= ground_top {
            self.player.y = ground_top - self.config.bird_height;
            self.phase = GameState::GameOver;
            self.player.die();
        } else {
            let j = judge(&self.config, self.player.y, &self.track.pipes, self.last_scored_id);
            proof {
                lemma_judge_last_from(
                    self.config,
                    p2.y as int,
                    self.track.pipes@,
                    self.last_scored_id,
                );
            }
            self.last_scored_id = j.last_scored_id;
            self.score = self.score + (j.score_delta as u32);
            if j.collided {
                self.phase = GameState::GameOver;
                self.player.die();
            }
        }
        proof {
            assert(spawn_fill_ok(
                pre.config,
                advanced_seq(pre.track.pipes@, pre.config.speed as int),
                2 * pre.config.screen_width,
                pre.track.next_id,
                mid,
                self.track.next_id,
            ));
        }
    }
}

} // verus!
