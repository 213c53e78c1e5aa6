use vstd::prelude::*;

verus! {

/// Terminal fall velocity, negative because positive velocity points upward.
/// Gravity is modeled as a per-tick decrement of the velocity, clamped at this
/// floor, not as continuous acceleration.
pub const GRAVITY: i32 = -6;

/// Upward velocity the body snaps to on a jump.
pub const JUMP_FORCE: i32 = 12;

/// The controlled body: vertical position (top edge, growing downward),
/// signed vertical velocity (positive = upward), cosmetic tilt angle in
/// degrees, and a one-way alive flag.
#[derive(Clone, Copy, PartialEq, Eq, Structural, Debug)]
pub struct Player {
    pub y: i32,
    pub velocity: i32,
    pub angle: i32,
    pub is_alive: bool,
}

impl Player {
    /// Well-formed body state: while alive the velocity stays within
    /// `[GRAVITY, JUMP_FORCE]` and the tilt within `[-45, 45]`; once dead the
    /// body falls nose-down at the fixed death velocity.
    pub open spec fn wf(self) -> bool {
        if self.is_alive {
            &&& GRAVITY <= self.velocity <= JUMP_FORCE
            &&& -45 <= self.angle <= 45
        } else {
            &&& self.velocity == 2 * GRAVITY
            &&& self.angle == 90
        }
    }

    /// Headroom so that one tick of motion cannot overflow the position.
    pub open spec fn y_in_range(self) -> bool {
        i32::MIN + JUMP_FORCE <= self.y <= i32::MAX - JUMP_FORCE
    }

    /// One tick of motion: the position moves by `-velocity` (the coordinate
    /// grows downward). A dead body keeps falling unchanged; an alive body's
    /// velocity decays by 1 toward the `GRAVITY` floor, and its tilt eases
    /// toward the motion direction: +5 degrees per tick capped at 45 while
    /// rising, -8 degrees per tick floored at -45 while diving (the climb
    /// deliberately eases slower than the dive).
    pub open spec fn updated(self) -> Player {
        let y2 = (self.y - self.velocity) as i32;
        if !self.is_alive {
            Player { y: y2, ..self }
        } else {
            let v2: i32 = if self.velocity > GRAVITY {
                (self.velocity - 1) as i32
            } else {
                self.velocity
            };
            let a2: i32 = if v2 > 0 && self.angle < 45 {
                if self.angle + 5 <= 45 {
                    (self.angle + 5) as i32
                } else {
                    45
                }
            } else if v2 < 0 && self.angle > -45 {
                if self.angle - 8 >= -45 {
                    (self.angle - 8) as i32
                } else {
                    -45i32
                }
            } else {
                self.angle
            };
            Player { y: y2, velocity: v2, angle: a2, is_alive: true }
        }
    }

    /// A jump: ignored when dead; otherwise the velocity snaps to
    /// `JUMP_FORCE` and one tick of motion folds into the same call, so the
    /// jump is visible within the tick it was issued.
    pub open spec fn jumped(self) -> Player {
        if !self.is_alive {
            self
        } else {
            Player { velocity: JUMP_FORCE, ..self }.updated()
        }
    }

    /// Death: a one-way transition to nose-down tilt and a hard downward snap
    /// steeper than the normal terminal fall.
    pub open spec fn died(self) -> Player {
        Player { velocity: (2 * GRAVITY) as i32, angle: 90, is_alive: false, ..self }
    }

    /// A fresh body at the given height, at rest, level, alive.
    pub fn new(y: i32) -> (p: Player)
        ensures
            p == (Player { y, velocity: 0, angle: 0, is_alive: true }),
            p.wf(),
    {
        Player { y, velocity: 0, angle: 0, is_alive: true }
    }

    pub fn update(&mut self)
        requires
            old(self).wf(),
            old(self).y_in_range(),
        ensures
            *final(self) == old(self).updated(),
            final(self).wf(),
    {
        self.y = self.y - self.velocity;
        if !self.is_alive {
            return;
        }
        if self.velocity > GRAVITY {
            self.velocity = self.velocity - 1;
        }
        if self.velocity > 0 && self.angle < 45 {
            let a = self.angle + 5;
            self.angle = if a <= 45 {
                a
            } else {
                45
            };
        } else if self.velocity < 0 && self.angle > -45 {
            let a = self.angle - 8;
            self.angle = if a >= -45 {
                a
            } else {
                -45
            };
        }
    }

    pub fn jump(&mut self)
        requires
            old(self).wf(),
            old(self).y_in_range(),
        ensures
            *final(self) == old(self).jumped(),
            final(self).wf(),
    {
        if !self.is_alive {
            return;
        }
        self.velocity = JUMP_FORCE;
        self.update();
    }

    pub fn die(&mut self)
        ensures
            *final(self) == old(self).died(),
            final(self).wf(),
    {
        self.is_alive = false;
        self.angle = 90;
        self.velocity = 2 * GRAVITY;
    }
}

/// While the body is alive, one tick of physics never increases the velocity
/// and never takes it below the `GRAVITY` floor.
pub proof fn lemma_velocity_monotone(p: Player)
    requires
        p.is_alive,
        p.velocity >= GRAVITY,
    ensures
        p.updated().velocity <= p.velocity,
        p.updated().velocity >= GRAVITY,
{
}

/// The tilt angle stays within `[-45, 90]` across every operation of the body.
pub proof fn lemma_angle_bounded(p: Player)
    requires
        p.wf(),
    ensures
        -45 <= p.angle <= 90,
        -45 <= p.updated().angle <= 90,
        -45 <= p.jumped().angle <= 90,
        -45 <= p.died().angle <= 90,
{
}

/// Death is one-way: no later operation of the body revives it, and a dead
/// body ignores jumps entirely.
pub proof fn lemma_death_is_permanent(p: Player)
    requires
        !p.is_alive,
    ensures
        !p.updated().is_alive,
        !p.jumped().is_alive,
        !p.died().is_alive,
        p.jumped() == p,
{
}

/// Every operation of the body preserves well-formedness.
pub proof fn lemma_wf_preserved(p: Player)
    requires
        p.wf(),
    ensures
        p.updated().wf(),
        p.jumped().wf(),
        p.died().wf(),
{
}

} // verus!
