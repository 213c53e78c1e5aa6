use vstd::prelude::*;

verus! {

/// Upper bound on every configuration dimension, so that all of the
/// simulation's coordinate arithmetic stays comfortably inside `i32`.
pub const MAX_DIMENSION: i32 = 1_000_000;

/// Conventional height of the passable gap in an obstacle, in screen units.
pub const HOLE_HEIGHT: i32 = 150;

/// Conventional horizontal distance between consecutive obstacles' `x_offset`s.
pub const SPACE_BETWEEN_PIPES: i32 = 300;

/// The screen and gameplay dimensions the simulation runs against. They are
/// inputs, not constants baked into the core, so the rules stay testable at
/// arbitrary resolutions.
#[derive(Clone, Copy, PartialEq, Eq, Structural, Debug)]
pub struct Config {
    /// Width of the screen in screen units.
    pub screen_width: i32,
    /// Height of the screen in screen units.
    pub screen_height: i32,
    /// Height of the ground band at the bottom of the screen.
    pub ground_height: i32,
    /// Width of one obstacle.
    pub pipe_width: i32,
    /// Width of the controlled body.
    pub bird_width: i32,
    /// Height of the controlled body.
    pub bird_height: i32,
    /// Fixed horizontal position of the body's left edge.
    pub player_x: i32,
    /// Screen units each obstacle scrolls left per tick.
    pub speed: i32,
    /// Height of the passable gap in each obstacle.
    pub hole_height: i32,
    /// Horizontal distance between consecutive obstacles.
    pub pipe_spacing: i32,
    /// Minimum distance the gap keeps from the top of the screen and from the
    /// top of the ground band.
    pub padding: i32,
}

/// The only failure this core knows: a configuration whose dimensions leave no
/// room to place a gap fairly. It is rejected when the configuration is built,
/// never silently clamped at sampling time.
#[derive(Clone, Copy, PartialEq, Eq, Structural, Debug)]
pub enum ConfigError {
    InvalidDimensions,
}

impl Config {
    /// Top y-coordinate of the ground band; everything above it is playable.
    pub open spec fn playable_height(self) -> int {
        self.screen_height - self.ground_height
    }

    /// Largest top edge the gap may take: the gap plus its bottom padding must
    /// still fit above the ground band.
    pub open spec fn max_hole_y(self) -> int {
        self.playable_height() - self.hole_height - self.padding
    }

    /// A usable configuration: positive dimensions within `MAX_DIMENSION`, a
    /// scroll speed no larger than the obstacle spacing, and a nonempty range
    /// `[padding, max_hole_y]` to sample gap positions from.
    pub open spec fn valid(self) -> bool {
        &&& 0 < self.screen_width <= MAX_DIMENSION
        &&& 0 < self.screen_height <= MAX_DIMENSION
        &&& 0 <= self.ground_height < self.screen_height
        &&& 0 < self.pipe_width <= MAX_DIMENSION
        &&& 0 < self.bird_width <= MAX_DIMENSION
        &&& 0 < self.bird_height <= MAX_DIMENSION
        &&& 0 <= self.player_x <= MAX_DIMENSION
        &&& 0 < self.speed <= MAX_DIMENSION
        &&& 0 < self.hole_height <= MAX_DIMENSION
        &&& self.speed <= self.pipe_spacing <= MAX_DIMENSION
        &&& 0 <= self.padding <= MAX_DIMENSION
        &&& self.padding <= self.max_hole_y()
    }

    /// Builds a configuration, rejecting at construction time any set of
    /// dimensions that would make the gap-placement sample range empty.
    pub fn new(
        screen_width: i32,
        screen_height: i32,
        ground_height: i32,
        pipe_width: i32,
        bird_width: i32,
        bird_height: i32,
        player_x: i32,
        speed: i32,
        hole_height: i32,
        pipe_spacing: i32,
        padding: i32,
    ) -> (r: Result<Config, ConfigError>)
        ensures
            ({
                let c = Config {
                    screen_width,
                    screen_height,
                    ground_height,
                    pipe_width,
                    bird_width,
                    bird_height,
                    player_x,
                    speed,
                    hole_height,
                    pipe_spacing,
                    padding,
                };
                r == if c.valid() {
                    Result::<Config, ConfigError>::Ok(c)
                } else {
                    Result::<Config, ConfigError>::Err(ConfigError::InvalidDimensions)
                }
            }),
    {
        let c = Config {
            screen_width,
            screen_height,
            ground_height,
            pipe_width,
            bird_width,
            bird_height,
            player_x,
            speed,
            hole_height,
            pipe_spacing,
            padding,
        };
        let bounds_ok = 0 < screen_width && screen_width <= MAX_DIMENSION
            && 0 < screen_height && screen_height <= MAX_DIMENSION
            && 0 <= ground_height && ground_height < screen_height
            && 0 < pipe_width && pipe_width <= MAX_DIMENSION
            && 0 < bird_width && bird_width <= MAX_DIMENSION
            && 0 < bird_height && bird_height <= MAX_DIMENSION
            && 0 <= player_x && player_x <= MAX_DIMENSION
            && 0 < speed && speed <= MAX_DIMENSION
            && 0 < hole_height && hole_height <= MAX_DIMENSION
            && speed <= pipe_spacing && pipe_spacing <= MAX_DIMENSION
            && 0 <= padding && padding <= MAX_DIMENSION;
        if bounds_ok && padding <= screen_height - ground_height - hole_height - padding {
            Ok(c)
        } else {
            Err(ConfigError::InvalidDimensions)
        }
    }
}

} // verus!
