use vstd::prelude::*;

verus! {

/// Largest surface dimension, in pixels, that the simulation accepts.
pub const MAX_DIMENSION: i64 = 1073741824;

/// Largest absolute velocity component, in pixels per step.
pub const MAX_SPEED: i64 = 1073741824;

/// Parameters of a simulation run: surface size, ball radius, spawn cooldown
/// (in milliseconds), population cap and the seed ball's velocity.
#[derive(Clone, Copy, Debug, PartialEq, Eq)]
pub struct Config {
    pub width: i64,
    pub height: i64,
    pub radius: i64,
    pub cooldown_ms: u64,
    pub max_balls: usize,
    pub start_vx: i64,
    pub start_vy: i64,
}

impl Config {
    /// A usable configuration: a ball fits on the surface, the surface is not
    /// larger than `MAX_DIMENSION`, at least one ball is allowed and the seed
    /// velocity is within `MAX_SPEED`.
    pub open spec fn wf(&self) -> bool {
        &&& 0 < self.radius
        &&& 2 * self.radius <= self.width <= MAX_DIMENSION
        &&& 2 * self.radius <= self.height <= MAX_DIMENSION
        &&& 1 <= self.max_balls
        &&& -MAX_SPEED <= self.start_vx <= MAX_SPEED
        &&& -MAX_SPEED <= self.start_vy <= MAX_SPEED
    }

    /// A 1080 x 1920 portrait surface, radius 20, one second of cooldown,
    /// at most 300 balls, seed velocity (5, 7).
    pub fn portrait() -> (r: Config)
        ensures
            r.wf(),
            r.width == 1080 && r.height == 1920 && r.radius == 20,
            r.cooldown_ms == 1000 && r.max_balls == 300,
            r.start_vx == 5 && r.start_vy == 7,
    {
        Config {
            width: 1080,
            height: 1920,
            radius: 20,
            cooldown_ms: 1000,
            max_balls: 300,
            start_vx: 5,
            start_vy: 7,
        }
    }
}

/// An RGBA colour with one byte per channel.
#[derive(Clone, Copy, Debug, PartialEq, Eq)]
pub struct Color {
    pub r: u8,
    pub g: u8,
    pub b: u8,
    pub a: u8,
}

pub assume_specification<T>[ rand::random::<T> ]() -> (r: T)
    where
        rand::distributions::Standard: rand::distributions::Distribution<T>,
;

impl Color {
    pub fn white() -> (c: Color)
        ensures
            c.r == 255 && c.g == 255 && c.b == 255 && c.a == 255,
    {
        Color { r: 255, g: 255, b: 255, a: 255 }
    }

    /// An opaque colour whose red, green and blue channels are drawn
    /// independently and uniformly.
    pub fn random_opaque() -> (c: Color)
        ensures
            c.a == 255,
    {
        let r: u8 = rand::random::<u8>();
        let g: u8 = rand::random::<u8>();
        let b: u8 = rand::random::<u8>();
        Color { r, g, b, a: 255 }
    }
}

/// `lo` and `hi` bound `p`: the larger of `p` and `lo`, then the smaller of
/// that and `hi`.
pub open spec fn clamp(p: int, lo: int, hi: int) -> int {
    let m = if p < lo { lo } else { p };
    if m > hi { hi } else { m }
}

/// Whether a ball of radius `r` at coordinate `p` touches or crosses a wall
/// of the axis `[0, dim]`.
pub open spec fn touches_wall(p: int, r: int, dim: int) -> bool {
    p - r <= 0 || p + r >= dim
}

/// Coordinate on one axis after one step from `p` with velocity `v`.
pub open spec fn axis_position(p: int, v: int, r: int, dim: int) -> int {
    if touches_wall(p + v, r, dim) {
        clamp(p + v, r, dim - r)
    } else {
        p + v
    }
}

/// Velocity on one axis after one step: reversed where the wall was met.
pub open spec fn axis_velocity(p: int, v: int, r: int, dim: int) -> int {
    if touches_wall(p + v, r, dim) {
        -v
    } else {
        v
    }
}

/// A ball: centre, velocity, colour and the time (in milliseconds) at which
/// it last spawned a successor, or was created.
#[derive(Clone, Copy, Debug, PartialEq, Eq)]
pub struct Ball {
    pub x: i64,
    pub y: i64,
    pub vx: i64,
    pub vy: i64,
    pub color: Color,
    pub last_spawn_ms: u64,
}

impl Ball {
    /// The ball lies inside the surface and moves no faster than `MAX_SPEED`.
    pub open spec fn wf(&self, cfg: Config) -> bool {
        &&& cfg.radius <= self.x <= cfg.width - cfg.radius
        &&& cfg.radius <= self.y <= cfg.height - cfg.radius
        &&& -MAX_SPEED <= self.vx <= MAX_SPEED
        &&& -MAX_SPEED <= self.vy <= MAX_SPEED
    }

    /// The step hits a wall on the horizontal axis.
    pub open spec fn hits_x(&self, cfg: Config) -> bool {
        touches_wall(self.x + self.vx, cfg.radius as int, cfg.width as int)
    }

    /// The step hits a wall on the vertical axis.
    pub open spec fn hits_y(&self, cfg: Config) -> bool {
        touches_wall(self.y + self.vy, cfg.radius as int, cfg.height as int)
    }

    pub open spec fn hits(&self, cfg: Config) -> bool {
        self.hits_x(cfg) || self.hits_y(cfg)
    }

    /// The ball after one step: moved by its velocity, reflected and clamped
    /// on each axis where it met a wall; colour and spawn time kept.
    pub open spec fn moved(&self, cfg: Config) -> Ball {
        Ball {
            x: axis_position(self.x as int, self.vx as int, cfg.radius as int, cfg.width as int) as i64,
            y: axis_position(self.y as int, self.vy as int, cfg.radius as int, cfg.height as int) as i64,
            vx: axis_velocity(self.x as int, self.vx as int, cfg.radius as int, cfg.width as int) as i64,
            vy: axis_velocity(self.y as int, self.vy as int, cfg.radius as int, cfg.height as int) as i64,
            color: self.color,
            last_spawn_ms: self.last_spawn_ms,
        }
    }

    pub fn new(x: i64, y: i64, vx: i64, vy: i64, color: Color, now_ms: u64) -> (b: Ball)
        ensures
            b == (Ball { x, y, vx, vy, color, last_spawn_ms: now_ms }),
    {
        Ball { x, y, vx, vy, color, last_spawn_ms: now_ms }
    }

    /// Advances the ball one step and reports whether it met a wall.
    pub fn update(&mut self, cfg: &Config) -> (hit: bool)
        requires
            cfg.wf(),
            old(self).wf(*cfg),
        ensures
            *final(self) == old(self).moved(*cfg),
            final(self).wf(*cfg),
            hit == old(self).hits(*cfg),
    {
        proof {
            lemma_step_within_bounds(*self, *cfg);
        }
        let x = self.x + self.vx;
        let y = self.y + self.vy;
        let mut hit = false;
        if x - cfg.radius <= 0 || x + cfg.radius >= cfg.width {
            self.vx = -self.vx;
            self.x = clamp_exec(x, cfg.radius, cfg.width - cfg.radius);
            hit = true;
        } else {
            self.x = x;
        }
        if y - cfg.radius <= 0 || y + cfg.radius >= cfg.height {
            self.vy = -self.vy;
            self.y = clamp_exec(y, cfg.radius, cfg.height - cfg.radius);
            hit = true;
        } else {
            self.y = y;
        }
        hit
    }
}

fn clamp_exec(p: i64, lo: i64, hi: i64) -> (r: i64)
    ensures
        r == clamp(p as int, lo as int, hi as int),
{
    let m = if p < lo { lo } else { p };
    if m > hi { hi } else { m }
}

/// After a step every ball still lies within `[radius, dimension - radius]`
/// on both axes, and its velocity within `MAX_SPEED`.
pub proof fn lemma_step_within_bounds(b: Ball, cfg: Config)
    requires
        cfg.wf(),
        b.wf(cfg),
    ensures
        b.moved(cfg).wf(cfg),
{
}

/// A collision on one axis reverses that axis's velocity; an axis without a
/// collision keeps its velocity.
pub proof fn lemma_reflection(b: Ball, cfg: Config)
    requires
        cfg.wf(),
        b.wf(cfg),
    ensures
        b.hits_x(cfg) ==> b.moved(cfg).vx == -b.vx,
        !b.hits_x(cfg) ==> b.moved(cfg).vx == b.vx,
        b.hits_y(cfg) ==> b.moved(cfg).vy == -b.vy,
        !b.hits_y(cfg) ==> b.moved(cfg).vy == b.vy,
{
}

} // verus!
