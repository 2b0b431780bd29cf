use vstd::prelude::*;
use crate::ball::{Ball, Color, Config, MAX_SPEED};

verus! {

/// The time `last_ms` lies strictly more than `cooldown_ms` before `now_ms`.
pub open spec fn cooled(last_ms: u64, now_ms: u64, cooldown_ms: u64) -> bool {
    now_ms >= last_ms && now_ms - last_ms > cooldown_ms
}

/// Indices, in order, of the balls among the first `i` of `bs` that spawn a
/// successor in one step at time `now_ms`.
pub open spec fn spawn_parents(bs: Seq<Ball>, cfg: Config, now_ms: u64, i: nat) -> Seq<int>
    decreases i,
{
    if i == 0 {
        Seq::empty()
    } else {
        let prev = spawn_parents(bs, cfg, now_ms, (i - 1) as nat);
        let j = i - 1;
        if bs[j].hits(cfg) && cooled(bs[j].last_spawn_ms, now_ms, cfg.cooldown_ms) && bs.len()
            + prev.len() < cfg.max_balls {
            prev.push(i - 1)
        } else {
            prev
        }
    }
}

/// Ball `j` of `bs` spawns: its step meets a wall, its cooldown has elapsed,
/// and the population with the spawns decided before it is below the cap.
pub open spec fn spawns_at(bs: Seq<Ball>, cfg: Config, now_ms: u64, j: int) -> bool {
    &&& 0 <= j < bs.len()
    &&& bs[j].hits(cfg)
    &&& cooled(bs[j].last_spawn_ms, now_ms, cfg.cooldown_ms)
    &&& bs.len() + spawn_parents(bs, cfg, now_ms, j as nat).len() < cfg.max_balls
}

/// Ball `j` after one step at time `now_ms`: moved, and with its spawn time
/// reset where it spawned.
pub open spec fn stepped(bs: Seq<Ball>, cfg: Config, now_ms: u64, j: int) -> Ball {
    let m = bs[j].moved(cfg);
    if spawns_at(bs, cfg, now_ms, j) {
        Ball { last_spawn_ms: now_ms, ..m }
    } else {
        m
    }
}

/// One filled circle to draw.
#[derive(Clone, Copy, Debug, PartialEq, Eq)]
pub struct Circle {
    pub x: i64,
    pub y: i64,
    pub radius: i64,
    pub color: Color,
}

/// A new ball's velocity, chosen by the caller (a random direction at a fixed
/// speed).
#[derive(Clone, Copy, Debug, PartialEq, Eq)]
pub struct Velocity {
    pub vx: i64,
    pub vy: i64,
}

/// The population of balls, in order of creation.
pub struct Simulation {
    pub balls: Vec<Ball>,
}

impl Simulation {
    /// Every ball is well formed and the population is within the cap.
    pub open spec fn wf(&self, cfg: Config) -> bool {
        &&& cfg.wf()
        &&& 1 <= self.balls@.len() <= cfg.max_balls
        &&& forall|j: int| 0 <= j < self.balls@.len() ==> #[trigger] self.balls@[j].wf(cfg)
    }

    /// One white ball at the centre of the surface, moving with the seed
    /// velocity.
    pub fn new(cfg: &Config, now_ms: u64) -> (s: Simulation)
        requires
            cfg.wf(),
        ensures
            s.wf(*cfg),
            s.balls@ == seq![Ball {
                x: (cfg.width / 2) as i64,
                y: (cfg.height / 2) as i64,
                vx: cfg.start_vx,
                vy: cfg.start_vy,
                color: Color { r: 255, g: 255, b: 255, a: 255 },
                last_spawn_ms: now_ms,
            }],
    {
        let b = Ball::new(cfg.width / 2, cfg.height / 2, cfg.start_vx, cfg.start_vy, Color::white(), now_ms);
        let mut balls: Vec<Ball> = Vec::new();
        balls.push(b);
        Simulation { balls }
    }

    pub fn len(&self) -> (n: usize)
        ensures
            n == self.balls@.len(),
    {
        self.balls.len()
    }

    /// Moves every ball one step at time `now_ms` and decides which balls
    /// spawn a successor; returns their indices, in order. The successors are
    /// added by `add_spawns`.
    pub fn step(&mut self, cfg: &Config, now_ms: u64) -> (parents: Vec<usize>)
        requires
            old(self).wf(*cfg),
        ensures
            final(self).balls@.len() == old(self).balls@.len(),
            forall|j: int| 0 <= j < old(self).balls@.len() ==>
                #[trigger] final(self).balls@[j] == stepped(old(self).balls@, *cfg, now_ms, j),
            parents@.map_values(|p: usize| p as int)
                == spawn_parents(old(self).balls@, *cfg, now_ms, old(self).balls@.len()),
            final(self).wf(*cfg),
            final(self).balls@.len() + parents@.len() <= cfg.max_balls,
    {
        let ghost bs = self.balls@;
        let n = self.balls.len();
        let mut parents: Vec<usize> = Vec::new();
        let mut i: usize = 0;
        proof {
            lemma_spawn_parents_bounded(bs, *cfg, now_ms, 0);
        }
        while i < n
            invariant
                cfg.wf(),
                n == bs.len(),
                1 <= n <= cfg.max_balls,
                0 <= i <= n,
                forall|j: int| 0 <= j < n ==> #[trigger] bs[j].wf(*cfg),
                self.balls@.len() == n,
                forall|j: int| 0 <= j < i ==> #[trigger] self.balls@[j] == stepped(bs, *cfg, now_ms, j),
                forall|j: int| i <= j < n ==> #[trigger] self.balls@[j] == bs[j],
                parents@.map_values(|p: usize| p as int) == spawn_parents(bs, *cfg, now_ms, i as nat),
                n + parents@.len() <= cfg.max_balls,
            decreases n - i,
        {
            let mut b = self.balls[i];
            let hit = b.update(cfg);
            let room = n + parents.len() < cfg.max_balls;
            let ready = now_ms >= b.last_spawn_ms && now_ms - b.last_spawn_ms > cfg.cooldown_ms;
            proof {
                assert(spawn_parents(bs, *cfg, now_ms, i as nat).len() == parents@.len());
            }
            let ghost before = parents@;
            if hit && ready && room {
                parents.push(i);
                assert(parents@.map_values(|p: usize| p as int)
                    =~= before.map_values(|p: usize| p as int).push(i as int));
                b.last_spawn_ms = now_ms;
            }
            self.balls.set(i, b);
            proof {
                assert(parents@.map_values(|p: usize| p as int)
                    =~= spawn_parents(bs, *cfg, now_ms, (i + 1) as nat));
                lemma_step_within(bs, *cfg, now_ms, i as int);
            }
            i = i + 1;
        }
        proof {
            assert forall|j: int| 0 <= j < self.balls@.len() implies #[trigger] self.balls@[j].wf(*cfg) by {
                lemma_step_within(bs, *cfg, now_ms, j);
            }
        }
        parents
    }

    /// Appends, in order, one ball per entry of `parents`, placed at that
    /// parent's centre, with the matching velocity of `velocities`, a random
    /// opaque colour, and spawn time `now_ms`.
    pub fn add_spawns(&mut self, cfg: &Config, parents: &Vec<usize>, velocities: &Vec<Velocity>, now_ms: u64)
        requires
            old(self).wf(*cfg),
            parents@.len() == velocities@.len(),
            old(self).balls@.len() + parents@.len() <= cfg.max_balls,
            forall|k: int| 0 <= k < parents@.len() ==> #[trigger] parents@[k] < old(self).balls@.len(),
            forall|k: int| 0 <= k < velocities@.len() ==>
                -MAX_SPEED <= (#[trigger] velocities@[k]).vx <= MAX_SPEED
                && -MAX_SPEED <= velocities@[k].vy <= MAX_SPEED,
        ensures
            final(self).wf(*cfg),
            final(self).balls@.len() == old(self).balls@.len() + parents@.len(),
            final(self).balls@.subrange(0, old(self).balls@.len() as int) == old(self).balls@,
            forall|k: int| 0 <= k < parents@.len() ==> {
                let b = #[trigger] final(self).balls@[old(self).balls@.len() + k];
                let p = old(self).balls@[parents@[k] as int];
                &&& b.x == p.x && b.y == p.y
                &&& b.vx == velocities@[k].vx && b.vy == velocities@[k].vy
                &&& b.color.a == 255
                &&& b.last_spawn_ms == now_ms
            },
    {
        let ghost old_balls = self.balls@;
        let n = self.balls.len();
        let mut k: usize = 0;
        while k < parents.len()
            invariant
                cfg.wf(),
                n == old_balls.len(),
                parents@.len() == velocities@.len(),
                n + parents@.len() <= cfg.max_balls,
                1 <= n,
                forall|q: int| 0 <= q < parents@.len() ==> #[trigger] parents@[q] < n,
                forall|q: int| 0 <= q < velocities@.len() ==>
                    -MAX_SPEED <= (#[trigger] velocities@[q]).vx <= MAX_SPEED
                    && -MAX_SPEED <= velocities@[q].vy <= MAX_SPEED,
                forall|j: int| 0 <= j < n ==> #[trigger] old_balls[j].wf(*cfg),
                0 <= k <= parents@.len(),
                self.balls@.len() == n + k,
                self.balls@.subrange(0, n as int) == old_balls,
                forall|j: int| 0 <= j < self.balls@.len() ==> #[trigger] self.balls@[j].wf(*cfg),
                forall|q: int| 0 <= q < k ==> {
                    let b = #[trigger] self.balls@[n + q];
                    let p = old_balls[parents@[q] as int];
                    &&& b.x == p.x && b.y == p.y
                    &&& b.vx == velocities@[q].vx && b.vy == velocities@[q].vy
                    &&& b.color.a == 255
                    &&& b.last_spawn_ms == now_ms
                },
            decreases parents@.len() - k,
        {
            let p = self.balls[parents[k]];
            assert(old_balls[parents@[k as int] as int].wf(*cfg));
            assert(p == old_balls[parents@[k as int] as int]) by {
                assert(self.balls@.subrange(0, n as int)[parents@[k as int] as int]
                    == self.balls@[parents@[k as int] as int]);
            }
            let v = velocities[k];
            let b = Ball::new(p.x, p.y, v.vx, v.vy, Color::random_opaque(), now_ms);
            let ghost before = self.balls@;
            self.balls.push(b);
            proof {
                assert(self.balls@.subrange(0, n as int) =~= before.subrange(0, n as int));
                assert forall|q: int| 0 <= q < k implies {
                    let b = #[trigger] self.balls@[n + q];
                    let p = old_balls[parents@[q] as int];
                    &&& b.x == p.x && b.y == p.y
                    &&& b.vx == velocities@[q].vx && b.vy == velocities@[q].vy
                    &&& b.color.a == 255
                    &&& b.last_spawn_ms == now_ms
                } by {
                    assert(self.balls@[n + q] == before[n + q]);
                }
                assert forall|j: int| 0 <= j < self.balls@.len() implies #[trigger] self.balls@[j].wf(*cfg) by {
                    if j < n + k {
                        assert(self.balls@[j] == before[j]);
                    }
                }
            }
            k = k + 1;
        }
    }

    /// The drawing of the population: one filled circle of the configured
    /// radius per ball, in order, at its centre and in its colour.
    pub fn render(&self, cfg: &Config) -> (circles: Vec<Circle>)
        ensures
            circles@.len() == self.balls@.len(),
            forall|j: int| 0 <= j < circles@.len() ==> #[trigger] circles@[j] == (Circle {
                x: self.balls@[j].x,
                y: self.balls@[j].y,
                radius: cfg.radius,
                color: self.balls@[j].color,
            }),
    {
        let mut circles: Vec<Circle> = Vec::new();
        let mut j: usize = 0;
        while j < self.balls.len()
            invariant
                0 <= j <= self.balls@.len(),
                circles@.len() == j,
                forall|q: int| 0 <= q < j ==> #[trigger] circles@[q] == (Circle {
                    x: self.balls@[q].x,
                    y: self.balls@[q].y,
                    radius: cfg.radius,
                    color: self.balls@[q].color,
                }),
            decreases self.balls@.len() - j,
        {
            let b = self.balls[j];
            circles.push(Circle { x: b.x, y: b.y, radius: cfg.radius, color: b.color });
            j = j + 1;
        }
        circles
    }
}

proof fn lemma_step_within(bs: Seq<Ball>, cfg: Config, now_ms: u64, j: int)
    requires
        cfg.wf(),
        0 <= j < bs.len(),
        bs[j].wf(cfg),
    ensures
        stepped(bs, cfg, now_ms, j).wf(cfg),
{
    crate::ball::lemma_step_within_bounds(bs[j], cfg);
}

/// However the spawns of one step fall, the population with them does not
/// exceed the cap, provided it did not before.
pub proof fn lemma_spawn_parents_bounded(bs: Seq<Ball>, cfg: Config, now_ms: u64, i: nat)
    requires
        bs.len() <= cfg.max_balls,
    ensures
        bs.len() + spawn_parents(bs, cfg, now_ms, i).len() <= cfg.max_balls,
    decreases i,
{
    if i > 0 {
        lemma_spawn_parents_bounded(bs, cfg, now_ms, (i - 1) as nat);
    }
}

/// The balls that spawn in a step are exactly those for which `spawns_at`
/// holds.
pub proof fn lemma_spawn_parents_members(bs: Seq<Ball>, cfg: Config, now_ms: u64, i: nat, j: int)
    requires
        i <= bs.len(),
    ensures
        spawn_parents(bs, cfg, now_ms, i).contains(j) <==> (0 <= j < i && spawns_at(bs, cfg, now_ms, j)),
    decreases i,
{
    if i > 0 {
        lemma_spawn_parents_members(bs, cfg, now_ms, (i - 1) as nat, j);
        let prev = spawn_parents(bs, cfg, now_ms, (i - 1) as nat);
        if spawns_at(bs, cfg, now_ms, i - 1) {
            assert(prev.push(i - 1)[prev.len() as int] == i - 1);
            assert(prev.push(i - 1).contains(j) <==> (prev.contains(j) || j == i - 1)) by {
                if prev.push(i - 1).contains(j) {
                    let t = choose|t: int| 0 <= t < prev.len() + 1 && #[trigger] prev.push(i - 1)[t] == j;
                    if t < prev.len() {
                        assert(prev[t] == j);
                    }
                }
                if prev.contains(j) {
                    let t = choose|t: int| 0 <= t < prev.len() && #[trigger] prev[t] == j;
                    assert(prev.push(i - 1)[t] == j);
                }
            }
        }
    }
}

/// A ball whose step meets a wall before its cooldown has elapsed spawns no
/// successor; one whose cooldown has elapsed spawns one, as long as the cap
/// leaves room after the spawns decided before it.
pub proof fn lemma_cooldown_gates_spawn(bs: Seq<Ball>, cfg: Config, now_ms: u64, j: int)
    requires
        0 <= j < bs.len(),
        bs[j].hits(cfg),
    ensures
        !cooled(bs[j].last_spawn_ms, now_ms, cfg.cooldown_ms)
            ==> !spawn_parents(bs, cfg, now_ms, bs.len()).contains(j),
        cooled(bs[j].last_spawn_ms, now_ms, cfg.cooldown_ms)
            && bs.len() + spawn_parents(bs, cfg, now_ms, j as nat).len() < cfg.max_balls
            ==> spawn_parents(bs, cfg, now_ms, bs.len()).contains(j),
{
    lemma_spawn_parents_members(bs, cfg, now_ms, bs.len(), j);
}

/// The population after a full step (moves, then spawns) stays within the
/// cap; by induction it does so after any number of steps.
pub proof fn lemma_population_capped(bs: Seq<Ball>, cfg: Config, now_ms: u64)
    requires
        bs.len() <= cfg.max_balls,
    ensures
        bs.len() + spawn_parents(bs, cfg, now_ms, bs.len()).len() <= cfg.max_balls,
{
    lemma_spawn_parents_bounded(bs, cfg, now_ms, bs.len());
}

} // verus!
