use bouncing_balls::ball::{Ball, Color, Config};
use bouncing_balls::simulation::{Circle, Simulation, Velocity};

/// Closed form of one axis: straight runs between the walls `lo` and `hi`,
/// where a run that would pass a wall stops on it and turns back.
fn axis_oracle(p0: i64, v0: i64, lo: i64, hi: i64, n: i64) -> (i64, i64) {
    let speed = v0.abs();
    let ceil_div = |a: i64, b: i64| (a + b - 1) / b;
    let first = if v0 > 0 { ceil_div(hi - p0, speed) } else { ceil_div(p0 - lo, speed) };
    if n < first {
        return (p0 + v0 * n, v0);
    }
    let full = ceil_div(hi - lo, speed);
    let rest = n - first;
    let runs = rest / full;
    let into = rest % full;
    let towards_hi_first = v0 < 0;
    let going_up = if runs % 2 == 0 { towards_hi_first } else { !towards_hi_first };
    if going_up {
        (lo + speed * into, speed)
    } else {
        (hi - speed * into, -speed)
    }
}

fn run(sim: &mut Simulation, cfg: &Config, steps: u64, start_ms: u64, dt_ms: u64) -> u64 {
    let mut now = start_ms;
    for _ in 0..steps {
        let parents = sim.step(cfg, now);
        let velocities: Vec<Velocity> = (0..parents.len())
            .map(|k| if k % 2 == 0 { Velocity { vx: 3, vy: -4 } } else { Velocity { vx: -5, vy: 0 } })
            .collect();
        sim.add_spawns(cfg, &parents, &velocities, now);
        now += dt_ms;
    }
    now
}

#[test]
fn center_ball_follows_closed_form_reflection() {
    let cfg = Config::portrait();
    for n in [0i64, 1, 103, 104, 105, 134, 135, 136, 500, 1000, 2500] {
        let mut sim = Simulation::new(&cfg, 0);
        for _ in 0..n {
            let parents = sim.step(&cfg, 0);
            assert!(parents.is_empty());
        }
        let b = sim.balls[0];
        let (x, vx) = axis_oracle(540, 5, 20, 1060, n);
        let (y, vy) = axis_oracle(960, 7, 20, 1900, n);
        assert_eq!((b.x, b.vx), (x, vx), "x after {} steps", n);
        assert_eq!((b.y, b.vy), (y, vy), "y after {} steps", n);
    }
}

#[test]
fn new_simulation_has_one_white_ball_at_center() {
    let cfg = Config::portrait();
    let sim = Simulation::new(&cfg, 7);
    assert_eq!(sim.len(), 1);
    assert_eq!(sim.balls[0], Ball::new(540, 960, 5, 7, Color::white(), 7));
}

#[test]
fn positions_stay_within_walls() {
    let cfg = Config::portrait();
    let mut sim = Simulation::new(&cfg, 0);
    let mut now = 0u64;
    for _ in 0..300 {
        now = run(&mut sim, &cfg, 10, now, 34);
        for b in &sim.balls {
            assert!(20 <= b.x && b.x <= 1060);
            assert!(20 <= b.y && b.y <= 1900);
        }
    }
    assert!(sim.len() > 1);
}

#[test]
fn wall_hit_on_one_axis_reverses_only_that_axis() {
    let cfg = Config::portrait();
    let mut b = Ball::new(1050, 500, 20, 3, Color::white(), 0);
    assert!(b.update(&cfg));
    assert_eq!((b.x, b.y, b.vx, b.vy), (1060, 503, -20, 3));
    let mut c = Ball::new(500, 30, 4, -15, Color::white(), 0);
    assert!(c.update(&cfg));
    assert_eq!((c.x, c.y, c.vx, c.vy), (504, 20, 4, 15));
    let mut d = Ball::new(500, 500, 4, -15, Color::white(), 0);
    assert!(!d.update(&cfg));
    assert_eq!((d.x, d.y, d.vx, d.vy), (504, 485, 4, -15));
}

#[test]
fn corner_hit_reverses_both_axes() {
    let cfg = Config::portrait();
    let mut b = Ball::new(25, 1895, -10, 10, Color::white(), 0);
    assert!(b.update(&cfg));
    assert_eq!((b.x, b.y, b.vx, b.vy), (20, 1900, 10, -10));
}

#[test]
fn population_never_exceeds_cap() {
    let mut cfg = Config::portrait();
    cfg.max_balls = 5;
    let mut sim = Simulation::new(&cfg, 0);
    let mut now = 0u64;
    for _ in 0..2000 {
        now = run(&mut sim, &cfg, 1, now, 100);
        assert!(sim.len() <= 5);
    }
    assert_eq!(sim.len(), 5);
}

#[test]
fn cooldown_gates_spawning() {
    let cfg = Config::portrait();
    let mut sim = Simulation::new(&cfg, 1000);
    sim.balls[0] = Ball::new(1055, 500, 10, 0, Color::white(), 1000);
    assert!(sim.step(&cfg, 1500).is_empty());

    sim.balls[0] = Ball::new(1055, 500, 10, 0, Color::white(), 1000);
    assert!(sim.step(&cfg, 2000).is_empty());

    sim.balls[0] = Ball::new(1055, 500, 10, 0, Color::white(), 1000);
    assert_eq!(sim.step(&cfg, 2001), vec![0]);
    assert_eq!(sim.balls[0].last_spawn_ms, 2001);
    assert_eq!(sim.balls[0].vx, -10);
}

#[test]
fn spawns_are_appended_at_parent_positions() {
    let cfg = Config::portrait();
    let mut sim = Simulation::new(&cfg, 0);
    sim.balls.push(Ball::new(30, 700, -15, 0, Color::white(), 0));
    sim.balls.push(Ball::new(500, 700, 1, 1, Color::white(), 0));
    let parents = sim.step(&cfg, 5000);
    assert_eq!(parents, vec![1]);
    sim.add_spawns(&cfg, &parents, &vec![Velocity { vx: 4, vy: 3 }], 5000);
    assert_eq!(sim.len(), 4);
    let child = sim.balls[3];
    assert_eq!((child.x, child.y, child.vx, child.vy), (20, 700, 4, 3));
    assert_eq!(child.color.a, 255);
    assert_eq!(child.last_spawn_ms, 5000);
}

#[test]
fn spawns_stop_at_cap_within_one_step() {
    let mut cfg = Config::portrait();
    cfg.max_balls = 3;
    let mut sim = Simulation::new(&cfg, 0);
    sim.balls[0] = Ball::new(25, 700, -10, 0, Color::white(), 0);
    sim.balls.push(Ball::new(1055, 700, 10, 0, Color::white(), 0));
    let parents = sim.step(&cfg, 5000);
    assert_eq!(parents, vec![0]);
    assert_eq!(sim.balls[1].last_spawn_ms, 0);
}

#[test]
fn render_draws_one_circle_per_ball() {
    let cfg = Config::portrait();
    let mut sim = Simulation::new(&cfg, 0);
    let red = Color { r: 255, g: 0, b: 0, a: 255 };
    sim.balls.push(Ball::new(100, 200, 1, 1, red, 0));
    let circles = sim.render(&cfg);
    assert_eq!(
        circles,
        vec![
            Circle { x: 540, y: 960, radius: 20, color: Color::white() },
            Circle { x: 100, y: 200, radius: 20, color: red },
        ]
    );
}

#[test]
fn random_colors_are_opaque() {
    for _ in 0..50 {
        assert_eq!(Color::random_opaque().a, 255);
    }
}
