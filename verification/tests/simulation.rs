use flappy_bird::config::Config;
use flappy_bird::sim::{GameState, InputEvent, SimulationClock};

fn cfg_sim() -> Config {
    Config::new(432, 768, 150, 78, 51, 24, 80, 2, 150, 300, 50).unwrap()
}

fn sim_768(seed: u64) -> SimulationClock {
    SimulationClock::new(cfg_sim(), 309, seed)
}

#[test]
fn title_screen_waits_for_primary() {
    let mut sim = sim_768(1);
    sim.tick();
    assert!(matches!(sim.current_phase(), GameState::BeforeStart));
    assert_eq!(sim.body().y, 309);
    assert_eq!(sim.body().velocity, 0);
    assert_eq!(sim.current_score(), 0);
    assert_eq!(sim.obstacles().len(), 0);
}

#[test]
fn primary_starts_the_run() {
    let mut sim = sim_768(1);
    sim.submit_input(InputEvent::Primary);
    sim.tick();
    assert!(matches!(sim.current_phase(), GameState::Running));
    // the velocity was forced to GRAVITY, then the jump (with its folded
    // motion step) and the per-tick update applied on top of it
    assert_eq!(sim.body().velocity, 10);
    assert_eq!(sim.body().y, 309 - 12 - 11);
    assert!(sim.body().is_alive);
    assert_eq!(sim.current_score(), 0);
    assert_eq!(sim.obstacles().len(), 3);
}

#[test]
fn lane_spawns_three_spaced_obstacles_with_fair_gaps() {
    let mut sim = sim_768(42);
    sim.submit_input(InputEvent::Primary);
    sim.tick();
    {
        let pipes = sim.obstacles();
        assert_eq!(pipes.len(), 3);
        assert_eq!(pipes[0].x_offset, 864);
        assert_eq!(pipes[1].x_offset - pipes[0].x_offset, 300);
        assert_eq!(pipes[2].x_offset - pipes[1].x_offset, 300);
        assert!(pipes[0].id != pipes[1].id);
        assert!(pipes[1].id != pipes[2].id);
        assert!(pipes[0].id != pipes[2].id);
        for p in pipes.iter() {
            assert!(50 <= p.hole_y);
            assert!(p.hole_y + 150 <= 768 - 150 - 50);
        }
    }
    let mut i: u32 = 0;
    while i < 100 {
        sim.tick();
        assert!(sim.obstacles().len() <= 3);
        i += 1;
    }
}

#[test]
fn obstacles_scroll_left_at_speed() {
    let mut sim = sim_768(3);
    sim.submit_input(InputEvent::Primary);
    sim.tick();
    let x0: i32 = sim.obstacles()[0].x_offset;
    sim.tick();
    assert_eq!(sim.obstacles()[0].x_offset, x0 - 2);
}

#[test]
fn falling_body_settles_on_the_ground() {
    let mut sim = sim_768(5);
    sim.submit_input(InputEvent::Primary);
    sim.tick();
    let mut guard: u32 = 0;
    while matches!(sim.current_phase(), GameState::Running) {
        assert!(sim.can_tick());
        sim.tick();
        guard += 1;
        assert!(guard < 500, "the run should have ended on the ground");
    }
    assert!(matches!(sim.current_phase(), GameState::GameOver));
    assert_eq!(sim.body().y, 768 - 150 - 24);
    assert!(!sim.body().is_alive);
    let score: u32 = sim.current_score();
    let xs: Vec<i32> = sim.obstacles().iter().map(|p| p.x_offset).collect();
    let mut i: u32 = 0;
    while i < 50 {
        sim.submit_input(InputEvent::Primary);
        sim.tick();
        assert!(matches!(sim.current_phase(), GameState::GameOver));
        assert_eq!(sim.body().y, 594);
        assert!(!sim.body().is_alive);
        assert_eq!(sim.current_score(), score);
        i += 1;
    }
    let xs2: Vec<i32> = sim.obstacles().iter().map(|p| p.x_offset).collect();
    assert_eq!(xs, xs2);
}

#[test]
fn colliding_with_an_obstacle_ends_the_run() {
    let mut sim = sim_768(8);
    sim.submit_input(InputEvent::Primary);
    sim.tick();
    let mut guard: u32 = 0;
    while matches!(sim.current_phase(), GameState::Running) {
        sim.submit_input(InputEvent::Primary);
        assert!(sim.can_tick());
        sim.tick();
        guard += 1;
        assert!(guard < 2000, "the climb should have met an obstacle");
    }
    assert!(matches!(sim.current_phase(), GameState::GameOver));
    assert!(!sim.body().is_alive);
    assert_eq!(sim.current_score(), 0);
}

#[test]
fn quit_is_recorded_not_acted_on() {
    let mut sim = sim_768(2);
    assert!(!sim.quit_requested());
    sim.submit_input(InputEvent::Quit);
    sim.tick();
    assert!(sim.quit_requested());
    assert!(matches!(sim.current_phase(), GameState::BeforeStart));
    sim.tick();
    assert!(sim.quit_requested());
}

#[test]
fn seeded_runs_are_reproducible() {
    let mut a = sim_768(77);
    let mut b = sim_768(77);
    a.submit_input(InputEvent::Primary);
    b.submit_input(InputEvent::Primary);
    let mut i: u32 = 0;
    while i < 40 {
        a.tick();
        b.tick();
        i += 1;
    }
    assert_eq!(a.body().y, b.body().y);
    assert_eq!(a.obstacles().len(), b.obstacles().len());
    let mut k: usize = 0;
    while k < a.obstacles().len() {
        assert_eq!(a.obstacles()[k].hole_y, b.obstacles()[k].hole_y);
        assert_eq!(a.obstacles()[k].x_offset, b.obstacles()[k].x_offset);
        k += 1;
    }
}
