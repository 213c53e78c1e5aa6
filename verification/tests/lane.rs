use flappy_bird::config::{Config, ConfigError};
use flappy_bird::track::ObstacleTrack;

fn cfg_lane() -> Config {
    Config::new(432, 768, 150, 78, 51, 24, 80, 2, 150, 300, 50).unwrap()
}

#[test]
fn config_rejects_empty_gap_range() {
    let r = Config::new(432, 768, 150, 78, 51, 24, 80, 2, 150, 300, 300);
    assert_eq!(r, Err(ConfigError::InvalidDimensions));
}

#[test]
fn config_rejects_zero_speed() {
    let r = Config::new(432, 768, 150, 78, 51, 24, 80, 0, 150, 300, 50);
    assert_eq!(r, Err(ConfigError::InvalidDimensions));
}

#[test]
fn config_accepts_standard_dimensions() {
    let c = cfg_lane();
    assert_eq!(c.screen_height, 768);
    assert_eq!(c.hole_height, 150);
    assert_eq!(c.pipe_spacing, 300);
}

#[test]
fn lane_fills_to_three_from_empty() {
    let cfg = cfg_lane();
    let mut t = ObstacleTrack::new(9);
    t.spawn_if_needed(&cfg, 864);
    assert_eq!(t.pipes.len(), 3);
    assert_eq!(t.pipes[0].x_offset, 864);
    assert_eq!(t.pipes[1].x_offset, 1164);
    assert_eq!(t.pipes[2].x_offset, 1464);
    assert_eq!(t.pipes[0].id, 0);
    assert_eq!(t.pipes[1].id, 1);
    assert_eq!(t.pipes[2].id, 2);
    assert_eq!(t.next_id, 3);
    for p in t.pipes.iter() {
        assert!(50 <= p.hole_y && p.hole_y <= 418);
    }
}

#[test]
fn full_lane_spawns_nothing_more() {
    let cfg = cfg_lane();
    let mut t = ObstacleTrack::new(9);
    t.spawn_if_needed(&cfg, 864);
    t.spawn_if_needed(&cfg, 864);
    assert_eq!(t.pipes.len(), 3);
    assert_eq!(t.next_id, 3);
}

#[test]
fn advance_moves_every_obstacle() {
    let cfg = cfg_lane();
    let mut t = ObstacleTrack::new(4);
    t.spawn_if_needed(&cfg, 864);
    t.advance(&cfg);
    assert_eq!(t.pipes[0].x_offset, 862);
    assert_eq!(t.pipes[1].x_offset, 1162);
    assert_eq!(t.pipes[2].x_offset, 1462);
}

#[test]
fn front_obstacle_retires_once_fully_offscreen() {
    let cfg = cfg_lane();
    let mut t = ObstacleTrack::new(11);
    t.spawn_if_needed(&cfg, -78);
    assert_eq!(t.pipes.len(), 3);
    t.retire_offscreen(&cfg);
    assert_eq!(t.pipes.len(), 2);
    assert_eq!(t.pipes[0].x_offset, 222);
    t.retire_offscreen(&cfg);
    assert_eq!(t.pipes.len(), 2);
}
