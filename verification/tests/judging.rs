use flappy_bird::config::Config;
use flappy_bird::judge::judge;
use flappy_bird::pipe::Pipe;

fn cfg_judge() -> Config {
    Config::new(432, 768, 150, 78, 51, 24, 80, 2, 150, 300, 50).unwrap()
}

#[test]
fn pass_through_gap_scores_once() {
    let cfg = cfg_judge();
    let pipes = vec![Pipe::new(7, 50, 300)];
    let j = judge(&cfg, 310, &pipes, None);
    assert!(!j.collided);
    assert_eq!(j.score_delta, 1);
    assert_eq!(j.last_scored_id, Some(7));
    let j2 = judge(&cfg, 310, &pipes, j.last_scored_id);
    assert!(!j2.collided);
    assert_eq!(j2.score_delta, 0);
    assert_eq!(j2.last_scored_id, Some(7));
}

#[test]
fn touching_gap_top_edge_collides() {
    let cfg = cfg_judge();
    let pipes = vec![Pipe::new(1, 50, 300)];
    let j = judge(&cfg, 300, &pipes, None);
    assert!(j.collided);
    assert_eq!(j.score_delta, 0);
    assert_eq!(j.last_scored_id, None);
}

#[test]
fn touching_gap_bottom_edge_collides() {
    let cfg = cfg_judge();
    let pipes = vec![Pipe::new(1, 50, 300)];
    let j = judge(&cfg, 426, &pipes, None);
    assert!(j.collided);
    assert_eq!(j.score_delta, 0);
}

#[test]
fn no_horizontal_overlap_means_no_effect() {
    let cfg = cfg_judge();
    let pipes = vec![Pipe::new(1, 500, 300)];
    let j = judge(&cfg, 310, &pipes, None);
    assert!(!j.collided);
    assert_eq!(j.score_delta, 0);
    assert_eq!(j.last_scored_id, None);
}

#[test]
fn scores_gathered_before_a_collision_stand() {
    let cfg = cfg_judge();
    let pipes = vec![Pipe::new(1, 50, 300), Pipe::new(2, 60, 600)];
    let j = judge(&cfg, 310, &pipes, None);
    assert!(j.collided);
    assert_eq!(j.score_delta, 1);
    assert_eq!(j.last_scored_id, Some(1));
}

#[test]
fn distinct_overlapping_obstacles_both_score() {
    let cfg = cfg_judge();
    let pipes = vec![Pipe::new(1, 50, 300), Pipe::new(2, 60, 300)];
    let j = judge(&cfg, 310, &pipes, None);
    assert!(!j.collided);
    assert_eq!(j.score_delta, 2);
    assert_eq!(j.last_scored_id, Some(2));
}
