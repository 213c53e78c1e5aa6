use flappy_bird::player::{Player, GRAVITY, JUMP_FORCE};

#[test]
fn new_body_is_level_and_alive() {
    let p = Player::new(100);
    assert_eq!(p.y, 100);
    assert_eq!(p.velocity, 0);
    assert_eq!(p.angle, 0);
    assert!(p.is_alive);
}

#[test]
fn update_decays_velocity_toward_gravity() {
    let mut p = Player::new(100);
    let mut prev: i32 = p.velocity;
    for _ in 0..40 {
        p.update();
        assert!(p.velocity <= prev);
        assert!(p.velocity >= GRAVITY);
        prev = p.velocity;
    }
    assert_eq!(p.velocity, GRAVITY);
}

#[test]
fn update_moves_by_minus_velocity() {
    let mut p = Player::new(100);
    p.update();
    assert_eq!(p.y, 100);
    assert_eq!(p.velocity, -1);
    assert_eq!(p.angle, -8);
    p.update();
    assert_eq!(p.y, 101);
    assert_eq!(p.velocity, -2);
    assert_eq!(p.angle, -16);
}

#[test]
fn jump_snaps_velocity_and_folds_one_update() {
    let mut p = Player::new(100);
    p.jump();
    assert_eq!(p.y, 100 - JUMP_FORCE);
    assert_eq!(p.velocity, JUMP_FORCE - 1);
    assert_eq!(p.angle, 5);
    assert!(p.is_alive);
}

#[test]
fn angle_stays_within_bounds() {
    let mut p = Player::new(0);
    let mut i: u32 = 0;
    while i < 200 {
        if i % 7 == 0 {
            p.jump();
        }
        p.update();
        assert!(-45 <= p.angle && p.angle <= 90);
        i += 1;
    }
    p.die();
    assert!(-45 <= p.angle && p.angle <= 90);
    let mut j: u32 = 0;
    while j < 50 {
        p.update();
        assert!(-45 <= p.angle && p.angle <= 90);
        j += 1;
    }
}

#[test]
fn diving_angle_floors_at_minus_45() {
    let mut p = Player::new(0);
    let mut i: u32 = 0;
    while i < 20 {
        p.update();
        i += 1;
    }
    assert_eq!(p.velocity, GRAVITY);
    assert_eq!(p.angle, -45);
}

#[test]
fn die_is_one_way() {
    let mut p = Player::new(50);
    p.die();
    assert!(!p.is_alive);
    assert_eq!(p.velocity, 2 * GRAVITY);
    assert_eq!(p.angle, 90);
    let before: i32 = p.y;
    p.jump();
    assert!(!p.is_alive);
    assert_eq!(p.y, before);
    assert_eq!(p.velocity, 2 * GRAVITY);
    p.update();
    assert!(!p.is_alive);
    assert_eq!(p.y, before + 12);
    assert_eq!(p.velocity, 2 * GRAVITY);
    assert_eq!(p.angle, 90);
    p.die();
    assert!(!p.is_alive);
    assert_eq!(p.velocity, 2 * GRAVITY);
}
