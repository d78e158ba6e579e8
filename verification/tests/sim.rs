//! End-to-end tests of the simulation core, driven through the public API
//! with fixed spawn draws so every run is reproducible.

use column_clearer::game::{
    App, Bullet, ConfigError, Enemy, Multiplier, BULLET_SIZE, ENEMY_SIZE, MAX_DIM, PLAYER_SIZE,
};

/// A draw at or above the spawn threshold: the spawn policy stays quiet.
const NO_SPAWN: u64 = 50;

fn fresh_app(width: i64, height: i64, multipliers: Vec<Multiplier>) -> App {
    App::new(width, height, 2, multipliers).unwrap()
}

#[test]
fn construction_initial_state() {
    let app = fresh_app(9000, 14400, vec![]);
    assert_eq!(app.player_x, 4500);
    assert_eq!(app.player_y, 12000);
    assert_eq!(app.window_width, 9000);
    assert_eq!(app.window_height, 14400);
    assert_eq!(app.num_columns, 2);
    assert_eq!(app.fire_counter, 0);
    assert!(!app.left_down);
    assert!(!app.right_down);
    assert!(app.bullets.is_empty());
    assert!(app.enemies.is_empty());
    assert!(app.multipliers.is_empty());
}

#[test]
fn construction_rejects_width_too_small() {
    let r = App::new(PLAYER_SIZE - 1, 14400, 2, vec![]);
    assert_eq!(r.err().unwrap(), ConfigError::WidthTooSmall);
}

#[test]
fn construction_rejects_width_too_large() {
    let r = App::new(MAX_DIM + 1, 14400, 2, vec![]);
    assert_eq!(r.err().unwrap(), ConfigError::WidthTooLarge);
}

#[test]
fn construction_rejects_nonpositive_height() {
    let r = App::new(9000, 0, 2, vec![]);
    assert_eq!(r.err().unwrap(), ConfigError::HeightNotPositive);
    let r = App::new(9000, -5, 2, vec![]);
    assert_eq!(r.err().unwrap(), ConfigError::HeightNotPositive);
}

#[test]
fn construction_rejects_height_too_large() {
    let r = App::new(9000, MAX_DIM + 1, 2, vec![]);
    assert_eq!(r.err().unwrap(), ConfigError::HeightTooLarge);
}

#[test]
fn construction_rejects_multiplier_outside_field() {
    let bad = vec![Multiplier { y_pos: 14401, multiplier: 3 }];
    let r = App::new(9000, 14400, 2, bad);
    assert_eq!(r.err().unwrap(), ConfigError::MultiplierOutOfField);
    let bad = vec![Multiplier { y_pos: -1, multiplier: 3 }];
    let r = App::new(9000, 14400, 2, bad);
    assert_eq!(r.err().unwrap(), ConfigError::MultiplierOutOfField);
}

#[test]
fn smallest_field_runs() {
    let mut app = fresh_app(PLAYER_SIZE, 1, vec![]);
    for _ in 0..30 {
        app.advance_frame_with_draws(NO_SPAWN, 0);
        assert_eq!(app.player_x, PLAYER_SIZE / 2);
    }
}

#[test]
fn movement_left_and_clamp() {
    let mut app = fresh_app(9000, 14400, vec![]);
    app.left_pressed();
    app.advance_frame_with_draws(NO_SPAWN, 0);
    assert_eq!(app.player_x, 4410);
    for _ in 0..100 {
        app.advance_frame_with_draws(NO_SPAWN, 0);
    }
    assert_eq!(app.player_x, 180);
    app.left_released();
    app.advance_frame_with_draws(NO_SPAWN, 0);
    assert_eq!(app.player_x, 180);
}

#[test]
fn movement_right_and_clamp() {
    let mut app = fresh_app(9000, 14400, vec![]);
    app.right_pressed();
    for _ in 0..100 {
        app.advance_frame_with_draws(NO_SPAWN, 0);
    }
    assert_eq!(app.player_x, 9000 - 180);
    app.right_released();
}

#[test]
fn movement_both_intents_cancel() {
    let mut app = fresh_app(9000, 14400, vec![]);
    app.left_pressed();
    app.right_pressed();
    app.advance_frame_with_draws(NO_SPAWN, 0);
    assert_eq!(app.player_x, 4500);
}

#[test]
fn set_player_x_overrides_then_clamps() {
    let mut app = fresh_app(9000, 14400, vec![]);
    app.set_player_x(-100_000);
    assert_eq!(app.player_x, -100_000);
    app.advance_frame_with_draws(NO_SPAWN, 0);
    assert_eq!(app.player_x, 180);
    app.set_player_x(1_000_000);
    app.advance_frame_with_draws(NO_SPAWN, 0);
    assert_eq!(app.player_x, 9000 - 180);
    app.set_player_x(6000);
    app.advance_frame_with_draws(NO_SPAWN, 0);
    assert_eq!(app.player_x, 6000);
}

#[test]
fn fire_cadence_every_twenty_frames() {
    let mut app = fresh_app(9000, 14400, vec![]);
    for frame in 1..=60u32 {
        app.advance_frame_with_draws(NO_SPAWN, 0);
        let expected = frame / 20;
        assert_eq!(app.bullets.len() as u32, expected, "frame {}", frame);
        assert_eq!(app.fire_counter, frame % 20);
    }
    // The shot appears at the player, half a player-height above it.
    assert_eq!(app.bullets[2].x_pos, 4500);
    assert_eq!(app.bullets[2].y_pos, 12000 - PLAYER_SIZE / 2 - 180);
    assert_eq!(app.bullets[2].size, BULLET_SIZE);
}

#[test]
fn fire_spawns_at_player() {
    let mut app = fresh_app(9000, 14400, vec![]);
    app.fire();
    assert_eq!(app.bullets.len(), 1);
    assert_eq!(app.bullets[0].x_pos, 4500);
    assert_eq!(app.bullets[0].y_pos, 12000 - PLAYER_SIZE / 2);
    assert_eq!(app.bullets[0].size, BULLET_SIZE);
    assert!(!app.bullets[0].hit);
}

#[test]
fn projectile_lifecycle_ten_frames() {
    // 100 px above the bottom of the scale: y = 1800 units, speed 180/frame.
    let mut app = fresh_app(9000, 14400, vec![]);
    app.bullets.push(Bullet { x_pos: 900, y_pos: 1800, size: BULLET_SIZE, hit: false });
    for frame in 1..=9 {
        app.advance_frame_with_draws(NO_SPAWN, 0);
        assert_eq!(app.bullets.len(), 1, "frame {}", frame);
        assert_eq!(app.bullets[0].y_pos, 1800 - 180 * frame);
    }
    app.advance_frame_with_draws(NO_SPAWN, 0);
    assert!(app.bullets.is_empty());
}

#[test]
fn multiplier_fan_out_three() {
    let mult = vec![Multiplier { y_pos: 7200, multiplier: 3 }];
    let mut app = fresh_app(9000, 14400, mult);
    // After this frame's move the bullet sits exactly on the line.
    app.bullets.push(Bullet { x_pos: 900, y_pos: 7380, size: BULLET_SIZE, hit: false });
    app.advance_frame_with_draws(NO_SPAWN, 0);
    // The parent is gone; exactly three children at the parent's height,
    // offset by -10.5, -3.5 and 3.5 px (here: -189, -63, 63 units).
    assert_eq!(app.bullets.len(), 3);
    assert_eq!(app.bullets[0].x_pos, 900 - 189);
    assert_eq!(app.bullets[1].x_pos, 900 - 63);
    assert_eq!(app.bullets[2].x_pos, 900 + 63);
    for kid in &app.bullets {
        assert_eq!(kid.y_pos, 7200);
        assert_eq!(kid.size, BULLET_SIZE);
        assert!(!kid.hit);
    }
}

#[test]
fn multiplier_ignores_right_half() {
    let mult = vec![Multiplier { y_pos: 7200, multiplier: 3 }];
    let mut app = fresh_app(9000, 14400, mult);
    // Same height as the triggering case, but in the right half of the field.
    app.bullets.push(Bullet { x_pos: 4600, y_pos: 7380, size: BULLET_SIZE, hit: false });
    app.advance_frame_with_draws(NO_SPAWN, 0);
    assert_eq!(app.bullets.len(), 1);
    assert_eq!(app.bullets[0].y_pos, 7200);
    assert_eq!(app.bullets[0].x_pos, 4600);
}

#[test]
fn two_multipliers_both_split_one_bullet() {
    let mults = vec![
        Multiplier { y_pos: 7200, multiplier: 2 },
        Multiplier { y_pos: 7200, multiplier: 3 },
    ];
    let mut app = fresh_app(9000, 14400, mults);
    app.bullets.push(Bullet { x_pos: 900, y_pos: 7380, size: BULLET_SIZE, hit: false });
    app.advance_frame_with_draws(NO_SPAWN, 0);
    // Children appear line by line: first the fan of two, then the fan of
    // three.
    assert_eq!(app.bullets.len(), 5);
    assert_eq!(app.bullets[0].x_pos, 900 - 126);
    assert_eq!(app.bullets[1].x_pos, 900);
    assert_eq!(app.bullets[2].x_pos, 900 - 189);
    assert_eq!(app.bullets[3].x_pos, 900 - 63);
    assert_eq!(app.bullets[4].x_pos, 900 + 63);
}

#[test]
fn children_do_not_split_on_their_birth_frame() {
    // Both lines trigger on the parent this frame. The first line's children
    // are born inside the second line's window, but they sit out the frame:
    // were they checked the same frame, the second line would split them too.
    let mults = vec![
        Multiplier { y_pos: 7200, multiplier: 2 },
        Multiplier { y_pos: 7250, multiplier: 2 },
    ];
    let mut app = fresh_app(9000, 14400, mults);
    app.bullets.push(Bullet { x_pos: 900, y_pos: 7380, size: BULLET_SIZE, hit: false });
    app.advance_frame_with_draws(NO_SPAWN, 0);
    assert_eq!(app.bullets.len(), 4, "two children per line, none re-split");
    for kid in &app.bullets {
        assert_eq!(kid.y_pos, 7200);
    }
    app.advance_frame_with_draws(NO_SPAWN, 0);
    assert_eq!(app.bullets.len(), 4, "out of both windows one frame later");
}

#[test]
fn collision_removes_enemy_and_bullet() {
    let mut app = fresh_app(9000, 14400, vec![]);
    // After the frame's moves: bullet at y=5020, enemy at y=5118; horizontal
    // distance 100 < (200 + 90) / 2.
    app.bullets.push(Bullet { x_pos: 1000, y_pos: 5200, size: BULLET_SIZE, hit: false });
    app.enemies.push(Enemy { x_pos: 900, y_pos: 5100, size: ENEMY_SIZE, killed: false });
    app.advance_frame_with_draws(NO_SPAWN, 0);
    assert!(app.bullets.is_empty());
    assert!(app.enemies.is_empty());
}

#[test]
fn no_collision_when_bullet_below_enemy() {
    let mut app = fresh_app(9000, 14400, vec![]);
    // Same horizontal overlap, but the bullet has not yet passed the enemy.
    app.bullets.push(Bullet { x_pos: 1000, y_pos: 6000, size: BULLET_SIZE, hit: false });
    app.enemies.push(Enemy { x_pos: 900, y_pos: 5100, size: ENEMY_SIZE, killed: false });
    app.advance_frame_with_draws(NO_SPAWN, 0);
    assert_eq!(app.bullets.len(), 1);
    assert_eq!(app.enemies.len(), 1);
}

#[test]
fn no_collision_when_horizontally_apart() {
    let mut app = fresh_app(9000, 14400, vec![]);
    // 2 * 145 = 290 units apart: exactly the combined half-sizes, no hit.
    app.bullets.push(Bullet { x_pos: 1045, y_pos: 5200, size: BULLET_SIZE, hit: false });
    app.enemies.push(Enemy { x_pos: 900, y_pos: 5100, size: ENEMY_SIZE, killed: false });
    app.advance_frame_with_draws(NO_SPAWN, 0);
    assert_eq!(app.bullets.len(), 1);
    assert_eq!(app.enemies.len(), 1);
}

#[test]
fn one_bullet_pierces_two_enemies() {
    let mut app = fresh_app(9000, 14400, vec![]);
    app.bullets.push(Bullet { x_pos: 1000, y_pos: 5200, size: BULLET_SIZE, hit: false });
    app.enemies.push(Enemy { x_pos: 950, y_pos: 5100, size: ENEMY_SIZE, killed: false });
    app.enemies.push(Enemy { x_pos: 1050, y_pos: 5100, size: ENEMY_SIZE, killed: false });
    app.advance_frame_with_draws(NO_SPAWN, 0);
    assert!(app.bullets.is_empty());
    assert!(app.enemies.is_empty());
}

#[test]
fn enemy_hovers_at_nine_tenths() {
    let mut app = fresh_app(9000, 14400, vec![]);
    app.enemies.push(Enemy { x_pos: 900, y_pos: 12950, size: ENEMY_SIZE, killed: false });
    app.advance_frame_with_draws(NO_SPAWN, 0);
    assert_eq!(app.enemies[0].y_pos, 12960);
    app.advance_frame_with_draws(NO_SPAWN, 0);
    assert_eq!(app.enemies[0].y_pos, 12960, "an enemy at the hover line stays there");
}

#[test]
fn spawn_policy_places_enemy_in_left_band() {
    let mut app = fresh_app(9000, 14400, vec![]);
    app.advance_frame_with_draws(0, 0);
    assert_eq!(app.enemies.len(), 1);
    // Draw 0 lands at a tenth of the left half: 0.1 * 4500.
    assert_eq!(app.enemies[0].x_pos, 450);
    assert_eq!(app.enemies[0].y_pos, -90);
    assert_eq!(app.enemies[0].size, ENEMY_SIZE);

    let mut app2 = fresh_app(9000, 14400, vec![]);
    app2.advance_frame_with_draws(4, 7999);
    // The largest draw lands just under nine tenths of the left half.
    assert_eq!(app2.enemies[0].x_pos, (1000 + 7999) * 4500 / 10000);

    let mut app3 = fresh_app(9000, 14400, vec![]);
    app3.advance_frame_with_draws(5, 0);
    assert!(app3.enemies.is_empty(), "a draw at the threshold spawns nothing");
}

#[test]
fn enemy_cap_holds_under_constant_spawning() {
    let mut app = fresh_app(9000, 14400, vec![]);
    for frame in 1..=120 {
        app.advance_frame_with_draws(0, 0);
        assert!(app.enemies.len() <= 50, "frame {}", frame);
    }
    assert_eq!(app.enemies.len(), 50);
}

#[test]
fn quiescent_state_stays_empty() {
    let mut app = fresh_app(9000, 14400, vec![Multiplier { y_pos: 7200, multiplier: 3 }]);
    for _ in 0..19 {
        app.advance_frame_with_draws(NO_SPAWN, 0);
        assert!(app.bullets.is_empty());
        assert!(app.enemies.is_empty());
    }
}

#[test]
fn set_window_size_reseats_player_height() {
    let mut app = fresh_app(9000, 14400, vec![]);
    app.set_window_size(7200, 12000).unwrap();
    assert_eq!(app.window_width, 7200);
    assert_eq!(app.window_height, 12000);
    assert_eq!(app.player_y, 10000);
    let r = app.set_window_size(100, 12000);
    assert_eq!(r.err().unwrap(), ConfigError::WidthTooSmall);
    assert_eq!(app.window_width, 7200, "a rejected resize changes nothing");
    assert_eq!(app.player_y, 10000);
}

#[test]
fn multipliers_never_change_during_play() {
    let mut app = fresh_app(9000, 14400, vec![Multiplier { y_pos: 7200, multiplier: 3 }]);
    for _ in 0..50 {
        app.advance_frame_with_draws(0, 100);
    }
    assert_eq!(app.multipliers.len(), 1);
    assert_eq!(app.multipliers[0].y_pos, 7200);
    assert_eq!(app.multipliers[0].multiplier, 3);
}

#[test]
fn random_frames_keep_invariants() {
    let mults = vec![
        Multiplier { y_pos: 7200, multiplier: 3 },
        Multiplier { y_pos: 3600, multiplier: 2 },
    ];
    let mut app = fresh_app(9000, 14400, mults);
    for _ in 0..600 {
        app.advance_frame();
        assert!(app.player_x >= 180 && app.player_x <= 9000 - 180);
        assert!(app.enemies.len() <= 50);
        for b in &app.bullets {
            assert!(!b.hit);
        }
        for e in &app.enemies {
            assert!(!e.killed);
            assert!(e.x_pos >= 0 && e.x_pos <= 4500);
            assert!(e.y_pos >= -90 && e.y_pos <= 12960);
        }
    }
}
