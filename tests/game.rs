use hari::game::{
    advance_physics, check_player_collision, despawn_seagull, fixed_step, handle_input_system,
    setup_system, spawn_seagull, spawn_seagull_with, update_score, CurrentScore, Facing, Game,
    SeagullCaught, SeagullCounter, SeagullSpawnTimer, BOTTOM_LIMIT, MAX_SEAGULLS, SPAWN_X_LIMIT,
};
use hari::geometry::Vec3;

const MILLI: u64 = 1_000_000;

/// A game with one seagull, spawned at horizontal position `x` units.
fn game_with_seagull(x: i64) -> Game {
    let mut g = setup_system();
    spawn_seagull_with(&mut g, 100 * MILLI, x * 60, 500);
    assert_eq!(g.seagulls.len(), 1);
    g
}

#[test]
fn setup_places_the_player() {
    let g = setup_system();
    assert_eq!(g.player.movement.physical_translation.0, Vec3::new(0, -60 * 60, 100 * 60));
    assert_eq!(g.player.movement.velocity.0, Vec3::new(0, 0, 0));
    assert!(g.player.collider.enabled);
    assert_eq!(g.player.collider.width, 220);
    assert_eq!(g.player.collider.height, 50);
    assert_eq!(g.player.facing, Facing::Right);
    assert!(g.seagulls.is_empty());
    assert_eq!(g.counter, SeagullCounter(0));
    assert_eq!(g.score, CurrentScore(0));
    assert_eq!(g.timer, SeagullSpawnTimer { elapsed_nanos: 0, duration_nanos: 100 * MILLI });
}

#[test]
fn catch_under_the_boat_scores_four() {
    let mut g = game_with_seagull(0);
    g.seagulls[0].movement.physical_translation.0 = Vec3::new(0, -150 * 60, 60);
    check_player_collision(&mut g);
    assert_eq!(g.events, vec![SeagullCaught(g.seagulls[0].entity, 4)]);
    assert!(!g.seagulls[0].collider.enabled);
    assert_eq!(g.score, CurrentScore(0));
    update_score(&mut g);
    assert_eq!(g.score, CurrentScore(4));
    assert_eq!(g.counter, SeagullCounter(0));
    assert!(g.seagulls.is_empty());
    assert!(g.events.is_empty());
}

#[test]
fn a_seagull_is_reported_caught_once() {
    let mut g = game_with_seagull(0);
    g.seagulls[0].movement.physical_translation.0 = Vec3::new(0, -150 * 60, 60);
    g.seagulls[0].movement.velocity.0 = Vec3::new(0, 0, 0);
    check_player_collision(&mut g);
    advance_physics(&mut g);
    check_player_collision(&mut g);
    assert_eq!(g.events.len(), 1);
}

#[test]
fn a_caught_seagull_below_the_bottom_leaves_once() {
    let mut g = game_with_seagull(0);
    g.seagulls[0].movement.physical_translation.0 = Vec3::new(0, -150 * 60, 60);
    check_player_collision(&mut g);
    assert_eq!(g.events.len(), 1);
    g.seagulls[0].movement.physical_translation.0 = Vec3::new(0, BOTTOM_LIMIT - 1, 60);
    despawn_seagull(&mut g);
    assert!(g.seagulls.is_empty());
    assert_eq!(g.counter, SeagullCounter(0));
    // The pending catch names a seagull that is gone: it is passed over.
    update_score(&mut g);
    assert_eq!(g.score, CurrentScore(0));
    assert_eq!(g.counter, SeagullCounter(0));
    assert!(g.events.is_empty());
}

#[test]
fn a_seagull_on_the_bottom_line_stays() {
    let mut g = game_with_seagull(0);
    g.seagulls[0].movement.physical_translation.0 = Vec3::new(0, BOTTOM_LIMIT, 60);
    despawn_seagull(&mut g);
    assert_eq!(g.seagulls.len(), 1);
    assert_eq!(g.counter, SeagullCounter(1));
}

#[test]
fn a_seagull_beside_the_boat_is_not_caught() {
    let mut g = game_with_seagull(0);
    g.seagulls[0].movement.physical_translation.0 = Vec3::new(142 * 60, -150 * 60, 60);
    check_player_collision(&mut g);
    assert!(g.events.is_empty());
    assert!(g.seagulls[0].collider.enabled);
    g.seagulls[0].movement.physical_translation.0 = Vec3::new(141 * 60, -150 * 60, 60);
    check_player_collision(&mut g);
    assert_eq!(g.events.len(), 1);
}

#[test]
fn falling_seagull_follows_its_velocity_and_despawns_without_score() {
    let mut g = game_with_seagull(0);
    let y0 = g.seagulls[0].movement.physical_translation.0.y;
    assert_eq!(y0, 600 * 60);
    assert_eq!(g.seagulls[0].movement.velocity.0, Vec3::new(0, -280, 0));
    // After t = n / 60 seconds, y = 600 - 280 t units, that is 36000 - 280 n sub-units.
    for n in 1..=180i64 {
        advance_physics(&mut g);
        assert_eq!(g.seagulls[0].movement.physical_translation.0.y, 36000 - 280 * n);
        despawn_seagull(&mut g);
        assert_eq!(g.counter, SeagullCounter(1));
    }
    // At t = 3 s it stands exactly at -240 units: not yet below.
    assert_eq!(g.seagulls[0].movement.physical_translation.0.y, -240 * 60);
    advance_physics(&mut g);
    despawn_seagull(&mut g);
    assert_eq!(g.counter, SeagullCounter(0));
    assert!(g.seagulls.is_empty());
    assert_eq!(g.score, CurrentScore(0));
}

#[test]
fn no_sixth_seagull_at_the_cap() {
    let mut g = setup_system();
    for _ in 0..5 {
        spawn_seagull_with(&mut g, 1300 * MILLI, 0, 200);
    }
    assert_eq!(g.counter, SeagullCounter(MAX_SEAGULLS));
    assert_eq!(g.timer, SeagullSpawnTimer { elapsed_nanos: 0, duration_nanos: 200 * MILLI });
    spawn_seagull_with(&mut g, 150 * MILLI, 0, 200);
    spawn_seagull_with(&mut g, 150 * MILLI, 0, 200);
    assert_eq!(g.counter, SeagullCounter(MAX_SEAGULLS));
    assert_eq!(g.seagulls.len(), 5);
    assert_eq!(g.timer.elapsed_nanos, 0);
    // One falls off: the timer resumes.
    g.seagulls[2].movement.physical_translation.0.y = BOTTOM_LIMIT - 1;
    despawn_seagull(&mut g);
    assert_eq!(g.counter, SeagullCounter(4));
    spawn_seagull_with(&mut g, 150 * MILLI, 0, 300);
    assert_eq!(g.counter, SeagullCounter(4));
    assert_eq!(g.timer.elapsed_nanos, 150 * MILLI);
    spawn_seagull_with(&mut g, 50 * MILLI, 0, 300);
    assert_eq!(g.counter, SeagullCounter(5));
    assert_eq!(g.timer, SeagullSpawnTimer { elapsed_nanos: 0, duration_nanos: 300 * MILLI });
}

#[test]
fn spawn_gives_fresh_entities_in_order() {
    let mut g = setup_system();
    spawn_seagull_with(&mut g, 100 * MILLI, -51000, 100);
    spawn_seagull_with(&mut g, 100 * MILLI, 51000, 100);
    assert_eq!(g.seagulls[0].entity, 0);
    assert_eq!(g.seagulls[1].entity, 1);
    assert_eq!(g.seagulls[0].movement.physical_translation.0, Vec3::new(-51000, 36000, 60));
    assert_eq!(g.seagulls[1].movement.physical_translation.0, Vec3::new(51000, 36000, 60));
    assert_eq!(g.next_entity, 2);
}

#[test]
fn timer_accumulates_until_it_runs_out() {
    let mut g = setup_system();
    spawn_seagull_with(&mut g, 60 * MILLI, 0, 700);
    assert_eq!(g.timer.elapsed_nanos, 60 * MILLI);
    assert!(g.seagulls.is_empty());
    spawn_seagull_with(&mut g, 40 * MILLI, 0, 700);
    assert_eq!(g.seagulls.len(), 1);
    assert_eq!(g.timer, SeagullSpawnTimer { elapsed_nanos: 0, duration_nanos: 700 * MILLI });
}

#[test]
fn timer_tick_reports_when_it_runs_out() {
    let mut t = SeagullSpawnTimer::new(100);
    assert!(!t.tick(99));
    assert_eq!(t.elapsed_nanos, 99);
    assert!(t.tick(1));
    assert_eq!(t.elapsed_nanos, 0);
    assert_eq!(t.duration_nanos, 100);
}

#[test]
fn random_spawns_stay_in_bounds() {
    let mut xs = Vec::new();
    for _ in 0..200 {
        let mut g = setup_system();
        spawn_seagull(&mut g, 100 * MILLI);
        assert_eq!(g.seagulls.len(), 1);
        let x = g.seagulls[0].movement.physical_translation.0.x;
        assert!(-SPAWN_X_LIMIT <= x && x <= SPAWN_X_LIMIT);
        assert!(100 * MILLI <= g.timer.duration_nanos && g.timer.duration_nanos <= 1300 * MILLI);
        assert_eq!(g.timer.elapsed_nanos, 0);
        xs.push((x, g.timer.duration_nanos));
    }
    assert!(xs.iter().any(|p| p.0 != -SPAWN_X_LIMIT));
    assert!(xs.iter().any(|p| p.1 != 100 * MILLI));
}

#[test]
fn random_spawn_waits_for_the_timer() {
    let mut g = setup_system();
    spawn_seagull(&mut g, 30 * MILLI);
    assert!(g.seagulls.is_empty());
    assert_eq!(g.timer, SeagullSpawnTimer { elapsed_nanos: 30 * MILLI, duration_nanos: 100 * MILLI });
}

#[test]
fn input_sets_velocity_and_facing() {
    let mut g = setup_system();
    handle_input_system(&mut g, true, false);
    assert_eq!(g.player.movement.velocity.0, Vec3::new(-500, 0, 0));
    assert_eq!(g.player.facing, Facing::Left);
    handle_input_system(&mut g, false, false);
    assert_eq!(g.player.movement.velocity.0, Vec3::new(0, 0, 0));
    assert_eq!(g.player.facing, Facing::Left);
    handle_input_system(&mut g, false, true);
    assert_eq!(g.player.movement.velocity.0, Vec3::new(500, 0, 0));
    assert_eq!(g.player.facing, Facing::Right);
    handle_input_system(&mut g, true, false);
    handle_input_system(&mut g, true, true);
    assert_eq!(g.player.movement.velocity.0, Vec3::new(0, 0, 0));
    assert_eq!(g.player.facing, Facing::Right);
}

#[test]
fn player_moves_with_input() {
    let mut g = setup_system();
    handle_input_system(&mut g, false, true);
    for _ in 0..60 {
        fixed_step(&mut g);
    }
    assert_eq!(g.player.movement.physical_translation.0.x, 500 * 60);
}

#[test]
fn fixed_steps_keep_the_population_within_the_cap() {
    let mut g = setup_system();
    for _ in 0..2000 {
        fixed_step(&mut g);
        assert!(0 <= g.counter.0 && g.counter.0 <= MAX_SEAGULLS);
        assert_eq!(g.counter.0 as usize, g.seagulls.len());
        assert!(g.events.is_empty());
        assert_eq!(g.score.0 % 4, 0);
    }
    assert!(g.next_entity > 5);
}

#[test]
fn two_catches_in_one_step_score_eight() {
    let mut g = setup_system();
    spawn_seagull_with(&mut g, 100 * MILLI, 0, 100);
    spawn_seagull_with(&mut g, 100 * MILLI, 0, 100);
    spawn_seagull_with(&mut g, 100 * MILLI, 0, 100);
    g.seagulls[0].movement.physical_translation.0 = Vec3::new(-60 * 60, -150 * 60, 60);
    g.seagulls[2].movement.physical_translation.0 = Vec3::new(60 * 60, -160 * 60, 60);
    check_player_collision(&mut g);
    assert_eq!(g.events, vec![SeagullCaught(0, 4), SeagullCaught(2, 4)]);
    update_score(&mut g);
    assert_eq!(g.score, CurrentScore(8));
    assert_eq!(g.counter, SeagullCounter(1));
    assert_eq!(g.seagulls.len(), 1);
    assert_eq!(g.seagulls[0].entity, 1);
}
