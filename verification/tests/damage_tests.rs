use bomber_core::bomb_systems::explosion_destruction_system;
use bomber_core::components::{Dir, Enemy, Explosion, ExplosionKind, Game, Motion, Player, Pos};
use bomber_core::enemy_systems::enemy_kill_player_system;

fn player_at(x: i32, y: i32, health: i32, last_hit: u64) -> Player {
    Player {
        pos: Pos { x, y },
        health,
        last_hit,
        flash: false,
        facing: Dir::South,
        motion: Motion::Idle,
    }
}

#[test]
fn scenario_two_enemies_one_combined_damage_event() {
    let mut game = Game::new();
    game.player = Some(player_at(5, 5, 10, 0));
    game.enemies.push(Enemy { pos: Pos { x: 5, y: 5 }, motion: Motion::Idle });
    game.enemies.push(Enemy { pos: Pos { x: 5, y: 5 }, motion: Motion::Idle });
    enemy_kill_player_system(&mut game, 200);
    let p = game.player.unwrap();
    assert_eq!(p.health, 8);
    assert_eq!(p.last_hit, 200);
    assert!(p.flash);
}

#[test]
fn enemy_off_the_player_cell_deals_nothing() {
    let mut game = Game::new();
    game.player = Some(player_at(5, 5, 10, 0));
    game.enemies.push(Enemy { pos: Pos { x: 5, y: 6 }, motion: Motion::Idle });
    enemy_kill_player_system(&mut game, 200);
    let p = game.player.unwrap();
    assert_eq!(p.health, 10);
    assert_eq!(p.last_hit, 0);
}

#[test]
fn scenario_cooldown_gates_consecutive_hits() {
    let mut game = Game::new();
    game.player = Some(player_at(5, 5, 9, 0));
    game.enemies.push(Enemy { pos: Pos { x: 5, y: 5 }, motion: Motion::Idle });
    enemy_kill_player_system(&mut game, 100);
    let p = game.player.unwrap();
    assert_eq!(p.health, 9, "hazard within the cooldown window deals nothing");
    assert_eq!(p.last_hit, 0);
    enemy_kill_player_system(&mut game, 160);
    let p = game.player.unwrap();
    assert_eq!(p.health, 8, "hazard after the cooldown window deals damage");
    assert_eq!(p.last_hit, 160);
}

#[test]
fn flash_clears_after_its_longer_window() {
    let mut game = Game::new();
    let mut p = player_at(5, 5, 9, 0);
    p.flash = true;
    game.player = Some(p);
    enemy_kill_player_system(&mut game, 150);
    assert!(game.player.unwrap().flash, "flash survives the shorter window");
    game.player = Some(Player { flash: true, ..game.player.unwrap() });
    enemy_kill_player_system(&mut game, 201);
    assert!(!game.player.unwrap().flash, "flash clears after its window");
}

#[test]
fn explosion_damage_is_gated_by_cooldown() {
    let mut game = Game::new();
    game.player = Some(player_at(5, 5, 10, 0));
    game.explosions.push(Explosion {
        pos: Pos { x: 5, y: 5 },
        spawned: 0,
        kind: ExplosionKind::Center,
    });
    explosion_destruction_system(&mut game, 100);
    assert_eq!(game.player.unwrap().health, 10);
    explosion_destruction_system(&mut game, 151);
    let p = game.player.unwrap();
    assert_eq!(p.health, 9);
    assert_eq!(p.last_hit, 151);
    assert!(p.flash);
}

#[test]
fn two_overlapping_explosions_deal_one_hit() {
    let mut game = Game::new();
    game.player = Some(player_at(5, 5, 10, 0));
    game.explosions.push(Explosion {
        pos: Pos { x: 5, y: 5 },
        spawned: 0,
        kind: ExplosionKind::Center,
    });
    game.explosions.push(Explosion {
        pos: Pos { x: 5, y: 5 },
        spawned: 0,
        kind: ExplosionKind::Center,
    });
    explosion_destruction_system(&mut game, 200);
    assert_eq!(game.player.unwrap().health, 9);
}

#[test]
fn health_never_increases() {
    let mut game = Game::new();
    game.player = Some(player_at(5, 5, 10, 0));
    game.enemies.push(Enemy { pos: Pos { x: 5, y: 5 }, motion: Motion::Idle });
    let mut previous = 10;
    for step in 0..20u64 {
        enemy_kill_player_system(&mut game, step * 100);
        let h = game.player.unwrap().health;
        assert!(h <= previous);
        previous = h;
    }
    assert!(previous < 10);
}
