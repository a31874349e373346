use bomber_core::bomb_systems::{
    detonate_bomb_system, explosion_destruction_system, remove_explosion_system,
    spawn_bomb_system,
};
use bomber_core::components::{
    Axis, Bomb, BreakableWall, Dir, Enemy, Explosion, ExplosionKind, Game, Motion, Player, Pos,
    Wall,
};

fn idle_player(x: i32, y: i32) -> Player {
    Player {
        pos: Pos { x, y },
        health: 10,
        last_hit: 0,
        flash: false,
        facing: Dir::South,
        motion: Motion::Idle,
    }
}

fn kind_at(game: &Game, x: i32, y: i32) -> Option<ExplosionKind> {
    game.explosions.iter().find(|e| e.pos == Pos { x, y }).map(|e| e.kind)
}

#[test]
fn at_most_one_bomb_exists() {
    let mut game = Game::new();
    game.player = Some(idle_player(5, 5));
    spawn_bomb_system(&mut game, 10);
    let first = game.bomb.expect("placement spawns a bomb");
    assert_eq!(first.pos, Pos { x: 5, y: 5 });
    assert_eq!(first.spawned, 10);
    game.player = Some(idle_player(6, 5));
    spawn_bomb_system(&mut game, 20);
    let second = game.bomb.expect("the armed bomb stays");
    assert_eq!(second.pos, Pos { x: 5, y: 5 });
    assert_eq!(second.spawned, 10);
}

#[test]
fn no_player_no_bomb() {
    let mut game = Game::new();
    spawn_bomb_system(&mut game, 10);
    assert!(game.bomb.is_none());
}

#[test]
fn fuse_holds_until_timer() {
    let mut game = Game::new();
    game.bomb = Some(Bomb { pos: Pos { x: 10, y: 10 }, spawned: 0 });
    detonate_bomb_system(&mut game, 2999);
    assert!(game.bomb.is_some());
    assert_eq!(game.explosions.len(), 0);
    detonate_bomb_system(&mut game, 3000);
    assert!(game.bomb.is_none());
    assert!(!game.explosions.is_empty());
}

#[test]
fn unblocked_blast_spans_full_radius_both_axes() {
    let mut game = Game::new();
    game.bomb = Some(Bomb { pos: Pos { x: 10, y: 10 }, spawned: 0 });
    detonate_bomb_system(&mut game, 3000);
    assert_eq!(game.explosions.len(), 13);
    for off in -3i32..=3 {
        assert!(kind_at(&game, 10 + off, 10).is_some(), "missing horizontal offset {}", off);
        if off != 0 {
            assert!(kind_at(&game, 10, 10 + off).is_some(), "missing vertical offset {}", off);
        }
    }
    assert_eq!(kind_at(&game, 10, 10), Some(ExplosionKind::Center));
    assert_eq!(kind_at(&game, 13, 10), Some(ExplosionKind::End(Dir::East)));
    assert_eq!(kind_at(&game, 7, 10), Some(ExplosionKind::End(Dir::West)));
    assert_eq!(kind_at(&game, 10, 13), Some(ExplosionKind::End(Dir::North)));
    assert_eq!(kind_at(&game, 10, 7), Some(ExplosionKind::End(Dir::South)));
    assert_eq!(kind_at(&game, 11, 10), Some(ExplosionKind::Body(Axis::Horizontal)));
    assert_eq!(kind_at(&game, 10, 11), Some(ExplosionKind::Body(Axis::Vertical)));
    assert!(kind_at(&game, 14, 10).is_none());
    assert!(kind_at(&game, 10, 14).is_none());
    for e in &game.explosions {
        assert_eq!(e.spawned, 3000);
    }
}

#[test]
fn scenario_wall_one_above_stops_vertical_blast() {
    let mut game = Game::new();
    game.bomb = Some(Bomb { pos: Pos { x: 10, y: 10 }, spawned: 0 });
    game.walls.push(Wall { pos: Pos { x: 10, y: 11 } });
    detonate_bomb_system(&mut game, 3000);
    for off in -3i32..=3 {
        assert!(kind_at(&game, 10 + off, 10).is_some(), "missing horizontal offset {}", off);
    }
    for off in [-3i32, -2, -1, 1] {
        assert!(kind_at(&game, 10, 10 + off).is_some(), "missing vertical offset {}", off);
    }
    assert!(kind_at(&game, 10, 12).is_none());
    assert!(kind_at(&game, 10, 13).is_none());
    assert_eq!(kind_at(&game, 10, 11), Some(ExplosionKind::End(Dir::North)));
    assert_eq!(game.explosions.len(), 11);
}

#[test]
fn blast_stops_at_and_includes_wall_on_each_side() {
    let mut game = Game::new();
    game.bomb = Some(Bomb { pos: Pos { x: 10, y: 10 }, spawned: 0 });
    game.walls.push(Wall { pos: Pos { x: 12, y: 10 } });
    game.walls.push(Wall { pos: Pos { x: 8, y: 10 } });
    detonate_bomb_system(&mut game, 3000);
    assert!(kind_at(&game, 12, 10).is_some());
    assert!(kind_at(&game, 13, 10).is_none());
    assert!(kind_at(&game, 8, 10).is_some());
    assert!(kind_at(&game, 7, 10).is_none());
    assert_eq!(kind_at(&game, 12, 10), Some(ExplosionKind::End(Dir::East)));
    assert_eq!(kind_at(&game, 8, 10), Some(ExplosionKind::End(Dir::West)));
}

#[test]
fn breakable_wall_does_not_stop_the_blast() {
    let mut game = Game::new();
    game.bomb = Some(Bomb { pos: Pos { x: 10, y: 10 }, spawned: 0 });
    game.breakable_walls.push(BreakableWall { pos: Pos { x: 11, y: 10 } });
    detonate_bomb_system(&mut game, 3000);
    assert!(kind_at(&game, 12, 10).is_some());
    assert!(kind_at(&game, 13, 10).is_some());
}

#[test]
fn explosions_expire_after_fixed_lifetime() {
    let mut game = Game::new();
    game.explosions.push(Explosion {
        pos: Pos { x: 1, y: 1 },
        spawned: 0,
        kind: ExplosionKind::Center,
    });
    game.explosions.push(Explosion {
        pos: Pos { x: 2, y: 1 },
        spawned: 100,
        kind: ExplosionKind::Body(Axis::Horizontal),
    });
    remove_explosion_system(&mut game, 250);
    assert_eq!(game.explosions.len(), 2);
    remove_explosion_system(&mut game, 251);
    assert_eq!(game.explosions.len(), 1);
    assert_eq!(game.explosions[0].pos, Pos { x: 2, y: 1 });
    remove_explosion_system(&mut game, 351);
    assert_eq!(game.explosions.len(), 0);
}

#[test]
fn scenario_breakable_despawns_plain_wall_survives() {
    let mut game = Game::new();
    game.bomb = Some(Bomb { pos: Pos { x: 10, y: 10 }, spawned: 0 });
    game.breakable_walls.push(BreakableWall { pos: Pos { x: 11, y: 10 } });
    game.walls.push(Wall { pos: Pos { x: 12, y: 10 } });
    detonate_bomb_system(&mut game, 3000);
    assert!(kind_at(&game, 11, 10).is_some());
    assert!(kind_at(&game, 12, 10).is_some());
    explosion_destruction_system(&mut game, 3000);
    assert_eq!(game.breakable_walls.len(), 0);
    assert_eq!(game.walls.len(), 1);
    assert_eq!(game.walls[0].pos, Pos { x: 12, y: 10 });
}

#[test]
fn overlapped_enemy_despawns_once() {
    let mut game = Game::new();
    game.enemies.push(Enemy { pos: Pos { x: 11, y: 10 }, motion: Motion::Idle });
    game.enemies.push(Enemy { pos: Pos { x: 20, y: 20 }, motion: Motion::Idle });
    game.explosions.push(Explosion {
        pos: Pos { x: 11, y: 10 },
        spawned: 0,
        kind: ExplosionKind::Center,
    });
    game.explosions.push(Explosion {
        pos: Pos { x: 11, y: 10 },
        spawned: 0,
        kind: ExplosionKind::Body(Axis::Vertical),
    });
    explosion_destruction_system(&mut game, 0);
    assert_eq!(game.enemies.len(), 1);
    assert_eq!(game.enemies[0].pos, Pos { x: 20, y: 20 });
}
