use bomber_core::components::{Bomb, BreakableWall, Dir, Enemy, Game, Motion, Player, Pos, Wall};
use bomber_core::enemy_systems::move_enemy_system;
use bomber_core::player_systems::{move_player_system, settle_motion_system};

fn idle_player(x: i32, y: i32) -> Player {
    Player {
        pos: Pos { x, y },
        health: 10,
        last_hit: 0,
        flash: false,
        facing: Dir::South,
        motion: Motion::Idle,
    }
}

#[test]
fn free_move_steps_one_cell_and_records_facing() {
    let mut game = Game::new();
    game.player = Some(idle_player(3, 3));
    move_player_system(&mut game, Dir::East, 40);
    let p = game.player.unwrap();
    assert_eq!(p.pos, Pos { x: 4, y: 3 });
    assert_eq!(p.facing, Dir::East);
    assert_eq!(
        p.motion,
        Motion::Moving { start: Pos { x: 3, y: 3 }, end: Pos { x: 4, y: 3 }, started: 40 }
    );
}

#[test]
fn move_into_wall_is_rejected() {
    let mut game = Game::new();
    game.player = Some(idle_player(3, 3));
    game.walls.push(Wall { pos: Pos { x: 3, y: 4 } });
    move_player_system(&mut game, Dir::North, 0);
    let p = game.player.unwrap();
    assert_eq!(p.pos, Pos { x: 3, y: 3 });
    assert_eq!(p.motion, Motion::Idle);
}

#[test]
fn move_into_breakable_wall_is_rejected() {
    let mut game = Game::new();
    game.player = Some(idle_player(3, 3));
    game.breakable_walls.push(BreakableWall { pos: Pos { x: 2, y: 3 } });
    move_player_system(&mut game, Dir::West, 0);
    assert_eq!(game.player.unwrap().pos, Pos { x: 3, y: 3 });
}

#[test]
fn move_into_enemy_is_rejected() {
    let mut game = Game::new();
    game.player = Some(idle_player(3, 3));
    game.enemies.push(Enemy { pos: Pos { x: 3, y: 2 }, motion: Motion::Idle });
    move_player_system(&mut game, Dir::South, 0);
    assert_eq!(game.player.unwrap().pos, Pos { x: 3, y: 3 });
}

#[test]
fn move_into_bomb_is_rejected() {
    let mut game = Game::new();
    game.player = Some(idle_player(3, 3));
    game.bomb = Some(Bomb { pos: Pos { x: 4, y: 3 }, spawned: 0 });
    move_player_system(&mut game, Dir::East, 0);
    assert_eq!(game.player.unwrap().pos, Pos { x: 3, y: 3 });
}

#[test]
fn mover_in_transition_accepts_no_new_step() {
    let mut game = Game::new();
    game.player = Some(idle_player(3, 3));
    move_player_system(&mut game, Dir::East, 0);
    assert_eq!(game.player.unwrap().pos, Pos { x: 4, y: 3 });
    move_player_system(&mut game, Dir::East, 100);
    assert_eq!(game.player.unwrap().pos, Pos { x: 4, y: 3 });
    settle_motion_system(&mut game, 100);
    assert_eq!(game.player.unwrap().motion, Motion::Moving {
        start: Pos { x: 3, y: 3 },
        end: Pos { x: 4, y: 3 },
        started: 0,
    });
    settle_motion_system(&mut game, 250);
    assert_eq!(game.player.unwrap().motion, Motion::Idle);
    move_player_system(&mut game, Dir::East, 250);
    assert_eq!(game.player.unwrap().pos, Pos { x: 5, y: 3 });
}

#[test]
fn settle_returns_enemies_to_idle_after_duration() {
    let mut game = Game::new();
    game.enemies.push(Enemy {
        pos: Pos { x: 1, y: 1 },
        motion: Motion::Moving { start: Pos { x: 0, y: 1 }, end: Pos { x: 1, y: 1 }, started: 10 },
    });
    settle_motion_system(&mut game, 259);
    assert_eq!(
        game.enemies[0].motion,
        Motion::Moving { start: Pos { x: 0, y: 1 }, end: Pos { x: 1, y: 1 }, started: 10 }
    );
    settle_motion_system(&mut game, 260);
    assert_eq!(game.enemies[0].motion, Motion::Idle);
}

#[test]
fn boxed_in_enemy_stays_put() {
    let mut game = Game::new();
    game.enemies.push(Enemy { pos: Pos { x: 10, y: 10 }, motion: Motion::Idle });
    game.walls.push(Wall { pos: Pos { x: 11, y: 10 } });
    game.walls.push(Wall { pos: Pos { x: 9, y: 10 } });
    game.walls.push(Wall { pos: Pos { x: 10, y: 11 } });
    game.breakable_walls.push(BreakableWall { pos: Pos { x: 10, y: 9 } });
    move_enemy_system(&mut game, 0);
    assert_eq!(game.enemies[0].pos, Pos { x: 10, y: 10 });
    assert_eq!(game.enemies[0].motion, Motion::Idle);
}

#[test]
fn enemy_step_is_one_cell_into_free_space() {
    let mut game = Game::new();
    game.enemies.push(Enemy { pos: Pos { x: 10, y: 10 }, motion: Motion::Idle });
    game.walls.push(Wall { pos: Pos { x: 11, y: 10 } });
    game.walls.push(Wall { pos: Pos { x: 9, y: 10 } });
    game.walls.push(Wall { pos: Pos { x: 10, y: 11 } });
    for round in 0..50u64 {
        move_enemy_system(&mut game, round);
        let e = game.enemies[0];
        let home = Pos { x: 10, y: 10 };
        let below = Pos { x: 10, y: 9 };
        assert!(e.pos == home || e.pos == below, "enemy left its legal cells: {:?}", e.pos);
        match e.motion {
            Motion::Idle => assert_eq!(e.pos, home),
            Motion::Moving { start, end, started } => {
                assert_eq!(start, home);
                assert_eq!(end, below);
                assert_eq!(started, round);
                break;
            }
        }
    }
    let mut game = Game::new();
    game.enemies.push(Enemy { pos: Pos { x: 5, y: 5 }, motion: Motion::Idle });
    move_enemy_system(&mut game, 3);
    let e = game.enemies[0];
    let dx = (e.pos.x - 5).abs();
    let dy = (e.pos.y - 5).abs();
    assert!(dx + dy <= 1, "enemy moved more than one cell");
}

#[test]
fn enemy_in_transition_does_not_redraw() {
    let mut game = Game::new();
    let moving = Motion::Moving {
        start: Pos { x: 4, y: 5 },
        end: Pos { x: 5, y: 5 },
        started: 0,
    };
    game.enemies.push(Enemy { pos: Pos { x: 5, y: 5 }, motion: moving });
    move_enemy_system(&mut game, 50);
    assert_eq!(game.enemies[0].pos, Pos { x: 5, y: 5 });
    assert_eq!(game.enemies[0].motion, moving);
}

#[test]
fn enemies_do_not_block_each_other() {
    let mut game = Game::new();
    game.enemies.push(Enemy { pos: Pos { x: 10, y: 10 }, motion: Motion::Idle });
    game.enemies.push(Enemy { pos: Pos { x: 10, y: 9 }, motion: Motion::Idle });
    game.walls.push(Wall { pos: Pos { x: 11, y: 10 } });
    game.walls.push(Wall { pos: Pos { x: 9, y: 10 } });
    game.walls.push(Wall { pos: Pos { x: 10, y: 11 } });
    for round in 0..200u64 {
        move_enemy_system(&mut game, round);
        if game.enemies[0].pos == (Pos { x: 10, y: 9 }) {
            return;
        }
        game.enemies[0].motion = Motion::Idle;
    }
    panic!("enemy never drew its one open direction onto the other enemy's cell");
}
