use vstd::prelude::*;

use crate::components::{
    dx_of, dy_of, is_solid_at, solid_at, Dir, Enemy, Game, Motion, Player, Pos,
};
use crate::constants::MOVE_ANIMATION_DURATION;

verus! {

/// The step target of a one-cell move stays within machine coordinate
/// range; a target beyond it counts as blocked.
pub open spec fn target_in_range(p: Pos, d: Dir) -> bool {
    &&& i32::MIN <= p.x + dx_of(d) <= i32::MAX
    &&& i32::MIN <= p.y + dy_of(d) <= i32::MAX
}

/// Change of the `x` coordinate of a one-cell step, as a machine value.
pub fn step_dx(d: Dir) -> (r: i32)
    ensures
        r as int == dx_of(d),
{
    match d {
        Dir::East => 1,
        Dir::West => -1,
        _ => 0,
    }
}

/// Change of the `y` coordinate of a one-cell step, as a machine value.
pub fn step_dy(d: Dir) -> (r: i32)
    ensures
        r as int == dy_of(d),
{
    match d {
        Dir::North => 1,
        Dir::South => -1,
        _ => 0,
    }
}

/// Resolves one caller-issued direction press for the player: at most one
/// direction per input event, and only while the player is idle. The
/// move is legal iff no solid entity occupies the target cell, tested by
/// exact coordinate equality; a legal move commits the target as the
/// authoritative position, records the facing, and parks the player in
/// its transition state.
pub fn move_player_system(game: &mut Game, dir: Dir, now: u64)
    ensures
        final(game).field == old(game).field,
        final(game).enemies == old(game).enemies,
        final(game).bomb == old(game).bomb,
        final(game).explosions == old(game).explosions,
        final(game).walls == old(game).walls,
        final(game).breakable_walls == old(game).breakable_walls,
        match old(game).player {
            None => final(game).player == old(game).player,
            Some(p) => {
                let tx = p.pos.x + dx_of(dir);
                let ty = p.pos.y + dy_of(dir);
                if p.motion is Idle && target_in_range(p.pos, dir) && !solid_at(
                    *old(game),
                    tx,
                    ty,
                ) {
                    final(game).player == Some(
                        (Player {
                            pos: (Pos { x: tx as i32, y: ty as i32 }),
                            facing: dir,
                            motion: (Motion::Moving {
                                start: p.pos,
                                end: (Pos { x: tx as i32, y: ty as i32 }),
                                started: now,
                            }),
                            ..p
                        }),
                    )
                } else {
                    final(game).player == old(game).player
                }
            },
        },
{
    let player = game.player;
    match player {
        None => {},
        Some(p) => {
            match p.motion {
                Motion::Moving { .. } => {},
                Motion::Idle => {
                    let tx_wide: i64 = p.pos.x as i64 + step_dx(dir) as i64;
                    let ty_wide: i64 = p.pos.y as i64 + step_dy(dir) as i64;
                    if i32::MIN as i64 <= tx_wide && tx_wide <= i32::MAX as i64
                        && i32::MIN as i64 <= ty_wide && ty_wide <= i32::MAX as i64 {
                        let tx: i32 = tx_wide as i32;
                        let ty: i32 = ty_wide as i32;
                        if !is_solid_at(game, tx, ty) {
                            let target = Pos { x: tx, y: ty };
                            game.player = Some(
                                Player {
                                    pos: target,
                                    facing: dir,
                                    motion: Motion::Moving {
                                        start: p.pos,
                                        end: target,
                                        started: now,
                                    },
                                    ..p
                                },
                            );
                        }
                    }
                },
            }
        },
    }
}

/// The transition state after the display transition of a step has had
/// `MOVE_ANIMATION_DURATION` milliseconds to run.
pub open spec fn settled(m: Motion, now: u64) -> Motion {
    match m {
        Motion::Moving { start, end, started } => if now >= started + MOVE_ANIMATION_DURATION {
            Motion::Idle
        } else {
            m
        },
        Motion::Idle => m,
    }
}

/// Returns every actor whose step transition has run its fixed duration
/// to the idle state, so that it may accept a new step. The rendering
/// collaborator owns how the transition is displayed; the core only
/// decides when it is over.
pub fn settle_motion_system(game: &mut Game, now: u64)
    ensures
        final(game).field == old(game).field,
        final(game).bomb == old(game).bomb,
        final(game).explosions == old(game).explosions,
        final(game).walls == old(game).walls,
        final(game).breakable_walls == old(game).breakable_walls,
        match old(game).player {
            None => final(game).player == old(game).player,
            Some(p) => final(game).player == Some((Player { motion: settled(p.motion, now), ..p })),
        },
        final(game).enemies@.len() == old(game).enemies@.len(),
        forall|k: int|
            0 <= k < old(game).enemies@.len() ==> #[trigger] final(game).enemies@[k] == (Enemy {
                pos: old(game).enemies@[k].pos,
                motion: settled(old(game).enemies@[k].motion, now),
            }),
{
    let player = game.player;
    match player {
        None => {},
        Some(p) => {
            match p.motion {
                Motion::Moving { start, end, started } => {
                    if now >= started && now - started >= MOVE_ANIMATION_DURATION {
                        game.player = Some(Player { motion: Motion::Idle, ..p });
                    }
                },
                Motion::Idle => {},
            }
        },
    }
    let n = game.enemies.len();
    let mut k: usize = 0;
    while k < n
        invariant
            k <= n,
            n == game.enemies@.len(),
            game.enemies@.len() == old(game).enemies@.len(),
            forall|m: int|
                k as int <= m < old(game).enemies@.len() ==> #[trigger] game.enemies@[m] == old(
                    game,
                ).enemies@[m],
            forall|m: int|
                0 <= m < k as int ==> #[trigger] game.enemies@[m] == (Enemy {
                    pos: old(game).enemies@[m].pos,
                    motion: settled(old(game).enemies@[m].motion, now),
                }),
            game.field == old(game).field,
            game.bomb == old(game).bomb,
            game.explosions == old(game).explosions,
            game.walls == old(game).walls,
            game.breakable_walls == old(game).breakable_walls,
            match old(game).player {
                None => game.player == old(game).player,
                Some(p) => game.player == Some((Player { motion: settled(p.motion, now), ..p })),
            },
        decreases n - k,
    {
        let e = game.enemies[k];
        match e.motion {
            Motion::Moving { start, end, started } => {
                if now >= started && now - started >= MOVE_ANIMATION_DURATION {
                    let settled_enemy = Enemy { pos: e.pos, motion: Motion::Idle };
                    game.enemies[k] = settled_enemy;
                }
            },
            Motion::Idle => {},
        }
        k = k + 1;
    }
}

} // verus!
